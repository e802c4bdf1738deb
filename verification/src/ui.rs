//! The vocabulary shared by the controllers: the page elements they look up,
//! the interactions they plan, and the fail-fast error raised when a required
//! element is missing.

use vstd::prelude::*;

verus! {

/// A page element a controller must locate. Lookups are fail-fast: a missing
/// element aborts the run with a `RunError` naming it.
#[derive(Clone, Copy, Debug, PartialEq, Eq, Hash, Structural)]
pub enum UiTarget {
    /// The login form.
    LoginForm,
    /// The username field inside the login form.
    UsernameField,
    /// The password field inside the login form.
    PasswordField,
    /// The login form's submit control.
    SubmitButton,
    /// The labeled control that opens the target list view.
    TargetTab,
    /// The search input identified by its placeholder text.
    SearchInput,
    /// The results-table cell whose text equals the searched identifier.
    ResultCell,
    /// The pagination "next" control.
    NextControl,
    /// The row group of the detail view (description first, code last).
    DetailRows,
    /// The detail-view cell holding the receiver.
    ReceiverCell,
}

/// A required element was not found. The run aborts: no retry, no backoff,
/// no alternate selector.
#[derive(Clone, Copy, Debug, PartialEq, Eq, Structural)]
pub struct RunError {
    /// The element whose lookup failed.
    pub missing: UiTarget,
}

/// One interaction the caller must perform on the live session, in plan order.
#[derive(Debug)]
pub enum UiAction {
    /// Clear the target input.
    Clear(UiTarget),
    /// Type the given text into the target input.
    Type(UiTarget, String),
    /// Activate the target element.
    Click(UiTarget),
    /// Activate the results-table cell at the given index.
    ClickRow(usize),
}

/// Mathematical model of a `UiAction`: typed text as a character sequence.
pub enum UiActionModel {
    Clear(UiTarget),
    Type(UiTarget, Seq<char>),
    Click(UiTarget),
    ClickRow(usize),
}

impl View for UiAction {
    type V = UiActionModel;

    open spec fn view(&self) -> UiActionModel {
        match self {
            UiAction::Clear(t) => UiActionModel::Clear(*t),
            UiAction::Type(t, s) => UiActionModel::Type(*t, s@),
            UiAction::Click(t) => UiActionModel::Click(*t),
            UiAction::ClickRow(i) => UiActionModel::ClickRow(*i),
        }
    }
}

impl DeepView for UiAction {
    type V = UiActionModel;

    open spec fn deep_view(&self) -> UiActionModel {
        self.view()
    }
}

impl Clone for UiAction {
    fn clone(&self) -> (res: Self)
        ensures
            res@ == self@,
    {
        match self {
            UiAction::Clear(t) => UiAction::Clear(*t),
            UiAction::Type(t, s) => UiAction::Type(*t, s.clone()),
            UiAction::Click(t) => UiAction::Click(*t),
            UiAction::ClickRow(i) => UiAction::ClickRow(*i),
        }
    }
}

} // verus!
