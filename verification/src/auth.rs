//! The Authentication Controller: decides from the observed location whether
//! the session is already authenticated, and plans the login interaction
//! sequence when it is not. Fail-fast: a missing form element aborts the run.

use vstd::prelude::*;

use crate::text::{contains_substr, is_substring};
use crate::ui::{RunError, UiAction, UiActionModel, UiTarget};

verus! {

/// The session's authentication state, decided exactly once per run from a
/// single location comparison made after the initial navigation.
#[derive(Clone, Copy, Debug, PartialEq, Eq, Structural)]
pub enum SessionState {
    Unauthenticated,
    Authenticated,
}

/// What the caller observed of the login page: which required elements the
/// lookup found. The field lookups happen inside the form, so none of the
/// other three can be present without the form itself.
#[derive(Clone, Copy, Debug, PartialEq, Eq, Structural)]
pub struct FormView {
    pub form_present: bool,
    pub username_present: bool,
    pub password_present: bool,
    pub submit_present: bool,
}

/// Every element the login sequence needs was found.
pub open spec fn login_form_complete(form: FormView) -> bool {
    form.form_present && form.username_present && form.password_present && form.submit_present
}

/// The login interaction sequence: clear and fill the username field, clear
/// and fill the password field, then invoke the submit control.
pub open spec fn login_actions(username: Seq<char>, password: Seq<char>) -> Seq<UiActionModel> {
    seq![
        UiActionModel::Clear(UiTarget::UsernameField),
        UiActionModel::Type(UiTarget::UsernameField, username),
        UiActionModel::Clear(UiTarget::PasswordField),
        UiActionModel::Type(UiTarget::PasswordField, password),
        UiActionModel::Click(UiTarget::SubmitButton),
    ]
}

/// Decides the session state from the current location: authenticated exactly
/// when the configured base URL occurs in the observed location — the
/// location is a sub-path of the base URL. Containment, not equality: the
/// target application may append query strings or trailing path segments to
/// the location, and those still count as authenticated. A redirect away (to
/// an identity provider, say) leaves the base URL no part of the location.
pub fn session_state(current_url: &str, base_url: &str) -> (s: SessionState)
    ensures
        (s == SessionState::Authenticated) <==> is_substring(current_url@, base_url@),
{
    if contains_substr(current_url, base_url) {
        SessionState::Authenticated
    } else {
        SessionState::Unauthenticated
    }
}

/// Plans the login sequence from the observed form. Fails with the first
/// element the lookup order (form, username, password, submit) finds missing;
/// succeeds exactly when the form is complete, with the fixed five-step plan.
pub fn plan_login(form: FormView, username: &String, password: &String) -> (r: Result<
    Vec<UiAction>,
    RunError,
>)
    ensures
        r is Ok <==> login_form_complete(form),
        r matches Ok(plan) ==> plan.deep_view() == login_actions(username@, password@),
        !form.form_present ==> (r matches Err(e) && e.missing == UiTarget::LoginForm),
        form.form_present && !form.username_present ==> (r matches Err(e) && e.missing == UiTarget::UsernameField),
        form.form_present && form.username_present && !form.password_present ==> (r matches Err(e)
            && e.missing == UiTarget::PasswordField),
        form.form_present && form.username_present && form.password_present
            && !form.submit_present ==> (r matches Err(e) && e.missing == UiTarget::SubmitButton),
{
    if !form.form_present {
        return Err(RunError { missing: UiTarget::LoginForm });
    }
    if !form.username_present {
        return Err(RunError { missing: UiTarget::UsernameField });
    }
    if !form.password_present {
        return Err(RunError { missing: UiTarget::PasswordField });
    }
    if !form.submit_present {
        return Err(RunError { missing: UiTarget::SubmitButton });
    }
    let plan: Vec<UiAction> = vec![
        UiAction::Clear(UiTarget::UsernameField),
        UiAction::Type(UiTarget::UsernameField, username.clone()),
        UiAction::Clear(UiTarget::PasswordField),
        UiAction::Type(UiTarget::PasswordField, password.clone()),
        UiAction::Click(UiTarget::SubmitButton),
    ];
    proof {
        assert(plan.deep_view() =~= login_actions(username@, password@));
    }
    Ok(plan)
}

/// The authentication step as one decision: reads the observed location and
/// either skips login (already authenticated: an empty plan) or plans the
/// login sequence from the observed form.
pub fn ensure_authenticated(
    current_url: &str,
    base_url: &str,
    form: FormView,
    username: &String,
    password: &String,
) -> (r: Result<(SessionState, Vec<UiAction>), RunError>)
    ensures
        is_substring(current_url@, base_url@) ==> (r matches Ok(p) && p.0
            == SessionState::Authenticated && p.1.deep_view() == Seq::<UiActionModel>::empty()),
        !is_substring(current_url@, base_url@) ==> {
            &&& r is Ok <==> login_form_complete(form)
            &&& r matches Ok(p) ==> p.0 == SessionState::Unauthenticated && p.1.deep_view()
                == login_actions(username@, password@)
            &&& !form.form_present ==> (r matches Err(e) && e.missing == UiTarget::LoginForm)
            &&& form.form_present && !form.username_present ==> (r matches Err(e) && e.missing == UiTarget::UsernameField)
            &&& form.form_present && form.username_present && !form.password_present ==> (r matches Err(e) && e.missing == UiTarget::PasswordField)
            &&& form.form_present && form.username_present && form.password_present
                && !form.submit_present ==> (r matches Err(e) && e.missing == UiTarget::SubmitButton)
        },
{
    let state = session_state(current_url, base_url);
    match state {
        SessionState::Authenticated => {
            let empty: Vec<UiAction> = Vec::new();
            proof {
                assert(empty.deep_view() =~= Seq::<UiActionModel>::empty());
            }
            Ok((SessionState::Authenticated, empty))
        },
        SessionState::Unauthenticated => {
            match plan_login(form, username, password) {
                Ok(plan) => Ok((SessionState::Unauthenticated, plan)),
                Err(e) => Err(e),
            }
        },
    }
}

/// How many times a plan invokes the login form's submit control.
pub open spec fn submit_clicks(plan: Seq<UiActionModel>) -> nat
    decreases plan.len(),
{
    if plan.len() == 0 {
        0
    } else {
        (if plan.last() matches UiActionModel::Click(UiTarget::SubmitButton) {
            1nat
        } else {
            0nat
        }) + submit_clicks(plan.drop_last())
    }
}

/// For every configuration: when the base URL occurs in the observed location
/// the authentication plan is empty (login is skipped); otherwise the planned
/// login sequence invokes the submit control exactly once.
pub proof fn lemma_login_invoked_once(username: Seq<char>, password: Seq<char>)
    ensures
        submit_clicks(login_actions(username, password)) == 1,
        submit_clicks(Seq::<UiActionModel>::empty()) == 0,
{
    let a0 = Seq::<UiActionModel>::empty();
    let a1 = a0.push(UiActionModel::Clear(UiTarget::UsernameField));
    let a2 = a1.push(UiActionModel::Type(UiTarget::UsernameField, username));
    let a3 = a2.push(UiActionModel::Clear(UiTarget::PasswordField));
    let a4 = a3.push(UiActionModel::Type(UiTarget::PasswordField, password));
    let a5 = a4.push(UiActionModel::Click(UiTarget::SubmitButton));
    assert(login_actions(username, password) =~= a5);
    assert(a5.drop_last() =~= a4);
    assert(a4.drop_last() =~= a3);
    assert(a3.drop_last() =~= a2);
    assert(a2.drop_last() =~= a1);
    assert(a1.drop_last() =~= a0);
    assert(submit_clicks(a0) == 0);
    assert(submit_clicks(a1) == 0);
    assert(submit_clicks(a2) == 0);
    assert(submit_clicks(a3) == 0);
    assert(submit_clicks(a4) == 0);
    assert(submit_clicks(a5) == 1);
}

} // verus!
