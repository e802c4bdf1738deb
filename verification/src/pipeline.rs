//! The run's pre-extraction sequence as one decision: authentication first,
//! then the switch to the target view, then the identifier search. The steps
//! are ordered and fail-fast: a failure in an earlier step aborts the run
//! there, whatever the later observations hold — in particular, a login
//! failure aborts before any navigation to the target view.

use vstd::prelude::*;

use crate::auth::{
    login_actions, login_form_complete, plan_login, session_state, FormView, SessionState,
};
use crate::text::find_exact;
use crate::text::is_substring;
use crate::ui::{RunError, UiAction, UiActionModel, UiTarget};

verus! {

/// The plan of a run whose preamble succeeds, up to the final row activation:
/// the authentication actions (none when already authenticated), the switch
/// to the target view, and the filling of the search input.
pub open spec fn preamble_prefix(
    authenticated: bool,
    username: Seq<char>,
    password: Seq<char>,
    post_id: Seq<char>,
) -> Seq<UiActionModel> {
    (if authenticated {
        Seq::<UiActionModel>::empty()
    } else {
        login_actions(username, password)
    }) + seq![
        UiActionModel::Click(UiTarget::TargetTab),
        UiActionModel::Clear(UiTarget::SearchInput),
        UiActionModel::Type(UiTarget::SearchInput, post_id),
    ]
}

/// Plans everything that precedes the pagination loop, in order:
/// authentication (skipped exactly when the base URL occurs in the observed
/// location), the switch to the target view, and the identifier search
/// ending on the row whose cell equals the identifier exactly. Each lookup
/// failure aborts with that element, and nothing after it is planned: a login
/// failure aborts the run before any navigation to the target view.
pub fn plan_run_preamble(
    current_url: &str,
    base_url: &str,
    form: FormView,
    username: &String,
    password: &String,
    tab_present: bool,
    input_present: bool,
    cells: &Vec<String>,
    post_id: &String,
) -> (r: Result<Vec<UiAction>, RunError>)
    ensures
        r is Ok <==> ((is_substring(current_url@, base_url@) || login_form_complete(form))
            && tab_present && input_present && exists|j: int|
            0 <= j < cells@.len() && cells@[j]@ == post_id@),
        !is_substring(current_url@, base_url@) && !form.form_present ==> (r matches Err(e)
            && e.missing == UiTarget::LoginForm),
        !is_substring(current_url@, base_url@) && form.form_present && !form.username_present ==> (
        r matches Err(e) && e.missing == UiTarget::UsernameField),
        !is_substring(current_url@, base_url@) && form.form_present && form.username_present
            && !form.password_present ==> (r matches Err(e) && e.missing
            == UiTarget::PasswordField),
        !is_substring(current_url@, base_url@) && form.form_present && form.username_present
            && form.password_present && !form.submit_present ==> (r matches Err(e) && e.missing
            == UiTarget::SubmitButton),
        (is_substring(current_url@, base_url@) || login_form_complete(form)) && !tab_present ==> (r
        matches Err(e) && e.missing == UiTarget::TargetTab),
        (is_substring(current_url@, base_url@) || login_form_complete(form)) && tab_present
            && !input_present ==> (r matches Err(e) && e.missing == UiTarget::SearchInput),
        (is_substring(current_url@, base_url@) || login_form_complete(form)) && tab_present
            && input_present && (forall|j: int| 0 <= j < cells@.len() ==> cells@[j]@ != post_id@)
            ==> (r matches Err(e) && e.missing == UiTarget::ResultCell),
        r matches Ok(plan) ==> plan.deep_view().len() == preamble_prefix(
            is_substring(current_url@, base_url@),
            username@,
            password@,
            post_id@,
        ).len() + 1 && plan.deep_view().take(plan.deep_view().len() - 1) == preamble_prefix(
            is_substring(current_url@, base_url@),
            username@,
            password@,
            post_id@,
        ) && (plan.deep_view().last() matches UiActionModel::ClickRow(i) && i < cells@.len()
            && cells@[i as int]@ == post_id@ && forall|j: int|
            0 <= j < i ==> cells@[j]@ != post_id@),
{
    let state = session_state(current_url, base_url);
    let mut plan: Vec<UiAction>;
    match state {
        SessionState::Authenticated => {
            plan = Vec::new();
        },
        SessionState::Unauthenticated => {
            match plan_login(form, username, password) {
                Ok(p) => {
                    plan = p;
                },
                Err(e) => {
                    return Err(e);
                },
            }
        },
    }
    if !tab_present {
        return Err(RunError { missing: UiTarget::TargetTab });
    }
    if !input_present {
        return Err(RunError { missing: UiTarget::SearchInput });
    }
    let ghost auth_part = plan.deep_view();
    plan.push(UiAction::Click(UiTarget::TargetTab));
    plan.push(UiAction::Clear(UiTarget::SearchInput));
    plan.push(UiAction::Type(UiTarget::SearchInput, post_id.clone()));
    proof {
        assert(plan.deep_view() =~= preamble_prefix(
            is_substring(current_url@, base_url@),
            username@,
            password@,
            post_id@,
        ));
    }
    match find_exact(cells, post_id) {
        Some(i) => {
            proof {
                assert(cells@[i as int]@ == post_id@);
            }
            let ghost prefix = plan.deep_view();
            plan.push(UiAction::ClickRow(i));
            proof {
                assert(plan.deep_view().take(plan.deep_view().len() - 1) =~= prefix);
                assert(plan.deep_view().last() == UiActionModel::ClickRow(i));
            }
            Ok(plan)
        },
        None => Err(RunError { missing: UiTarget::ResultCell }),
    }
}

} // verus!
