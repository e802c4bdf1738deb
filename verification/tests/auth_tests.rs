use parcel_extractor::auth::{ensure_authenticated, plan_login, session_state, FormView, SessionState};
use parcel_extractor::ui::{UiAction, UiTarget};

fn complete_form() -> FormView {
    FormView { form_present: true, username_present: true, password_present: true, submit_present: true }
}

#[test]
fn location_extending_base_url_is_authenticated() {
    let s = session_state("https://app.example/home?welcome=1", "https://app.example/home");
    assert_eq!(s, SessionState::Authenticated);
}

#[test]
fn redirect_to_identity_provider_is_unauthenticated() {
    let s = session_state("https://auth.example/login?client=app", "https://app.example/home");
    assert_eq!(s, SessionState::Unauthenticated);
}

#[test]
fn equal_location_is_authenticated() {
    let s = session_state("https://app.example/home", "https://app.example/home");
    assert_eq!(s, SessionState::Authenticated);
}

#[test]
fn truncated_location_is_unauthenticated() {
    // the location holds only a fragment of the base URL: not authenticated
    let s = session_state("https://app.example", "https://app.example/home");
    assert_eq!(s, SessionState::Unauthenticated);
}

#[test]
fn login_plan_has_the_five_steps_in_order() {
    let plan = plan_login(complete_form(), &String::from("user"), &String::from("pass")).unwrap();
    assert_eq!(plan.len(), 5);
    assert!(matches!(&plan[0], UiAction::Clear(UiTarget::UsernameField)));
    match &plan[1] {
        UiAction::Type(UiTarget::UsernameField, text) => assert_eq!(text, "user"),
        other => panic!("unexpected action {:?}", other),
    }
    assert!(matches!(&plan[2], UiAction::Clear(UiTarget::PasswordField)));
    match &plan[3] {
        UiAction::Type(UiTarget::PasswordField, text) => assert_eq!(text, "pass"),
        other => panic!("unexpected action {:?}", other),
    }
    assert!(matches!(&plan[4], UiAction::Click(UiTarget::SubmitButton)));
}

#[test]
fn missing_password_field_fails_with_that_element() {
    let form = FormView { password_present: false, ..complete_form() };
    let err = plan_login(form, &String::from("user"), &String::from("pass")).unwrap_err();
    assert_eq!(err.missing, UiTarget::PasswordField);
}

#[test]
fn missing_form_fails_first() {
    let form = FormView {
        form_present: false,
        username_present: false,
        password_present: false,
        submit_present: false,
    };
    let err = plan_login(form, &String::from("user"), &String::from("pass")).unwrap_err();
    assert_eq!(err.missing, UiTarget::LoginForm);
}

#[test]
fn missing_submit_fails_last() {
    let form = FormView { submit_present: false, ..complete_form() };
    let err = plan_login(form, &String::from("user"), &String::from("pass")).unwrap_err();
    assert_eq!(err.missing, UiTarget::SubmitButton);
}

#[test]
fn authenticated_session_skips_login() {
    let (state, plan) = ensure_authenticated(
        "https://app.example/home",
        "https://app.example/home",
        complete_form(),
        &String::from("user"),
        &String::from("pass"),
    )
    .unwrap();
    assert_eq!(state, SessionState::Authenticated);
    assert!(plan.is_empty());
}

#[test]
fn unauthenticated_session_plans_login_once() {
    let (state, plan) = ensure_authenticated(
        "https://auth.example/login",
        "https://app.example/home",
        complete_form(),
        &String::from("user"),
        &String::from("pass"),
    )
    .unwrap();
    assert_eq!(state, SessionState::Unauthenticated);
    let submits = plan
        .iter()
        .filter(|a| matches!(a, UiAction::Click(UiTarget::SubmitButton)))
        .count();
    assert_eq!(submits, 1);
}
