use parcel_extractor::auth::FormView;
use parcel_extractor::pipeline::plan_run_preamble;
use parcel_extractor::ui::{UiAction, UiTarget};

fn complete_form() -> FormView {
    FormView { form_present: true, username_present: true, password_present: true, submit_present: true }
}

#[test]
fn missing_password_aborts_before_any_navigation() {
    // the target tab, search input and result cell are all present, yet the
    // run fails on the password field: nothing after the login is planned
    let form = FormView { password_present: false, ..complete_form() };
    let cells = vec![String::from("PKG-7")];
    let err = plan_run_preamble(
        "https://auth.example/login",
        "https://app.example/home",
        form,
        &String::from("user"),
        &String::from("pass"),
        true,
        true,
        &cells,
        &String::from("PKG-7"),
    )
    .unwrap_err();
    assert_eq!(err.missing, UiTarget::PasswordField);
}

#[test]
fn authenticated_run_plans_navigation_and_search_only() {
    let cells = vec![String::from("PKG-70"), String::from("PKG-7")];
    let plan = plan_run_preamble(
        "https://app.example/home",
        "https://app.example/home",
        complete_form(),
        &String::from("user"),
        &String::from("pass"),
        true,
        true,
        &cells,
        &String::from("PKG-7"),
    )
    .unwrap();
    assert_eq!(plan.len(), 4);
    assert!(matches!(&plan[0], UiAction::Click(UiTarget::TargetTab)));
    assert!(matches!(&plan[1], UiAction::Clear(UiTarget::SearchInput)));
    assert!(matches!(&plan[2], UiAction::Type(UiTarget::SearchInput, _)));
    assert!(matches!(&plan[3], UiAction::ClickRow(1)));
}

#[test]
fn unauthenticated_run_logs_in_first() {
    let cells = vec![String::from("PKG-7")];
    let plan = plan_run_preamble(
        "https://auth.example/login",
        "https://app.example/home",
        complete_form(),
        &String::from("user"),
        &String::from("pass"),
        true,
        true,
        &cells,
        &String::from("PKG-7"),
    )
    .unwrap();
    assert_eq!(plan.len(), 9);
    assert!(matches!(&plan[0], UiAction::Clear(UiTarget::UsernameField)));
    assert!(matches!(&plan[4], UiAction::Click(UiTarget::SubmitButton)));
    assert!(matches!(&plan[5], UiAction::Click(UiTarget::TargetTab)));
    assert!(matches!(&plan[8], UiAction::ClickRow(0)));
}

#[test]
fn missing_tab_fails_after_successful_authentication() {
    let cells = vec![String::from("PKG-7")];
    let err = plan_run_preamble(
        "https://app.example/home",
        "https://app.example/home",
        complete_form(),
        &String::from("user"),
        &String::from("pass"),
        false,
        true,
        &cells,
        &String::from("PKG-7"),
    )
    .unwrap_err();
    assert_eq!(err.missing, UiTarget::TargetTab);
}

#[test]
fn unknown_identifier_fails_on_the_result_cell() {
    let cells = vec![String::from("PKG-8")];
    let err = plan_run_preamble(
        "https://app.example/home",
        "https://app.example/home",
        complete_form(),
        &String::from("user"),
        &String::from("pass"),
        true,
        true,
        &cells,
        &String::from("PKG-7"),
    )
    .unwrap_err();
    assert_eq!(err.missing, UiTarget::ResultCell);
}
