use parcel_extractor::engine::{
    class_signals_disabled, extract_page, make_record, next_decision, page_decision,
    run_extraction, NextStep, PageDecision, PageModel, RowModel,
};
use parcel_extractor::record::ParcelRecord;
use parcel_extractor::ui::UiTarget;

fn row(marker_cell: &str, detail: &[&str], receiver: Option<&str>) -> RowModel {
    RowModel {
        marker_cell: String::from(marker_cell),
        detail_rows: detail.iter().map(|d| String::from(*d)).collect(),
        receiver_cell: receiver.map(String::from),
    }
}

fn page(rows: Vec<RowModel>, next_class: Option<&str>) -> PageModel {
    PageModel { rows, next_class: next_class.map(String::from) }
}

#[test]
fn disabled_token_in_class_attribute() {
    assert!(class_signals_disabled("p-paginator-next p-disabled"));
    assert!(!class_signals_disabled("p-paginator-next"));
}

#[test]
fn next_control_absent_is_hard_failure() {
    let err = next_decision(None).unwrap_err();
    assert_eq!(err.missing, UiTarget::NextControl);
}

#[test]
fn next_control_disabled_stops() {
    let class = String::from("p-paginator-next p-disabled");
    assert_eq!(next_decision(Some(&class)).unwrap(), NextStep::Stop);
}

#[test]
fn next_control_enabled_advances() {
    let class = String::from("p-paginator-next");
    assert_eq!(next_decision(Some(&class)).unwrap(), NextStep::AdvancePage);
}

#[test]
fn page_with_match_extracts_first_in_document_order() {
    let cells = vec![
        String::from("done"),
        String::from("TO_FIX"),
        String::from("TO_FIX"),
    ];
    let d = page_decision(&cells, &String::from("TO_FIX"));
    assert_eq!(d, PageDecision::ExtractRow(1));
}

#[test]
fn page_without_match_consults_next_control() {
    let cells = vec![String::from("done"), String::from("sent")];
    let d = page_decision(&cells, &String::from("TO_FIX"));
    assert_eq!(d, PageDecision::ConsultNext);
}

#[test]
fn record_fields_come_from_first_and_last_detail_entries() {
    let detail = vec![
        String::from("Package X"),
        String::from("middle"),
        String::from("AB12"),
    ];
    let receiver = String::from("Alice");
    let rec = make_record(&detail, Some(&receiver)).unwrap();
    assert_eq!(
        rec,
        ParcelRecord {
            receiver: String::from("Alice"),
            description: String::from("Package X"),
            code: String::from("AB12"),
        }
    );
}

#[test]
fn single_detail_entry_serves_as_description_and_code() {
    let detail = vec![String::from("only")];
    let receiver = String::from("Alice");
    let rec = make_record(&detail, Some(&receiver)).unwrap();
    assert_eq!(rec.description, "only");
    assert_eq!(rec.code, "only");
}

#[test]
fn missing_receiver_cell_fails() {
    let detail = vec![String::from("Package X")];
    let err = make_record(&detail, None).unwrap_err();
    assert_eq!(err.missing, UiTarget::ReceiverCell);
}

#[test]
fn empty_detail_group_fails() {
    let detail: Vec<String> = Vec::new();
    let receiver = String::from("Alice");
    let err = make_record(&detail, Some(&receiver)).unwrap_err();
    assert_eq!(err.missing, UiTarget::DetailRows);
}

#[test]
fn extract_page_emits_one_record_per_match_in_order() {
    let rows = vec![
        row("TO_FIX", &["d1", "c1"], Some("Alice")),
        row("done", &["d2", "c2"], Some("Bob")),
        row("TO_FIX", &["d3", "c3"], Some("Carol")),
    ];
    let recs = extract_page(&rows, &String::from("TO_FIX")).unwrap();
    assert_eq!(recs.len(), 2);
    assert_eq!(recs[0].receiver, "Alice");
    assert_eq!(recs[0].description, "d1");
    assert_eq!(recs[0].code, "c1");
    assert_eq!(recs[1].receiver, "Carol");
}

#[test]
fn one_match_then_disabled_emits_exactly_one_record() {
    let pages = vec![page(
        vec![row("TO_FIX", &["Package X", "AB12"], Some("Alice"))],
        Some("p-paginator-next p-disabled"),
    )];
    let recs = run_extraction(&pages, &String::from("TO_FIX")).unwrap();
    assert_eq!(
        recs,
        vec![ParcelRecord {
            receiver: String::from("Alice"),
            description: String::from("Package X"),
            code: String::from("AB12"),
        }]
    );
}

#[test]
fn no_match_on_two_pages_advances_once_then_stops_empty() {
    let pages = vec![
        page(vec![row("done", &["d"], Some("A"))], Some("p-paginator-next")),
        page(vec![], Some("p-paginator-next p-disabled")),
    ];
    let recs = run_extraction(&pages, &String::from("TO_FIX")).unwrap();
    assert!(recs.is_empty());
}

#[test]
fn matches_on_both_pages_are_all_emitted() {
    let pages = vec![
        page(
            vec![row("TO_FIX", &["d1", "c1"], Some("A"))],
            Some("p-paginator-next"),
        ),
        page(
            vec![row("TO_FIX", &["d2", "c2"], Some("B"))],
            Some("p-paginator-next p-disabled"),
        ),
    ];
    let recs = run_extraction(&pages, &String::from("TO_FIX")).unwrap();
    assert_eq!(recs.len(), 2);
    assert_eq!(recs[0].receiver, "A");
    assert_eq!(recs[1].receiver, "B");
}

#[test]
fn absent_next_control_aborts_the_run() {
    let pages = vec![page(vec![row("done", &["d"], Some("A"))], None)];
    let err = run_extraction(&pages, &String::from("TO_FIX")).unwrap_err();
    assert_eq!(err.missing, UiTarget::NextControl);
}

#[test]
fn failed_row_lookup_aborts_the_run() {
    let pages = vec![page(
        vec![row("TO_FIX", &["d1"], None)],
        Some("p-paginator-next p-disabled"),
    )];
    let err = run_extraction(&pages, &String::from("TO_FIX")).unwrap_err();
    assert_eq!(err.missing, UiTarget::ReceiverCell);
}
