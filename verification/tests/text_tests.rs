use parcel_extractor::text::{contains_substr, find_exact};

#[test]
fn substring_found_inside() {
    assert!(contains_substr("https://app.example/home?tab=1", "app.example"));
}

#[test]
fn substring_absent() {
    assert!(!contains_substr("https://auth.example/login", "app.example/home"));
}

#[test]
fn substring_empty_needle() {
    assert!(contains_substr("anything", ""));
    assert!(contains_substr("", ""));
}

#[test]
fn substring_needle_longer_than_hay() {
    assert!(!contains_substr("ab", "abc"));
}

#[test]
fn substring_whole_string() {
    assert!(contains_substr("disabled", "disabled"));
}

#[test]
fn substring_at_start_and_end() {
    assert!(contains_substr("disabled p-paginator-next", "disabled"));
    assert!(contains_substr("p-paginator-next p-disabled", "p-disabled"));
}

#[test]
fn find_exact_first_match() {
    let cells = vec![
        String::from("PKG-2"),
        String::from("PKG-1"),
        String::from("PKG-1"),
    ];
    assert_eq!(find_exact(&cells, &String::from("PKG-1")), Some(1));
}

#[test]
fn find_exact_requires_whole_cell() {
    let cells = vec![String::from("ID10"), String::from("ID1 ")];
    assert_eq!(find_exact(&cells, &String::from("ID1")), None);
}

#[test]
fn find_exact_empty_table() {
    let cells: Vec<String> = Vec::new();
    assert_eq!(find_exact(&cells, &String::from("ID1")), None);
}
