//! Event-side helpers.
#![allow(unused_imports, dead_code)]

use issues_tui::events::split_csv;

#[test]
fn event_split_csv_trims_and_drops_empties() {
    assert_eq!(split_csv(" a , b ,, c "), vec!["a", "b", "c"]);
    assert!(split_csv("  ").is_empty());
}

#[test]
fn mod_split_csv_trims_and_drops_empties() {
    assert_eq!(split_csv(" a , b ,, c "), vec!["a", "b", "c"]);
    assert!(split_csv("  ").is_empty());
}
