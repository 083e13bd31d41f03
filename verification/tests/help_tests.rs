//! The help viewer's fixed tables.
#![allow(unused_imports, dead_code)]

use issues_tui::mode::filter_field_name;

#[test]
fn the_filter_rows_the_context_table_names_are_the_right_ones() {
    assert_eq!(filter_field_name(0), "text");
    assert_eq!(filter_field_name(4), "priority");
}

