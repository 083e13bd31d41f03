//! The option picker shared by every list popup.
#![allow(unused_imports, dead_code)]

use issues_tui::picker::PickerState;

fn picker(options: &[&str]) -> PickerState {
    let mut p = PickerState::default();
    p.start(options.iter().map(|s| s.to_string()).collect(), 0);
    p
}

#[test]
fn start_resets_the_filter_left_by_a_previous_picker() {
    let mut p = picker(&["alpha", "beta"]);
    p.filter_push('z');
    p.start(vec!["gamma".into()], 0);
    assert!(p.filter.is_empty(), "a stale filter must not survive open");
    assert_eq!(p.idx, 0);
}

#[test]
fn filtered_narrows_case_insensitively_and_keeps_original_indices() {
    let mut p = picker(&["alpha", "Beta", "gamma"]);
    p.filter_push('B');
    assert_eq!(p.filtered(), vec![(1, "Beta")]);
    // The reported index is into `options`, not into the filtered view.
    assert_eq!(p.selected_original(), Some(1));
}

#[test]
fn empty_filter_shows_everything() {
    let p = picker(&["alpha", "beta"]);
    assert_eq!(p.filtered().len(), 2);
}

#[test]
fn typing_moves_the_highlight_to_the_first_match() {
    let mut p = picker(&["alpha", "beta", "gamma"]);
    p.idx = 2;
    p.filter_push('a');
    assert_eq!(p.idx, 0, "a new filter re-homes the highlight");
}

#[test]
fn backspace_clamps_the_highlight_into_the_widened_view() {
    let mut p = picker(&["alpha", "beta", "gamma"]);
    for c in "gam".chars() {
        p.filter_push(c);
    }
    p.idx = 0;
    p.filter_backspace();
    assert!(p.idx < p.filtered().len());
}

#[test]
fn clearing_a_filter_that_matched_nothing_leaves_a_valid_index() {
    let mut p = picker(&["alpha", "beta"]);
    p.filter_push('z');
    assert!(p.filtered().is_empty());
    assert_eq!(p.selected_original(), None, "no match, nothing selected");
    p.filter_clear();
    assert!(p.idx < p.filtered().len(), "index must be back in range");
}

#[test]
fn selected_original_is_none_when_there_are_no_options() {
    assert_eq!(PickerState::default().selected_original(), None);
}

#[test]
fn toggle_multi_adds_then_removes() {
    let mut p = picker(&["alpha", "beta"]);
    p.toggle_multi(1);
    assert!(p.multi_selected.contains(&1));
    p.toggle_multi(1);
    assert!(!p.multi_selected.contains(&1));
}
