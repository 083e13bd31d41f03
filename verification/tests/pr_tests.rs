//! The PR summary popup's state.
#![allow(unused_imports, dead_code)]

use issues_tui::mode::PrTarget;
use issues_tui::pr::PrState;
use issues_tui::types::PrRef;

fn pr(n: u64) -> PrRef {
    PrRef {
        owner: "o".into(),
        repo: "r".into(),
        number: n,
    }
}

fn loaded() -> PrState {
    let mut s = PrState {
        links: vec![pr(1), pr(2)],
        ..PrState::default()
    };
    s.open(pr(1));
    s.scroll = 12;
    s.sel = 3;
    s.summary = Some(Err("boom".into()));
    s
}

#[test]
fn close_keeps_the_discovered_links() {
    let mut s = loaded();
    s.close();
    assert_eq!(s.links.len(), 2, "links must survive closing the summary");
    assert!(s.target.is_none());
    assert!(s.summary.is_none());
    assert_eq!((s.scroll, s.sel), (0, 0));
}

#[test]
fn refresh_keeps_the_target_so_the_response_still_matches() {
    let mut s = loaded();
    s.refresh();
    assert_eq!(s.target, Some(pr(1)), "target must survive a refresh");
    assert!(s.summary.is_none());
    assert_eq!((s.scroll, s.sel), (0, 0));
    // A response for the still-current target is accepted.
    s.set_summary(&pr(1), Err("again".into()));
    assert!(s.summary.is_some());
}

#[test]
fn scrolling_down_stops_at_the_last_row_with_content() {
    let mut s = loaded();
    s.scroll = 0;
    for _ in 0..1000 {
        s.scroll_by(1, 7);
    }
    assert_eq!(s.scroll, 7, "j must stop at the measured bound");
}

#[test]
fn scrolling_up_stops_at_the_top() {
    let mut s = loaded();
    s.scroll = 1;
    s.scroll_by(-1, 7);
    s.scroll_by(-1, 7);
    assert_eq!(s.scroll, 0, "k must not underflow");
}

#[test]
fn paging_down_past_the_end_clamps_to_the_bound() {
    let mut s = loaded();
    s.scroll = 0;
    s.scroll_by(20, 7);
    assert_eq!(s.scroll, 7, "PageDown must stop at the measured bound");
}

#[test]
fn home_jumps_to_the_top_without_moving_the_selection() {
    let mut s = loaded();
    s.scroll = 5;
    let sel_before = s.sel;
    s.scroll_to_top();
    assert_eq!(s.scroll, 0);
    assert_eq!(s.sel, sel_before, "Home must not touch Tab's selection");
}

#[test]
fn end_jumps_to_the_measured_bound_without_moving_the_selection() {
    let mut s = loaded();
    let sel_before = s.sel;
    s.scroll_to_bottom(7);
    assert_eq!(s.scroll, 7);
    assert_eq!(s.sel, sel_before, "End must not touch Tab's selection");
}

#[test]
fn end_stays_at_zero_when_the_content_already_fits() {
    let mut s = loaded();
    s.scroll_to_bottom(0);
    assert_eq!(s.scroll, 0, "content that fits cannot scroll");
}

#[test]
fn clamp_scroll_pulls_a_snapped_selection_back_inside_the_content() {
    let mut s = loaded();
    s.scroll = 40;
    s.clamp_scroll(7);
    assert_eq!(s.scroll, 7);
    s.clamp_scroll(9);
    assert_eq!(s.scroll, 7, "clamping never scrolls further down");
}

#[test]
fn default_discards_everything_including_links() {
    let s = PrState::default();
    assert!(s.links.is_empty());
    assert!(s.target.is_none());
    assert!(s.summary.is_none());
}

#[test]
fn open_resets_the_view_and_retargets() {
    let mut s = loaded();
    s.open(pr(9));
    assert_eq!(s.target, Some(pr(9)));
    assert!(s.summary.is_none());
    assert_eq!((s.scroll, s.sel), (0, 0));
}

#[test]
fn a_stale_response_is_dropped() {
    let mut s = PrState::default();
    s.open(pr(1));
    s.set_summary(&pr(2), Err("stale".into()));
    assert!(
        s.summary.is_none(),
        "response for a former target is dropped"
    );
}

#[test]
fn select_wraps_and_snaps_the_scroll() {
    let targets: Vec<PrTarget> = [(0u16), 12, 19]
        .into_iter()
        .map(|line| PrTarget {
            url: format!("u{line}"),
            line,
        })
        .collect();
    let mut s = PrState::default();

    s.select(1, &targets);
    assert_eq!((s.sel, s.scroll), (1, 12));
    s.select(-1, &targets);
    assert_eq!((s.sel, s.scroll), (0, 0));
    // Wrapping backwards from the first row lands on the last.
    s.select(-1, &targets);
    assert_eq!((s.sel, s.scroll), (2, 19));
    assert_eq!(s.selected_url(&targets), Some("u19".to_string()));
}

#[test]
fn select_is_a_noop_without_targets() {
    let mut s = PrState::default();
    s.select(1, &[]);
    assert_eq!((s.sel, s.scroll), (0, 0));
}
