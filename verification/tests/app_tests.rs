//! The list, editor, sort and form behaviour, driven from outside.
#![allow(unused_imports, dead_code)]

use chrono::{Datelike, NaiveDate, TimeZone, Utc};
use issues_tui::app::App;
use issues_tui::detail::DetailState;
use issues_tui::editor::{cursor_row, input_scroll_skip, wrap_lines, BodyEditor, InputState, VisualRow};
use issues_tui::filters::{label_filter_matches, parse_date, priority_label_set, priority_set_options};
use issues_tui::form::IssueForm;
use issues_tui::mode::{DetailSel, PrTarget, Row};
use issues_tui::sorting::{sort_issues, SortKey};
use issues_tui::types::{Comment, FormOptions, IdName, Issue, IssueState, Label, RepoIssues, RepoLabel};

fn ts(y: i32, mo: u32, d: u32) -> i64 {
    Utc.with_ymd_and_hms(y, mo, d, 0, 0, 0).unwrap().timestamp()
}

fn issue(number: u64, title: &str, state: IssueState) -> Issue {
    Issue {
        id: format!("I_{number}"),
        number,
        title: title.into(),
        body: String::new(),
        state,
        url: format!("https://github.com/o/r/issues/{number}"),
        author: "pgmac".into(),
        assignees: vec![],
        labels: vec![],
        comment_count: 0,
        created_at: ts(2026, 6, number as u32 % 28 + 1),
        updated_at: ts(2026, 7, number as u32 % 28 + 1),
        closed_at: None,
    }
}

fn priority_issue(number: u64, priority: Option<&str>) -> Issue {
    let mut i = issue(number, "t", IssueState::Open);
    if let Some(p) = priority {
        i.labels = vec![Label {
            name: format!("priority:{p}"),
            color: String::new(),
        }];
    }
    i
}

fn input(text: &str, cursor: usize) -> InputState {
    InputState {
        buffer: text.to_string(),
        cursor,
    }
}

fn repo_label(name: &str) -> RepoLabel {
    RepoLabel {
        id: format!("L_{name}"),
        name: name.into(),
    }
}

fn form_options() -> FormOptions {
    let id_name = |id: &str, name: &str| IdName {
        id: id.into(),
        name: name.into(),
    };
    FormOptions {
        repo_id: "R_repo".into(),
        labels: vec![
            id_name("L_bug", "bug"),
            id_name("L_enh", "enhancement"),
            id_name("L_ph", "priority:high"),
            id_name("L_pl", "priority:low"),
        ],
        users: vec![id_name("U_pgmac", "pgmac"), id_name("U_bot", "bot")],
        milestones: vec![id_name("M_1", "v1.0")],
        projects: vec![id_name("P_1", "Homelab")],
        issue_types: vec![id_name("T_bug", "Bug"), id_name("T_feat", "Feature")],
    }
}

#[test]
fn app_sort_by_priority_descending_and_ascending() {
    let mut issues = vec![
        priority_issue(1, Some("low")),
        priority_issue(2, Some("urgent")),
        priority_issue(3, Some("medium")),
        priority_issue(4, Some("high")),
        priority_issue(5, None),
    ];
    sort_issues(&mut issues, SortKey::Priority, true);
    assert_eq!(
        issues.iter().map(|i| i.number).collect::<Vec<_>>(),
        vec![2, 4, 3, 1, 5]
    );
    sort_issues(&mut issues, SortKey::Priority, false);
    assert_eq!(
        issues.iter().map(|i| i.number).collect::<Vec<_>>(),
        vec![5, 1, 3, 4, 2]
    );
}

#[test]
fn app_sort_by_priority_unknown_value_ranks_with_unsorted() {
    let mut issues = vec![
        priority_issue(1, Some("P1")),
        priority_issue(2, Some("low")),
    ];
    sort_issues(&mut issues, SortKey::Priority, true);
    assert_eq!(
        issues.iter().map(|i| i.number).collect::<Vec<_>>(),
        vec![2, 1]
    );
}

#[test]
fn app_priority_ties_break_by_updated_desc_in_both_directions() {
    // updated_at grows with the issue number in the test helper.
    let mut issues = vec![
        priority_issue(1, Some("high")),
        priority_issue(3, Some("high")),
        priority_issue(2, Some("high")),
    ];
    sort_issues(&mut issues, SortKey::Priority, true);
    assert_eq!(
        issues.iter().map(|i| i.number).collect::<Vec<_>>(),
        vec![3, 2, 1]
    );
    sort_issues(&mut issues, SortKey::Priority, false);
    assert_eq!(
        issues.iter().map(|i| i.number).collect::<Vec<_>>(),
        vec![3, 2, 1]
    );
}

#[test]
fn app_sort_key_cycle_covers_all_keys_and_wraps() {
    let mut key = SortKey::Updated;
    let mut seen = vec![key];
    loop {
        key = key.next();
        if key == SortKey::Updated {
            break;
        }
        seen.push(key);
    }
    assert_eq!(seen.len(), 7);
    assert!(seen.contains(&SortKey::Priority));
}

#[test]
fn app_input_scroll_skip_keeps_cursor_in_window() {
    // Cursor within the first window: no scroll.
    assert_eq!(input_scroll_skip(0, 10), 0);
    assert_eq!(input_scroll_skip(9, 10), 0);
    // Cursor past the window: skip advances to keep it on the last column.
    assert_eq!(input_scroll_skip(10, 10), 1);
    assert_eq!(input_scroll_skip(25, 10), 16);
    // Zero width is treated as one column wide.
    assert_eq!(input_scroll_skip(5, 0), 5);
}

#[test]
fn app_input_state_edits_utf8_safely() {
    let mut input = InputState::default();
    input.start("héllo");
    input.left();
    input.backspace(); // remove second 'l'
    assert_eq!(input.buffer, "hélo");
    input.insert('x'); // cursor sits before the final 'o'
    assert_eq!(input.buffer, "hélxo");
}

#[test]
fn app_word_motion_is_whitespace_delimited() {
    let mut i = input("foo-bar  baz héllo", 18);
    i.word_left();
    assert_eq!(i.cursor, 13); // start of "héllo"
    i.word_left();
    assert_eq!(i.cursor, 9); // start of "baz"
    i.word_left();
    assert_eq!(i.cursor, 0); // "foo-bar" is one word
    i.word_right();
    assert_eq!(i.cursor, 7); // end of "foo-bar"
    i.word_right();
    assert_eq!(i.cursor, 12); // end of "baz"
}

#[test]
fn app_delete_word_back_removes_word_and_gap() {
    let mut i = input("one two  three", 14);
    i.delete_word_back();
    assert_eq!(i.buffer, "one two  ");
    assert_eq!(i.cursor, 9);
    i.delete_word_back();
    assert_eq!(i.buffer, "one ");
    i.delete_word_back();
    assert_eq!(i.buffer, "");
    i.delete_word_back(); // no-op at start
    assert_eq!(i.buffer, "");
}

#[test]
fn app_kill_to_start_and_end() {
    let mut i = input("héllo world", 6);
    i.kill_to_end();
    assert_eq!(i.buffer, "héllo ");
    assert_eq!(i.cursor, 6);
    i.cursor = 3;
    i.kill_to_start();
    assert_eq!(i.buffer, "lo ");
    assert_eq!(i.cursor, 0);
}

#[test]
fn app_delete_char_under_cursor() {
    let mut i = input("héllo", 1);
    i.delete_char();
    assert_eq!(i.buffer, "hllo");
    assert_eq!(i.cursor, 1);
    i.end();
    i.delete_char(); // no-op at end
    assert_eq!(i.buffer, "hllo");
}

#[test]
fn app_home_and_end() {
    let mut i = input("abc", 1);
    i.home();
    assert_eq!(i.cursor, 0);
    i.end();
    assert_eq!(i.cursor, 3);
}

#[test]
fn app_body_delete_char_merges_next_line_at_eol() {
    let mut b = BodyEditor::default();
    for c in "ab".chars() {
        b.insert(c);
    }
    b.newline();
    for c in "cd".chars() {
        b.insert(c);
    }
    b.line = 0;
    b.lines[0].end();
    b.delete_char();
    assert_eq!(b.text(), "abcd");
    assert_eq!(b.lines.len(), 1);
}

#[test]
fn app_wrap_lines_breaks_at_word_boundary() {
    let lines = vec![input("aaa bbb ccc", 0)];
    let rows = wrap_lines(&lines, 5);
    // "aaa bbb ccc" at width 5 → "aaa " / "bbb " / "ccc"
    assert_eq!(
        rows,
        vec![
            VisualRow {
                line: 0,
                start: 0,
                end: 4
            },
            VisualRow {
                line: 0,
                start: 4,
                end: 8
            },
            VisualRow {
                line: 0,
                start: 8,
                end: 11
            },
        ]
    );
}

#[test]
fn app_wrap_lines_hard_breaks_long_words_and_keeps_empty_lines() {
    let lines = vec![input("abcdefghij", 0), input("", 0)];
    let rows = wrap_lines(&lines, 4);
    assert_eq!(rows.len(), 4); // 3 hard-broken rows + 1 empty row
    assert_eq!(
        rows[0],
        VisualRow {
            line: 0,
            start: 0,
            end: 4
        }
    );
    assert_eq!(
        rows[2],
        VisualRow {
            line: 0,
            start: 8,
            end: 10
        }
    );
    assert_eq!(
        rows[3],
        VisualRow {
            line: 1,
            start: 0,
            end: 0
        }
    );
}

#[test]
fn app_wrap_lines_exact_width_does_not_split() {
    let lines = vec![input("abcd", 0)];
    assert_eq!(wrap_lines(&lines, 4).len(), 1);
}

#[test]
fn app_cursor_row_maps_wrap_boundary_to_next_row() {
    let lines = vec![input("aaa bbb", 0)];
    let rows = wrap_lines(&lines, 5); // rows: "aaa " / "bbb"
    assert_eq!(rows.len(), 2);
    assert_eq!(cursor_row(&rows, 0, 2), (0, 2));
    // Cursor at the boundary char index 4 belongs to the second row.
    assert_eq!(cursor_row(&rows, 0, 4), (1, 0));
    // End of the line stays on its final row.
    assert_eq!(cursor_row(&rows, 0, 7), (1, 3));
}

#[test]
fn app_visual_up_down_walk_wrapped_rows() {
    let mut b = BodyEditor::default();
    for c in "aaa bbb ccc".chars() {
        b.insert(c);
    }
    // width 5 → rows "aaa " / "bbb " / "ccc"; cursor at end (11) = row 2 col 3.
    b.up_visual(5);
    assert_eq!(b.lines[0].cursor, 7); // row 1 col 3 = char 4+3
    b.up_visual(5);
    assert_eq!(b.lines[0].cursor, 3); // row 0 col 3
    b.up_visual(5); // no-op on first row
    assert_eq!(b.lines[0].cursor, 3);
    b.down_visual(5);
    assert_eq!(b.lines[0].cursor, 7);
    b.down_visual(5);
    assert_eq!(b.lines[0].cursor, 11);
    b.down_visual(5); // no-op on last row
    assert_eq!(b.lines[0].cursor, 11);
}

#[test]
fn app_visual_down_crosses_logical_lines() {
    let mut b = BodyEditor::default();
    for c in "short".chars() {
        b.insert(c);
    }
    b.newline();
    for c in "aaaa bbbb".chars() {
        b.insert(c);
    }
    b.line = 0;
    b.lines[0].cursor = 5;
    b.down_visual(6); // into line 1's first row "aaaa "
    assert_eq!((b.line, b.lines[1].cursor), (1, 4)); // clamped to end-1 of non-final row
    b.down_visual(6); // into "bbbb"
    assert_eq!((b.line, b.lines[1].cursor), (1, 9));
}

#[test]
fn app_priority_set_options_filters_sorts_and_prepends_clear() {
    let labels = vec![
        repo_label("bug"),
        repo_label("priority:urgent"),
        repo_label("priority:low"),
        repo_label("priority:aardvark"),
        repo_label("priority:high"),
        repo_label("status:blocked"),
    ];
    assert_eq!(
        priority_set_options(&labels),
        vec![
            "\u{2014}",
            "priority:low",
            "priority:high",
            "priority:urgent",
            "priority:aardvark",
        ]
    );
}

#[test]
fn app_priority_set_options_empty_repo_is_clear_only() {
    assert_eq!(priority_set_options(&[repo_label("bug")]), vec!["\u{2014}"]);
}

#[test]
fn app_body_editor_from_text_splits_lines_and_ends_cursor() {
    let b = BodyEditor::from_text("hello\nworld");
    assert_eq!(b.text(), "hello\nworld");
    assert_eq!(b.line, 1);
    assert_eq!(b.lines[1].cursor, 5); // end of "world"
}

#[test]
fn app_body_editor_from_empty_text_is_default() {
    let b = BodyEditor::from_text("");
    assert_eq!(b.lines.len(), 1);
    assert_eq!(b.text(), "");
}

#[test]
fn app_build_params_requires_options_and_title() {
    let mut form = IssueForm::new("alpha".into());
    form.title.start("hello");
    assert!(form.build_params().is_none()); // options not loaded

    form.options = Some(form_options());
    form.title.start("   ");
    assert!(form.build_params().is_none()); // blank title

    form.title.start("hello");
    let p = form.build_params().unwrap();
    assert_eq!(p.repo_id, "R_repo");
    assert_eq!(p.title, "hello");
    assert!(p.label_ids.is_empty() && p.assignee_ids.is_empty());
    assert!(p.milestone_id.is_none() && p.issue_type_id.is_none() && p.project_id.is_none());
}

#[test]
fn app_build_params_assembles_ids_and_merges_priority() {
    let mut form = IssueForm::new("alpha".into());
    form.options = Some(form_options());
    form.title.start("t");
    form.assignees.insert(0); // pgmac
    form.labels.insert(0); // bug
    form.priority = Some(0); // priority:high → L_ph
    form.issue_type = Some(1); // Feature
    form.project = Some(0);
    form.milestone = Some(0);

    let p = form.build_params().unwrap();
    assert_eq!(p.assignee_ids, vec!["U_pgmac"]);
    assert_eq!(p.label_ids, vec!["L_bug", "L_ph"]);
    assert_eq!(p.issue_type_id.as_deref(), Some("T_feat"));
    assert_eq!(p.project_id.as_deref(), Some("P_1"));
    assert_eq!(p.milestone_id.as_deref(), Some("M_1"));

    // Picking the same priority label in the labels field must not
    // duplicate its id.
    form.labels.insert(2); // priority:high via labels
    let p = form.build_params().unwrap();
    assert_eq!(
        p.label_ids.iter().filter(|i| *i == "L_ph").count(),
        1,
        "priority label id duplicated"
    );
}

#[test]
fn app_form_field_display_joins_multi_selections() {
    let mut form = IssueForm::new("alpha".into());
    form.options = Some(form_options());
    form.labels.insert(1);
    form.labels.insert(0);
    assert_eq!(form.field_display(3), "bug, enhancement");
    form.priority = Some(1);
    assert_eq!(form.field_display(5), "priority:low");
}

#[test]
fn app_body_editor_splits_merges_and_clamps() {
    let mut b = BodyEditor::default();
    for c in "hello".chars() {
        b.insert(c);
    }
    b.left();
    b.left(); // cursor after "hel"
    b.newline();
    assert_eq!(b.text(), "hel\nlo");
    assert_eq!(b.line, 1);
    assert_eq!(b.lines[1].cursor, 0);

    b.backspace(); // col 0 → merge back
    assert_eq!(b.text(), "hello");
    assert_eq!(b.line, 0);
    assert_eq!(b.lines[0].cursor, 3); // at the old split point

    b.newline();
    b.insert('x');
    b.up_visual(80); // wide enough that visual rows == logical lines
    assert_eq!(b.line, 0);
    b.down_visual(80);
    assert_eq!(b.line, 1);
    assert_eq!(b.text(), "hel\nxlo");
    assert_eq!(b.summary(), "hel (+1 more lines)");
}

#[test]
fn app_body_editor_handles_multibyte() {
    let mut b = BodyEditor::default();
    for c in "héllo".chars() {
        b.insert(c);
    }
    b.left();
    b.left();
    b.left(); // after "hé"
    b.newline();
    assert_eq!(b.text(), "hé\nllo");
    b.backspace();
    assert_eq!(b.text(), "héllo");
}
