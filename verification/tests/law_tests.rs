//! The library's round trips and invariants on concrete values, and the
//! handlers that go through chrono (the calendar) or parse numbers.
#![allow(unused_imports, dead_code, unused_mut)]

use chrono::{Datelike, NaiveDate, Utc};
use issues_tui::app::App;
use issues_tui::dispatch::{handle_key, Screen};
use issues_tui::editor_keys::handle_comment_editor_key;
use issues_tui::events::{handle_app_event, AppEvent};
use issues_tui::filter_keys::{handle_calendar_key, handle_filter_menu_key};
use issues_tui::form::{IssueForm, ISSUE_FORM_CANCEL_ROW};
use issues_tui::form_keys::handle_issue_form_key;
use issues_tui::input_keys::handle_input_key;
use issues_tui::keys::{picker_common_key, Effect, Key, KeyCode, KeyEnv, ViewMetrics};
use issues_tui::mode::{CommentFocus, ConfirmChoice, InputKind, Mode, FILTER_FIELD_COUNT};
use issues_tui::popup_keys::{handle_confirm_key, HelpView, PrView};
use issues_tui::types::{Comment, Issue, IssueState, Label, RepoIssues};

fn key(code: KeyCode) -> Key {
    Key { code, ctrl: false }
}

fn issue(number: u64, comments: u64) -> Issue {
    Issue {
        id: format!("I_{number}"),
        number,
        title: format!("issue {number}"),
        body: String::new(),
        state: IssueState::Open,
        url: format!("https://github.com/org/r/issues/{number}"),
        author: "a".into(),
        assignees: vec![],
        labels: Vec::<Label>::new(),
        comment_count: comments,
        created_at: Utc::now().timestamp(),
        updated_at: Utc::now().timestamp(),
        closed_at: None,
    }
}

fn comment(id: &str, body: &str) -> Comment {
    Comment {
        id: id.into(),
        author: "a".into(),
        created_at: Utc::now().timestamp(),
        body: body.into(),
    }
}

fn app_with(issues: Vec<Issue>) -> App {
    let mut app = App::new(
        "org".into(),
        None,
        false,
        false,
        "{owner}/{repo}#{number}".into(),
    );
    app.set_data(vec![RepoIssues {
        repo: "r".into(),
        repo_url: "u".into(),
        issues,
    }]);
    app.selected = 1;
    app
}

fn day(y: i32, m: u32, d: u32) -> i32 {
    NaiveDate::from_ymd_opt(y, m, d).unwrap().num_days_from_ce()
}

fn screen() -> Screen {
    Screen {
        detail: ViewMetrics {
            body_view: 10,
            comments_view: 10,
            body_content: 0,
            comment_spans: vec![],
        },
        pr: PrView {
            scroll_max: 0,
            page_rows: 10,
            targets: vec![],
        },
        help: HelpView {
            scroll_max: 0,
            page_rows: 10,
        },
        comment_wrap: 40,
        form_wrap: 40,
    }
}

fn env() -> KeyEnv {
    KeyEnv {
        supports_pr_summary: true,
        pr_links: vec![],
        readiness_shown: false,
        default_harness: None,
        harness_names: vec![],
    }
}

// --- round trips ---------------------------------------------------------------

#[test]
fn comment_focus_tab_then_back_tab_returns() {
    for start in [CommentFocus::Editor, CommentFocus::Save, CommentFocus::Cancel] {
        let mut app = app_with(vec![issue(1, 0)]);
        app.start_comment_editor();
        app.editor.focus = start;
        handle_comment_editor_key(&mut app, key(KeyCode::Tab), 40);
        assert_ne!(app.editor.focus, start);
        handle_comment_editor_key(&mut app, key(KeyCode::BackTab), 40);
        assert_eq!(app.editor.focus, start);
    }
}

#[test]
fn form_tab_then_back_tab_returns_to_every_row() {
    for row in 0..=ISSUE_FORM_CANCEL_ROW {
        let mut app = app_with(vec![]);
        let mut form = IssueForm::new("r".into());
        form.field_idx = row;
        app.issue_form = Some(form);
        app.mode = Mode::IssueForm;
        handle_issue_form_key(&mut app, key(KeyCode::Tab), 40);
        handle_issue_form_key(&mut app, key(KeyCode::BackTab), 40);
        assert_eq!(app.issue_form.as_ref().unwrap().field_idx, row);
    }
}

#[test]
fn picker_down_then_up_returns_to_the_row() {
    let mut app = app_with(vec![]);
    app.picker
        .start(vec!["a".into(), "b".into(), "c".into()], 1);
    picker_common_key(&mut app.picker, key(KeyCode::Down), false);
    assert_eq!(app.picker.idx, 2);
    picker_common_key(&mut app.picker, key(KeyCode::Up), false);
    assert_eq!(app.picker.idx, 1);
}

#[test]
fn filter_menu_down_then_up_returns_to_the_row() {
    let mut app = app_with(vec![]);
    app.mode = Mode::FilterMenu;
    for row in 0..FILTER_FIELD_COUNT - 1 {
        app.filter_menu_idx = row;
        handle_filter_menu_key(&mut app, key(KeyCode::Down));
        assert_eq!(app.filter_menu_idx, row + 1);
        handle_filter_menu_key(&mut app, key(KeyCode::Up));
        assert_eq!(app.filter_menu_idx, row);
    }
}

#[test]
fn flipping_a_confirmation_twice_leaves_it() {
    let mut app = app_with(vec![issue(1, 0)]);
    app.mode = Mode::ConfirmState;
    app.confirm_choice = ConfirmChoice::No;
    handle_confirm_key(&mut app, key(KeyCode::Tab));
    handle_confirm_key(&mut app, key(KeyCode::Tab));
    assert_eq!(app.confirm_choice, ConfirmChoice::No);
    assert_eq!(app.mode, Mode::ConfirmState);
}

#[test]
fn f1_twice_comes_back_to_the_same_screen() {
    let mut app = app_with(vec![issue(1, 0), issue(2, 0)]);
    app.selected = 2;
    let fx1 = handle_key(&mut app, key(KeyCode::F(1)), &screen(), &env());
    assert!(matches!(app.mode, Mode::Help(_)));
    let fx2 = handle_key(&mut app, key(KeyCode::F(1)), &screen(), &env());
    assert_eq!(app.mode, Mode::Normal);
    assert_eq!(app.selected, 2);
    assert!(fx1.is_empty());
    assert!(fx2.is_empty());
}

// --- the comment cache -------------------------------------------------------------

#[test]
fn a_cached_thread_is_served_without_a_request() {
    let mut app = app_with(vec![issue(1, 2)]);
    app.cache_comments("I_1".into(), vec![comment("c1", "one"), comment("c2", "two")]);
    let fetch = app.load_comments("I_1".into());
    assert_eq!(fetch, None);
    let shown = app.detail.comments.as_ref().unwrap();
    assert_eq!(shown.len(), 2);
    assert_eq!(shown[1].body, "two");
}

#[test]
fn a_dropped_thread_is_fetched_again() {
    let mut app = app_with(vec![issue(1, 2)]);
    app.cache_comments("I_1".into(), vec![comment("c1", "one")]);
    app.invalidate_comments("I_1");
    assert_eq!(app.load_comments("I_1".into()), Some("I_1".to_string()));
    assert!(app.detail.comments.is_none());
}

#[test]
fn an_issue_without_comments_needs_no_request() {
    let mut app = app_with(vec![issue(1, 0)]);
    assert_eq!(app.load_comments("I_1".into()), None);
    assert_eq!(app.detail.comments.as_ref().map(Vec::len), Some(0));
}

#[test]
fn a_session_output_report_changes_nothing() {
    let mut app = app_with(vec![issue(1, 0)]);
    app.status = Some("before".into());
    let fx = handle_app_event(&mut app, AppEvent::HarnessDirty(0), None, "rate limit");
    assert!(fx.is_empty());
    assert_eq!(app.status.as_deref(), Some("before"));
    assert_eq!(app.mode, Mode::Normal);
}

// --- the calendar ---------------------------------------------------------------

fn calendar_app(at: i32) -> App {
    let mut app = app_with(vec![]);
    app.mode = Mode::Calendar(6);
    app.calendar_cursor = at;
    app
}

#[test]
fn calendar_arrows_move_by_days_and_weeks() {
    let mut app = calendar_app(day(2026, 1, 31));
    handle_calendar_key(&mut app, key(KeyCode::Right), 6);
    assert_eq!(app.calendar_cursor, day(2026, 2, 1));
    handle_calendar_key(&mut app, key(KeyCode::Left), 6);
    assert_eq!(app.calendar_cursor, day(2026, 1, 31));
    handle_calendar_key(&mut app, key(KeyCode::Down), 6);
    assert_eq!(app.calendar_cursor, day(2026, 2, 7));
    handle_calendar_key(&mut app, key(KeyCode::Up), 6);
    assert_eq!(app.calendar_cursor, day(2026, 1, 31));
}

#[test]
fn calendar_home_end_and_pages_move_by_months() {
    let mut app = calendar_app(day(2026, 2, 14));
    handle_calendar_key(&mut app, key(KeyCode::End), 6);
    assert_eq!(app.calendar_cursor, day(2026, 2, 28));
    handle_calendar_key(&mut app, key(KeyCode::Home), 6);
    assert_eq!(app.calendar_cursor, day(2026, 2, 1));
    handle_calendar_key(&mut app, key(KeyCode::PageUp), 6);
    assert_eq!(app.calendar_cursor, day(2026, 1, 1));
    handle_calendar_key(&mut app, key(KeyCode::PageDown), 6);
    assert_eq!(app.calendar_cursor, day(2026, 2, 1));

    let mut app = calendar_app(day(2025, 12, 9));
    handle_calendar_key(&mut app, key(KeyCode::PageDown), 6);
    assert_eq!(app.calendar_cursor, day(2026, 1, 1));
    handle_calendar_key(&mut app, key(KeyCode::End), 6);
    assert_eq!(app.calendar_cursor, day(2026, 1, 31));
}

#[test]
fn calendar_enter_sets_the_date_field() {
    let mut app = calendar_app(day(2026, 7, 5));
    handle_calendar_key(&mut app, key(KeyCode::Enter), 6);
    assert_eq!(app.mode, Mode::FilterMenu);
    assert_eq!(app.filters.created_after, Some(day(2026, 7, 5)));
    assert_eq!(app.current_filter_value(6), "2026-07-05");
}

#[test]
fn calendar_esc_and_q_leave_the_field_alone() {
    for code in [KeyCode::Esc, KeyCode::Char('q')] {
        let mut app = calendar_app(day(2026, 7, 5));
        handle_calendar_key(&mut app, key(code), 6);
        assert_eq!(app.mode, Mode::FilterMenu);
        assert_eq!(app.filters.created_after, None);
    }
}

#[test]
fn calendar_init_starts_on_the_fields_date() {
    let mut app = app_with(vec![]);
    app.apply_filter_input(InputKind::FilterField(7), "2026-03-04");
    app.calendar_init(7);
    assert_eq!(app.calendar_cursor, day(2026, 3, 4));
}

// --- jumping by number ------------------------------------------------------------

fn goto(app: &mut App, text: &str) -> Vec<Effect> {
    app.mode = Mode::Input(InputKind::GotoNumber);
    app.input.start(text);
    handle_input_key(app, key(KeyCode::Enter), InputKind::GotoNumber)
}

#[test]
fn goto_jumps_to_the_numbered_issue() {
    let mut app = app_with(vec![issue(1, 0), issue(22, 0)]);
    goto(&mut app, " #22 ");
    assert_eq!(app.selected_issue().map(|i| i.number), Some(22));
}

#[test]
fn goto_rejects_what_is_not_a_number() {
    for text in ["abc", "", "#", "99999999999999999999"] {
        let mut app = app_with(vec![issue(1, 0)]);
        let fx = goto(&mut app, text);
        assert_eq!(app.status.as_deref(), Some("not an issue number"), "{text:?}");
        assert!(fx.is_empty());
        assert_eq!(app.selected, 1);
    }
}
