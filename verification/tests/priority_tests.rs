//! The confirmation in front of a priority write that strips ranked labels,
//! the refresh ticker, and keys that leave text alone.
#![allow(unused_imports, dead_code, unused_mut)]

use chrono::Utc;
use issues_tui::app::{App, PendingPriority};
use issues_tui::editor::{BodyEditor, InputState};
use issues_tui::events::{needs_redraw, refresh_tick, AppEvent};
use issues_tui::form::{IssueForm, ISSUE_FORM_CANCEL_ROW};
use issues_tui::form_keys::handle_issue_form_key;
use issues_tui::harness::HarnessState;
use issues_tui::input_keys::handle_input_key;
use issues_tui::keys::{CommentRefresh, Effect, Key, KeyCode, Mutation};
use issues_tui::mode::{ConfirmChoice, InputKind, Mode};
use issues_tui::priority_keys::handle_confirm_priority_key;
use issues_tui::types::{Issue, IssueState, Label, RepoIssues};

fn key(code: KeyCode) -> Key {
    Key { code, ctrl: false }
}

/// Single-repo app with one issue carrying `labels`, selected.
fn app_with_issue(labels: &[&str]) -> (App, String) {
    let issue = Issue {
        id: "I_1".into(),
        number: 1,
        title: "t".into(),
        body: String::new(),
        state: IssueState::Open,
        url: "u".into(),
        author: "a".into(),
        assignees: vec![],
        labels: labels
            .iter()
            .map(|n| Label {
                name: (*n).to_string(),
                color: String::new(),
            })
            .collect(),
        comment_count: 0,
        created_at: Utc::now().timestamp(),
        updated_at: Utc::now().timestamp(),
        closed_at: None,
    };
    let id = issue.id.clone();
    let mut app = App::new(
        "org".into(),
        None,
        false,
        false,
        "{owner}/{repo}#{number}".into(),
    );
    app.set_data(vec![RepoIssues {
        repo: "r".into(),
        repo_url: "u".into(),
        issues: vec![issue],
    }]);
    app.selected = 1;
    (app, id)
}

/// `app_with_issue` plus session ranks, the way real ones arrive.
fn ranked_app(labels: &[&str], ranks: &[(&str, Option<u8>)]) -> (App, String) {
    let (mut app, id) = app_with_issue(labels);
    app.merge_label_ranks(ranks.iter().map(|(k, v)| (k.to_string(), *v)).collect());
    (app, id)
}

fn pending_app() -> App {
    let (mut app, id) = ranked_app(&["blocker", "bug"], &[("blocker", Some(4))]);
    app.pending_priority = Some(PendingPriority {
        issue_id: id,
        pick: Some("P1".into()),
        removes: vec!["blocker".into()],
        names: vec!["bug".into(), "P1".into()],
    });
    app.confirm_choice = ConfirmChoice::No;
    app.mode = Mode::ConfirmPriority;
    app
}

#[test]
fn priority_confirm_arrow_and_tab_toggle_focus() {
    let mut app = pending_app();
    for code in [
        KeyCode::Right,
        KeyCode::Left,
        KeyCode::Tab,
        KeyCode::Char('h'),
        KeyCode::Char('l'),
    ] {
        let before = app.confirm_choice;
        handle_confirm_priority_key(&mut app, key(code));
        assert_ne!(app.confirm_choice, before, "{code:?} did not toggle");
        assert_eq!(app.mode, Mode::ConfirmPriority, "{code:?} left the popup");
    }
}

#[test]
fn enter_on_no_cancels_without_writing() {
    let mut app = pending_app();
    let fx = handle_confirm_priority_key(&mut app, key(KeyCode::Enter));

    assert_eq!(app.mode, Mode::Normal);
    assert!(app.pending_priority.is_none());
    assert_eq!(app.status.as_deref(), Some("cancelled"));
    assert!(fx.is_empty());
}

#[test]
fn esc_cancels_without_writing() {
    let mut app = pending_app();
    let fx = handle_confirm_priority_key(&mut app, key(KeyCode::Esc));

    assert_eq!(app.mode, Mode::Normal);
    assert!(app.pending_priority.is_none());
    assert!(fx.is_empty());
}

#[test]
fn yes_writes_the_set_captured_when_the_picker_committed() {
    let mut app = pending_app();
    let fx = handle_confirm_priority_key(&mut app, key(KeyCode::Char('y')));

    assert_eq!(app.mode, Mode::Normal);
    assert!(app.pending_priority.is_none());
    assert_eq!(
        fx,
        vec![Effect::Mutate {
            issue_id: "I_1".into(),
            op: Mutation::SetLabels {
                repo: "r".into(),
                org: "org".into(),
                names: vec!["bug".into(), "P1".into()],
            },
            done: "priority updated".into(),
            refresh: CommentRefresh::Skip,
        }]
    );
}

#[test]
fn a_selection_change_under_the_popup_aborts_the_write() {
    let mut app = pending_app();
    app.selected = 0; // header row: selected_issue() is now None

    let fx = handle_confirm_priority_key(&mut app, key(KeyCode::Char('y')));

    assert_eq!(app.mode, Mode::Normal);
    assert!(app.pending_priority.is_none());
    assert_eq!(
        app.status.as_deref(),
        Some("selection changed \u{2014} priority not set")
    );
    assert!(fx.is_empty());
}

// --- the refresh ticker and redraws ----------------------------------------------

#[test]
fn a_refresh_tick_fetches_only_when_idle_on_the_list() {
    let (mut app, _) = app_with_issue(&[]);
    app.loading = false;
    let fx = refresh_tick(&mut app);
    assert_eq!(fx, vec![Effect::FetchData]);
    assert!(app.loading && app.auto_refreshing);

    // A fetch is in flight now: the next tick waits.
    let fx = refresh_tick(&mut app);
    assert!(fx.is_empty());

    let (mut app, _) = app_with_issue(&[]);
    app.loading = false;
    app.mode = Mode::ConfirmState;
    assert!(refresh_tick(&mut app).is_empty());
    assert!(!app.loading);
}

#[test]
fn only_the_session_on_screen_redraws_on_output() {
    let (mut app, _) = app_with_issue(&[]);
    let a = app.harness.register("org/r#1".into(), "agentx".into(), String::new());
    let b = app.harness.register("org/r#2".into(), "agentx".into(), String::new());
    app.harness.attach(a);
    assert!(needs_redraw(&app, &AppEvent::HarnessDirty(a)));
    assert!(!needs_redraw(&app, &AppEvent::HarnessDirty(b)));
    assert!(needs_redraw(&app, &AppEvent::MutationFailed("x".into())));
}

// --- keys that do not touch the text -------------------------------------------

#[test]
fn tab_steps_a_form_whose_title_cursor_is_out_of_range() {
    let mut app = App::new("org".into(), None, false, false, "{owner}/{repo}#{number}".into());
    let mut form = IssueForm::new("alpha".into());
    form.title = InputState {
        buffer: String::new(),
        cursor: 5,
    };
    app.issue_form = Some(form);
    app.mode = Mode::IssueForm;
    handle_issue_form_key(&mut app, key(KeyCode::Tab), 40);
    assert_eq!(app.issue_form.as_ref().unwrap().field_idx, 1);
    handle_issue_form_key(&mut app, key(KeyCode::BackTab), 40);
    handle_issue_form_key(&mut app, key(KeyCode::BackTab), 40);
    assert_eq!(app.issue_form.as_ref().unwrap().field_idx, ISSUE_FORM_CANCEL_ROW);
    handle_issue_form_key(&mut app, key(KeyCode::Esc), 40);
    assert!(app.issue_form.is_none());
}

#[test]
fn esc_leaves_an_input_whose_cursor_is_out_of_range() {
    let (mut app, _) = app_with_issue(&[]);
    app.input = InputState {
        buffer: "ab".into(),
        cursor: 9,
    };
    app.mode = Mode::Input(InputKind::Search);
    let fx = handle_input_key(&mut app, key(KeyCode::Esc), InputKind::Search);
    assert_eq!(app.mode, Mode::Normal);
    assert!(fx.is_empty());
}

#[test]
fn word_right_past_the_end_stays_put() {
    let mut b = BodyEditor::from_text("ab cd");
    b.lines[0].cursor = 9;
    b.word_right();
    assert_eq!(b.lines[0].cursor, 9);

    let mut b = BodyEditor::from_text("ab cd");
    b.lines[0].cursor = 0;
    b.word_right();
    assert_eq!(b.lines[0].cursor, 2);
}

// --- session ids over a run of calls ---------------------------------------------

#[test]
fn session_ids_count_every_session_ever_created() {
    let mut h = HarnessState::new();
    let a = h.register("o/r#1".into(), "agentx".into(), String::new());
    let b = h.register("o/r#2".into(), "agentx".into(), String::new());
    h.remove(a);
    h.reconcile("agentx", &[("bg1".to_string(), "o/r#3".to_string()), ("bg2".to_string(), "not a ref".to_string())]);
    h.remove(b);
    let c = h.register("o/r#4".into(), "agentx".into(), String::new());
    // Two registered, one adopted: the next id is the fourth ever made.
    assert_eq!((a, b, c), (0, 1, 3));
    assert!(h.get(a).is_none() && h.get(b).is_none());
    assert_eq!(h.sessions.iter().map(|s| s.id).collect::<Vec<_>>(), vec![2, 3]);
}
