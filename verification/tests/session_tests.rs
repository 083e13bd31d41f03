//! Keys for harness sessions and their popups; what needs the live
//! terminals comes back as effects.
#![allow(unused_imports, dead_code, unused_mut)]

use chrono::Utc;
use issues_tui::app::App;
use issues_tui::keys::{Effect, Key, KeyCode, KeyEnv, ViewMetrics};
use issues_tui::mode::{ConfirmChoice, HarnessConfirm, Mode};
use issues_tui::normal::handle_normal_key;
use issues_tui::session_keys::{
    end_session, handle_confirm_harness_key, handle_harness_key, handle_session_picker_key, launch,
    open_session_picker, session_failed, session_started,
};
use issues_tui::types::{Issue, IssueState, Label, RepoIssues};

fn key(code: KeyCode) -> Key {
    Key { code, ctrl: false }
}

/// The configured harnesses, in the order the picker offers them.
fn configured() -> Vec<String> {
    ["agentv", "agentw", "agentx", "agenty", "agentz"]
        .iter()
        .map(|s| s.to_string())
        .collect()
}

fn env(default_harness: Option<&str>) -> KeyEnv {
    KeyEnv {
        supports_pr_summary: true,
        pr_links: vec![],
        readiness_shown: false,
        default_harness: default_harness.map(str::to_string),
        harness_names: configured(),
    }
}

fn view() -> ViewMetrics {
    ViewMetrics {
        body_view: 10,
        comments_view: 10,
        body_content: 0,
        comment_spans: vec![],
    }
}

/// Single-repo app with one issue (`org/r#1`), selected.
fn app_with_issue() -> App {
    let issue = Issue {
        id: "I_1".into(),
        number: 1,
        title: "t".into(),
        body: String::new(),
        state: IssueState::Open,
        url: "u".into(),
        author: "a".into(),
        assignees: vec![],
        labels: Vec::<Label>::new(),
        comment_count: 0,
        created_at: Utc::now().timestamp(),
        updated_at: Utc::now().timestamp(),
        closed_at: None,
    };
    let mut app = App::new(
        "org".into(),
        None,
        false,
        false,
        "{owner}/{repo}#{number}".into(),
    );
    app.set_data(vec![RepoIssues {
        repo: "r".into(),
        repo_url: "u".into(),
        issues: vec![issue],
    }]);
    app.selected = 1; // 0 = repo header, 1 = the issue
    app
}

/// An app sitting in an attached, running session.
fn attached_app() -> App {
    let mut app = app_with_issue();
    let id = app
        .harness
        .register("org/r#1".into(), "agentx".into(), String::new());
    app.harness.attach(id);
    app.mode = Mode::Harness;
    app
}

fn press(app: &mut App, code: KeyCode) -> Vec<Effect> {
    handle_harness_key(app, key(code), &env(None))
}

#[test]
fn f12_is_swallowed_and_arms_the_chord() {
    let mut app = attached_app();
    let fx = press(&mut app, KeyCode::F(12));
    assert!(app.harness.prefix_pending, "F12 must not reach the child");
    assert_eq!(app.mode, Mode::Harness);
    assert!(fx.is_empty());
}

#[test]
fn f12_d_detaches_without_killing() {
    let mut app = attached_app();
    press(&mut app, KeyCode::F(12));
    let fx = press(&mut app, KeyCode::Char('d'));
    assert_eq!(app.mode, Mode::Normal);
    assert_eq!(app.harness.active, None);
    assert_eq!(app.harness.sessions.len(), 1, "the child keeps running");
    assert!(!app.harness.prefix_pending);
    assert!(fx.is_empty());
}

#[test]
fn a_bare_d_is_forwarded_not_treated_as_detach() {
    // The whole point of the prefix: unprefixed keys belong to the child.
    let mut app = attached_app();
    let fx = press(&mut app, KeyCode::Char('d'));
    assert_eq!(app.mode, Mode::Harness, "still attached");
    assert!(app.harness.active.is_some());
    assert_eq!(
        fx,
        vec![Effect::SendKey {
            id: 0,
            key: key(KeyCode::Char('d'))
        }]
    );
}

#[test]
fn the_chord_disarms_after_one_key_whatever_it_was() {
    let mut app = attached_app();
    press(&mut app, KeyCode::F(12));
    press(&mut app, KeyCode::Char('%'));
    assert!(
        !app.harness.prefix_pending,
        "an unknown chord key resets it"
    );
    assert_eq!(app.mode, Mode::Harness);
    assert_eq!(
        app.status.as_deref(),
        Some("F12 d detach · s switch · k kill · n new · F12 F12 literal · ? help")
    );
}

#[test]
fn f12_f12_sends_a_literal_f12() {
    let mut app = attached_app();
    press(&mut app, KeyCode::F(12));
    let fx = press(&mut app, KeyCode::F(12));
    assert!(!app.harness.prefix_pending);
    assert_eq!(
        fx,
        vec![Effect::SendKey {
            id: 0,
            key: key(KeyCode::F(12))
        }]
    );
}

#[test]
fn f12_k_on_a_running_session_asks_first() {
    let mut app = attached_app();
    press(&mut app, KeyCode::F(12));
    press(&mut app, KeyCode::Char('k'));
    assert_eq!(app.mode, Mode::ConfirmHarness(HarnessConfirm::Kill(0)));
    assert_eq!(app.confirm_choice, ConfirmChoice::No, "safe default");
    assert_eq!(app.harness.sessions.len(), 1, "nothing killed yet");
}

#[test]
fn f12_k_on_an_exited_session_dismisses_it_outright() {
    let mut app = attached_app();
    app.harness.mark_exited(0, 0);
    press(&mut app, KeyCode::F(12));
    let fx = press(&mut app, KeyCode::Char('k'));
    assert!(app.harness.sessions.is_empty(), "no confirm for a dead one");
    assert_eq!(app.mode, Mode::Normal);
    assert_eq!(fx, vec![Effect::EndSession(0)]);
    assert_eq!(app.status.as_deref(), Some("session dismissed"));
}

#[test]
fn f12_s_opens_the_session_picker() {
    let mut app = attached_app();
    press(&mut app, KeyCode::F(12));
    press(&mut app, KeyCode::Char('s'));
    assert_eq!(app.mode, Mode::SessionPicker);
    assert_eq!(app.picker.options.len(), 1);
}

#[test]
fn f12_n_offers_the_configured_harnesses() {
    let mut app = attached_app();
    press(&mut app, KeyCode::F(12));
    press(&mut app, KeyCode::Char('n'));
    assert_eq!(app.mode, Mode::HarnessPicker);
    assert_eq!(app.picker.options, configured());
}

#[test]
fn an_exited_session_scrolls_instead_of_forwarding() {
    let mut app = attached_app();
    app.harness.mark_exited(0, 0);
    press(&mut app, KeyCode::Char('k'));
    let fx = press(&mut app, KeyCode::Char('k'));
    assert_eq!(app.harness.scrollback, 2, "k walks back into history");
    assert_eq!(fx, vec![Effect::ShowScrollback { id: 0, rows: 2 }]);
    press(&mut app, KeyCode::Char('j'));
    assert_eq!(app.harness.scrollback, 1);
    press(&mut app, KeyCode::Char('G'));
    assert_eq!(app.harness.scrollback, 0);
    press(&mut app, KeyCode::PageUp);
    assert_eq!(app.harness.scrollback, 10);
    press(&mut app, KeyCode::PageDown);
    press(&mut app, KeyCode::PageDown);
    assert_eq!(app.harness.scrollback, 0, "never below the end");
}

#[test]
fn q_leaves_an_exited_session_without_dismissing_it() {
    let mut app = attached_app();
    app.harness.mark_exited(0, 0);
    press(&mut app, KeyCode::Char('q'));
    assert_eq!(app.mode, Mode::Normal);
    assert_eq!(app.harness.sessions.len(), 1, "output still readable via Z");
}

#[test]
fn cancelling_a_picker_from_a_session_returns_to_it() {
    let mut app = attached_app();
    press(&mut app, KeyCode::F(12));
    press(&mut app, KeyCode::Char('s'));
    handle_session_picker_key(&mut app, key(KeyCode::Esc));
    assert_eq!(app.mode, Mode::Harness, "not back to the issue list");
}

#[test]
fn the_session_picker_attaches_the_row_it_shows() {
    let mut app = app_with_issue();
    app.harness
        .register("org/r#1".into(), "agentx".into(), String::new());
    let second = app
        .harness
        .register("org/r#2".into(), "agenty".into(), String::new());
    open_session_picker(&mut app);
    app.picker.idx = 1;
    handle_session_picker_key(&mut app, key(KeyCode::Enter));
    assert_eq!(app.harness.active, Some(second));
    assert_eq!(app.mode, Mode::Harness);
}

#[test]
fn the_session_picker_maps_back_through_its_type_ahead_filter() {
    // The picker's index is positional within the *filtered* view.
    let mut app = app_with_issue();
    app.harness
        .register("org/r#1".into(), "agentx".into(), String::new());
    let second = app
        .harness
        .register("org/r#2".into(), "agenty".into(), String::new());
    open_session_picker(&mut app);
    for c in "agenty".chars() {
        handle_session_picker_key(&mut app, key(KeyCode::Char(c)));
    }
    assert_eq!(app.picker.filtered().len(), 1);
    handle_session_picker_key(&mut app, key(KeyCode::Enter));
    assert_eq!(app.harness.active, Some(second));
}

#[test]
fn confirming_a_kill_removes_the_session() {
    let mut app = attached_app();
    app.confirm_choice = ConfirmChoice::Yes;
    let fx = handle_confirm_harness_key(
        &mut app,
        key(KeyCode::Enter),
        HarnessConfirm::Kill(0),
        &env(None),
    );
    assert!(app.harness.sessions.is_empty());
    assert_eq!(app.mode, Mode::Normal);
    assert_eq!(fx, vec![Effect::EndSession(0)]);
    assert_eq!(app.status.as_deref(), Some("session terminated"));
}

#[test]
fn declining_a_kill_leaves_the_session_alone() {
    let mut app = attached_app();
    let fx = handle_confirm_harness_key(
        &mut app,
        key(KeyCode::Char('n')),
        HarnessConfirm::Kill(0),
        &env(None),
    );
    assert_eq!(app.harness.sessions.len(), 1);
    assert_eq!(app.mode, Mode::Harness, "back into the session");
    assert!(fx.is_empty());
}

#[test]
fn declining_the_quit_confirmation_does_not_quit() {
    let mut app = app_with_issue();
    app.harness
        .register("org/r#1".into(), "agentx".into(), String::new());
    handle_confirm_harness_key(
        &mut app,
        key(KeyCode::Esc),
        HarnessConfirm::Quit,
        &env(None),
    );
    assert!(!app.should_quit);
    assert!(app.harness.has_running());
}

#[test]
fn confirming_the_quit_confirmation_quits() {
    let mut app = app_with_issue();
    app.harness
        .register("org/r#1".into(), "agentx".into(), String::new());
    let fx = handle_confirm_harness_key(
        &mut app,
        key(KeyCode::Char('y')),
        HarnessConfirm::Quit,
        &env(None),
    );
    assert!(app.should_quit);
    assert_eq!(fx, vec![Effect::EndAllSessions]);
}

#[test]
fn confirming_a_relaunch_ends_the_old_session_and_starts_anew() {
    let mut app = app_with_issue();
    let id = app
        .harness
        .register("org/r#1".into(), "agentx".into(), String::new());
    app.harness.mark_exited(id, 0);
    app.mode = Mode::ConfirmHarness(HarnessConfirm::Relaunch(id));
    let fx = handle_confirm_harness_key(
        &mut app,
        key(KeyCode::Char('y')),
        HarnessConfirm::Relaunch(id),
        &env(None),
    );
    assert!(app.harness.sessions.is_empty());
    assert_eq!(fx.len(), 2);
    assert_eq!(fx[0], Effect::EndSession(id));
    assert!(matches!(
        &fx[1],
        Effect::StartSession { issue_ref, harness, .. } if issue_ref == "org/r#1" && harness == "agentx"
    ));
}

#[test]
fn launch_attaches_rather_than_duplicating_a_live_session() {
    let mut app = app_with_issue();
    let id = app
        .harness
        .register("org/r#1".into(), "agentx".into(), String::new());
    let fx = launch(&mut app, "org/r#1", "agentz", &configured());
    assert_eq!(
        app.harness.sessions.len(),
        1,
        "no second agent on one ticket"
    );
    assert_eq!(app.harness.active, Some(id));
    assert_eq!(app.mode, Mode::Harness);
    assert!(fx.is_empty());
}

#[test]
fn launch_replaces_an_exited_session_for_the_same_issue() {
    let mut app = app_with_issue();
    let id = app
        .harness
        .register("org/r#1".into(), "agentx".into(), String::new());
    app.harness.mark_exited(id, 0);
    let fx = launch(&mut app, "org/r#1", "agentx", &configured());
    assert!(app.harness.sessions.is_empty());
    assert_eq!(fx[0], Effect::EndSession(id));
    assert_eq!(
        fx[1],
        Effect::StartSession {
            issue_ref: "org/r#1".into(),
            harness: "agentx".into(),
            owner: "org".into(),
            repo: "r".into(),
            number: 1,
            url: "u".into(),
            title: "t".into(),
        }
    );
}

#[test]
fn launching_an_unknown_harness_reports_it_and_registers_nothing() {
    let mut app = app_with_issue();
    let fx = launch(&mut app, "org/r#1", "nope", &configured());
    assert!(app.harness.sessions.is_empty());
    assert!(app.status.as_deref().unwrap().contains("unknown harness"));
    assert_eq!(app.status.as_deref(), Some("unknown harness \"nope\""));
    assert!(fx.is_empty());
}

#[test]
fn a_reconciled_session_opens_a_pty_lazily_on_first_attach() {
    // A session adopted from an earlier run has metadata and a background
    // id but no terminal in this process: the first attach asks for one.
    let mut app = app_with_issue();
    let id = app
        .harness
        .register("org/r#1".into(), "probe".into(), String::new());
    app.harness.set_bg_id(id, "42".into());

    let fx = launch(&mut app, "org/r#1", "probe", &vec!["probe".to_string()]);

    assert_eq!(fx, vec![Effect::OpenSession(id)]);
    assert_eq!(app.harness.active, Some(id));
    assert_eq!(app.mode, Mode::Harness);
}

#[test]
fn a_second_attach_does_not_reopen_the_pty() {
    let mut app = app_with_issue();
    let id = app
        .harness
        .register("org/r#1".into(), "probe".into(), String::new());
    app.harness.set_bg_id(id, "42".into());

    launch(&mut app, "org/r#1", "probe", &vec!["probe".to_string()]);
    app.harness.detach();
    launch(&mut app, "org/r#1", "probe", &vec!["probe".to_string()]);

    assert_eq!(app.harness.active, Some(id));
    assert_eq!(app.status.as_deref(), Some("org/r#1 already has a session"));
    assert_eq!(app.harness.sessions.len(), 1);
}

#[test]
fn killing_a_never_attached_reconciled_session_still_removes_it() {
    let mut app = app_with_issue();
    let id = app
        .harness
        .register("org/r#1".into(), "agentx".into(), String::new());
    app.harness.set_bg_id(id, "not-a-real-session".into());

    let fx = end_session(&mut app, id);

    assert!(app.harness.sessions.is_empty());
    assert_eq!(fx, vec![Effect::EndSession(id)]);
}

#[test]
fn a_started_session_is_shown_and_says_where_it_runs() {
    let mut app = app_with_issue();
    let id = app
        .harness
        .register("org/r#1".into(), "agentx".into(), "t".into());
    session_started(&mut app, id, Some("7".into()), "agentx", "/w/r", false);
    assert_eq!(app.harness.active, Some(id));
    assert_eq!(app.mode, Mode::Harness);
    assert_eq!(app.harness.sessions[0].bg_id.as_deref(), Some("7"));
    assert_eq!(app.status.as_deref(), Some("agentx started in /w/r"));

    session_started(&mut app, id, None, "agentx", "/w/r", true);
    assert_eq!(
        app.status.as_deref(),
        Some("agentx started in /w/r — already finished; check the pane")
    );
}

#[test]
fn a_failed_start_leaves_no_session_behind() {
    let mut app = app_with_issue();
    let id = app
        .harness
        .register("org/r#1".into(), "agentx".into(), String::new());
    session_failed(&mut app, id, "no clone of org/r".into());
    assert!(app.harness.sessions.is_empty());
    assert_eq!(app.status.as_deref(), Some("no clone of org/r"));
}

// --- the list's entry points -------------------------------------------------------

fn normal(app: &mut App, c: char, default_harness: Option<&str>) -> Vec<Effect> {
    handle_normal_key(app, key(KeyCode::Char(c)), &view(), &env(default_harness))
}

#[test]
fn q_with_a_running_session_confirms_instead_of_quitting() {
    let mut app = app_with_issue();
    app.harness
        .register("org/r#1".into(), "agentx".into(), String::new());
    normal(&mut app, 'q', None);
    assert!(!app.should_quit, "a stray q must not kill an agent");
    assert_eq!(app.mode, Mode::ConfirmHarness(HarnessConfirm::Quit));
}

#[test]
fn q_with_only_exited_sessions_quits_straight_away() {
    let mut app = app_with_issue();
    let id = app
        .harness
        .register("org/r#1".into(), "agentx".into(), String::new());
    app.harness.mark_exited(id, 0);
    normal(&mut app, 'q', None);
    assert!(app.should_quit, "nothing is running, no reason to ask");
}

#[test]
fn capital_a_attaches_to_this_issue_s_live_session() {
    let mut app = app_with_issue();
    let id = app
        .harness
        .register("org/r#1".into(), "agentx".into(), String::new());
    normal(&mut app, 'A', Some("agentx"));
    assert_eq!(app.harness.active, Some(id));
    assert_eq!(app.mode, Mode::Harness);
    assert_eq!(app.harness.sessions.len(), 1);
}

#[test]
fn capital_a_without_a_default_harness_opens_the_picker() {
    let mut app = app_with_issue();
    normal(&mut app, 'A', None);
    assert_eq!(app.mode, Mode::HarnessPicker);
}

#[test]
fn capital_a_with_a_default_harness_asks_to_start_it() {
    let mut app = app_with_issue();
    let fx = normal(&mut app, 'A', Some("agentx"));
    assert!(matches!(
        fx.as_slice(),
        [Effect::StartSession { issue_ref, harness, .. }] if issue_ref == "org/r#1" && harness == "agentx"
    ));
}

#[test]
fn capital_a_on_an_exited_session_asks_before_relaunching() {
    let mut app = app_with_issue();
    let id = app
        .harness
        .register("org/r#1".into(), "agentx".into(), String::new());
    app.harness.mark_exited(id, 0);
    normal(&mut app, 'A', Some("agentx"));
    assert_eq!(app.mode, Mode::ConfirmHarness(HarnessConfirm::Relaunch(id)));
    assert_eq!(app.confirm_choice, ConfirmChoice::No);
}

#[test]
fn capital_a_on_a_repo_header_says_so_rather_than_launching() {
    let mut app = app_with_issue();
    app.selected = 0;
    normal(&mut app, 'A', Some("agentx"));
    assert_eq!(app.mode, Mode::Normal);
    assert!(app.status.as_deref().unwrap().contains("select an issue"));
}

#[test]
fn capital_z_opens_the_session_picker_and_says_so_when_empty() {
    let mut app = app_with_issue();
    normal(&mut app, 'Z', None);
    assert_eq!(app.mode, Mode::Normal);
    assert!(app
        .status
        .as_deref()
        .unwrap()
        .contains("no harness sessions"));

    app.harness
        .register("org/r#1".into(), "agentx".into(), String::new());
    normal(&mut app, 'Z', None);
    assert_eq!(app.mode, Mode::SessionPicker);
}

#[test]
fn a_launch_for_a_ref_the_selection_moved_off_is_refused() {
    let mut app = app_with_issue();
    let fx = launch(&mut app, "org/r#999", "agentx", &configured());
    assert!(app.harness.sessions.is_empty());
    assert!(app.status.as_deref().unwrap().contains("selection moved"));
    assert!(fx.is_empty());
}
