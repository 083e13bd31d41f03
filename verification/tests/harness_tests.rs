//! The harness session table, driven from outside.
#![allow(unused_imports, dead_code)]

use chrono::Utc;
use issues_tui::app::App;
use issues_tui::harness::{HarnessState, LaunchAction, SessionStatus};
use issues_tui::types::{Issue, IssueState, Label, RepoIssues};

fn state_with(sessions: &[(&str, &str)]) -> HarnessState {
    let mut h = HarnessState::default();
    for (issue_ref, harness) in sessions {
        h.register(
            (*issue_ref).to_string(),
            (*harness).to_string(),
            String::new(),
        );
    }
    h
}

#[test]
fn register_hands_out_unique_ids_and_starts_running() {
    let h = state_with(&[("o/r#1", "agentx"), ("o/r#2", "agenty")]);
    assert_eq!(h.sessions[0].id, 0);
    assert_eq!(h.sessions[1].id, 1);
    assert!(h.sessions.iter().all(|s| s.status.is_running()));
}

#[test]
fn ids_are_never_reused_after_removal() {
    // A stale HarnessDirty/Exited event carrying a dead id must not be
    // able to address whichever session was created next.
    let mut h = state_with(&[("o/r#1", "agentx")]);
    h.remove(0);
    let id = h.register("o/r#2".into(), "agentx".into(), String::new());
    assert_eq!(id, 1, "the freed id must not come back");
    assert!(h.get(0).is_none());
}

#[test]
fn removing_the_active_session_clears_active() {
    let mut h = state_with(&[("o/r#1", "agentx")]);
    h.attach(0);
    h.remove(0);
    assert_eq!(h.active, None, "renderer must not point at a dead session");
}

#[test]
fn attaching_an_unknown_id_is_ignored() {
    let mut h = HarnessState::default();
    h.attach(99);
    assert_eq!(h.active, None);
}

#[test]
fn attach_resets_scrollback_and_any_half_typed_chord() {
    let mut h = state_with(&[("o/r#1", "agentx"), ("o/r#2", "agentx")]);
    h.attach(0);
    h.scrollback = 12;
    h.prefix_pending = true;
    h.attach(1);
    assert_eq!(h.scrollback, 0, "a session opens at its newest output");
    assert!(!h.prefix_pending);
}

#[test]
fn detach_keeps_the_session_alive() {
    let mut h = state_with(&[("o/r#1", "agentx")]);
    h.attach(0);
    h.detach();
    assert_eq!(h.active, None);
    assert_eq!(h.sessions.len(), 1, "detach is not kill");
    assert!(h.sessions[0].status.is_running());
}

#[test]
fn mark_exited_records_the_code_and_keeps_the_session() {
    let mut h = state_with(&[("o/r#1", "agentx")]);
    h.mark_exited(0, 1);
    assert_eq!(h.sessions[0].status, SessionStatus::Exited(1));
    assert_eq!(h.exited_count(), 1);
    assert_eq!(h.running_count(), 0);
}

#[test]
fn mark_exited_for_an_unknown_id_is_ignored() {
    // The child can exit just as the user kills and removes the session.
    let mut h = state_with(&[("o/r#1", "agentx")]);
    h.mark_exited(42, 0);
    assert!(h.sessions[0].status.is_running());
}

#[test]
fn status_segment_counts_both_kinds() {
    let mut h = state_with(&[("o/r#1", "c"), ("o/r#2", "c"), ("o/r#3", "c")]);
    assert_eq!(h.status_segment().as_deref(), Some("3 running"));
    h.mark_exited(2, 0);
    assert_eq!(h.status_segment().as_deref(), Some("2 running, 1 exited"));
    h.mark_exited(0, 0);
    h.mark_exited(1, 0);
    assert_eq!(h.status_segment().as_deref(), Some("3 exited"));
}

#[test]
fn status_segment_is_absent_without_sessions() {
    assert_eq!(HarnessState::default().status_segment(), None);
}

#[test]
fn quit_summary_all_local_puts_everything_in_terminated() {
    let h = state_with(&[("o/r#1", "agentz"), ("o/r#2", "agentz")]);
    let s = h.quit_summary();
    assert_eq!(s.terminated.len(), 2);
    assert!(s.survives.is_empty());
}

#[test]
fn quit_summary_all_background_puts_everything_in_survives() {
    let mut h = HarnessState::default();
    h.reconcile(
        "agentx",
        &[("1".into(), "o/r#1".into()), ("2".into(), "o/r#2".into())],
    );
    let s = h.quit_summary();
    assert!(s.terminated.is_empty());
    assert_eq!(s.survives.len(), 2);
}

#[test]
fn quit_summary_splits_a_mixed_set() {
    let mut h = state_with(&[("o/r#1", "agentz")]);
    h.reconcile("agentx", &[("1".into(), "o/r#2".into())]);
    let s = h.quit_summary();
    assert_eq!(s.terminated.len(), 1);
    assert_eq!(s.terminated[0].issue_ref, "o/r#1");
    assert_eq!(s.survives.len(), 1);
    assert_eq!(s.survives[0].issue_ref, "o/r#2");
}

#[test]
fn quit_summary_excludes_exited_sessions() {
    let mut h = state_with(&[("o/r#1", "agentz")]);
    h.mark_exited(0, 0);
    let s = h.quit_summary();
    assert!(s.terminated.is_empty());
    assert!(s.survives.is_empty());
}

#[test]
fn picker_rows_show_ref_harness_and_state() {
    let mut h = state_with(&[("o/r#1", "agentx"), ("o/r#2", "agenty")]);
    h.mark_exited(1, 130);
    assert_eq!(
        h.picker_rows(),
        vec!["  o/r#1  [agentx]  running", "  o/r#2  [agenty]  exited 130"]
    );
    assert_eq!(h.session_at(1), Some(1));
    assert_eq!(h.session_at(9), None);
}

#[test]
fn picker_rows_mark_adopted_sessions_and_keep_columns_aligned() {
    let mut h = HarnessState::default();
    h.reconcile("agentx", &[("42".into(), "o/r#1".into())]);
    h.register("o/r#2".into(), "agentx".into(), String::new());
    assert_eq!(
        h.picker_rows(),
        vec![
            "\u{2197} o/r#1  [agentx]  running",
            "  o/r#2  [agentx]  running"
        ]
    );
}

#[test]
fn find_by_issue_matches_the_canonical_ref() {
    let h = state_with(&[("pgmac-net/foo#12", "agentx")]);
    assert!(h.find_by_issue("pgmac-net/foo#12").is_some());
    assert!(h.find_by_issue("pgmac-net/foo#1").is_none());
}

#[test]
fn a_fresh_session_has_no_bg_id() {
    let h = state_with(&[("o/r#1", "agentx")]);
    assert_eq!(h.sessions[0].bg_id, None);
}

#[test]
fn set_bg_id_records_it() {
    let mut h = state_with(&[("o/r#1", "agentx")]);
    h.set_bg_id(0, "42".into());
    assert_eq!(h.sessions[0].bg_id.as_deref(), Some("42"));
}

#[test]
fn set_bg_id_on_an_unknown_id_is_ignored() {
    let mut h = HarnessState::default();
    h.set_bg_id(99, "42".into()); // must not panic
    assert!(h.sessions.is_empty());
}

#[test]
fn reconcile_adopts_a_matching_untracked_session() {
    let mut h = HarnessState::default();
    h.reconcile("agentx", &[("42".into(), "pgmac-net/foo#12".into())]);
    assert_eq!(h.sessions.len(), 1);
    assert_eq!(h.sessions[0].issue_ref, "pgmac-net/foo#12");
    assert_eq!(h.sessions[0].harness, "agentx");
    assert_eq!(h.sessions[0].bg_id.as_deref(), Some("42"));
    assert!(h.sessions[0].status.is_running());
    assert!(h.sessions[0].adopted, "reconcile must mark it adopted");
}

#[test]
fn a_freshly_registered_session_is_not_adopted() {
    let h = state_with(&[("o/r#1", "agentx")]);
    assert!(!h.sessions[0].adopted);
}

#[test]
fn reconcile_skips_an_issue_already_tracked() {
    let mut h = state_with(&[("pgmac-net/foo#12", "agentx")]);
    h.reconcile("agentx", &[("42".into(), "pgmac-net/foo#12".into())]);
    assert_eq!(h.sessions.len(), 1, "must not duplicate a session");
    assert_eq!(
        h.sessions[0].bg_id, None,
        "the already-tracked session's own metadata must not be touched"
    );
    assert!(
        !h.sessions[0].adopted,
        "the already-tracked session must not become adopted"
    );
}

#[test]
fn reconcile_ignores_a_name_that_is_not_an_issue_ref() {
    // An unrelated `--bg` session (some other tool, or a stray manual
    // one) sharing the same `agentx agents` listing must not be adopted.
    let mut h = HarnessState::default();
    h.reconcile(
        "agentx",
        &[
            ("1".into(), "my-other-task".into()),
            ("2".into(), "no-hash-here/repo".into()),
            ("3".into(), "owner/repo#not-a-number".into()),
        ],
    );
    assert!(h.sessions.is_empty());
}

#[test]
fn reconcile_adopts_only_the_new_matches_among_a_mix() {
    let mut h = state_with(&[("pgmac-net/foo#1", "agentx")]);
    h.reconcile(
        "agentx",
        &[
            ("1".into(), "pgmac-net/foo#1".into()), // already tracked
            ("2".into(), "pgmac-net/foo#2".into()), // new
            ("3".into(), "junk".into()),            // not an issue ref
        ],
    );
    assert_eq!(h.sessions.len(), 2);
    assert!(h.find_by_issue("pgmac-net/foo#2").is_some());
}

// --- the launch decision, driven through a real App -------------------------

fn app_with_one_issue() -> App {
    let issue = Issue {
        id: "I_1".into(),
        number: 7,
        title: "t".into(),
        body: String::new(),
        state: IssueState::Open,
        url: "https://github.com/org/r/issues/7".into(),
        author: "a".into(),
        assignees: vec![],
        labels: Vec::<Label>::new(),
        comment_count: 0,
        created_at: Utc::now().timestamp(),
        updated_at: Utc::now().timestamp(),
        closed_at: None,
    };
    let mut app = App::new(
        "org".into(),
        None,
        false,
        false,
        "{owner}/{repo}#{number}".into(),
    );
    app.set_data(vec![RepoIssues {
        repo: "r".into(),
        repo_url: "u".into(),
        issues: vec![issue],
    }]);
    app.selected = 1; // 0 is the repo header
    app
}

#[test]
fn the_issue_ref_is_canonical_regardless_of_copy_format() {
    // `copy_format` is a clipboard preference and may not even name an
    // issue; session keys and `{ref}` must not depend on it.
    let mut app = app_with_one_issue();
    app.copy_format = "{repo}".into();
    assert_eq!(app.selected_issue_ref().as_deref(), Some("org/r#7"));
}

#[test]
fn a_repo_header_row_offers_nothing_to_launch() {
    let mut app = app_with_one_issue();
    app.selected = 0;
    assert_eq!(app.launch_action(Some("agentx")), LaunchAction::NoIssue);
}

#[test]
fn with_a_default_harness_a_fresh_issue_spawns() {
    let app = app_with_one_issue();
    assert_eq!(
        app.launch_action(Some("agentx")),
        LaunchAction::Spawn {
            issue_ref: "org/r#7".into(),
            harness: "agentx".into(),
        }
    );
}

#[test]
fn without_a_default_harness_the_picker_opens() {
    let app = app_with_one_issue();
    assert_eq!(
        app.launch_action(None),
        LaunchAction::Pick {
            issue_ref: "org/r#7".into()
        }
    );
}

#[test]
fn a_live_session_for_the_issue_is_attached_not_duplicated() {
    let mut app = app_with_one_issue();
    let id = app
        .harness
        .register("org/r#7".into(), "agentx".into(), String::new());
    assert_eq!(
        app.launch_action(Some("agentx")),
        LaunchAction::Attach(id),
        "pressing A twice must not start a second agent on one ticket"
    );
}

#[test]
fn an_exited_session_asks_before_discarding_its_output() {
    let mut app = app_with_one_issue();
    let id = app
        .harness
        .register("org/r#7".into(), "agentx".into(), String::new());
    app.harness.mark_exited(id, 0);
    assert_eq!(
        app.launch_action(Some("agentx")),
        LaunchAction::ConfirmRelaunch(id)
    );
}

#[test]
fn a_session_for_another_issue_does_not_block_this_one() {
    let mut app = app_with_one_issue();
    app.harness
        .register("org/r#99".into(), "agentx".into(), String::new());
    assert!(matches!(
        app.launch_action(Some("agentx")),
        LaunchAction::Spawn { .. }
    ));
}

#[test]
fn sessions_survive_switching_org() {
    // An agent working a ticket is unaffected by the list being pointed
    // elsewhere — `switch_org` must not sweep the registry.
    let mut app = app_with_one_issue();
    app.harness
        .register("org/r#7".into(), "agentx".into(), String::new());
    app.switch_org("other".into());
    assert_eq!(app.harness.sessions.len(), 1);
    assert!(app.harness.has_running());
}
