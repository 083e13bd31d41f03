//! The application state machine: rows, grouping, filters, detail pane,
//! comment threads, forms and popups, driven through `App`'s methods.
#![allow(unused_imports, dead_code, unused_mut, unused_variables)]

use chrono::{Datelike, NaiveDate, TimeZone, Utc};
use issues_tui::app::App;
use issues_tui::detail::{comment_card_lines, DetailState};
use issues_tui::editor::{BodyEditor, InputState};
use issues_tui::filters::{label_filter_matches, parse_date, priority_label_set, StateFilter};
use issues_tui::form::IssueForm;
use issues_tui::help::HelpTopic;
use issues_tui::mode::{
    CommentFocus, DetailSel, EditorTarget, Focus, InputKind, Mode, PrTarget, Row, FILTER_HIDE_EMPTY_IDX,
};
use issues_tui::sorting::{sort_issues, SortKey};
use issues_tui::types::{
    Comment, FormOptions, IdName, Issue, IssueState, Label, PrRef, PrSummary, RepoIssues, RepoLabel,
};

fn ts(y: i32, mo: u32, d: u32) -> i64 {
    Utc.with_ymd_and_hms(y, mo, d, 0, 0, 0).unwrap().timestamp()
}

fn issue(number: u64, title: &str, state: IssueState) -> Issue {
    Issue {
        id: format!("I_{number}"),
        number,
        title: title.into(),
        body: String::new(),
        state,
        url: format!("https://github.com/o/r/issues/{number}"),
        author: "pgmac".into(),
        assignees: vec![],
        labels: vec![],
        comment_count: 0,
        created_at: ts(2026, 6, number as u32 % 28 + 1),
        updated_at: ts(2026, 7, number as u32 % 28 + 1),
        closed_at: None,
    }
}

fn priority_issue(number: u64, priority: Option<&str>) -> Issue {
    let mut i = issue(number, "t", IssueState::Open);
    if let Some(p) = priority {
        i.labels = vec![Label {
            name: format!("priority:{p}"),
            color: String::new(),
        }];
    }
    i
}

fn input(text: &str, cursor: usize) -> InputState {
    InputState {
        buffer: text.to_string(),
        cursor,
    }
}

fn repo_label(name: &str) -> RepoLabel {
    RepoLabel {
        id: format!("L_{name}"),
        name: name.into(),
    }
}

fn form_options() -> FormOptions {
    let id_name = |id: &str, name: &str| IdName {
        id: id.into(),
        name: name.into(),
    };
    FormOptions {
        repo_id: "R_repo".into(),
        labels: vec![
            id_name("L_bug", "bug"),
            id_name("L_enh", "enhancement"),
            id_name("L_ph", "priority:high"),
            id_name("L_pl", "priority:low"),
        ],
        users: vec![id_name("U_pgmac", "pgmac"), id_name("U_bot", "bot")],
        milestones: vec![id_name("M_1", "v1.0")],
        projects: vec![id_name("P_1", "Homelab")],
        issue_types: vec![id_name("T_bug", "Bug"), id_name("T_feat", "Feature")],
    }
}

fn app_with(repos: Vec<RepoIssues>) -> App {
    let mut app = App::new(
        "org".into(),
        None,
        false,
        false,
        "{owner}/{repo}#{number}".into(),
    );
    app.set_data(repos);
    app
}

fn two_repo_app() -> App {
    app_with(vec![
        RepoIssues {
            repo: "alpha".into(),
            repo_url: "u".into(),
            issues: vec![
                issue(1, "first bug", IssueState::Open),
                issue(2, "feature idea", IssueState::Open),
            ],
        },
        RepoIssues {
            repo: "beta".into(),
            repo_url: "u".into(),
            issues: vec![issue(3, "docs fix", IssueState::Open)],
        },
    ])
}

fn fv(vals: &[&str]) -> Vec<String> {
    vals.iter().map(|s| s.to_string()).collect()
}

fn comment(id: &str, body: &str) -> Comment {
    Comment {
        id: id.into(),
        author: "octocat".into(),
        created_at: Utc.with_ymd_and_hms(2026, 7, 22, 13, 6, 0).unwrap().timestamp(),
        body: body.into(),
    }
}

/// Detail pane open on issue #1 (empty body) with two comments loaded.
fn detail_app_with_comments() -> App {
    let mut app = two_repo_app();
    app.selected = 1;
    app.open_detail();
    app.detail.comments = Some(vec![
        comment("c1", "first\nsecond"),
        comment("c2", "only one line"),
    ]);
    app
}

fn picker_app(options: &[&str]) -> App {
    let mut app = two_repo_app();
    app.picker
        .start(options.iter().map(|s| s.to_string()).collect(), 0);
    app
}

fn sample_targets() -> Vec<PrTarget> {
    [
        ("https://github.com/o/r/pull/1", 0u16),
        ("https://github.com/o/r/runs/1", 12),
        ("https://github.com/o/r/runs/2", 13),
        ("https://github.com/o/r/actions/runs/42", 16),
        ("https://github.com/o/r/actions/runs/7", 19),
    ]
    .into_iter()
    .map(|(url, line)| PrTarget {
        url: url.into(),
        line,
    })
    .collect()
}


fn select_issue(app: &mut App, id: &str) {
    let idx = app
        .rows
        .iter()
        .position(|row| match row {
            Row::Issue {
                repo_idx,
                issue_idx,
            } => app.repos[*repo_idx].issues[*issue_idx].id == id,
            Row::RepoHeader { .. } => false,
        })
        .expect("issue row present");
    app.selected = idx;
}

fn app_with_empty_repo() -> App {
    app_with(vec![
        RepoIssues {
            repo: "alpha".into(),
            repo_url: "u".into(),
            issues: vec![issue(1, "first bug", IssueState::Open)],
        },
        RepoIssues {
            repo: "empty-repo".into(),
            repo_url: "u".into(),
            issues: vec![],
        },
    ])
}

/// A resolved pull request, as the popup state holds it.
fn sample_pr_lookup(pr: PrRef) -> PrSummary {
    PrSummary {
        pr,
        title: "t".into(),
        body: String::new(),
    }
}

/// The same summary; the checks and runs it would list live in the
/// popup's rendered targets, which the tests pass in directly.
fn sample_pr_summary_with_checks(pr: PrRef) -> PrSummary {
    sample_pr_lookup(pr)
}

#[test]
fn app_rows_group_by_repo_with_headers() {
    let app = two_repo_app();
    assert_eq!(app.rows.len(), 5); // 2 headers + 3 issues
    assert!(matches!(app.rows[0], Row::RepoHeader { repo_idx: 0 }));
    assert!(matches!(app.rows[3], Row::RepoHeader { repo_idx: 1 }));
}

#[test]
fn app_collapse_hides_issue_rows_but_keeps_header() {
    let mut app = two_repo_app();
    app.selected = 0; // alpha header
    app.toggle_collapse();
    assert_eq!(app.rows.len(), 3); // alpha header + beta header + beta issue
    app.toggle_collapse();
    assert_eq!(app.rows.len(), 5);
}

#[test]
fn app_default_collapsed_starts_all_groups_folded() {
    let mut app = App::new(
        "org".into(),
        None,
        false,
        true,
        "{owner}/{repo}#{number}".into(),
    );
    app.set_data(vec![
        RepoIssues {
            repo: "alpha".into(),
            repo_url: "u".into(),
            issues: vec![issue(1, "a", IssueState::Open)],
        },
        RepoIssues {
            repo: "beta".into(),
            repo_url: "u".into(),
            issues: vec![issue(2, "b", IssueState::Open)],
        },
    ]);
    assert_eq!(app.rows.len(), 2); // headers only
    assert_eq!(app.visible_issue_count(), 0);
}

#[test]
fn app_default_collapsed_preserves_manual_expand_across_reload() {
    let repos = || {
        vec![
            RepoIssues {
                repo: "alpha".into(),
                repo_url: "u".into(),
                issues: vec![issue(1, "a", IssueState::Open)],
            },
            RepoIssues {
                repo: "beta".into(),
                repo_url: "u".into(),
                issues: vec![issue(2, "b", IssueState::Open)],
            },
        ]
    };
    let mut app = App::new(
        "org".into(),
        None,
        false,
        true,
        "{owner}/{repo}#{number}".into(),
    );
    app.set_data(repos());
    assert_eq!(app.visible_issue_count(), 0);

    app.selected = 0;
    app.toggle_collapse(); // user expands alpha
    assert_eq!(app.visible_issue_count(), 1);

    app.set_data(repos()); // reload must not re-collapse it
    assert_eq!(app.visible_issue_count(), 1);
}

#[test]
fn app_default_collapsed_applies_to_new_repo_on_reload() {
    let alpha = RepoIssues {
        repo: "alpha".into(),
        repo_url: "u".into(),
        issues: vec![issue(1, "a", IssueState::Open)],
    };
    let beta = RepoIssues {
        repo: "beta".into(),
        repo_url: "u".into(),
        issues: vec![issue(2, "b", IssueState::Open)],
    };
    let mut app = App::new(
        "org".into(),
        None,
        false,
        true,
        "{owner}/{repo}#{number}".into(),
    );
    app.set_data(vec![alpha.clone()]);
    assert!(!app.collapsed.contains(&"alpha".to_string())); // single group auto-expands

    app.set_data(vec![alpha, beta]); // beta appears for the first time
    assert!(!app.collapsed.contains(&"alpha".to_string()));
    assert!(app.collapsed.contains(&"beta".to_string()));
    assert_eq!(app.visible_issue_count(), 1);
}

#[test]
fn app_default_collapsed_single_repo_starts_expanded() {
    let mut app = App::new(
        "org".into(),
        None,
        false,
        true,
        "{owner}/{repo}#{number}".into(),
    );
    app.set_data(vec![RepoIssues {
        repo: "solo".into(),
        repo_url: "u".into(),
        issues: vec![issue(1, "a", IssueState::Open)],
    }]);
    assert!(!app.collapsed.contains(&"solo".to_string()));
    assert_eq!(app.visible_issue_count(), 1);
}

#[test]
fn app_default_collapsed_expands_only_repo_matching_initial_filter() {
    let mut app = App::new(
        "org".into(),
        Some("beta".into()),
        false,
        true,
        "{owner}/{repo}#{number}".into(),
    );
    app.set_data(vec![
        RepoIssues {
            repo: "alpha".into(),
            repo_url: "u".into(),
            issues: vec![issue(1, "a", IssueState::Open)],
        },
        RepoIssues {
            repo: "beta".into(),
            repo_url: "u".into(),
            issues: vec![issue(2, "b", IssueState::Open)],
        },
    ]);
    // beta is the single visible group → expanded; alpha still defaults
    // collapsed and shows once the filter is cleared.
    assert!(!app.collapsed.contains(&"beta".to_string()));
    assert!(app.collapsed.contains(&"alpha".to_string()));
    assert_eq!(app.visible_issue_count(), 1);

    app.filters.clear();
    app.rebuild_rows();
    assert_eq!(app.visible_issue_count(), 1); // beta open, alpha folded
    assert_eq!(app.rows.len(), 3); // two headers + beta's issue
}

#[test]
fn app_manual_collapse_of_single_repo_survives_reload() {
    let repos = || {
        vec![RepoIssues {
            repo: "solo".into(),
            repo_url: "u".into(),
            issues: vec![issue(1, "a", IssueState::Open)],
        }]
    };
    let mut app = App::new(
        "org".into(),
        None,
        false,
        true,
        "{owner}/{repo}#{number}".into(),
    );
    app.set_data(repos());
    assert_eq!(app.visible_issue_count(), 1); // auto-expanded

    app.selected = 0;
    app.toggle_collapse(); // user folds it
    assert_eq!(app.visible_issue_count(), 0);

    app.set_data(repos()); // reload must not force it back open
    assert_eq!(app.visible_issue_count(), 0);
}

#[test]
fn app_without_default_collapsed_groups_start_expanded() {
    let app = two_repo_app(); // uses default_collapsed = false
    assert_eq!(app.visible_issue_count(), 3);
}

#[test]
fn app_filtering_to_single_repo_expands_it() {
    let mut app = two_repo_app();
    app.set_all_collapsed(true);
    assert_eq!(app.visible_issue_count(), 0);

    // Repo filter leaving one visible group expands it.
    app.apply_filter_input(InputKind::FilterField(1), "beta");
    assert_eq!(app.visible_issue_count(), 1);
    assert!(!app.collapsed.contains(&"beta".to_string()));

    // Text search narrowing to one group expands too.
    app.set_all_collapsed(true);
    app.apply_filter_input(InputKind::FilterField(1), "");
    app.apply_filter_input(InputKind::Search, "docs");
    assert_eq!(app.visible_issue_count(), 1); // beta's "docs fix"
}

#[test]
fn app_filtering_to_multiple_repos_keeps_them_folded() {
    let mut app = two_repo_app();
    app.set_all_collapsed(true);
    // "a" substring-matches both alpha and beta — no auto-expand.
    app.apply_filter_input(InputKind::FilterField(1), "a");
    assert_eq!(app.visible_issue_count(), 0);
    assert_eq!(app.rows.len(), 2); // two folded headers
}

#[test]
fn app_manual_collapse_sticks_until_filters_change_again() {
    let mut app = two_repo_app();
    app.set_all_collapsed(true);
    app.apply_filter_input(InputKind::FilterField(1), "beta");
    assert_eq!(app.visible_issue_count(), 1); // auto-expanded

    app.selected = 0;
    app.toggle_collapse(); // user folds it — must stay folded
    assert_eq!(app.visible_issue_count(), 0);

    app.apply_filter_input(InputKind::Search, "docs"); // filters change
    assert_eq!(app.visible_issue_count(), 1); // re-expanded
}

#[test]
fn app_detail_pane_open_close_and_focus_cycle() {
    let mut app = two_repo_app();
    assert!(!app.detail.open);
    app.cycle_focus(); // split closed → no-op
    assert_eq!(app.focus, Focus::List);

    app.open_detail();
    assert!(app.detail.open);
    assert_eq!(app.focus, Focus::Detail);

    app.cycle_focus();
    assert_eq!(app.focus, Focus::List);
    app.cycle_focus();
    assert_eq!(app.focus, Focus::Detail);

    app.close_detail();
    assert!(!app.detail.open);
    assert_eq!(app.focus, Focus::List);
}

#[test]
fn app_switch_org_closes_detail_pane() {
    let mut app = two_repo_app();
    app.open_detail();
    app.switch_org("other".into());
    assert!(!app.detail.open);
    assert_eq!(app.focus, Focus::List);
}

#[test]
fn app_filtered_issue_count_includes_collapsed_groups() {
    let mut app = two_repo_app(); // 3 issues across alpha + beta
    app.set_all_collapsed(true);
    assert_eq!(app.visible_issue_count(), 0);
    assert_eq!(app.filtered_issue_count(), 3);

    app.filters.repo = "beta".into();
    app.rebuild_rows();
    assert_eq!(app.filtered_issue_count(), 1);

    app.filters.clear();
    app.filters.text = "bug".into();
    app.rebuild_rows();
    assert_eq!(app.filtered_issue_count(), 1);
}

#[test]
fn app_collapse_all_and_expand_all() {
    let mut app = two_repo_app();
    app.set_all_collapsed(true);
    assert_eq!(app.rows.len(), 2);
    app.set_all_collapsed(false);
    assert_eq!(app.rows.len(), 5);
}

#[test]
fn app_text_filter_matches_title_and_number() {
    let mut app = two_repo_app();
    app.filters.text = "bug".into();
    app.rebuild_rows();
    assert_eq!(app.visible_issue_count(), 1);

    app.filters.text = "#3".into();
    app.rebuild_rows();
    assert_eq!(app.visible_issue_count(), 1);
    assert_eq!(app.rows.len(), 2); // beta header + issue 3
}

#[test]
fn app_repo_filter_is_exact_when_text_names_a_repo() {
    let mut app = app_with(vec![
        RepoIssues {
            repo: "api".into(),
            repo_url: "u".into(),
            issues: vec![issue(1, "a", IssueState::Open)],
        },
        RepoIssues {
            repo: "api-gateway".into(),
            repo_url: "u".into(),
            issues: vec![issue(2, "b", IssueState::Open)],
        },
    ]);
    app.filters.repo = "api".into();
    app.rebuild_rows();
    assert_eq!(app.visible_issue_count(), 1);
    assert!(matches!(app.rows[0], Row::RepoHeader { repo_idx: 0 }));

    // Case-insensitive exact match still wins over substring.
    app.filters.repo = "API".into();
    app.rebuild_rows();
    assert_eq!(app.visible_issue_count(), 1);

    // No exact match → substring behavior matches both.
    app.filters.repo = "ap".into();
    app.rebuild_rows();
    assert_eq!(app.visible_issue_count(), 2);
}

#[test]
fn app_initial_repo_filter_applies_on_first_load() {
    let mut app = App::new(
        "org".into(),
        Some("beta".into()),
        false,
        false,
        "{owner}/{repo}#{number}".into(),
    );
    app.set_data(vec![
        RepoIssues {
            repo: "alpha".into(),
            repo_url: "u".into(),
            issues: vec![issue(1, "a", IssueState::Open)],
        },
        RepoIssues {
            repo: "beta".into(),
            repo_url: "u".into(),
            issues: vec![issue(2, "b", IssueState::Open)],
        },
    ]);
    assert!(app.filters.is_active());
    assert_eq!(app.visible_issue_count(), 1);
    assert!(matches!(app.rows[0], Row::RepoHeader { repo_idx: 1 }));

    app.filters.clear();
    app.rebuild_rows();
    assert_eq!(app.visible_issue_count(), 2);
}

#[test]
fn app_switch_org_resets_view_state() {
    let mut app = two_repo_app();
    app.filters.repo = "alpha".into();
    app.collapsed.push("beta".into());
    app.state_filter = StateFilter::All;
    app.selected = 2;
    app.rebuild_rows();

    app.switch_org("other".into());
    assert_eq!(app.org, "other");
    assert!(app.repos.is_empty());
    assert!(app.rows.is_empty());
    assert!(app.collapsed.is_empty());
    assert!(app.seen_repos.is_empty());
    assert!(!app.filters.is_active());
    assert_eq!(app.state_filter, StateFilter::Open);
    assert_eq!(app.selected, 0);
    assert!(app.loading);
}

#[test]
fn app_repo_filter_hides_whole_group() {
    let mut app = two_repo_app();
    app.filters.repo = "alph".into();
    app.rebuild_rows();
    assert_eq!(app.rows.len(), 3);
    assert!(matches!(app.rows[0], Row::RepoHeader { repo_idx: 0 }));
}

#[test]
fn app_state_filter_cycles_and_filters() {
    let mut app = app_with(vec![RepoIssues {
        repo: "r".into(),
        repo_url: "u".into(),
        issues: vec![
            issue(1, "open one", IssueState::Open),
            issue(2, "closed one", IssueState::Closed),
        ],
    }]);
    assert_eq!(app.visible_issue_count(), 1);
    app.state_filter = app.state_filter.next(); // closed
    app.rebuild_rows();
    assert_eq!(app.visible_issue_count(), 1);
    app.state_filter = app.state_filter.next(); // all
    app.rebuild_rows();
    assert_eq!(app.visible_issue_count(), 2);
}

#[test]
fn app_assignee_and_author_filters() {
    let mut a = issue(1, "a", IssueState::Open);
    a.assignees = vec!["pgmac".into()];
    let mut b = issue(2, "b", IssueState::Open);
    b.author = "someone".into();
    let mut app = app_with(vec![RepoIssues {
        repo: "r".into(),
        repo_url: "u".into(),
        issues: vec![a, b],
    }]);

    app.filters.assignee = "PGMAC".into(); // case-insensitive
    app.rebuild_rows();
    assert_eq!(app.visible_issue_count(), 1);

    app.filters.clear();
    app.filters.author = "someone".into();
    app.rebuild_rows();
    assert_eq!(app.visible_issue_count(), 1);
}

#[test]
fn app_date_filters_bound_created() {
    let mut app = two_repo_app(); // created 2026-06-02, 06-03, 06-04
    app.filters.created_after = parse_date("2026-06-03");
    app.rebuild_rows();
    assert_eq!(app.visible_issue_count(), 2);
    app.filters.created_before = parse_date("2026-06-03");
    app.rebuild_rows();
    assert_eq!(app.visible_issue_count(), 1);
}

#[test]
fn app_closed_date_filter_excludes_never_closed() {
    let mut app = two_repo_app();
    app.filters.closed_after = parse_date("2020-01-01");
    app.rebuild_rows();
    assert_eq!(app.visible_issue_count(), 0);
}

#[test]
fn app_sort_by_created_ascending_and_descending() {
    let mut issues = vec![
        issue(3, "c", IssueState::Open),
        issue(1, "a", IssueState::Open),
        issue(2, "b", IssueState::Open),
    ];
    sort_issues(&mut issues, SortKey::Created, false);
    assert_eq!(
        issues.iter().map(|i| i.number).collect::<Vec<_>>(),
        vec![1, 2, 3]
    );
    sort_issues(&mut issues, SortKey::Created, true);
    assert_eq!(
        issues.iter().map(|i| i.number).collect::<Vec<_>>(),
        vec![3, 2, 1]
    );
}

#[test]
fn app_sort_by_author() {
    let mut a = issue(1, "a", IssueState::Open);
    a.author = "zed".into();
    let mut b = issue(2, "b", IssueState::Open);
    b.author = "amy".into();
    let mut issues = vec![a, b];
    sort_issues(&mut issues, SortKey::Author, false);
    assert_eq!(issues[0].author, "amy");
}

#[test]
fn app_selection_clamps_after_filter_shrinks_rows() {
    let mut app = two_repo_app();
    app.selected = 4;
    app.filters.text = "docs".into();
    app.rebuild_rows();
    assert!(app.selected < app.rows.len());
}

#[test]
fn app_selected_issue_none_on_header() {
    let mut app = two_repo_app();
    app.selected = 0;
    assert!(app.selected_issue().is_none());
    app.selected = 1;
    assert_eq!(app.selected_issue().unwrap().number, 2); // sorted updated desc
}

#[test]
fn app_selected_short_ref_none_on_header() {
    let mut app = two_repo_app();
    app.selected = 0;
    assert!(app.selected_short_ref().is_none());
}

#[test]
fn app_selected_short_ref_default_format() {
    let mut app = two_repo_app();
    app.selected = 1; // "alpha" issue #2
    assert_eq!(app.selected_short_ref().unwrap(), "org/alpha#2");
}

#[test]
fn app_selected_short_ref_custom_format() {
    let mut app = two_repo_app();
    app.selected = 1;
    app.copy_format = "{repo}#{number} ({owner})".into();
    assert_eq!(app.selected_short_ref().unwrap(), "alpha#2 (org)");
}

#[test]
fn app_filter_input_round_trip() {
    let mut app = two_repo_app();
    app.apply_filter_input(InputKind::FilterField(4), "2026-06-03");
    assert_eq!(app.current_filter_value(4), "2026-06-03");
    app.apply_filter_input(InputKind::FilterField(4), "");
    assert_eq!(app.current_filter_value(4), "");
}

#[test]
fn app_filter_input_priority_parses_comma_list() {
    let mut app = two_repo_app();
    app.apply_filter_input(InputKind::FilterField(4), "high, urgent, ,");
    assert_eq!(app.filters.priority, vec!["high", "urgent"]);
    assert_eq!(app.current_filter_value(4), "high, urgent");
}

#[test]
fn app_apply_multi_filter_sets_and_clears() {
    let mut app = two_repo_app();
    app.apply_multi_filter(5, vec!["blocked".into(), "in-progress".into()]);
    assert_eq!(app.filters.status, vec!["blocked", "in-progress"]);
    assert!(app.filters.is_active());
    app.apply_multi_filter(5, Vec::new());
    assert!(app.filters.status.is_empty());
    assert!(!app.filters.is_active());
}

#[test]
fn app_priority_label_set_replaces_existing_priority() {
    let mut i = issue(1, "a", IssueState::Open);
    i.labels = vec![
        Label {
            name: "bug".into(),
            color: "".into(),
        },
        Label {
            name: "Priority:Low".into(),
            color: "".into(),
        },
    ];
    assert_eq!(
        priority_label_set(&i, Some("priority:high")),
        vec!["bug", "priority:high"]
    );
    // None clears the priority and keeps everything else.
    assert_eq!(priority_label_set(&i, None), vec!["bug"]);
}

#[test]
fn app_priority_label_set_adds_when_none_present() {
    let mut i = issue(1, "a", IssueState::Open);
    i.labels = vec![Label {
        name: "bug".into(),
        color: "".into(),
    }];
    assert_eq!(
        priority_label_set(&i, Some("priority:urgent")),
        vec!["bug", "priority:urgent"]
    );
}

#[test]
fn app_label_filter_matches_bare_value() {
    let mut issue = issue(1, "a", IssueState::Open);
    issue.labels = vec![Label {
        name: "priority:high".into(),
        color: "".into(),
    }];
    assert!(label_filter_matches(
        &issue,
        "priority",
        &fv(&["high"])
    ));
    assert!(label_filter_matches(
        &issue,
        "priority",
        &fv(&["priority:high"])
    ));
    assert!(!label_filter_matches(
        &issue,
        "priority",
        &fv(&["low"])
    ));
    assert!(label_filter_matches(&issue, "priority", &[]));
}

#[test]
fn app_label_filter_matches_any_of_several_values() {
    let mut issue = issue(4, "d", IssueState::Open);
    issue.labels = vec![Label {
        name: "priority:urgent".into(),
        color: "".into(),
    }];
    assert!(label_filter_matches(
        &issue,
        "priority",
        &fv(&["high", "urgent"])
    ));
    assert!(!label_filter_matches(
        &issue,
        "priority",
        &fv(&["high", "medium"])
    ));
}

#[test]
fn app_label_filter_matches_status() {
    let mut issue = issue(2, "b", IssueState::Open);
    issue.labels = vec![Label {
        name: "status:needs-review".into(),
        color: "".into(),
    }];
    assert!(label_filter_matches(
        &issue,
        "status",
        &fv(&["needs-review"])
    ));
    assert!(label_filter_matches(
        &issue,
        "status",
        &fv(&["status:needs-review"])
    ));
    assert!(!label_filter_matches(
        &issue,
        "status",
        &fv(&["blocked"])
    ));
}

#[test]
fn app_label_filter_matches_is_case_insensitive() {
    let mut issue = issue(3, "c", IssueState::Open);
    issue.labels = vec![Label {
        name: "Priority:High".into(),
        color: "".into(),
    }];
    assert!(label_filter_matches(
        &issue,
        "priority",
        &fv(&["high"])
    ));
    assert!(label_filter_matches(
        &issue,
        "priority",
        &fv(&["HIGH"])
    ));
}

#[test]
fn app_compute_repo_options() {
    let app = two_repo_app();
    let opts = app.compute_select_options(1);
    assert_eq!(opts.len(), 3);
    assert_eq!(opts[0], "\u{2014}");
    assert!(opts.contains(&"alpha".to_string()));
    assert!(opts.contains(&"beta".to_string()));
}

#[test]
fn app_compute_assignee_options() {
    let mut a = issue(1, "a", IssueState::Open);
    a.assignees = vec!["bob".into(), "alice".into()];
    let mut b = issue(2, "b", IssueState::Open);
    b.assignees = vec!["bob".into()];
    let app = app_with(vec![RepoIssues {
        repo: "r".into(),
        repo_url: "u".into(),
        issues: vec![a, b],
    }]);
    let opts = app.compute_select_options(2);
    assert_eq!(opts[0], "\u{2014}");
    assert!(opts.contains(&"alice".to_string()));
    assert!(opts.contains(&"bob".to_string()));
    assert_eq!(opts.len(), 3);
}

#[test]
fn app_compute_author_options() {
    let mut a = issue(1, "a", IssueState::Open);
    a.author = "pgmac".into();
    let mut b = issue(2, "b", IssueState::Open);
    b.author = "someone".into();
    let app = app_with(vec![RepoIssues {
        repo: "r".into(),
        repo_url: "u".into(),
        issues: vec![a, b],
    }]);
    let opts = app.compute_select_options(3);
    assert_eq!(opts[0], "\u{2014}");
    assert!(opts.contains(&"pgmac".to_string()));
    assert!(opts.contains(&"someone".to_string()));
    assert_eq!(opts.len(), 3);
}

#[test]
fn app_compute_priority_options() {
    let mut a = issue(1, "a", IssueState::Open);
    a.labels = vec![Label {
        name: "priority:high".into(),
        color: "".into(),
    }];
    let mut b = issue(2, "b", IssueState::Open);
    b.labels = vec![Label {
        name: "priority:low".into(),
        color: "".into(),
    }];
    let app = app_with(vec![RepoIssues {
        repo: "r".into(),
        repo_url: "u".into(),
        issues: vec![a, b],
    }]);
    // Multi-select options: no "—" row, rank-ordered low → urgent.
    let opts = app.compute_multi_options(4);
    assert_eq!(opts, vec!["low".to_string(), "high".to_string()]);
}

#[test]
fn app_compute_priority_options_rank_order_unknown_last() {
    let mut a = issue(1, "a", IssueState::Open);
    a.labels = ["priority:urgent", "priority:medium", "priority:P1"]
        .iter()
        .map(|n| Label {
            name: n.to_string(),
            color: "".into(),
        })
        .collect();
    let app = app_with(vec![RepoIssues {
        repo: "r".into(),
        repo_url: "u".into(),
        issues: vec![a],
    }]);
    assert_eq!(
        app.compute_multi_options(4),
        vec!["medium".to_string(), "urgent".to_string(), "P1".to_string()]
    );
}

#[test]
fn app_compute_status_options() {
    let mut a = issue(1, "a", IssueState::Open);
    a.labels = vec![Label {
        name: "status:needs-review".into(),
        color: "".into(),
    }];
    let app = app_with(vec![RepoIssues {
        repo: "r".into(),
        repo_url: "u".into(),
        issues: vec![a],
    }]);
    let opts = app.compute_multi_options(5);
    assert_eq!(opts, vec!["needs-review".to_string()]);
}

#[test]
fn app_compute_multi_options_empty_when_no_label_match() {
    let app = two_repo_app();
    assert!(app.compute_multi_options(4).is_empty());
}

#[test]
fn app_collapse_from_child_row_selects_group_header() {
    let mut app = two_repo_app();
    app.selected = 2; // second issue inside alpha
    app.set_current_collapsed(true);
    assert_eq!(app.selected, 0); // alpha header
    assert!(matches!(
        app.rows[app.selected],
        Row::RepoHeader { repo_idx: 0 }
    ));
}

#[test]
fn app_expand_via_set_current_collapsed_keeps_selection() {
    let mut app = two_repo_app();
    app.selected = 0;
    app.set_current_collapsed(true);
    app.set_current_collapsed(false);
    assert_eq!(app.selected, 0);
    assert_eq!(app.visible_issue_count(), 3);
}

#[test]
fn app_label_values_handles_mixed_case_prefix() {
    let mut a = issue(1, "a", IssueState::Open);
    a.labels = vec![Label {
        name: "Priority:High".into(),
        color: "".into(),
    }];
    let app = app_with(vec![RepoIssues {
        repo: "r".into(),
        repo_url: "u".into(),
        issues: vec![a],
    }]);
    let opts = app.compute_multi_options(4);
    assert_eq!(opts, vec!["High".to_string()]);
}

#[test]
fn app_is_select_field_returns_correct_bool() {
    assert!(!App::is_select_field(0)); // text
    assert!(App::is_select_field(1)); // repo
    assert!(App::is_select_field(2)); // assignee
    assert!(App::is_select_field(3)); // author
    assert!(!App::is_select_field(4)); // priority is multi now
    assert!(!App::is_select_field(5)); // status is multi now
    assert!(!App::is_select_field(6)); // created after
    assert!(!App::is_multi_select_field(3)); // author
    assert!(App::is_multi_select_field(4)); // priority
    assert!(App::is_multi_select_field(5)); // status
    assert!(!App::is_multi_select_field(6)); // created after
}

#[test]
fn app_enter_detail_on_header_is_none_and_keeps_pane_closed() {
    let mut app = two_repo_app();
    app.selected = 0; // repo header
    assert_eq!(app.enter_detail(), None);
    assert!(!app.detail.open);
    assert_eq!(app.focus, Focus::List);
}

#[test]
fn app_enter_detail_opens_closed_pane_and_requests_comments() {
    let mut app = two_repo_app();
    app.selected = 1; // first issue row
    app.repos[0].issues[0].comment_count = 1; // otherwise the fetch is skipped
    let expected = app.selected_issue().unwrap().id.clone();
    assert_eq!(app.enter_detail(), Some(expected));
    assert!(app.detail.open);
    assert_eq!(app.focus, Focus::Detail);
}

#[test]
fn app_enter_detail_on_open_pane_just_moves_focus() {
    let mut app = two_repo_app();
    app.selected = 1;
    app.open_detail();
    app.focus = Focus::List; // as after ← backing out
    assert_eq!(app.enter_detail(), None); // no comment refetch
    assert!(app.detail.open);
    assert_eq!(app.focus, Focus::Detail);
}

#[test]
fn app_start_comment_editor_on_header_is_none_and_keeps_pane_closed() {
    let mut app = two_repo_app();
    app.selected = 0; // repo header
    assert_eq!(app.start_comment_editor(), None);
    assert!(!app.detail.open);
    assert_eq!(app.mode, Mode::Normal);
}

#[test]
fn app_start_comment_editor_opens_closed_pane_and_requests_comments() {
    let mut app = two_repo_app();
    app.selected = 1; // first issue row
    app.repos[0].issues[0].comment_count = 1; // otherwise the fetch is skipped
    let expected = app.selected_issue().unwrap().id.clone();
    assert_eq!(app.start_comment_editor(), Some(expected));
    assert!(app.detail.open);
    assert_eq!(app.focus, Focus::Detail);
    assert_eq!(app.mode, Mode::CommentEditor);
    assert_eq!(app.editor.focus, CommentFocus::Editor);
}

#[test]
fn app_start_comment_editor_on_open_pane_keeps_comments_and_skips_refetch() {
    let mut app = two_repo_app();
    app.selected = 1;
    app.open_detail();
    app.detail.comments = Some(vec![]);
    assert_eq!(app.start_comment_editor(), None); // no comment refetch
    assert!(app.detail.open);
    assert_eq!(app.mode, Mode::CommentEditor);
    assert_eq!(app.detail.comments.as_ref().map(Vec::len), Some(0));
}

#[test]
fn app_start_comment_editor_resets_stale_editor_content_and_focus() {
    let mut app = two_repo_app();
    app.selected = 1;
    app.editor.body.insert('x');
    app.editor.focus = CommentFocus::Save;
    app.start_comment_editor();
    assert_eq!(app.editor.body.text(), "");
    assert_eq!(app.editor.focus, CommentFocus::Editor);
}

#[test]
fn app_start_edit_body_card_prefills_and_targets_body() {
    let mut app = detail_app_with_comments();
    if let Some(&Row::Issue {
        repo_idx,
        issue_idx,
    }) = app.rows.get(app.selected)
    {
        app.repos[repo_idx].issues[issue_idx].body = "current description".into();
    }
    app.detail.sel = DetailSel::Body;
    app.start_edit_selected_card();
    assert_eq!(app.mode, Mode::CommentEditor);
    assert_eq!(app.editor.target, EditorTarget::EditBody);
    assert_eq!(app.editor.body.text(), "current description");
}

#[test]
fn app_start_edit_comment_card_prefills_and_targets_comment_id() {
    let mut app = detail_app_with_comments();
    app.detail.sel = DetailSel::Comment(0); // first comment
    app.start_edit_selected_card();
    assert_eq!(app.mode, Mode::CommentEditor);
    assert_eq!(
        app.editor.target,
        EditorTarget::EditComment {
            comment_id: "c1".into()
        }
    );
    assert_eq!(app.editor.body.text(), "first\nsecond");
}

#[test]
fn app_start_edit_selected_card_noop_when_pane_closed() {
    let mut app = two_repo_app();
    app.selected = 1;
    app.start_edit_selected_card();
    assert_eq!(app.mode, Mode::Normal);
}

#[test]
fn app_parse_date_rejects_garbage() {
    assert!(parse_date("not-a-date").is_none());
    assert!(parse_date("").is_none());
    assert_eq!(
        parse_date("2026-07-05"),
        NaiveDate::from_ymd_opt(2026, 7, 5).map(|d| d.num_days_from_ce())
    );
}

#[test]
fn app_set_data_keeps_selection_on_same_issue() {
    let mut app = two_repo_app();
    select_issue(&mut app, "I_1");

    // Refresh delivers a new issue that sorts above the selected one.
    app.set_data(vec![
        RepoIssues {
            repo: "alpha".into(),
            repo_url: "u".into(),
            issues: vec![
                issue(1, "first bug", IssueState::Open),
                issue(2, "feature idea", IssueState::Open),
                issue(5, "brand new", IssueState::Open),
            ],
        },
        RepoIssues {
            repo: "beta".into(),
            repo_url: "u".into(),
            issues: vec![issue(3, "docs fix", IssueState::Open)],
        },
    ]);

    assert_eq!(app.selected_issue().map(|i| i.id.as_str()), Some("I_1"));
}

#[test]
fn app_set_data_clamps_when_selected_issue_vanishes() {
    let mut app = two_repo_app();
    select_issue(&mut app, "I_3"); // last row (beta's only issue)

    app.set_data(vec![RepoIssues {
        repo: "alpha".into(),
        repo_url: "u".into(),
        issues: vec![issue(1, "first bug", IssueState::Open)],
    }]);

    assert!(app.selected < app.rows.len());
    assert!(app.selected_issue().map_or(true, |i| i.id != "I_3"));
}

#[test]
fn app_issue_form_opens_and_options_land() {
    let mut app = two_repo_app();
    app.open_issue_form("alpha".into());
    assert_eq!(app.mode, Mode::IssueForm);
    let form = app.issue_form.as_ref().unwrap();
    assert_eq!(form.repo, "alpha");
    assert!(form.options.is_none());
    assert!(form.field_options(3).is_empty()); // loading → empty

    app.set_form_options("alpha", form_options());
    let form = app.issue_form.as_ref().unwrap();
    assert_eq!(form.field_options(2), vec!["pgmac", "bot"]);
    assert_eq!(form.field_options(5), vec!["priority:high", "priority:low"]);
}

#[test]
fn app_stale_form_options_are_dropped() {
    let mut app = two_repo_app();
    app.open_issue_form("alpha".into());
    app.set_form_options("beta", form_options()); // stale: other repo
    assert!(app.issue_form.as_ref().unwrap().options.is_none());

    app.cancel_issue_form();
    app.set_form_options("alpha", form_options()); // stale: form closed
    assert!(app.issue_form.is_none());
    assert_eq!(app.mode, Mode::Normal);
}

#[test]
fn app_picker_filter_narrows_and_maps_to_original_indices() {
    let mut app = picker_app(&["\u{2014}", "ansible", "budgeteer", "gh-issues-tui", "ghar"]);
    app.picker.filter_push('g');
    app.picker.filter_push('h');
    let filtered = app.picker.filtered();
    assert_eq!(
        filtered,
        vec![(3, "gh-issues-tui"), (4, "ghar")],
        "case-insensitive substring over original indices"
    );
    assert_eq!(app.picker.idx, 0); // reset to first match
    assert_eq!(app.picker.selected_original(), Some(3));

    app.picker.idx = 1;
    assert_eq!(app.picker.selected_original(), Some(4));
}

#[test]
fn app_picker_filter_matches_case_insensitively() {
    let mut app = picker_app(&["Docker-Nagios", "homelabia"]);
    app.picker.filter_push('N');
    app.picker.filter_push('A');
    assert_eq!(app.picker.filtered(), vec![(0, "Docker-Nagios")]);
}

#[test]
fn app_picker_backspace_and_clear_restore_and_clamp() {
    let mut app = picker_app(&["alpha", "beta"]);
    app.picker.idx = 1; // beta
    app.picker.filter_push('x'); // no matches
    assert!(app.picker.filtered().is_empty());
    assert_eq!(app.picker.selected_original(), None);

    app.picker.filter_backspace();
    assert_eq!(app.picker.filtered().len(), 2);
    assert!(app.picker.idx < 2); // clamped into range

    app.picker.filter_push('b');
    app.picker.filter_clear();
    assert_eq!(app.picker.filter, "");
    assert_eq!(app.picker.filtered().len(), 2);
}

#[test]
fn app_start_picker_resets_filter() {
    let mut app = picker_app(&["alpha"]);
    app.picker.filter_push('z');
    app.picker.start(vec!["beta".into()], 0);
    assert_eq!(app.picker.filter, "");
    assert_eq!(app.picker.filtered(), vec![(0, "beta")]);
}

#[test]
fn app_hide_empty_hides_and_toggle_reveals_zero_issue_repos() {
    let mut app = app_with_empty_repo();
    // Default: hidden — only alpha's header + issue.
    assert_eq!(app.rows.len(), 2);

    app.toggle_hide_empty();
    assert_eq!(app.rows.len(), 3); // + empty-repo header
    assert!(matches!(app.rows[2], Row::RepoHeader { repo_idx: 1 }));
    assert_eq!(app.repo_visible_count(1), 0);

    app.toggle_hide_empty();
    assert_eq!(app.rows.len(), 2);
}

#[test]
fn app_hide_empty_off_also_reveals_filtered_to_zero_groups() {
    let mut app = two_repo_app();
    app.filters.text = "docs".into(); // matches only beta's issue
    app.rebuild_rows();
    assert_eq!(app.rows.len(), 2); // beta header + its issue

    app.toggle_hide_empty();
    // alpha reappears as an empty group under the same rule.
    assert!(
        app.rows
            .iter()
            .any(|r| matches!(r, Row::RepoHeader { repo_idx: 0 }))
    );
    assert_eq!(app.repo_visible_count(0), 0);
}

#[test]
fn app_clear_filters_restores_config_default_not_false() {
    let mut app = app_with_empty_repo();
    app.set_hide_empty_default(false); // config says show empties
    app.rebuild_rows();
    assert_eq!(app.rows.len(), 3);
    assert!(!app.filters_active(), "config default is not 'active'");

    app.toggle_hide_empty(); // user hides them this session
    assert!(app.filters_active());

    app.clear_filters();
    app.rebuild_rows();
    assert!(!app.filters.hide_empty); // back to config default
    assert!(!app.filters_active());
    assert_eq!(app.rows.len(), 3);
}

#[test]
fn app_switch_org_restores_hide_empty_default() {
    let mut app = app_with_empty_repo();
    app.toggle_hide_empty();
    assert!(!app.filters.hide_empty);
    app.switch_org("other".into());
    assert!(app.filters.hide_empty); // default true restored
}

#[test]
fn app_filters_active_only_on_hide_empty_deviation() {
    let mut app = two_repo_app();
    assert!(!app.filters_active());
    app.toggle_hide_empty();
    assert!(app.filters_active());
    app.toggle_hide_empty();
    assert!(!app.filters_active());
}

#[test]
fn app_hide_empty_row_shows_yes_no_in_filter_menu() {
    let mut app = two_repo_app();
    assert_eq!(app.current_filter_value(FILTER_HIDE_EMPTY_IDX), "yes");
    app.toggle_hide_empty();
    assert_eq!(app.current_filter_value(FILTER_HIDE_EMPTY_IDX), "no");
}

#[test]
fn app_auto_refresh_blocked_in_form_modes() {
    let mut app = two_repo_app();
    assert!(app.should_auto_refresh());
    for mode in [
        Mode::IssueForm,
        Mode::IssueFormSelect(4),
        Mode::IssueFormMulti(2),
        Mode::CommentEditor,
    ] {
        app.mode = mode;
        assert!(!app.should_auto_refresh(), "{mode:?} must block refresh");
    }
}

#[test]
fn app_auto_refresh_gated_by_loading_rate_limit_and_mode() {
    let mut app = two_repo_app(); // set_data cleared `loading`
    assert!(app.should_auto_refresh());

    app.loading = true;
    assert!(!app.should_auto_refresh());
    app.loading = false;

    app.rate_limit_error = Some("rate limited".into());
    assert!(!app.should_auto_refresh());
    app.rate_limit_error = None;

    app.mode = Mode::Input(InputKind::Search);
    assert!(!app.should_auto_refresh());
    app.mode = Mode::ConfirmState;
    assert!(!app.should_auto_refresh());
    app.mode = Mode::Help(HelpTopic::Keys);
    assert!(app.should_auto_refresh());
    app.mode = Mode::Normal;
    assert!(app.should_auto_refresh());
}

#[test]
fn app_open_pr_summary_sets_target_and_loading_state() {
    let mut app = two_repo_app();
    let pr = PrRef {
        owner: "o".into(),
        repo: "r".into(),
        number: 1,
    };
    app.open_pr_summary(pr.clone());
    assert_eq!(app.mode, Mode::PrSummary);
    assert_eq!(app.pr.target, Some(pr));
    assert!(app.pr.summary.is_none());
}

#[test]
fn app_open_pr_picker_populates_options_from_links() {
    let mut app = two_repo_app();
    let links = vec![
        PrRef {
            owner: "o".into(),
            repo: "r".into(),
            number: 1,
        },
        PrRef {
            owner: "o".into(),
            repo: "r".into(),
            number: 2,
        },
    ];
    app.open_pr_picker(links);
    assert_eq!(app.mode, Mode::PrPicker);
    assert_eq!(app.picker.options, vec!["o/r#1", "o/r#2"]);
}

#[test]
fn app_set_pr_summary_applies_only_to_current_target() {
    let mut app = two_repo_app();
    let pr1 = PrRef {
        owner: "o".into(),
        repo: "r".into(),
        number: 1,
    };
    let pr2 = PrRef {
        owner: "o".into(),
        repo: "r".into(),
        number: 2,
    };
    app.open_pr_summary(pr1.clone());
    // A response for a different PR (the popup retargeted before this
    // landed) must not overwrite the current summary.
    app.pr.set_summary(&pr2, Ok(sample_pr_lookup(pr2.clone())));
    assert!(app.pr.summary.is_none());

    app.pr.set_summary(&pr1, Ok(sample_pr_lookup(pr1.clone())));
    assert!(app.pr.summary.is_some());
}

#[test]
fn app_close_detail_clears_pr_state() {
    let mut app = two_repo_app();
    app.selected = 1;
    app.open_detail();
    let pr = PrRef {
        owner: "o".into(),
        repo: "r".into(),
        number: 1,
    };
    app.open_pr_summary(pr.clone());
    app.pr.set_summary(&pr.clone(), Ok(sample_pr_lookup(pr)));
    app.close_detail();
    assert!(app.pr.target.is_none());
    assert!(app.pr.summary.is_none());
}

#[test]
fn tests_collapse_hides_issue_rows_but_keeps_header() {
    let mut app = two_repo_app();
    app.selected = 0; // alpha header
    app.toggle_collapse();
    assert_eq!(app.rows.len(), 3); // alpha header + beta header + beta issue
    app.toggle_collapse();
    assert_eq!(app.rows.len(), 5);
}

#[test]
fn jump_to_number_selects_matching_issue() {
    let mut app = two_repo_app();
    app.selected = 0;
    assert!(app.jump_to_number(3));
    assert_eq!(app.selected_issue().map(|i| i.number), Some(3));
    // Filters untouched — the list still holds every issue.
    assert!(!app.filters.is_active());
}

#[test]
fn jump_to_number_expands_collapsed_group() {
    let mut app = two_repo_app();
    // Collapse beta (holds #3), then jump into it.
    app.collapsed.push("beta".into());
    app.rebuild_rows();
    app.selected = 0; // sit on the alpha side
    assert!(app.jump_to_number(3));
    assert_eq!(app.selected_issue().map(|i| i.number), Some(3));
    assert!(!app.collapsed.contains(&"beta".to_string()));
}

#[test]
fn jump_to_number_absent_returns_false() {
    let mut app = two_repo_app();
    app.selected = 2;
    let before = app.selected;
    assert!(!app.jump_to_number(999));
    assert_eq!(app.selected, before);
    assert_eq!(app.status.as_deref(), Some("no issue #999 loaded"));
}

#[test]
fn jump_to_number_prefers_current_repo_on_collision() {
    // Both repos own an issue numbered 7.
    let mut app = app_with(vec![
        RepoIssues {
            repo: "alpha".into(),
            repo_url: "u".into(),
            issues: vec![issue(7, "alpha seven", IssueState::Open)],
        },
        RepoIssues {
            repo: "beta".into(),
            repo_url: "u".into(),
            issues: vec![issue(7, "beta seven", IssueState::Open)],
        },
    ]);
    // Selection sits on the beta group → beta's #7 should win.
    let beta_header = app
        .rows
        .iter()
        .position(|r| matches!(r, Row::RepoHeader { repo_idx: 1 }))
        .unwrap();
    app.selected = beta_header;
    assert!(app.jump_to_number(7));
    assert_eq!(
        app.selected_repo().map(|r| r.repo.clone()),
        Some("beta".into())
    );
    assert_eq!(
        app.selected_issue().map(|i| i.title.clone()),
        Some("beta seven".into())
    );
}

#[test]
fn jump_to_ref_stays_in_the_named_repo_against_the_current_one() {
    let mut app = app_with(vec![
        RepoIssues {
            repo: "alpha".into(),
            repo_url: "u".into(),
            issues: vec![issue(7, "alpha seven", IssueState::Open)],
        },
        RepoIssues {
            repo: "beta".into(),
            repo_url: "u".into(),
            issues: vec![issue(7, "beta seven", IssueState::Open)],
        },
    ]);
    let beta_header = app
        .rows
        .iter()
        .position(|r| matches!(r, Row::RepoHeader { repo_idx: 1 }))
        .unwrap();
    app.selected = beta_header;

    assert!(app.jump_to_ref(Some("alpha"), 7));
    assert_eq!(
        app.selected_issue().map(|i| i.title.clone()),
        Some("alpha seven".into()),
        "the reference named alpha, so beta's #7 must not win"
    );
}

#[test]
fn jump_to_ref_is_silent_when_the_named_repo_is_not_loaded() {
    let mut app = two_repo_app();
    app.selected = 1;
    let before = app.selected;
    app.status = None;

    assert!(!app.jump_to_ref(Some("gamma"), 1));
    assert_eq!(app.selected, before);
    assert_eq!(
        app.status, None,
        "the caller owns the message, not the jump"
    );
}

#[test]
fn jump_to_number_reveals_filtered_out_issue() {
    let mut app = app_with(vec![RepoIssues {
        repo: "alpha".into(),
        repo_url: "u".into(),
        issues: vec![
            issue(1, "open one", IssueState::Open),
            issue(2, "closed two", IssueState::Closed),
        ],
    }]);
    // State filter Open hides the closed issue; a text filter hides it too.
    app.state_filter = StateFilter::Open;
    app.filters.text = "one".into();
    app.rebuild_rows();
    assert!(app.jump_to_number(2));
    // Reveal widened the view: filters cleared and state relaxed to All.
    assert!(!app.filters.is_active());
    assert_eq!(app.state_filter, StateFilter::All);
    assert_eq!(app.selected_issue().map(|i| i.number), Some(2));
}

#[test]
fn tests_default_collapsed_starts_all_groups_folded() {
    let mut app = App::new(
        "org".into(),
        None,
        false,
        true,
        "{owner}/{repo}#{number}".into(),
    );
    app.set_data(vec![
        RepoIssues {
            repo: "alpha".into(),
            repo_url: "u".into(),
            issues: vec![issue(1, "a", IssueState::Open)],
        },
        RepoIssues {
            repo: "beta".into(),
            repo_url: "u".into(),
            issues: vec![issue(2, "b", IssueState::Open)],
        },
    ]);
    assert_eq!(app.rows.len(), 2); // headers only
    assert_eq!(app.visible_issue_count(), 0);
}

#[test]
fn tests_default_collapsed_preserves_manual_expand_across_reload() {
    let repos = || {
        vec![
            RepoIssues {
                repo: "alpha".into(),
                repo_url: "u".into(),
                issues: vec![issue(1, "a", IssueState::Open)],
            },
            RepoIssues {
                repo: "beta".into(),
                repo_url: "u".into(),
                issues: vec![issue(2, "b", IssueState::Open)],
            },
        ]
    };
    let mut app = App::new(
        "org".into(),
        None,
        false,
        true,
        "{owner}/{repo}#{number}".into(),
    );
    app.set_data(repos());
    assert_eq!(app.visible_issue_count(), 0);

    app.selected = 0;
    app.toggle_collapse(); // user expands alpha
    assert_eq!(app.visible_issue_count(), 1);

    app.set_data(repos()); // reload must not re-collapse it
    assert_eq!(app.visible_issue_count(), 1);
}

#[test]
fn tests_default_collapsed_applies_to_new_repo_on_reload() {
    let alpha = RepoIssues {
        repo: "alpha".into(),
        repo_url: "u".into(),
        issues: vec![issue(1, "a", IssueState::Open)],
    };
    let beta = RepoIssues {
        repo: "beta".into(),
        repo_url: "u".into(),
        issues: vec![issue(2, "b", IssueState::Open)],
    };
    let mut app = App::new(
        "org".into(),
        None,
        false,
        true,
        "{owner}/{repo}#{number}".into(),
    );
    app.set_data(vec![alpha.clone()]);
    assert!(!app.collapsed.contains(&"alpha".to_string())); // single group auto-expands

    app.set_data(vec![alpha, beta]); // beta appears for the first time
    assert!(!app.collapsed.contains(&"alpha".to_string()));
    assert!(app.collapsed.contains(&"beta".to_string()));
    assert_eq!(app.visible_issue_count(), 1);
}

#[test]
fn tests_default_collapsed_single_repo_starts_expanded() {
    let mut app = App::new(
        "org".into(),
        None,
        false,
        true,
        "{owner}/{repo}#{number}".into(),
    );
    app.set_data(vec![RepoIssues {
        repo: "solo".into(),
        repo_url: "u".into(),
        issues: vec![issue(1, "a", IssueState::Open)],
    }]);
    assert!(!app.collapsed.contains(&"solo".to_string()));
    assert_eq!(app.visible_issue_count(), 1);
}

#[test]
fn tests_default_collapsed_expands_only_repo_matching_initial_filter() {
    let mut app = App::new(
        "org".into(),
        Some("beta".into()),
        false,
        true,
        "{owner}/{repo}#{number}".into(),
    );
    app.set_data(vec![
        RepoIssues {
            repo: "alpha".into(),
            repo_url: "u".into(),
            issues: vec![issue(1, "a", IssueState::Open)],
        },
        RepoIssues {
            repo: "beta".into(),
            repo_url: "u".into(),
            issues: vec![issue(2, "b", IssueState::Open)],
        },
    ]);
    // beta is the single visible group → expanded; alpha still defaults
    // collapsed and shows once the filter is cleared.
    assert!(!app.collapsed.contains(&"beta".to_string()));
    assert!(app.collapsed.contains(&"alpha".to_string()));
    assert_eq!(app.visible_issue_count(), 1);

    app.filters.clear();
    app.rebuild_rows();
    assert_eq!(app.visible_issue_count(), 1); // beta open, alpha folded
    assert_eq!(app.rows.len(), 3); // two headers + beta's issue
}

#[test]
fn tests_manual_collapse_of_single_repo_survives_reload() {
    let repos = || {
        vec![RepoIssues {
            repo: "solo".into(),
            repo_url: "u".into(),
            issues: vec![issue(1, "a", IssueState::Open)],
        }]
    };
    let mut app = App::new(
        "org".into(),
        None,
        false,
        true,
        "{owner}/{repo}#{number}".into(),
    );
    app.set_data(repos());
    assert_eq!(app.visible_issue_count(), 1); // auto-expanded

    app.selected = 0;
    app.toggle_collapse(); // user folds it
    assert_eq!(app.visible_issue_count(), 0);

    app.set_data(repos()); // reload must not force it back open
    assert_eq!(app.visible_issue_count(), 0);
}

#[test]
fn tests_without_default_collapsed_groups_start_expanded() {
    let app = two_repo_app(); // uses default_collapsed = false
    assert_eq!(app.visible_issue_count(), 3);
}

#[test]
fn tests_filtering_to_single_repo_expands_it() {
    let mut app = two_repo_app();
    app.set_all_collapsed(true);
    assert_eq!(app.visible_issue_count(), 0);

    // Repo filter leaving one visible group expands it.
    app.apply_filter_input(InputKind::FilterField(1), "beta");
    assert_eq!(app.visible_issue_count(), 1);
    assert!(!app.collapsed.contains(&"beta".to_string()));

    // Text search narrowing to one group expands too.
    app.set_all_collapsed(true);
    app.apply_filter_input(InputKind::FilterField(1), "");
    app.apply_filter_input(InputKind::Search, "docs");
    assert_eq!(app.visible_issue_count(), 1); // beta's "docs fix"
}

#[test]
fn tests_filtering_to_multiple_repos_keeps_them_folded() {
    let mut app = two_repo_app();
    app.set_all_collapsed(true);
    // "a" substring-matches both alpha and beta — no auto-expand.
    app.apply_filter_input(InputKind::FilterField(1), "a");
    assert_eq!(app.visible_issue_count(), 0);
    assert_eq!(app.rows.len(), 2); // two folded headers
}

#[test]
fn tests_manual_collapse_sticks_until_filters_change_again() {
    let mut app = two_repo_app();
    app.set_all_collapsed(true);
    app.apply_filter_input(InputKind::FilterField(1), "beta");
    assert_eq!(app.visible_issue_count(), 1); // auto-expanded

    app.selected = 0;
    app.toggle_collapse(); // user folds it — must stay folded
    assert_eq!(app.visible_issue_count(), 0);

    app.apply_filter_input(InputKind::Search, "docs"); // filters change
    assert_eq!(app.visible_issue_count(), 1); // re-expanded
}

#[test]
fn tests_detail_pane_open_close_and_focus_cycle() {
    let mut app = two_repo_app();
    assert!(!app.detail.open);
    app.cycle_focus(); // split closed → no-op
    assert_eq!(app.focus, Focus::List);

    app.open_detail();
    assert!(app.detail.open);
    assert_eq!(app.focus, Focus::Detail);

    app.cycle_focus();
    assert_eq!(app.focus, Focus::List);
    app.cycle_focus();
    assert_eq!(app.focus, Focus::Detail);

    app.close_detail();
    assert!(!app.detail.open);
    assert_eq!(app.focus, Focus::List);
}

#[test]
fn tests_switch_org_closes_detail_pane() {
    let mut app = two_repo_app();
    app.open_detail();
    app.switch_org("other".into());
    assert!(!app.detail.open);
    assert_eq!(app.focus, Focus::List);
}

#[test]
fn tests_filtered_issue_count_includes_collapsed_groups() {
    let mut app = two_repo_app(); // 3 issues across alpha + beta
    app.set_all_collapsed(true);
    assert_eq!(app.visible_issue_count(), 0);
    assert_eq!(app.filtered_issue_count(), 3);

    app.filters.repo = "beta".into();
    app.rebuild_rows();
    assert_eq!(app.filtered_issue_count(), 1);

    app.filters.clear();
    app.filters.text = "bug".into();
    app.rebuild_rows();
    assert_eq!(app.filtered_issue_count(), 1);
}

#[test]
fn tests_collapse_all_and_expand_all() {
    let mut app = two_repo_app();
    app.set_all_collapsed(true);
    assert_eq!(app.rows.len(), 2);
    app.set_all_collapsed(false);
    assert_eq!(app.rows.len(), 5);
}

#[test]
fn tests_text_filter_matches_title_and_number() {
    let mut app = two_repo_app();
    app.filters.text = "bug".into();
    app.rebuild_rows();
    assert_eq!(app.visible_issue_count(), 1);

    app.filters.text = "#3".into();
    app.rebuild_rows();
    assert_eq!(app.visible_issue_count(), 1);
    assert_eq!(app.rows.len(), 2); // beta header + issue 3
}

#[test]
fn tests_repo_filter_is_exact_when_text_names_a_repo() {
    let mut app = app_with(vec![
        RepoIssues {
            repo: "api".into(),
            repo_url: "u".into(),
            issues: vec![issue(1, "a", IssueState::Open)],
        },
        RepoIssues {
            repo: "api-gateway".into(),
            repo_url: "u".into(),
            issues: vec![issue(2, "b", IssueState::Open)],
        },
    ]);
    app.filters.repo = "api".into();
    app.rebuild_rows();
    assert_eq!(app.visible_issue_count(), 1);
    assert!(matches!(app.rows[0], Row::RepoHeader { repo_idx: 0 }));

    // Case-insensitive exact match still wins over substring.
    app.filters.repo = "API".into();
    app.rebuild_rows();
    assert_eq!(app.visible_issue_count(), 1);

    // No exact match → substring behavior matches both.
    app.filters.repo = "ap".into();
    app.rebuild_rows();
    assert_eq!(app.visible_issue_count(), 2);
}

#[test]
fn tests_initial_repo_filter_applies_on_first_load() {
    let mut app = App::new(
        "org".into(),
        Some("beta".into()),
        false,
        false,
        "{owner}/{repo}#{number}".into(),
    );
    app.set_data(vec![
        RepoIssues {
            repo: "alpha".into(),
            repo_url: "u".into(),
            issues: vec![issue(1, "a", IssueState::Open)],
        },
        RepoIssues {
            repo: "beta".into(),
            repo_url: "u".into(),
            issues: vec![issue(2, "b", IssueState::Open)],
        },
    ]);
    assert!(app.filters.is_active());
    assert_eq!(app.visible_issue_count(), 1);
    assert!(matches!(app.rows[0], Row::RepoHeader { repo_idx: 1 }));

    app.filters.clear();
    app.rebuild_rows();
    assert_eq!(app.visible_issue_count(), 2);
}

#[test]
fn tests_switch_org_resets_view_state() {
    let mut app = two_repo_app();
    app.filters.repo = "alpha".into();
    app.collapsed.push("beta".into());
    app.state_filter = StateFilter::All;
    app.selected = 2;
    app.rebuild_rows();

    app.switch_org("other".into());
    assert_eq!(app.org, "other");
    assert!(app.repos.is_empty());
    assert!(app.rows.is_empty());
    assert!(app.collapsed.is_empty());
    assert!(app.seen_repos.is_empty());
    assert!(!app.filters.is_active());
    assert_eq!(app.state_filter, StateFilter::Open);
    assert_eq!(app.selected, 0);
    assert!(app.loading);
}

#[test]
fn tests_repo_filter_hides_whole_group() {
    let mut app = two_repo_app();
    app.filters.repo = "alph".into();
    app.rebuild_rows();
    assert_eq!(app.rows.len(), 3);
    assert!(matches!(app.rows[0], Row::RepoHeader { repo_idx: 0 }));
}

#[test]
fn tests_state_filter_cycles_and_filters() {
    let mut app = app_with(vec![RepoIssues {
        repo: "r".into(),
        repo_url: "u".into(),
        issues: vec![
            issue(1, "open one", IssueState::Open),
            issue(2, "closed one", IssueState::Closed),
        ],
    }]);
    assert_eq!(app.visible_issue_count(), 1);
    app.state_filter = app.state_filter.next(); // closed
    app.rebuild_rows();
    assert_eq!(app.visible_issue_count(), 1);
    app.state_filter = app.state_filter.next(); // all
    app.rebuild_rows();
    assert_eq!(app.visible_issue_count(), 2);
}

#[test]
fn tests_assignee_and_author_filters() {
    let mut a = issue(1, "a", IssueState::Open);
    a.assignees = vec!["pgmac".into()];
    let mut b = issue(2, "b", IssueState::Open);
    b.author = "someone".into();
    let mut app = app_with(vec![RepoIssues {
        repo: "r".into(),
        repo_url: "u".into(),
        issues: vec![a, b],
    }]);

    app.filters.assignee = "PGMAC".into(); // case-insensitive
    app.rebuild_rows();
    assert_eq!(app.visible_issue_count(), 1);

    app.filters.clear();
    app.filters.author = "someone".into();
    app.rebuild_rows();
    assert_eq!(app.visible_issue_count(), 1);
}

#[test]
fn tests_date_filters_bound_created() {
    let mut app = two_repo_app(); // created 2026-06-02, 06-03, 06-04
    app.filters.created_after = parse_date("2026-06-03");
    app.rebuild_rows();
    assert_eq!(app.visible_issue_count(), 2);
    app.filters.created_before = parse_date("2026-06-03");
    app.rebuild_rows();
    assert_eq!(app.visible_issue_count(), 1);
}

#[test]
fn tests_closed_date_filter_excludes_never_closed() {
    let mut app = two_repo_app();
    app.filters.closed_after = parse_date("2020-01-01");
    app.rebuild_rows();
    assert_eq!(app.visible_issue_count(), 0);
}

#[test]
fn tests_selection_clamps_after_filter_shrinks_rows() {
    let mut app = two_repo_app();
    app.selected = 4;
    app.filters.text = "docs".into();
    app.rebuild_rows();
    assert!(app.selected < app.rows.len());
}

#[test]
fn tests_selected_issue_none_on_header() {
    let mut app = two_repo_app();
    app.selected = 0;
    assert!(app.selected_issue().is_none());
    app.selected = 1;
    assert_eq!(app.selected_issue().unwrap().number, 2); // sorted updated desc
}

#[test]
fn tests_selected_short_ref_none_on_header() {
    let mut app = two_repo_app();
    app.selected = 0;
    assert!(app.selected_short_ref().is_none());
}

#[test]
fn tests_selected_short_ref_default_format() {
    let mut app = two_repo_app();
    app.selected = 1; // "alpha" issue #2
    assert_eq!(app.selected_short_ref().unwrap(), "org/alpha#2");
}

#[test]
fn tests_selected_short_ref_custom_format() {
    let mut app = two_repo_app();
    app.selected = 1;
    app.copy_format = "{repo}#{number} ({owner})".into();
    assert_eq!(app.selected_short_ref().unwrap(), "alpha#2 (org)");
}

#[test]
fn tests_filter_input_round_trip() {
    let mut app = two_repo_app();
    app.apply_filter_input(InputKind::FilterField(4), "2026-06-03");
    assert_eq!(app.current_filter_value(4), "2026-06-03");
    app.apply_filter_input(InputKind::FilterField(4), "");
    assert_eq!(app.current_filter_value(4), "");
}

#[test]
fn tests_filter_input_priority_parses_comma_list() {
    let mut app = two_repo_app();
    app.apply_filter_input(InputKind::FilterField(4), "high, urgent, ,");
    assert_eq!(app.filters.priority, vec!["high", "urgent"]);
    assert_eq!(app.current_filter_value(4), "high, urgent");
}

#[test]
fn tests_apply_multi_filter_sets_and_clears() {
    let mut app = two_repo_app();
    app.apply_multi_filter(5, vec!["blocked".into(), "in-progress".into()]);
    assert_eq!(app.filters.status, vec!["blocked", "in-progress"]);
    assert!(app.filters.is_active());
    app.apply_multi_filter(5, Vec::new());
    assert!(app.filters.status.is_empty());
    assert!(!app.filters.is_active());
}

#[test]
fn tests_compute_repo_options() {
    let app = two_repo_app();
    let opts = app.compute_select_options(1);
    assert_eq!(opts.len(), 3);
    assert_eq!(opts[0], "\u{2014}");
    assert!(opts.contains(&"alpha".to_string()));
    assert!(opts.contains(&"beta".to_string()));
}

#[test]
fn tests_compute_assignee_options() {
    let mut a = issue(1, "a", IssueState::Open);
    a.assignees = vec!["bob".into(), "alice".into()];
    let mut b = issue(2, "b", IssueState::Open);
    b.assignees = vec!["bob".into()];
    let app = app_with(vec![RepoIssues {
        repo: "r".into(),
        repo_url: "u".into(),
        issues: vec![a, b],
    }]);
    let opts = app.compute_select_options(2);
    assert_eq!(opts[0], "\u{2014}");
    assert!(opts.contains(&"alice".to_string()));
    assert!(opts.contains(&"bob".to_string()));
    assert_eq!(opts.len(), 3);
}

#[test]
fn tests_compute_author_options() {
    let mut a = issue(1, "a", IssueState::Open);
    a.author = "pgmac".into();
    let mut b = issue(2, "b", IssueState::Open);
    b.author = "someone".into();
    let app = app_with(vec![RepoIssues {
        repo: "r".into(),
        repo_url: "u".into(),
        issues: vec![a, b],
    }]);
    let opts = app.compute_select_options(3);
    assert_eq!(opts[0], "\u{2014}");
    assert!(opts.contains(&"pgmac".to_string()));
    assert!(opts.contains(&"someone".to_string()));
    assert_eq!(opts.len(), 3);
}

#[test]
fn tests_compute_priority_options() {
    let mut a = issue(1, "a", IssueState::Open);
    a.labels = vec![Label {
        name: "priority:high".into(),
        color: "".into(),
    }];
    let mut b = issue(2, "b", IssueState::Open);
    b.labels = vec![Label {
        name: "priority:low".into(),
        color: "".into(),
    }];
    let app = app_with(vec![RepoIssues {
        repo: "r".into(),
        repo_url: "u".into(),
        issues: vec![a, b],
    }]);
    // Multi-select options: no "—" row, rank-ordered low → urgent.
    let opts = app.compute_multi_options(4);
    assert_eq!(opts, vec!["low".to_string(), "high".to_string()]);
}

#[test]
fn tests_compute_priority_options_rank_order_unknown_last() {
    let mut a = issue(1, "a", IssueState::Open);
    a.labels = ["priority:urgent", "priority:medium", "priority:P1"]
        .iter()
        .map(|n| Label {
            name: n.to_string(),
            color: "".into(),
        })
        .collect();
    let app = app_with(vec![RepoIssues {
        repo: "r".into(),
        repo_url: "u".into(),
        issues: vec![a],
    }]);
    assert_eq!(
        app.compute_multi_options(4),
        vec!["medium".to_string(), "urgent".to_string(), "P1".to_string()]
    );
}

#[test]
fn tests_compute_status_options() {
    let mut a = issue(1, "a", IssueState::Open);
    a.labels = vec![Label {
        name: "status:needs-review".into(),
        color: "".into(),
    }];
    let app = app_with(vec![RepoIssues {
        repo: "r".into(),
        repo_url: "u".into(),
        issues: vec![a],
    }]);
    let opts = app.compute_multi_options(5);
    assert_eq!(opts, vec!["needs-review".to_string()]);
}

#[test]
fn tests_compute_multi_options_empty_when_no_label_match() {
    let app = two_repo_app();
    assert!(app.compute_multi_options(4).is_empty());
}

#[test]
fn tests_collapse_from_child_row_selects_group_header() {
    let mut app = two_repo_app();
    app.selected = 2; // second issue inside alpha
    app.set_current_collapsed(true);
    assert_eq!(app.selected, 0); // alpha header
    assert!(matches!(
        app.rows[app.selected],
        Row::RepoHeader { repo_idx: 0 }
    ));
}

#[test]
fn tests_expand_via_set_current_collapsed_keeps_selection() {
    let mut app = two_repo_app();
    app.selected = 0;
    app.set_current_collapsed(true);
    app.set_current_collapsed(false);
    assert_eq!(app.selected, 0);
    assert_eq!(app.visible_issue_count(), 3);
}

#[test]
fn tests_label_values_handles_mixed_case_prefix() {
    let mut a = issue(1, "a", IssueState::Open);
    a.labels = vec![Label {
        name: "Priority:High".into(),
        color: "".into(),
    }];
    let app = app_with(vec![RepoIssues {
        repo: "r".into(),
        repo_url: "u".into(),
        issues: vec![a],
    }]);
    let opts = app.compute_multi_options(4);
    assert_eq!(opts, vec!["High".to_string()]);
}

#[test]
fn tests_is_select_field_returns_correct_bool() {
    assert!(!App::is_select_field(0)); // text
    assert!(App::is_select_field(1)); // repo
    assert!(App::is_select_field(2)); // assignee
    assert!(App::is_select_field(3)); // author
    assert!(!App::is_select_field(4)); // priority is multi now
    assert!(!App::is_select_field(5)); // status is multi now
    assert!(!App::is_select_field(6)); // created after
    assert!(!App::is_multi_select_field(3)); // author
    assert!(App::is_multi_select_field(4)); // priority
    assert!(App::is_multi_select_field(5)); // status
    assert!(!App::is_multi_select_field(6)); // created after
}

#[test]
fn tests_enter_detail_on_header_is_none_and_keeps_pane_closed() {
    let mut app = two_repo_app();
    app.selected = 0; // repo header
    assert_eq!(app.enter_detail(), None);
    assert!(!app.detail.open);
    assert_eq!(app.focus, Focus::List);
}

#[test]
fn tests_enter_detail_opens_closed_pane_and_requests_comments() {
    let mut app = two_repo_app();
    app.selected = 1; // first issue row
    app.repos[0].issues[0].comment_count = 1; // otherwise the fetch is skipped
    let expected = app.selected_issue().unwrap().id.clone();
    assert_eq!(app.enter_detail(), Some(expected));
    assert!(app.detail.open);
    assert_eq!(app.focus, Focus::Detail);
}

#[test]
fn tests_enter_detail_on_open_pane_just_moves_focus() {
    let mut app = two_repo_app();
    app.selected = 1;
    app.open_detail();
    app.focus = Focus::List; // as after ← backing out
    assert_eq!(app.enter_detail(), None); // no comment refetch
    assert!(app.detail.open);
    assert_eq!(app.focus, Focus::Detail);
}

#[test]
fn tests_start_comment_editor_on_header_is_none_and_keeps_pane_closed() {
    let mut app = two_repo_app();
    app.selected = 0; // repo header
    assert_eq!(app.start_comment_editor(), None);
    assert!(!app.detail.open);
    assert_eq!(app.mode, Mode::Normal);
}

#[test]
fn tests_start_comment_editor_opens_closed_pane_and_requests_comments() {
    let mut app = two_repo_app();
    app.selected = 1; // first issue row
    app.repos[0].issues[0].comment_count = 1; // otherwise the fetch is skipped
    let expected = app.selected_issue().unwrap().id.clone();
    assert_eq!(app.start_comment_editor(), Some(expected));
    assert!(app.detail.open);
    assert_eq!(app.focus, Focus::Detail);
    assert_eq!(app.mode, Mode::CommentEditor);
    assert_eq!(app.editor.focus, CommentFocus::Editor);
}

#[test]
fn tests_start_comment_editor_on_open_pane_keeps_comments_and_skips_refetch() {
    let mut app = two_repo_app();
    app.selected = 1;
    app.open_detail();
    app.detail.comments = Some(vec![]);
    assert_eq!(app.start_comment_editor(), None); // no comment refetch
    assert!(app.detail.open);
    assert_eq!(app.mode, Mode::CommentEditor);
    assert_eq!(app.detail.comments.as_ref().map(Vec::len), Some(0));
}

#[test]
fn tests_start_comment_editor_resets_stale_editor_content_and_focus() {
    let mut app = two_repo_app();
    app.selected = 1;
    app.editor.body.insert('x');
    app.editor.focus = CommentFocus::Save;
    app.start_comment_editor();
    assert_eq!(app.editor.body.text(), "");
    assert_eq!(app.editor.focus, CommentFocus::Editor);
}

#[test]
fn detail_comment_count_reflects_loaded_thread() {
    let app = detail_app_with_comments();
    assert_eq!(app.detail.comment_count(), 2);
    let mut none = two_repo_app();
    none.selected = 1;
    none.open_detail();
    assert_eq!(none.detail.comment_count(), 0);
}

#[test]
fn select_detail_with_no_comments_stays_on_body() {
    let mut app = two_repo_app();
    app.selected = 1;
    app.open_detail();
    app.detail.comments = Some(vec![]);
    app.detail.select(1);
    assert_eq!(app.detail.sel, DetailSel::Body);
    app.detail.select(-1);
    assert_eq!(app.detail.sel, DetailSel::Body);
}

#[test]
fn tests_start_edit_body_card_prefills_and_targets_body() {
    let mut app = detail_app_with_comments();
    if let Some(&Row::Issue {
        repo_idx,
        issue_idx,
    }) = app.rows.get(app.selected)
    {
        app.repos[repo_idx].issues[issue_idx].body = "current description".into();
    }
    app.detail.sel = DetailSel::Body;
    app.start_edit_selected_card();
    assert_eq!(app.mode, Mode::CommentEditor);
    assert_eq!(app.editor.target, EditorTarget::EditBody);
    assert_eq!(app.editor.body.text(), "current description");
}

#[test]
fn tests_start_edit_comment_card_prefills_and_targets_comment_id() {
    let mut app = detail_app_with_comments();
    app.detail.sel = DetailSel::Comment(0); // first comment
    app.start_edit_selected_card();
    assert_eq!(app.mode, Mode::CommentEditor);
    assert_eq!(
        app.editor.target,
        EditorTarget::EditComment {
            comment_id: "c1".into()
        }
    );
    assert_eq!(app.editor.body.text(), "first\nsecond");
}

#[test]
fn tests_start_edit_selected_card_noop_when_pane_closed() {
    let mut app = two_repo_app();
    app.selected = 1;
    app.start_edit_selected_card();
    assert_eq!(app.mode, Mode::Normal);
}

#[test]
fn tests_set_data_keeps_selection_on_same_issue() {
    let mut app = two_repo_app();
    select_issue(&mut app, "I_1");

    // Refresh delivers a new issue that sorts above the selected one.
    app.set_data(vec![
        RepoIssues {
            repo: "alpha".into(),
            repo_url: "u".into(),
            issues: vec![
                issue(1, "first bug", IssueState::Open),
                issue(2, "feature idea", IssueState::Open),
                issue(5, "brand new", IssueState::Open),
            ],
        },
        RepoIssues {
            repo: "beta".into(),
            repo_url: "u".into(),
            issues: vec![issue(3, "docs fix", IssueState::Open)],
        },
    ]);

    assert_eq!(app.selected_issue().map(|i| i.id.as_str()), Some("I_1"));
}

#[test]
fn tests_set_data_clamps_when_selected_issue_vanishes() {
    let mut app = two_repo_app();
    select_issue(&mut app, "I_3"); // last row (beta's only issue)

    app.set_data(vec![RepoIssues {
        repo: "alpha".into(),
        repo_url: "u".into(),
        issues: vec![issue(1, "first bug", IssueState::Open)],
    }]);

    assert!(app.selected < app.rows.len());
    assert!(app.selected_issue().map_or(true, |i| i.id != "I_3"));
}

#[test]
fn tests_issue_form_opens_and_options_land() {
    let mut app = two_repo_app();
    app.open_issue_form("alpha".into());
    assert_eq!(app.mode, Mode::IssueForm);
    let form = app.issue_form.as_ref().unwrap();
    assert_eq!(form.repo, "alpha");
    assert!(form.options.is_none());
    assert!(form.field_options(3).is_empty()); // loading → empty

    app.set_form_options("alpha", form_options());
    let form = app.issue_form.as_ref().unwrap();
    assert_eq!(form.field_options(2), vec!["pgmac", "bot"]);
    assert_eq!(form.field_options(5), vec!["priority:high", "priority:low"]);
}

#[test]
fn tests_stale_form_options_are_dropped() {
    let mut app = two_repo_app();
    app.open_issue_form("alpha".into());
    app.set_form_options("beta", form_options()); // stale: other repo
    assert!(app.issue_form.as_ref().unwrap().options.is_none());

    app.cancel_issue_form();
    app.set_form_options("alpha", form_options()); // stale: form closed
    assert!(app.issue_form.is_none());
    assert_eq!(app.mode, Mode::Normal);
}

#[test]
fn tests_hide_empty_hides_and_toggle_reveals_zero_issue_repos() {
    let mut app = app_with_empty_repo();
    // Default: hidden — only alpha's header + issue.
    assert_eq!(app.rows.len(), 2);

    app.toggle_hide_empty();
    assert_eq!(app.rows.len(), 3); // + empty-repo header
    assert!(matches!(app.rows[2], Row::RepoHeader { repo_idx: 1 }));
    assert_eq!(app.repo_visible_count(1), 0);

    app.toggle_hide_empty();
    assert_eq!(app.rows.len(), 2);
}

#[test]
fn tests_hide_empty_off_also_reveals_filtered_to_zero_groups() {
    let mut app = two_repo_app();
    app.filters.text = "docs".into(); // matches only beta's issue
    app.rebuild_rows();
    assert_eq!(app.rows.len(), 2); // beta header + its issue

    app.toggle_hide_empty();
    // alpha reappears as an empty group under the same rule.
    assert!(
        app.rows
            .iter()
            .any(|r| matches!(r, Row::RepoHeader { repo_idx: 0 }))
    );
    assert_eq!(app.repo_visible_count(0), 0);
}

#[test]
fn tests_clear_filters_restores_config_default_not_false() {
    let mut app = app_with_empty_repo();
    app.set_hide_empty_default(false); // config says show empties
    app.rebuild_rows();
    assert_eq!(app.rows.len(), 3);
    assert!(!app.filters_active(), "config default is not 'active'");

    app.toggle_hide_empty(); // user hides them this session
    assert!(app.filters_active());

    app.clear_filters();
    app.rebuild_rows();
    assert!(!app.filters.hide_empty); // back to config default
    assert!(!app.filters_active());
    assert_eq!(app.rows.len(), 3);
}

#[test]
fn tests_switch_org_restores_hide_empty_default() {
    let mut app = app_with_empty_repo();
    app.toggle_hide_empty();
    assert!(!app.filters.hide_empty);
    app.switch_org("other".into());
    assert!(app.filters.hide_empty); // default true restored
}

#[test]
fn tests_filters_active_only_on_hide_empty_deviation() {
    let mut app = two_repo_app();
    assert!(!app.filters_active());
    app.toggle_hide_empty();
    assert!(app.filters_active());
    app.toggle_hide_empty();
    assert!(!app.filters_active());
}

#[test]
fn tests_hide_empty_row_shows_yes_no_in_filter_menu() {
    let mut app = two_repo_app();
    assert_eq!(app.current_filter_value(FILTER_HIDE_EMPTY_IDX), "yes");
    app.toggle_hide_empty();
    assert_eq!(app.current_filter_value(FILTER_HIDE_EMPTY_IDX), "no");
}

#[test]
fn tests_auto_refresh_blocked_in_form_modes() {
    let mut app = two_repo_app();
    assert!(app.should_auto_refresh());
    for mode in [
        Mode::IssueForm,
        Mode::IssueFormSelect(4),
        Mode::IssueFormMulti(2),
        Mode::CommentEditor,
    ] {
        app.mode = mode;
        assert!(!app.should_auto_refresh(), "{mode:?} must block refresh");
    }
}

#[test]
fn tests_auto_refresh_gated_by_loading_rate_limit_and_mode() {
    let mut app = two_repo_app(); // set_data cleared `loading`
    assert!(app.should_auto_refresh());

    app.loading = true;
    assert!(!app.should_auto_refresh());
    app.loading = false;

    app.rate_limit_error = Some("rate limited".into());
    assert!(!app.should_auto_refresh());
    app.rate_limit_error = None;

    app.mode = Mode::Input(InputKind::Search);
    assert!(!app.should_auto_refresh());
    app.mode = Mode::ConfirmState;
    assert!(!app.should_auto_refresh());
    app.mode = Mode::Help(HelpTopic::Keys);
    assert!(app.should_auto_refresh());
    app.mode = Mode::Normal;
    assert!(app.should_auto_refresh());
}

#[test]
fn tests_open_pr_summary_sets_target_and_loading_state() {
    let mut app = two_repo_app();
    let pr = PrRef {
        owner: "o".into(),
        repo: "r".into(),
        number: 1,
    };
    app.open_pr_summary(pr.clone());
    assert_eq!(app.mode, Mode::PrSummary);
    assert_eq!(app.pr.target, Some(pr));
    assert!(app.pr.summary.is_none());
}

#[test]
fn tests_open_pr_picker_populates_options_from_links() {
    let mut app = two_repo_app();
    let links = vec![
        PrRef {
            owner: "o".into(),
            repo: "r".into(),
            number: 1,
        },
        PrRef {
            owner: "o".into(),
            repo: "r".into(),
            number: 2,
        },
    ];
    app.open_pr_picker(links);
    assert_eq!(app.mode, Mode::PrPicker);
    assert_eq!(app.picker.options, vec!["o/r#1", "o/r#2"]);
}

#[test]
fn tests_set_pr_summary_applies_only_to_current_target() {
    let mut app = two_repo_app();
    let pr1 = PrRef {
        owner: "o".into(),
        repo: "r".into(),
        number: 1,
    };
    let pr2 = PrRef {
        owner: "o".into(),
        repo: "r".into(),
        number: 2,
    };
    app.open_pr_summary(pr1.clone());
    // A response for a different PR (the popup retargeted before this
    // landed) must not overwrite the current summary.
    app.pr.set_summary(&pr2, Ok(sample_pr_lookup(pr2.clone())));
    assert!(app.pr.summary.is_none());

    app.pr.set_summary(&pr1, Ok(sample_pr_lookup(pr1.clone())));
    assert!(app.pr.summary.is_some());
}

#[test]
fn tests_close_detail_clears_pr_state() {
    let mut app = two_repo_app();
    app.selected = 1;
    app.open_detail();
    let pr = PrRef {
        owner: "o".into(),
        repo: "r".into(),
        number: 1,
    };
    app.open_pr_summary(pr.clone());
    app.pr.set_summary(&pr.clone(), Ok(sample_pr_lookup(pr)));
    app.close_detail();
    assert!(app.pr.target.is_none());
    assert!(app.pr.summary.is_none());
}

#[test]
fn pr_sel_resets_on_open_close_and_refresh() {
    let mut app = two_repo_app();
    let pr1 = PrRef {
        owner: "o".into(),
        repo: "r".into(),
        number: 1,
    };
    app.open_pr_summary(pr1.clone());
    app.pr
        .set_summary(&pr1, Ok(sample_pr_summary_with_checks(pr1.clone())));
    app.pr.select(1, &sample_targets());
    assert_eq!(app.pr.sel, 1);

    app.pr.refresh();
    assert_eq!(app.pr.sel, 0);
    assert!(app.pr.summary.is_none());

    app.pr
        .set_summary(&pr1, Ok(sample_pr_summary_with_checks(pr1.clone())));
    app.pr.select(1, &sample_targets());
    assert_eq!(app.pr.sel, 1);
    app.close_pr_summary();
    assert_eq!(app.pr.sel, 0);

    app.open_pr_summary(pr1.clone());
    app.pr
        .set_summary(&pr1.clone(), Ok(sample_pr_summary_with_checks(pr1)));
    app.pr.select(1, &sample_targets());
    assert_eq!(app.pr.sel, 1);
    let pr2 = PrRef {
        owner: "o".into(),
        repo: "r".into(),
        number: 2,
    };
    app.open_pr_summary(pr2);
    assert_eq!(app.pr.sel, 0);
}

#[test]
fn load_comments_skips_the_fetch_when_the_issue_has_none() {
    let mut app = two_repo_app();
    app.selected = 1;
    let id = app.selected_issue().unwrap().id.clone();
    assert_eq!(app.repos[0].issues[0].comment_count, 0);

    // No request, and the pane shows a loaded-empty thread rather than
    // sitting on `None` waiting for a response that would never come.
    assert_eq!(app.load_comments(id), None);
    assert!(app.detail.comments.is_some());
    assert_eq!(app.detail.comment_count(), 0);
}

#[test]
fn load_comments_fetches_once_then_serves_from_cache() {
    let mut app = two_repo_app();
    app.selected = 1;
    app.repos[0].issues[0].comment_count = 2;
    let id = app.selected_issue().unwrap().id.clone();

    // First visit: a fetch is required and the pane waits.
    assert_eq!(app.load_comments(id.clone()), Some(id.clone()));
    assert!(app.detail.comments.is_none());

    app.cache_comments(id.clone(), vec![comment("c1", "one")]);

    // Second visit: served from cache, no request.
    assert_eq!(app.load_comments(id), None);
    assert_eq!(app.detail.comment_count(), 1);
}

#[test]
fn invalidate_comments_forces_the_next_load_to_refetch() {
    let mut app = two_repo_app();
    app.selected = 1;
    app.repos[0].issues[0].comment_count = 1;
    let id = app.selected_issue().unwrap().id.clone();
    app.cache_comments(id.clone(), vec![comment("c1", "one")]);
    assert_eq!(app.load_comments(id.clone()), None);

    app.invalidate_comments(&id);
    assert_eq!(app.load_comments(id.clone()), Some(id));
}

#[test]
fn set_data_clears_the_comment_cache() {
    let mut app = two_repo_app();
    app.selected = 1;
    app.repos[0].issues[0].comment_count = 1;
    let id = app.selected_issue().unwrap().id.clone();
    app.cache_comments(id.clone(), vec![comment("c1", "one")]);

    // A refetch can carry comments added elsewhere, so the cache goes.
    let repos = app.repos.clone();
    app.set_data(repos);
    assert!(app.comment_cache.is_empty());
    assert_eq!(app.load_comments(id.clone()), Some(id));
}

#[test]
fn switch_org_clears_the_comment_cache() {
    let mut app = two_repo_app();
    app.cache_comments("I_1".into(), vec![comment("c1", "one")]);
    app.switch_org("other-org".into());
    assert!(app.comment_cache.is_empty());
}

#[test]
fn comment_card_lines_counts_rules_body_and_blank() {
    assert_eq!(comment_card_lines(&comment("c", "one line")), 4); // 3 + 1
    assert_eq!(comment_card_lines(&comment("c", "a\nb\nc")), 6); // 3 + 3
}
