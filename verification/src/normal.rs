//! Keys of the issue list and the detail pane beside it.
use vstd::prelude::*;

use crate::app::{short_ref, App};
use crate::detail::{clamp_int, sel_at, sel_pos, DetailState};
use crate::filters::StateFilter;
use crate::help::HelpTopic;
use crate::keys::{
    is_fetch_comments, opt_view, same_id, sel_id, selected_id, status_is, Effect, Key, KeyCode, KeyEnv,
    ViewMetrics,
};
use crate::mode::{ConfirmChoice, DetailSel, Focus, HarnessConfirm, InputKind, Mode};
use crate::session_keys::{launch_key, launch_key_step, open_session_picker, session_picker_opened};
use crate::picker::PickerState;
use crate::pr::PrState;
use crate::text::{join, join_strings, owned, str_views};
use crate::types::{PrRef, RepoIssues};
use crate::threads::{cached, issue_comment_count};
use crate::types::Comment;

verus! {

/// The thread the pane can show for issue `id` without a request: the
/// cached one, or an empty one when the issue has no comments.
pub open spec fn thread_at_hand(a: App, id: Seq<char>) -> Option<Seq<Comment>> {
    match cached(a.comment_cache@, id) {
        Some(cs) => Some(cs),
        None => if issue_comment_count(a.repos@, id) == Some(0u64) {
            Some(Seq::empty())
        } else {
            None
        },
    }
}

/// The loaded thread, as a sequence.
pub open spec fn thread_view(c: Option<Vec<Comment>>) -> Option<Seq<Comment>> {
    match c {
        Some(v) => Some(v@),
        None => None,
    }
}

/// What follows a selection move while the detail pane is open: when the
/// selected issue changed (from `prev`), the pane scrolls to the top and
/// shows the new issue's thread, fetching it when it is not at hand; a
/// header row empties the pane. Otherwise nothing changes.
pub open spec fn navigated(a: App, b: App, prev: Option<Seq<char>>, fx: Seq<Effect>) -> bool {
    if !a.detail.open || sel_id(a) == prev {
        b == a && fx.len() == 0
    } else {
        &&& b == (App {
            detail: DetailState {
                sel: DetailSel::Body,
                body_scroll: 0,
                comments_scroll: 0,
                comments: b.detail.comments,
                ..a.detail
            },
            ..a
        })
        &&& match sel_id(a) {
            None => b.detail.comments.is_none() && fx.len() == 0,
            Some(id) => {
                &&& thread_view(b.detail.comments) == thread_at_hand(a, id)
                &&& if thread_at_hand(a, id).is_none() {
                    fx.len() == 1 && is_fetch_comments(fx[0], id)
                } else {
                    fx.len() == 0
                }
            },
        }
    }
}

/// Settle the detail pane after the selection moved away from `prev`.
pub fn nav(app: &mut App, prev: Option<String>) -> (fx: Vec<Effect>)
    ensures
        navigated(*old(app), *final(app), opt_view(prev), fx@),
{
    let mut fx: Vec<Effect> = Vec::new();
    if !app.detail.open {
        return fx;
    }
    let current = selected_id(app);
    if same_id(&current, &prev) {
        return fx;
    }
    app.detail.reset_scroll();
    match current {
        Some(id) => {
            let r = app.load_comments(id);
            proof {
                if app.detail.comments is Some && app.detail.comments.unwrap()@.len() == 0 {
                    assert(app.detail.comments.unwrap()@ =~= Seq::<Comment>::empty());
                }
            }
            match r {
                Some(id) => {
                    fx.push(Effect::FetchComments(id));
                },
                None => {},
            }
        },
        None => {
            app.detail.comments = None;
        },
    }
    fx
}

/// `hi` less `view`, stopping at zero.
pub open spec fn sat_sub(hi: int, view: int) -> int {
    if hi > view {
        hi - view
    } else {
        0
    }
}

/// Scrolling the selected detail region by `lines`: the body within its
/// content, a comment within its own span.
pub open spec fn detail_scrolled(a: App, b: App, lines: int, view: ViewMetrics) -> bool {
    match a.detail.sel {
        DetailSel::Body => if a.spec_selected_issue().is_none() {
            b == a
        } else {
            b == (App {
                detail: DetailState {
                    body_scroll: clamp_int(
                        a.detail.body_scroll + lines,
                        0,
                        sat_sub(view.body_content as int, view.body_view as int),
                    ) as u16,
                    ..a.detail
                },
                ..a
            })
        },
        DetailSel::Comment(i) => if a.detail.comments is Some && i < a.detail.comments.unwrap()@.len()
            && i < view.comment_spans@.len() {
            let top = view.comment_spans@[i as int].0 as int;
            let hi = top + sat_sub(view.comment_spans@[i as int].1 as int, view.comments_view as int);
            b == (App {
                detail: DetailState {
                    comments_scroll: clamp_int(
                        a.detail.comments_scroll + lines,
                        top,
                        if hi < top {
                            top
                        } else {
                            hi
                        },
                    ) as u16,
                    ..a.detail
                },
                ..a
            })
        } else {
            b == a
        },
    }
}

/// The drawn spans fit the terminal's line numbers.
pub open spec fn spans_fit(view: ViewMetrics) -> bool {
    forall|k: int|
        0 <= k < view.comment_spans@.len() ==> #[trigger] view.comment_spans@[k].0 + view.comment_spans@[k].1
            <= u16::MAX
}

/// Scroll the selected detail region by `lines`, clamped to its extent.
pub fn detail_scroll(app: &mut App, lines: isize, view: &ViewMetrics)
    requires
        spans_fit(*view),
    ensures
        detail_scrolled(*old(app), *final(app), lines as int, *view),
{
    match app.detail.sel {
        DetailSel::Body => {
            if app.selected_issue().is_none() {
                return;
            }
            let max: u16 = if view.body_content > view.body_view {
                view.body_content - view.body_view
            } else {
                0
            };
            app.detail.scroll_body(lines, max);
        },
        DetailSel::Comment(i) => {
            let n = app.detail.comment_count();
            if i < n && i < view.comment_spans.len() {
                let (top, height) = view.comment_spans[i];
                assert(top + height <= u16::MAX);
                let extra: u16 = if height > view.comments_view {
                    height - view.comments_view
                } else {
                    0
                };
                app.detail.scroll_comment(lines, top, top + extra);
            }
        },
    }
}

/// The PageUp/PageDown step: the selected region's viewport height.
pub fn detail_page_rows(app: &App, view: &ViewMetrics) -> (r: isize)
    ensures
        r == (match app.detail.sel {
            DetailSel::Body => view.body_view as int,
            DetailSel::Comment(_) => view.comments_view as int,
        }),
{
    match app.detail.sel {
        DetailSel::Body => view.body_view as isize,
        DetailSel::Comment(_) => view.comments_view as isize,
    }
}

/// After the selection lands on a comment: its card's top at the top of
/// the comments region.
pub open spec fn snapped(a: App, b: App, view: ViewMetrics) -> bool {
    match a.detail.sel {
        DetailSel::Comment(i) => if a.detail.comments is Some && i < view.comment_spans@.len() {
            b == (App {
                detail: DetailState { comments_scroll: view.comment_spans@[i as int].0, ..a.detail },
                ..a
            })
        } else {
            b == a
        },
        DetailSel::Body => b == a,
    }
}

pub fn snap_after_select(app: &mut App, view: &ViewMetrics)
    ensures
        snapped(*old(app), *final(app), *view),
{
    if let DetailSel::Comment(i) = app.detail.sel {
        if app.detail.comments.is_some() && i < view.comment_spans.len() {
            app.detail.snap_comment(view.comment_spans[i].0);
        }
    }
}

/// `move_selection(delta)` as a value.
pub open spec fn moved(a: App, delta: int) -> App {
    App {
        selected: if a.rows@.len() == 0 {
            a.selected
        } else {
            clamp_int(a.selected + delta, 0, a.rows@.len() - 1) as usize
        },
        ..a
    }
}

/// `cycle_focus` as a value.
pub open spec fn cycled(a: App) -> App {
    App {
        focus: if a.detail.open {
            match a.focus {
                Focus::List => Focus::Detail,
                Focus::Detail => Focus::List,
            }
        } else {
            a.focus
        },
        ..a
    }
}

/// The detail selection stepped by `delta` cards, wrapping.
pub open spec fn reselected(a: App, delta: int) -> App {
    App {
        detail: DetailState {
            sel: sel_at((sel_pos(a.detail.sel) + delta) % ((a.detail.spec_comment_count() + 1) as int)),
            ..a.detail
        },
        ..a
    }
}

/// A single-line input opened on `text` for `kind`.
pub open spec fn input_opened(a: App, b: App, kind: InputKind, text: Seq<char>) -> bool {
    &&& b == (App { input: b.input, mode: Mode::Input(kind), ..a })
    &&& b.input.buffer@ == text
    &&& b.input.cursor == text.len()
}

/// Help opened on `topic`, returning to where it was opened from.
pub open spec fn help_opened(a: App, b: App, topic: HelpTopic) -> bool {
    &&& b == (App { mode: Mode::Help(topic), help: b.help, ..a })
    &&& b.help.scroll == 0
    &&& b.help.return_to == (if a.mode is Help {
        a.help.return_to
    } else {
        a.mode
    })
}

/// The repo group of the selection.
pub open spec fn sel_repo(a: App) -> Option<RepoIssues> {
    match a.spec_selected_repo_idx() {
        Some(ri) => Some(a.repos@[ri as int]),
        None => None,
    }
}

/// The effects of a thread fetch for `id`, if any.
pub open spec fn fetch_for(fx: Seq<Effect>, id: Option<Seq<char>>) -> bool {
    match id {
        Some(i) => fx.len() == 1 && is_fetch_comments(fx[0], i),
        None => fx.len() == 0,
    }
}

/// The line an `l`/`p` key leaves: the picker waiting on issue `i` of repo
/// `r`, with the status naming what loads.
pub open spec fn options_requested(a: App, b: App, fx: Seq<Effect>, labels: bool) -> bool {
    match (a.spec_selected_issue(), sel_repo(a)) {
        (Some(i), Some(r)) => {
            &&& b == (App {
                picker: PickerState {
                    label_issue: if labels {
                        b.picker.label_issue
                    } else {
                        a.picker.label_issue
                    },
                    priority_issue: if labels {
                        a.picker.priority_issue
                    } else {
                        b.picker.priority_issue
                    },
                    ..a.picker
                },
                status: b.status,
                ..a
            })
            &&& fx.len() == 1
            &&& if labels {
                &&& opt_view(b.picker.label_issue) == Some(i.id@)
                &&& status_is(b, "loading labels\u{2026}"@)
                &&& fx[0] matches Effect::FetchLabelOptions { org, repo, issue_id } && org == a.org
                    && repo == r.repo && issue_id == i.id
            } else {
                &&& opt_view(b.picker.priority_issue) == Some(i.id@)
                &&& status_is(b, "loading priorities\u{2026}"@)
                &&& fx[0] matches Effect::FetchPriorityOptions { org, repo, issue_id } && org == a.org
                    && repo == r.repo && issue_id == i.id
            }
        },
        _ => b == a && fx.len() == 0,
    }
}

/// The state filter stepped, fetching closed issues the first time they are
/// asked for, then the rows rebuilt and a lone group expanded.
pub open spec fn state_filter_stepped(a: App, b: App, fx: Seq<Effect>) -> bool {
    let next = a.state_filter.spec_next();
    let upgrade = next != StateFilter::Open && !a.include_closed;
    let a1 = if upgrade {
        App { state_filter: next, include_closed: true, loading: true, status: b.status, ..a }
    } else {
        App { state_filter: next, ..a }
    };
    &&& upgrade ==> status_is(b, "fetching closed issues\u{2026}"@) && fx == seq![Effect::FetchData]
    &&& !upgrade ==> fx.len() == 0
    &&& exists|mid: App| mid.rebuilt_from(a1) && #[trigger] b.expanded_from(mid)
}

/// What `P` does in the detail pane: one link opens its summary, several
/// open a picker over them.
pub open spec fn pr_key(a: App, b: App, env: KeyEnv, fx: Seq<Effect>) -> bool {
    if !env.supports_pr_summary {
        b == (App { status: b.status, ..a }) && status_is(
            b,
            "PR summaries not supported by this provider"@,
        ) && fx.len() == 0
    } else if env.pr_links@.len() == 0 {
        b == (App { status: b.status, ..a }) && status_is(b, "no PR links found"@) && fx.len() == 0
    } else if env.pr_links@.len() == 1 {
        let pr = env.pr_links@[0];
        &&& b == (App { mode: Mode::PrSummary, pr: b.pr, ..a })
        &&& b.pr.target == Some(pr)
        &&& b.pr.summary.is_none()
        &&& b.pr.links == a.pr.links
        &&& fx.len() == 1
        &&& fx[0] matches Effect::FetchPrSummary(p) && p.same(&pr)
    } else {
        &&& b.mode == Mode::PrPicker
        &&& b.pr.links@ == env.pr_links@
        &&& b.picker.options@.len() == env.pr_links@.len()
        &&& forall|k: int|
            0 <= k < env.pr_links@.len() ==> (#[trigger] b.picker.options@[k])@
                == env.pr_links@[k].spec_label()
        &&& b.picker.idx == 0
        &&& b.picker.filter@.len() == 0
        &&& b == (App {
            mode: Mode::PrPicker,
            pr: PrState { links: b.pr.links, ..a.pr },
            picker: b.picker,
            ..a
        })
        &&& fx.len() == 0
    }
}

/// One key on the issue list or the detail pane: the state it leaves and
/// the work it hands the event loop.
pub open spec fn normal_step(a: App, b: App, key: Key, view: ViewMetrics, env: KeyEnv, fx: Seq<Effect>) -> bool {
    let in_detail = a.focus == Focus::Detail;
    let none = b == a && fx.len() == 0;
    match key.code {
        KeyCode::Esc => if a.detail.open {
            b.detail_closed(a) && fx.len() == 0
        } else {
            none
        },
        KeyCode::Tab => fx.len() == 0 && if in_detail {
            snapped(reselected(a, 1), b, view)
        } else {
            b == cycled(a)
        },
        KeyCode::BackTab => fx.len() == 0 && if in_detail {
            snapped(reselected(a, -1), b, view)
        } else {
            b == cycled(a)
        },
        KeyCode::Down => scroll_or_move(a, b, 1, 1, view, fx),
        KeyCode::Up => scroll_or_move(a, b, -1, -1, view, fx),
        KeyCode::PageDown => scroll_or_move(a, b, page_of(a, view), 15, view, fx),
        KeyCode::PageUp => scroll_or_move(a, b, -page_of(a, view), -15, view, fx),
        KeyCode::Home => navigated(App { selected: 0, ..a }, b, sel_id(a), fx),
        KeyCode::End => navigated(last_row(a), b, sel_id(a), fx),
        KeyCode::Right => if in_detail {
            none
        } else {
            match a.spec_selected_issue() {
                Some(i) => if a.detail.open {
                    b == (App { focus: Focus::Detail, ..a }) && fx.len() == 0
                } else {
                    b.detail_opened(a) && fetch_for(fx, Some(i.id@))
                },
                None => b.current_collapsed(a, false) && fx.len() == 0,
            }
        },
        KeyCode::Left => if in_detail {
            b == (App { focus: Focus::List, ..a }) && fx.len() == 0
        } else {
            exists|mid: App| #[trigger] mid.current_collapsed(a, true) && navigated(mid, b, sel_id(a), fx)
        },
        KeyCode::Enter => match a.spec_selected_issue() {
            Some(i) => b.detail_opened(a) && fetch_for(fx, Some(i.id@)),
            None => b.collapse_toggled(a) && fx.len() == 0,
        },
        KeyCode::Char(c) => char_step(a, b, c, view, env, fx),
        _ => none,
    }
}

/// In the detail pane, scroll the selected region by `lines`; on the list,
/// move the selection by `rows`.
pub open spec fn scroll_or_move(a: App, b: App, lines: int, rows: int, view: ViewMetrics, fx: Seq<Effect>) -> bool {
    if a.focus == Focus::Detail {
        detail_scrolled(a, b, lines, view) && fx.len() == 0
    } else {
        navigated(moved(a, rows), b, sel_id(a), fx)
    }
}

/// The PageUp/PageDown step of the selected detail region.
pub open spec fn page_of(a: App, view: ViewMetrics) -> int {
    match a.detail.sel {
        DetailSel::Body => view.body_view as int,
        DetailSel::Comment(_) => view.comments_view as int,
    }
}

/// The selection on the last row.
pub open spec fn last_row(a: App) -> App {
    App {
        selected: if a.rows@.len() == 0 {
            0
        } else {
            (a.rows@.len() - 1) as usize
        },
        ..a
    }
}

/// The character keys of [`normal_step`].
pub open spec fn char_step(a: App, b: App, c: char, view: ViewMetrics, env: KeyEnv, fx: Seq<Effect>) -> bool {
    let in_detail = a.focus == Focus::Detail;
    let none = b == a && fx.len() == 0;
    if c == 'q' {
        fx.len() == 0 && if a.detail.open {
            b.detail_closed(a)
        } else if a.harness@.running_count() > 0 {
            b == (App { confirm_choice: ConfirmChoice::No, mode: Mode::ConfirmHarness(HarnessConfirm::Quit), ..a })
        } else {
            b == (App { should_quit: true, ..a })
        }
    } else if c == 'A' {
        launch_key_step(a, b, env, fx)
    } else if c == 'Z' {
        session_picker_opened(a, b) && fx.len() == 0
    } else if c == '?' {
        help_opened(a, b, a.context_topic_spec(env.readiness_shown)) && fx.len() == 0
    } else if c == 'r' {
        &&& b == (App { loading: true, status: b.status, ..a })
        &&& status_is(b, "reloading\u{2026}"@)
        &&& fx == seq![Effect::FetchData]
    } else if c == 'j' {
        scroll_or_move(a, b, 1, 1, view, fx)
    } else if c == 'k' {
        scroll_or_move(a, b, -1, -1, view, fx)
    } else if c == 'g' {
        navigated(App { selected: 0, ..a }, b, sel_id(a), fx)
    } else if c == 'G' {
        navigated(last_row(a), b, sel_id(a), fx)
    } else if c == ' ' {
        exists|mid: App| #[trigger] mid.collapse_toggled(a) && navigated(mid, b, sel_id(a), fx)
    } else if c == '[' {
        exists|mid: App| #[trigger] mid.all_collapsed(a, true) && navigated(mid, b, sel_id(a), fx)
    } else if c == ']' {
        exists|mid: App| #[trigger] mid.all_collapsed(a, false) && navigated(mid, b, sel_id(a), fx)
    } else if c == '/' {
        input_opened(a, b, InputKind::Search, a.filters.text@) && fx.len() == 0
    } else if c == '#' {
        input_opened(a, b, InputKind::GotoNumber, Seq::empty()) && fx.len() == 0
    } else if c == 'f' {
        state_filter_stepped(a, b, fx)
    } else if c == 'F' {
        b == (App { filter_menu_idx: 0, mode: Mode::FilterMenu, ..a }) && fx.len() == 0
    } else if c == 's' {
        b.rebuilt_from(App { sort_key: a.sort_key.spec_next(), ..a }) && fx.len() == 0
    } else if c == 'S' {
        b.rebuilt_from(App { sort_desc: !a.sort_desc, ..a }) && fx.len() == 0
    } else if c == 'w' {
        input_opened(a, b, InputKind::Org, a.org@) && fx.len() == 0
    } else if c == 'o' {
        b == a && match a.spec_selected_issue() {
            Some(i) => fx == seq![Effect::OpenUrl(i.url)],
            None => match sel_repo(a) {
                Some(r) => fx == seq![Effect::OpenUrl(r.repo_url)],
                None => fx.len() == 0,
            },
        }
    } else if c == 'O' {
        b == a && match sel_repo(a) {
            Some(r) => fx == seq![Effect::OpenUrl(r.repo_url)],
            None => fx.len() == 0,
        }
    } else if c == 'y' {
        b == a && match (a.spec_selected_issue(), sel_repo(a)) {
            (Some(i), Some(r)) => fx.len() == 1 && (fx[0] matches Effect::CopyText(t) && t@ == short_ref(
                a.copy_format@,
                a.org@,
                r.repo@,
                i.number,
            )),
            _ => fx.len() == 0,
        }
    } else if c == 'c' {
        exists|fetch: Option<Seq<char>>| #[trigger] b.comment_editor_started(a, fetch) && fetch_for(fx, fetch)
    } else if c == 'e' {
        fx.len() == 0 && if a.detail.open {
            b.card_edit_started(a)
        } else {
            b == a
        }
    } else if c == 'x' {
        fx.len() == 0 && if a.spec_selected_issue().is_some() {
            b == (App { confirm_choice: ConfirmChoice::No, mode: Mode::ConfirmState, ..a })
        } else {
            b == a
        }
    } else if c == 'a' {
        fx.len() == 0 && match a.spec_selected_issue() {
            Some(i) => input_opened(a, b, InputKind::Assignees, join(str_views(i.assignees@), ", "@)),
            None => b == a,
        }
    } else if c == 't' {
        fx.len() == 0 && match a.spec_selected_issue() {
            Some(i) => input_opened(a, b, InputKind::Title, i.title@),
            None => b == a,
        }
    } else if c == 'l' {
        options_requested(a, b, fx, true)
    } else if c == 'p' {
        options_requested(a, b, fx, false)
    } else if c == 'n' {
        match sel_repo(a) {
            Some(r) => {
                &&& b == (App { mode: Mode::IssueForm, issue_form: b.issue_form, ..a })
                &&& b.issue_form is Some
                &&& b.issue_form.unwrap().repo == r.repo
                &&& b.issue_form.unwrap().options.is_none()
                &&& fx == seq![Effect::FetchFormOptions { org: a.org, repo: r.repo }]
            },
            None => none,
        }
    } else if c == 'P' {
        if a.detail.open {
            pr_key(a, b, env, fx)
        } else {
            none
        }
    } else {
        none
    }
}

/// A key on the issue list or the detail pane.
#[verifier::rlimit(50)]
#[verifier::spinoff_prover]
pub fn handle_normal_key(app: &mut App, key: Key, view: &ViewMetrics, env: &KeyEnv) -> (fx: Vec<Effect>)
    requires
        spans_fit(*view),
    ensures
        normal_step(*old(app), *final(app), key, *view, *env, fx@),
{
    let in_detail = app.focus == Focus::Detail;
    let mut fx: Vec<Effect> = Vec::new();
    match key.code {
        KeyCode::Esc => {
            if app.detail.open {
                app.close_detail();
            }
        },
        KeyCode::Tab => {
            if in_detail {
                app.detail.select(1);
                snap_after_select(app, view);
            } else {
                app.cycle_focus();
            }
        },
        KeyCode::BackTab => {
            if in_detail {
                app.detail.select(-1);
                snap_after_select(app, view);
            } else {
                app.cycle_focus();
            }
        },
        KeyCode::Down => {
            fx = scroll_or_move_key(app, 1, 1, view);
        },
        KeyCode::Up => {
            fx = scroll_or_move_key(app, -1, -1, view);
        },
        KeyCode::PageDown => {
            let page = detail_page_rows(app, view);
            fx = scroll_or_move_key(app, page, 15, view);
        },
        KeyCode::PageUp => {
            let page = detail_page_rows(app, view);
            fx = scroll_or_move_key(app, -page, -15, view);
        },
        KeyCode::Home => {
            let prev = selected_id(app);
            app.selected = 0;
            fx = nav(app, prev);
        },
        KeyCode::End => {
            let prev = selected_id(app);
            app.selected = if app.rows.len() == 0 {
                0
            } else {
                app.rows.len() - 1
            };
            fx = nav(app, prev);
        },
        KeyCode::Right => {
            if !in_detail {
                if app.selected_issue().is_some() {
                    match app.enter_detail() {
                        Some(id) => {
                            fx.push(Effect::FetchComments(id));
                        },
                        None => {},
                    }
                } else {
                    app.set_current_collapsed(false);
                }
            }
        },
        KeyCode::Left => {
            if in_detail {
                app.focus = Focus::List;
            } else {
                let prev = selected_id(app);
                app.set_current_collapsed(true);
                let ghost mid = *app;
                fx = nav(app, prev);
                assert(mid.current_collapsed(*old(app), true) && navigated(mid, *app, sel_id(*old(app)), fx@));
            }
        },
        KeyCode::Enter => {
            match selected_id(app) {
                Some(id) => {
                    app.open_detail();
                    fx.push(Effect::FetchComments(id));
                },
                None => {
                    app.toggle_collapse();
                },
            }
        },
        KeyCode::Char(c) => {
            fx = handle_normal_char(app, c, view, env);
        },
        _ => {},
    }
    fx
}

/// Scroll the detail region or move the list selection.
fn scroll_or_move_key(app: &mut App, lines: isize, rows: isize, view: &ViewMetrics) -> (fx: Vec<Effect>)
    requires
        spans_fit(*view),
    ensures
        scroll_or_move(*old(app), *final(app), lines as int, rows as int, *view, fx@),
{
    if app.focus == Focus::Detail {
        detail_scroll(app, lines, view);
        Vec::new()
    } else {
        let prev = selected_id(app);
        app.move_selection(rows);
        nav(app, prev)
    }
}

/// Request the options of the label (`labels`) or priority picker for the
/// selected issue.
fn request_options(app: &mut App, labels: bool) -> (fx: Vec<Effect>)
    ensures
        options_requested(*old(app), *final(app), fx@, labels),
{
    let mut fx: Vec<Effect> = Vec::new();
    let issue_id = match app.selected_issue() {
        Some(i) => i.id.clone(),
        None => return fx,
    };
    let repo = match app.selected_repo() {
        Some(r) => r.repo.clone(),
        None => return fx,
    };
    let org = app.org.clone();
    if labels {
        app.picker.label_issue = Some(issue_id.clone());
        app.status = Some(owned("loading labels\u{2026}"));
        fx.push(Effect::FetchLabelOptions { org, repo, issue_id });
    } else {
        app.picker.priority_issue = Some(issue_id.clone());
        app.status = Some(owned("loading priorities\u{2026}"));
        fx.push(Effect::FetchPriorityOptions { org, repo, issue_id });
    }
    fx
}

/// A copy of a list of PR links.
fn copy_links(v: &Vec<PrRef>) -> (r: Vec<PrRef>)
    ensures
        r@ == v@,
{
    let mut out: Vec<PrRef> = Vec::new();
    let mut i: usize = 0;
    while i < v.len()
        invariant
            i <= v@.len(),
            out@ == v@.subrange(0, i as int),
        decreases v@.len() - i,
    {
        out.push(v[i].duplicate());
        i += 1;
    }
    assert(out@ =~= v@);
    out
}

/// `P` in the detail pane.
fn pr_links_key(app: &mut App, env: &KeyEnv) -> (fx: Vec<Effect>)
    ensures
        pr_key(*old(app), *final(app), *env, fx@),
{
    let mut fx: Vec<Effect> = Vec::new();
    if !env.supports_pr_summary {
        app.status = Some(owned("PR summaries not supported by this provider"));
        return fx;
    }
    let n = env.pr_links.len();
    if n == 0 {
        app.status = Some(owned("no PR links found"));
    } else if n == 1 {
        let pr = env.pr_links[0].duplicate();
        app.open_pr_summary(pr.duplicate());
        fx.push(Effect::FetchPrSummary(pr));
    } else {
        app.open_pr_picker(copy_links(&env.pr_links));
    }
    fx
}

/// The character keys of the list and the detail pane.
fn handle_normal_char(app: &mut App, c: char, view: &ViewMetrics, env: &KeyEnv) -> (fx: Vec<Effect>)
    requires
        spans_fit(*view),
    ensures
        char_step(*old(app), *final(app), c, *view, *env, fx@),
{
    if c == 'q' || c == '?' || c == 'r' || c == 'j' || c == 'k' || c == 'g' || c == 'G' || c == ' ' || c == '[' || c == ']' {
        moving_char(app, c, view, env)
    } else if c == '/' || c == '#' || c == 'f' || c == 'F' || c == 's' || c == 'S' || c == 'w' {
        view_char(app, c, view, env)
    } else if c == 'A' {
        launch_key(app, env)
    } else if c == 'Z' {
        open_session_picker(app);
        Vec::new()
    } else {
        action_char(app, c, view, env)
    }
}

/// Characters that move, reload, quit or open help.
#[verifier::rlimit(40)]
#[verifier::spinoff_prover]
fn moving_char(app: &mut App, c: char, view: &ViewMetrics, env: &KeyEnv) -> (fx: Vec<Effect>)
    requires
        spans_fit(*view),
        c == 'q' || c == '?' || c == 'r' || c == 'j' || c == 'k' || c == 'g' || c == 'G' || c == ' ' || c == '[' || c == ']',
    ensures
        char_step(*old(app), *final(app), c, *view, *env, fx@),
{
    let mut fx: Vec<Effect> = Vec::new();
    if c == 'q' {
        if app.detail.open {
            app.close_detail();
        } else if app.harness.has_running() {
            app.confirm_choice = ConfirmChoice::No;
            app.mode = Mode::ConfirmHarness(HarnessConfirm::Quit);
        } else {
            app.should_quit = true;
        }
    } else if c == '?' {
        let topic = app.context_topic(env.readiness_shown);
        app.open_help(topic);
    } else if c == 'r' {
        app.loading = true;
        app.status = Some(owned("reloading\u{2026}"));
        fx.push(Effect::FetchData);
    } else if c == 'j' {
        fx = scroll_or_move_key(app, 1, 1, view);
    } else if c == 'k' {
        fx = scroll_or_move_key(app, -1, -1, view);
    } else if c == 'g' {
        let prev = selected_id(app);
        app.selected = 0;
        fx = nav(app, prev);
    } else if c == 'G' {
        let prev = selected_id(app);
        app.selected = if app.rows.len() == 0 {
            0
        } else {
            app.rows.len() - 1
        };
        fx = nav(app, prev);
    } else if c == ' ' {
        let prev = selected_id(app);
        app.toggle_collapse();
        let ghost mid = *app;
        fx = nav(app, prev);
        assert(mid.collapse_toggled(*old(app)) && navigated(mid, *app, sel_id(*old(app)), fx@));
    } else if c == '[' || c == ']' {
        let prev = selected_id(app);
        app.set_all_collapsed(c == '[');
        let ghost mid = *app;
        fx = nav(app, prev);
        assert(mid.all_collapsed(*old(app), c == '[') && navigated(mid, *app, sel_id(*old(app)), fx@));
    }
    fx
}

/// Characters that change what the list shows.
#[verifier::rlimit(40)]
#[verifier::spinoff_prover]
fn view_char(app: &mut App, c: char, view: &ViewMetrics, env: &KeyEnv) -> (fx: Vec<Effect>)
    requires
        spans_fit(*view),
        c == '/' || c == '#' || c == 'f' || c == 'F' || c == 's' || c == 'S' || c == 'w',
    ensures
        char_step(*old(app), *final(app), c, *view, *env, fx@),
{
    let mut fx: Vec<Effect> = Vec::new();
    if c == '/' {
        let text = app.filters.text.clone();
        app.input.start(text.as_str());
        app.mode = Mode::Input(InputKind::Search);
    } else if c == '#' {
        let empty = String::new();
        app.input.start(empty.as_str());
        app.mode = Mode::Input(InputKind::GotoNumber);
        assert(app.input.buffer@ =~= Seq::<char>::empty());
    } else if c == 'f' {
        app.state_filter = app.state_filter.next();
        if app.state_filter != StateFilter::Open && !app.include_closed {
            app.include_closed = true;
            app.loading = true;
            app.status = Some(owned("fetching closed issues\u{2026}"));
            fx.push(Effect::FetchData);
        }
        app.rebuild_rows();
        let ghost mid = *app;
        app.expand_single_visible();
        assert(mid.rebuilt_from(if old(app).state_filter.spec_next() != StateFilter::Open
            && !old(app).include_closed {
            App {
                state_filter: old(app).state_filter.spec_next(),
                include_closed: true,
                loading: true,
                status: app.status,
                ..*old(app)
            }
        } else {
            App { state_filter: old(app).state_filter.spec_next(), ..*old(app) }
        }) && app.expanded_from(mid));
    } else if c == 'F' {
        app.filter_menu_idx = 0;
        app.mode = Mode::FilterMenu;
    } else if c == 's' {
        app.sort_key = app.sort_key.next();
        app.rebuild_rows();
    } else if c == 'S' {
        app.sort_desc = !app.sort_desc;
        app.rebuild_rows();
    } else if c == 'w' {
        let current = app.org.clone();
        app.input.start(current.as_str());
        app.mode = Mode::Input(InputKind::Org);
    }
    fx
}

/// Characters that act on the selected issue or repo.
#[verifier::rlimit(60)]
#[verifier::spinoff_prover]
fn action_char(app: &mut App, c: char, view: &ViewMetrics, env: &KeyEnv) -> (fx: Vec<Effect>)
    requires
        spans_fit(*view),
        !(c == 'q' || c == '?' || c == 'r' || c == 'j' || c == 'k' || c == 'g' || c == 'G' || c == ' ' || c == '[' || c == ']') && !(c == '/' || c == '#' || c == 'f' || c == 'F' || c == 's' || c == 'S' || c == 'w'),
        c != 'A' && c != 'Z',
    ensures
        char_step(*old(app), *final(app), c, *view, *env, fx@),
{
    let mut fx: Vec<Effect> = Vec::new();
    if c == 'o' {
        match app.selected_issue() {
            Some(i) => {
                fx.push(Effect::OpenUrl(i.url.clone()));
            },
            None => match app.selected_repo() {
                Some(r) => {
                    fx.push(Effect::OpenUrl(r.repo_url.clone()));
                },
                None => {},
            },
        }
    } else if c == 'O' {
        match app.selected_repo() {
            Some(r) => {
                fx.push(Effect::OpenUrl(r.repo_url.clone()));
            },
            None => {},
        }
    } else if c == 'y' {
        match app.selected_short_ref() {
            Some(r) => {
                fx.push(Effect::CopyText(r));
            },
            None => {},
        }
    } else if c == 'c' {
        let fetch = app.start_comment_editor();
        match fetch {
            Some(id) => {
                fx.push(Effect::FetchComments(id));
            },
            None => {},
        }
    } else if c == 'e' {
        if app.detail.open {
            app.start_edit_selected_card();
        }
    } else if c == 'x' {
        if app.selected_issue().is_some() {
            app.confirm_choice = ConfirmChoice::No;
            app.mode = Mode::ConfirmState;
        }
    } else if c == 'a' {
        let current = match app.selected_issue() {
            Some(i) => join_strings(i.assignees.as_slice(), ", "),
            None => return fx,
        };
        app.input.start(current.as_str());
        app.mode = Mode::Input(InputKind::Assignees);
    } else if c == 't' {
        let title = match app.selected_issue() {
            Some(i) => i.title.clone(),
            None => return fx,
        };
        app.input.start(title.as_str());
        app.mode = Mode::Input(InputKind::Title);
    } else if c == 'l' || c == 'p' {
        fx = request_options(app, c == 'l');
    } else if c == 'n' {
        match app.selected_repo() {
            Some(r) => {
                let repo = r.repo.clone();
                let org = app.org.clone();
                app.open_issue_form(repo.clone());
                fx.push(Effect::FetchFormOptions { org, repo });
            },
            None => {},
        }
    } else if c == 'P' {
        if app.detail.open {
            fx = pr_links_key(app, env);
        }
    }
    fx
}

/// `o` opens the selected issue's own page: on an issue row exactly one
/// `OpenUrl` with that issue's URL, whatever its repo's URL is; only a
/// repo header row opens the repo's page. `O` always opens the repo's
/// page. Neither key changes the app.
pub proof fn law_o_opens_the_issue_and_capital_o_the_repo(
    a: App,
    b: App,
    ctrl: bool,
    view: ViewMetrics,
    env: KeyEnv,
    fx: Seq<Effect>,
    upper: bool,
)
    requires
        normal_step(a, b, Key { code: KeyCode::Char(if upper { 'O' } else { 'o' }), ctrl }, view, env, fx),
    ensures
        b == a,
        !upper ==> match a.spec_selected_issue() {
            Some(i) => fx.len() == 1 && fx[0] == Effect::OpenUrl(i.url),
            None => match a.spec_selected_repo_idx() {
                Some(ri) => fx == seq![Effect::OpenUrl(a.repos@[ri as int].repo_url)],
                None => fx.len() == 0,
            },
        },
        upper ==> match a.spec_selected_repo_idx() {
            Some(ri) => fx == seq![Effect::OpenUrl(a.repos@[ri as int].repo_url)],
            None => fx.len() == 0,
        },
{
}

/// `y` on an issue row copies that issue's short reference, rendered from
/// the copy format with the org, the issue's repo and its number, and
/// changes nothing; elsewhere it does nothing.
pub proof fn law_y_copies_the_short_reference(a: App, b: App, ctrl: bool, view: ViewMetrics, env: KeyEnv, fx: Seq<Effect>)
    requires
        normal_step(a, b, Key { code: KeyCode::Char('y'), ctrl }, view, env, fx),
    ensures
        b == a,
        match (a.spec_selected_issue(), a.spec_selected_repo_idx()) {
            (Some(i), Some(ri)) => fx.len() == 1 && (fx[0] matches Effect::CopyText(t) && t@ == short_ref(
                a.copy_format@,
                a.org@,
                a.repos@[ri as int].repo@,
                i.number,
            )),
            _ => fx.len() == 0,
        },
{
}

} // verus!
