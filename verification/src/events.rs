//! The decisions the event loop takes: what to do with a finished
//! background task or a key, given the state. The loop itself performs the
//! I/O that the decisions ask for.
use vstd::prelude::*;

use std::collections::HashSet;

use crate::app::{eq_str, App};
use crate::detail::DetailState;
use crate::filters::{clear_option, parse_filter_list, priority_names, priority_set_options, trimmed_nonempty};
use crate::harness::HarnessView;
use crate::keys::{is_fetch_comments, opt_view, sel_id, selected_id, status_is, CommentRefresh, Effect};
use crate::mode::{Mode, SessionId};
use crate::normal::{nav, navigated};
use crate::picker::PickerState;
use crate::sorting::{is_name_sort, views, RankBy};
use crate::text::{
    decimal, eq_ic, eq_ignore_ascii_case, i32_to_string, owned, signed_decimal, split, starts_with,
    starts_with_chars, chars_of, string_push_str, u64_to_string,
};
use crate::threads::cached;
use crate::harness::SessionStatus;
use crate::types::{first_priority_label, Comment, FormOptions, Label, PrRef, PrSummary, RateLimitData, RepoIssues, RepoLabel};

verus! {

broadcast use vstd::string::group_string_axioms;

/// Comma-separated text to values: each piece trimmed, empties dropped.
pub fn split_csv(value: &str) -> (r: Vec<String>)
    ensures
        views(r@) == trimmed_nonempty(split(value@, ',')),
{
    parse_filter_list(value)
}

/// The issue whose comment thread a finished mutation should refetch: the
/// selected issue, while the detail pane is open.
pub fn comments_refresh_target(app: &App) -> (r: Option<String>)
    ensures
        !app.detail.open ==> r.is_none(),
        app.detail.open ==> match app.spec_selected_issue() {
            Some(i) => r.is_some() && r.unwrap()@ == i.id@,
            None => r.is_none(),
        },
{
    if !app.detail.open {
        return None;
    }
    match app.selected_issue() {
        Some(i) => Some(i.id.clone()),
        None => None,
    }
}


/// What a background task or a harness child reports to the event loop.
#[derive(Debug)]
pub enum AppEvent {
    Data(Result<Vec<RepoIssues>, String>),
    Comments { issue_id: String, result: Result<Vec<Comment>, String> },
    MutationDone { msg: String, comments: CommentRefresh },
    MutationFailed(String),
    /// Per-repo picker options for the new-issue form.
    FormOptions { repo: String, result: Result<FormOptions, String> },
    /// Repo labels fetched for the set-priority picker.
    PriorityOptions { issue_id: String, result: Result<Vec<RepoLabel>, String> },
    /// Repo labels fetched for the edit-labels picker.
    LabelOptions { issue_id: String, result: Result<Vec<RepoLabel>, String> },
    /// A resolved reference, fetched for the PR-summary popup.
    PrSummary { pr: PrRef, result: Result<PrSummary, String> },
    /// A harness session produced output.
    HarnessDirty(SessionId),
    /// A harness child finished.
    HarnessExited { id: SessionId, code: i32 },
}

/// `a` followed by `b`.
fn cat(a: &str, b: &str) -> (r: String)
    ensures
        r@ == a@ + b@,
{
    let mut s = owned(a);
    string_push_str(&mut s, b);
    s
}

/// Whether `s` starts with `p`.
fn has_prefix(s: &str, p: &str) -> (r: bool)
    ensures
        r == starts_with(s@, p@),
{
    let sv = chars_of(s);
    let pv = chars_of(p);
    starts_with_chars(sv.as_slice(), pv.as_slice())
}

/// Total issues over the repos.
pub open spec fn issue_total(repos: Seq<RepoIssues>) -> int
    decreases repos.len(),
{
    if repos.len() == 0 {
        0
    } else {
        issue_total(repos.drop_last()) + repos.last().issues@.len()
    }
}

proof fn lemma_issue_total_same(a: Seq<RepoIssues>, b: Seq<RepoIssues>)
    requires
        a.len() == b.len(),
        forall|k: int| 0 <= k < a.len() ==> (#[trigger] a[k]).issues@.len() == b[k].issues@.len(),
    ensures
        issue_total(a) == issue_total(b),
    decreases a.len(),
{
    if a.len() > 0 {
        lemma_issue_total_same(a.drop_last(), b.drop_last());
    }
}

proof fn lemma_issue_total_mono(a: Seq<RepoIssues>, i: int)
    requires
        0 <= i <= a.len(),
    ensures
        issue_total(a.take(i)) <= issue_total(a),
    decreases a.len() - i,
{
    if i < a.len() {
        lemma_issue_total_mono(a, i + 1);
        assert(a.take(i + 1).drop_last() =~= a.take(i));
    } else {
        assert(a.take(i) =~= a);
    }
}

fn count_issues(repos: &Vec<RepoIssues>) -> (r: usize)
    requires
        issue_total(repos@) <= usize::MAX,
    ensures
        r == issue_total(repos@),
{
    let mut total: usize = 0;
    let mut i: usize = 0;
    while i < repos.len()
        invariant
            i <= repos@.len(),
            total == issue_total(repos@.take(i as int)),
            issue_total(repos@) <= usize::MAX,
        decreases repos@.len() - i,
    {
        proof {
            assert(repos@.take(i + 1).drop_last() =~= repos@.take(i as int));
            lemma_issue_total_mono(repos@, i + 1);
        }
        total = total + repos[i].issues.len();
        i += 1;
    }
    assert(repos@.take(i as int) =~= repos@);
    total
}

/// The status after a load.
pub open spec fn loaded_text(auto: bool, issues: int, repos: int) -> Seq<char> {
    (if auto {
        "auto-refreshed"@
    } else {
        "loaded"@
    }) + " "@ + decimal(issues as nat) + " issues across "@ + decimal(repos as nat) + " repos"@
}

/// A load that arrived: the data goes in with the selection kept, the detail
/// pane resettled, and the status counting what came.
pub open spec fn data_arrived(a: App, b: App, repos: Vec<RepoIssues>, fx: Seq<Effect>) -> bool {
    exists|mid: App, c: App|
        #![trigger mid.data_loaded(App { rate_limit_error: None, ..a }, repos), navigated(mid, c, sel_id(a), fx)]
        mid.data_loaded(App { rate_limit_error: None, ..a }, repos) && navigated(mid, c, sel_id(a), fx)
            && b == (App { auto_refreshing: false, status: b.status, ..c }) && status_is(
            b,
            loaded_text(a.auto_refreshing, issue_total(c.repos@), c.repos@.len() as int),
        )
}

fn on_data(app: &mut App, repos: Vec<RepoIssues>) -> (fx: Vec<Effect>)
    requires
        issue_total(repos@) <= usize::MAX,
    ensures
        data_arrived(*old(app), *final(app), repos, fx@),
{
    let auto = app.auto_refreshing;
    app.rate_limit_error = None;
    let ghost a1 = *app;
    let ghost rv = repos;
    let prev = selected_id(app);
    app.set_data(repos);
    let ghost mid = *app;
    proof {
        assert forall|k: int| 0 <= k < rv@.len() implies (#[trigger] rv@[k]).issues@.len()
            == mid.repos@[k].issues@.len() by {
            let p = choose|p: Seq<int>|
                crate::sorting::stable_perm(mid.repos@[k].issues@, rv@[k].issues@, p, a1.sort_key, a1.sort_desc);
        }
        lemma_issue_total_same(rv@, mid.repos@);
    }
    let fx = nav(app, prev);
    let ghost c = *app;
    let total = count_issues(&app.repos);
    let mut msg = owned(if auto {
        "auto-refreshed"
    } else {
        "loaded"
    });
    string_push_str(&mut msg, " ");
    let t = u64_to_string(total as u64);
    string_push_str(&mut msg, t.as_str());
    string_push_str(&mut msg, " issues across ");
    let n = u64_to_string(app.repos.len() as u64);
    string_push_str(&mut msg, n.as_str());
    string_push_str(&mut msg, " repos");
    app.auto_refreshing = false;
    app.status = Some(msg);
    assert(mid.data_loaded(App { rate_limit_error: None, ..*old(app) }, rv) && navigated(mid, c, sel_id(*old(app)), fx@));
    fx
}


/// A failed load: nothing in flight any more; a rate-limit error is kept
/// until a load succeeds.
pub open spec fn data_failed(a: App, b: App, e: Seq<char>, prefix: Seq<char>) -> bool {
    if starts_with(e, prefix) {
        &&& b == (App { loading: false, auto_refreshing: false, rate_limit_error: b.rate_limit_error, status: b.status, ..a })
        &&& opt_view(b.rate_limit_error) == Some(e)
        &&& status_is(b, "load failed \u{2014} "@ + e)
    } else {
        &&& b == (App { loading: false, auto_refreshing: false, status: b.status, ..a })
        &&& status_is(b, "load failed: "@ + e)
    }
}

fn on_data_error(app: &mut App, e: String, prefix: &str)
    ensures
        data_failed(*old(app), *final(app), e@, prefix@),
{
    app.loading = false;
    app.auto_refreshing = false;
    if has_prefix(e.as_str(), prefix) {
        app.status = Some(cat("load failed \u{2014} ", e.as_str()));
        app.rate_limit_error = Some(e);
    } else {
        app.status = Some(cat("load failed: ", e.as_str()));
    }
}

/// A fetched thread: cached under its issue, and shown (with the card
/// selection kept in range) when that issue is still selected; a failure
/// is reported only for the selected issue.
pub open spec fn comments_arrived(a: App, b: App, id: Seq<char>, result: Result<Vec<Comment>, String>) -> bool {
    let selected = sel_id(a) == Some(id);
    match result {
        Ok(c) => {
            &&& forall|t: Seq<char>|
                #[trigger] cached(b.comment_cache@, t) == if t == id {
                    Some(c@)
                } else {
                    cached(a.comment_cache@, t)
                }
            &&& if selected {
                &&& b == (App { comment_cache: b.comment_cache, detail: b.detail, ..a })
                &&& b.detail == DetailState { comments: b.detail.comments, sel: b.detail.sel, ..a.detail }
                &&& b.detail.comments == Some(c)
                &&& b.detail.sel == crate::detail::clamped_sel(a.detail.sel, c@.len())
            } else {
                b == (App { comment_cache: b.comment_cache, ..a })
            }
        },
        Err(e) => if selected {
            b == (App { status: b.status, ..a }) && status_is(b, "comments failed: "@ + e@)
        } else {
            b == a
        },
    }
}

fn on_comments(app: &mut App, issue_id: String, result: Result<Vec<Comment>, String>)
    ensures
        comments_arrived(*old(app), *final(app), issue_id@, result),
{
    let cur = selected_id(app);
    let selected = match &cur {
        Some(c) => eq_str(c.as_str(), issue_id.as_str()),
        None => false,
    };
    match result {
        Ok(c) => {
            app.cache_comments(issue_id, crate::threads::copy_comments(&c));
            if selected {
                app.detail.comments = Some(c);
                app.detail.clamp_sel();
            }
        },
        Err(e) => {
            if selected {
                app.status = Some(cat("comments failed: ", e.as_str()));
            }
        },
    }
}

/// Whether the last reported rate limit leaves room for a refetch.
pub open spec fn has_budget(rl: Option<RateLimitData>) -> bool {
    match rl {
        Some(r) => r.remaining > 0,
        None => true,
    }
}

/// A mutation landed: its message shows, and the data (and, when the thread
/// itself changed, the open thread, dropped from the cache first) are
/// fetched again, budget permitting.
pub open spec fn mutation_landed(a: App, b: App, msg: Seq<char>, refresh: CommentRefresh, fx: Seq<Effect>) -> bool {
    &&& status_is(b, msg)
    &&& if has_budget(a.rate_limit) {
        let target = if a.detail.open {
            sel_id(a)
        } else {
            None
        };
        match (refresh, target) {
            (CommentRefresh::Refetch, Some(id)) => {
                &&& b == (App { status: b.status, loading: true, comment_cache: b.comment_cache, ..a })
                &&& forall|t: Seq<char>|
                    #[trigger] cached(b.comment_cache@, t) == if t == id {
                        None
                    } else {
                        cached(a.comment_cache@, t)
                    }
                &&& fx.len() == 2 && fx[0] == Effect::FetchData && is_fetch_comments(fx[1], id)
            },
            _ => b == (App { status: b.status, loading: true, ..a }) && fx == seq![Effect::FetchData],
        }
    } else {
        &&& b == (App { status: b.status, rate_limit_error: b.rate_limit_error, ..a })
        &&& opt_view(b.rate_limit_error) == Some("rate limited \u{2014} refetch skipped until reset"@)
        &&& fx.len() == 0
    }
}

fn on_mutation_done(app: &mut App, msg: String, refresh: CommentRefresh) -> (fx: Vec<Effect>)
    ensures
        mutation_landed(*old(app), *final(app), msg@, refresh, fx@),
{
    let mut fx: Vec<Effect> = Vec::new();
    app.status = Some(msg);
    let budget = match app.rate_limit {
        Some(rl) => rl.remaining > 0,
        None => true,
    };
    if budget {
        app.loading = true;
        fx.push(Effect::FetchData);
        if refresh == CommentRefresh::Refetch {
            match comments_refresh_target(app) {
                Some(id) => {
                    app.invalidate_comments(id.as_str());
                    fx.push(Effect::FetchComments(id));
                },
                None => {},
            }
        }
    } else {
        app.rate_limit_error = Some(owned("rate limited \u{2014} refetch skipped until reset"));
    }
    fx
}

/// A failed mutation: reported, and kept as the rate-limit error when it is
/// one.
pub open spec fn mutation_failed(a: App, b: App, e: Seq<char>, prefix: Seq<char>) -> bool {
    &&& status_is(b, "failed: "@ + e)
    &&& if starts_with(e, prefix) {
        b == (App { status: b.status, rate_limit_error: b.rate_limit_error, ..a }) && opt_view(
            b.rate_limit_error,
        ) == Some(e)
    } else {
        b == (App { status: b.status, ..a })
    }
}

fn on_mutation_failed(app: &mut App, e: String, prefix: &str)
    ensures
        mutation_failed(*old(app), *final(app), e@, prefix@),
{
    app.status = Some(cat("failed: ", e.as_str()));
    if has_prefix(e.as_str(), prefix) {
        app.rate_limit_error = Some(e);
    }
}

/// Options for the new-issue form: they go into the form for that repo; a
/// failure is reported while that form is open.
pub open spec fn form_options_arrived(a: App, b: App, repo: Seq<char>, result: Result<FormOptions, String>) -> bool {
    match result {
        Ok(options) => match a.issue_form {
            Some(f) => if f.repo@ == repo {
                b.issue_form matches Some(g) && g.options == Some(options) && g.repo == f.repo && g.title
                    == f.title && g.field_idx == f.field_idx && b == (App { issue_form: b.issue_form, ..a })
            } else {
                b == a
            },
            None => b == a,
        },
        Err(e) => if a.issue_form matches Some(f) && f.repo@ == repo {
            b == (App { status: b.status, ..a }) && status_is(b, "form options failed: "@ + e@)
        } else {
            b == a
        },
    }
}

fn on_form_options(app: &mut App, repo: String, result: Result<FormOptions, String>)
    ensures
        form_options_arrived(*old(app), *final(app), repo@, result),
{
    match result {
        Ok(options) => app.set_form_options(repo.as_str(), options),
        Err(e) => {
            let open = match &app.issue_form {
                Some(f) => eq_str(f.repo.as_str(), repo.as_str()),
                None => false,
            };
            if open {
                app.status = Some(cat("form options failed: ", e.as_str()));
            }
        },
    }
}

/// The PR summary fetch: delivered to the popup when it still shows that
/// PR, and a failure reported.
pub open spec fn summary_arrived(a: App, b: App, pr: PrRef, result: Result<PrSummary, String>) -> bool {
    let a1 = match result {
        Err(e) => App { status: b.status, ..a },
        Ok(_) => a,
    };
    &&& (result matches Err(e) ==> status_is(b, "PR summary failed: "@ + e@))
    &&& b == (App { pr: b.pr, ..a1 })
    &&& (crate::pr::targets(a.pr.target, pr) ==> b.pr.summary == Some(result))
    &&& (!crate::pr::targets(a.pr.target, pr) ==> b.pr.summary == a.pr.summary)
    &&& b.pr.target == a.pr.target && b.pr.links == a.pr.links && b.pr.scroll == a.pr.scroll && b.pr.sel
        == a.pr.sel
}

fn on_pr_summary(app: &mut App, pr: PrRef, result: Result<PrSummary, String>)
    ensures
        summary_arrived(*old(app), *final(app), pr, result),
{
    match &result {
        Err(e) => {
            app.status = Some(cat("PR summary failed: ", e.as_str()));
        },
        Ok(_) => {},
    }
    app.pr.set_summary(&pr, result);
}

/// A harness child exited: its session is marked, and the status names it.
pub open spec fn harness_exited(a: App, b: App, id: SessionId, code: i32) -> bool {
    let h = a.harness@.exited(id, code);
    match h.get(id) {
        Some(m) => {
            &&& b == (App { harness: b.harness, status: b.status, ..a })
            &&& b.harness@ == h
            &&& status_is(b, m.issue_ref + " exited ("@ + signed_decimal(code as int) + ")"@)
        },
        None => b == (App { harness: b.harness, ..a }) && b.harness@ == h,
    }
}

fn on_harness_exited(app: &mut App, id: SessionId, code: i32)
    ensures
        harness_exited(*old(app), *final(app), id, code),
{
    app.harness.mark_exited(id, code);
    let text = match app.harness.get(id) {
        Some(m) => {
            let mut t = cat(m.issue_ref.as_str(), " exited (");
            let c = i32_to_string(code);
            string_push_str(&mut t, c.as_str());
            string_push_str(&mut t, ")");
            Some(t)
        },
        None => None,
    };
    match text {
        Some(t) => {
            app.status = Some(t);
        },
        None => {},
    }
}


/// Position of the first option equal to `name` ignoring ASCII case; -1
/// when there is none.
pub open spec fn first_ic(opts: Seq<Seq<char>>, name: Seq<char>) -> int
    decreases opts.len(),
{
    if opts.len() == 0 {
        -1
    } else {
        let r = first_ic(opts.drop_last(), name);
        if r >= 0 {
            r
        } else if eq_ic(opts.last(), name) {
            opts.len() - 1
        } else {
            -1
        }
    }
}

proof fn lemma_first_ic_range(opts: Seq<Seq<char>>, name: Seq<char>)
    ensures
        -1 <= first_ic(opts, name) < opts.len(),
    decreases opts.len(),
{
    if opts.len() > 0 {
        lemma_first_ic_range(opts.drop_last(), name);
    }
}

fn position_ic(opts: &Vec<String>, name: &str) -> (r: Option<usize>)
    ensures
        match r {
            Some(k) => first_ic(views(opts@), name@) == k,
            None => first_ic(views(opts@), name@) == -1,
        },
{
    let ghost vs = views(opts@);
    let mut i: usize = 0;
    while i < opts.len()
        invariant
            i <= opts@.len(),
            vs == views(opts@),
            first_ic(vs.take(i as int), name@) == -1,
        decreases opts@.len() - i,
    {
        assert(vs.take(i + 1).drop_last() =~= vs.take(i as int));
        if eq_ignore_ascii_case(opts[i].as_str(), name) {
            proof {
                lemma_prefix_first_ic(vs, name@, i + 1);
            }
            return Some(i);
        }
        i += 1;
    }
    assert(vs.take(i as int) =~= vs);
    None
}

/// A hit in a prefix is the first hit overall.
proof fn lemma_prefix_first_ic(opts: Seq<Seq<char>>, name: Seq<char>, i: int)
    requires
        0 <= i <= opts.len(),
        first_ic(opts.take(i), name) >= 0,
    ensures
        first_ic(opts, name) == first_ic(opts.take(i), name),
    decreases opts.len() - i,
{
    if i < opts.len() {
        assert(opts.take(i + 1).drop_last() =~= opts.take(i));
        lemma_prefix_first_ic(opts, name, i + 1);
    } else {
        assert(opts.take(i) =~= opts);
    }
}

/// Whether the list is still waiting, in the list view and with the
/// selection unmoved, on the options requested for issue `id`.
pub open spec fn still_waiting(a: App, id: Seq<char>, labels: bool) -> bool {
    &&& a.mode == Mode::Normal
    &&& opt_view(if labels {
        a.picker.label_issue
    } else {
        a.picker.priority_issue
    }) == Some(id)
    &&& sel_id(a) == Some(id)
}

/// A stale answer: the request is forgotten when it was the pending one.
pub open spec fn dropped_stale(a: App, b: App, id: Seq<char>, labels: bool) -> bool {
    if labels {
        if opt_view(a.picker.label_issue) == Some(id) {
            b == (App { picker: PickerState { label_issue: None, ..a.picker }, ..a })
        } else {
            b == a
        }
    } else {
        if opt_view(a.picker.priority_issue) == Some(id) {
            b == (App { picker: PickerState { priority_issue: None, ..a.picker }, ..a })
        } else {
            b == a
        }
    }
}

/// The highlight the priority picker opens on: the issue's current
/// priority when it is offered, else the first row.
pub open spec fn current_priority_row(a: App, opts: Seq<Seq<char>>) -> int {
    match a.spec_selected_issue() {
        Some(i) => match first_priority_label(i.labels@) {
            Some(l) => if first_ic(opts, l.name@) >= 0 {
                first_ic(opts, l.name@)
            } else {
                0
            },
            None => 0,
        },
        None => 0,
    }
}

/// The repo's labels for the set-priority picker.
pub open spec fn priority_options_arrived(a: App, b: App, id: Seq<char>, result: Result<Vec<RepoLabel>, String>) -> bool {
    if !still_waiting(a, id, false) {
        dropped_stale(a, b, id, false)
    } else {
        match result {
            Ok(labels) => if priority_names(labels@).len() == 0 {
                &&& b == (App { status: b.status, picker: PickerState { priority_issue: None, ..a.picker }, ..a })
                &&& status_is(b, "no priority:* labels on this repo"@)
            } else {
                let opts = views(b.picker.options@);
                &&& opts.len() >= 1
                &&& opts[0] == clear_option()
                &&& is_name_sort(opts.skip(1), priority_names(labels@), RankBy::LabelName)
                &&& b.picker.idx == current_priority_row(a, opts)
                &&& b.picker.filter@.len() == 0
                &&& b.picker == (PickerState {
                    options: b.picker.options,
                    idx: b.picker.idx,
                    filter: b.picker.filter,
                    ..a.picker
                })
                &&& b == (App { status: None, picker: b.picker, mode: Mode::PrioritySet, ..a })
            },
            Err(e) => {
                &&& b == (App { status: b.status, picker: PickerState { priority_issue: None, ..a.picker }, ..a })
                &&& status_is(b, "priorities failed: "@ + e@)
            },
        }
    }
}

/// Whether the request for issue `id`'s options is still the pending one.
fn waiting(app: &App, id: &str, labels: bool) -> (r: bool)
    ensures
        r == still_waiting(*app, id@, labels),
{
    if app.mode != Mode::Normal {
        return false;
    }
    let pending = if labels {
        &app.picker.label_issue
    } else {
        &app.picker.priority_issue
    };
    let pend = match pending {
        Some(p) => eq_str(p.as_str(), id),
        None => false,
    };
    if !pend {
        return false;
    }
    match app.selected_issue() {
        Some(i) => eq_str(i.id.as_str(), id),
        None => false,
    }
}

fn drop_stale(app: &mut App, id: &str, labels: bool)
    ensures
        dropped_stale(*old(app), *final(app), id@, labels),
{
    if labels {
        let pend = match &app.picker.label_issue {
            Some(p) => eq_str(p.as_str(), id),
            None => false,
        };
        if pend {
            app.picker.label_issue = None;
        }
    } else {
        let pend = match &app.picker.priority_issue {
            Some(p) => eq_str(p.as_str(), id),
            None => false,
        };
        if pend {
            app.picker.priority_issue = None;
        }
    }
}

fn on_priority_options(app: &mut App, issue_id: String, result: Result<Vec<RepoLabel>, String>)
    ensures
        priority_options_arrived(*old(app), *final(app), issue_id@, result),
{
    if !waiting(app, issue_id.as_str(), false) {
        drop_stale(app, issue_id.as_str(), false);
        return;
    }
    match result {
        Ok(labels) => {
            let options = priority_set_options(labels.as_slice());
            proof {
                let p = choose|p: Seq<int>| crate::sorting::perm_of(views(options@).skip(1), priority_names(labels@), p);
                assert(views(options@).skip(1).len() == views(options@).len() - 1);
            }
            if options.len() == 1 {
                app.status = Some(owned("no priority:* labels on this repo"));
                app.picker.priority_issue = None;
            } else {
                let idx = match app.selected_issue() {
                    Some(i) => match i.priority_label() {
                        Some(l) => match position_ic(&options, l.name.as_str()) {
                            Some(k) => k,
                            None => 0,
                        },
                        None => 0,
                    },
                    None => 0,
                };
                app.status = None;
                app.picker.start(options, idx);
                app.mode = Mode::PrioritySet;
            }
        },
        Err(e) => {
            app.status = Some(cat("priorities failed: ", e.as_str()));
            app.picker.priority_issue = None;
        },
    }
}

/// The label names, in the repo's order.
pub open spec fn label_names(labels: Seq<RepoLabel>) -> Seq<Seq<char>> {
    labels.map_values(|l: RepoLabel| l.name@)
}

/// Rows of the label picker that the issue's labels check.
pub open spec fn checked_rows(opts: Seq<Seq<char>>, issue_labels: Seq<Label>) -> Set<usize> {
    Set::new(|k: usize| exists|j: int| 0 <= j < issue_labels.len() && #[trigger] first_ic(opts, issue_labels[j].name@) == k)
}

/// The label picker opened on the repo's labels, the issue's own checked.
pub open spec fn labels_opened(a: App, b: App, labels: Vec<RepoLabel>) -> bool {
    let opts = label_names(labels@);
    &&& views(b.picker.options@) == opts
    &&& b.picker.idx == 0
    &&& b.picker.filter@.len() == 0
    &&& b.picker.multi_selected@ == checked_rows(opts, a.spec_selected_issue().unwrap().labels@)
    &&& b.picker == (PickerState {
        options: b.picker.options,
        idx: 0,
        filter: b.picker.filter,
        multi_selected: b.picker.multi_selected,
        ..a.picker
    })
    &&& b == (App { status: None, picker: b.picker, mode: Mode::LabelsSet, ..a })
}

/// The repo's labels for the edit-labels picker, with the issue's current
/// labels checked.
pub open spec fn label_options_arrived(a: App, b: App, id: Seq<char>, result: Result<Vec<RepoLabel>, String>) -> bool {
    if !still_waiting(a, id, true) {
        dropped_stale(a, b, id, true)
    } else {
        match result {
            Ok(labels) => if labels@.len() == 0 {
                &&& b == (App { status: b.status, picker: PickerState { label_issue: None, ..a.picker }, ..a })
                &&& status_is(b, "no labels on this repo"@)
            } else {
                labels_opened(a, b, labels)
            },
            Err(e) => {
                &&& b == (App { status: b.status, picker: PickerState { label_issue: None, ..a.picker }, ..a })
                &&& status_is(b, "labels failed: "@ + e@)
            },
        }
    }
}

/// The names of the labels, in order.
fn label_option_names(labels: &Vec<RepoLabel>) -> (options: Vec<String>)
    ensures
        views(options@) == label_names(labels@),
{
    let mut options: Vec<String> = Vec::new();
    let mut i: usize = 0;
    while i < labels.len()
        invariant
            i <= labels@.len(),
            views(options@) == label_names(labels@.take(i as int)),
        decreases labels@.len() - i,
    {
        options.push(labels[i].name.clone());
        proof {
            assert(label_names(labels@.take(i + 1)) =~= label_names(labels@.take(i as int)).push(
                labels@[i as int].name@,
            ));
            assert(views(options@) =~= views(options@.drop_last()).push(options@.last()@));
        }
        i += 1;
    }
    assert(labels@.take(i as int) =~= labels@);
    options
}

/// The rows the labels check.
fn checked_of(options: &Vec<String>, labels: &Vec<Label>) -> (checked: HashSet<usize>)
    ensures
        checked@ == checked_rows(views(options@), labels@),
{
    let ghost opts = views(options@);
    let mut checked: HashSet<usize> = HashSet::new();
    let mut j: usize = 0;
    while j < labels.len()
        invariant
            j <= labels@.len(),
            opts == views(options@),
            checked@ == Set::new(
                |k: usize|
                    exists|m: int| 0 <= m < j && #[trigger] first_ic(opts, labels@[m].name@) == k,
            ),
        decreases labels@.len() - j,
    {
        let ghost before = checked@;
        match position_ic(options, labels[j].name.as_str()) {
            Some(k) => {
                checked.insert(k);
            },
            None => {},
        }
        proof {
            assert forall|k: usize|
                (exists|m: int| 0 <= m < j + 1 && #[trigger] first_ic(opts, labels@[m].name@) == k)
                    implies checked@.contains(k) by {
                let m = choose|m: int| 0 <= m < j + 1 && #[trigger] first_ic(opts, labels@[m].name@) == k;
                if m < j {
                    assert(before.contains(k));
                }
            }
            assert(checked@ =~= Set::new(
                |k: usize|
                    exists|m: int| 0 <= m < j + 1 && #[trigger] first_ic(opts, labels@[m].name@) == k,
            ));
        }
        j += 1;
    }
    assert(checked@ =~= checked_rows(opts, labels@));
    checked
}

/// Open the label picker on the repo's labels, the issue's own checked.
fn open_label_picker(app: &mut App, labels: Vec<RepoLabel>)
    requires
        old(app).spec_selected_issue().is_some(),
    ensures
        labels_opened(*old(app), *final(app), labels),
{
    let options = label_option_names(&labels);
    let checked = match app.selected_issue() {
        Some(issue) => checked_of(&options, &issue.labels),
        None => HashSet::new(),
    };
    app.picker.multi_selected = checked;
    app.status = None;
    app.picker.start(options, 0);
    app.mode = Mode::LabelsSet;
}

fn on_label_options(app: &mut App, issue_id: String, result: Result<Vec<RepoLabel>, String>)
    ensures
        label_options_arrived(*old(app), *final(app), issue_id@, result),
{
    if !waiting(app, issue_id.as_str(), true) {
        drop_stale(app, issue_id.as_str(), true);
        return;
    }
    match result {
        Ok(labels) => {
            if labels.len() == 0 {
                app.status = Some(owned("no labels on this repo"));
                app.picker.label_issue = None;
                return;
            }
            open_label_picker(app, labels);
        },
        Err(e) => {
            app.status = Some(cat("labels failed: ", e.as_str()));
            app.picker.label_issue = None;
        },
    }
}


/// What a report from a background task or a harness child does. Harness
/// reports leave the rate-limit display alone; every other report first
/// takes the rate limit the backend reported last (`rl`). Errors that start
/// with `prefix` are rate-limit errors.
pub open spec fn event_step(a: App, b: App, msg: AppEvent, rl: Option<RateLimitData>, prefix: Seq<char>, fx: Seq<Effect>) -> bool {
    let a1 = App { rate_limit: rl, ..a };
    match msg {
        AppEvent::HarnessDirty(_) => b == a && fx.len() == 0,
        AppEvent::HarnessExited { id, code } => harness_exited(a, b, id, code) && fx.len() == 0,
        AppEvent::Data(Ok(repos)) => data_arrived(a1, b, repos, fx),
        AppEvent::Data(Err(e)) => data_failed(a1, b, e@, prefix) && fx.len() == 0,
        AppEvent::Comments { issue_id, result } => comments_arrived(a1, b, issue_id@, result) && fx.len() == 0,
        AppEvent::MutationDone { msg, comments } => mutation_landed(a1, b, msg@, comments, fx),
        AppEvent::MutationFailed(e) => mutation_failed(a1, b, e@, prefix) && fx.len() == 0,
        AppEvent::FormOptions { repo, result } => form_options_arrived(a1, b, repo@, result) && fx.len() == 0,
        AppEvent::PriorityOptions { issue_id, result } => priority_options_arrived(a1, b, issue_id@, result)
            && fx.len() == 0,
        AppEvent::LabelOptions { issue_id, result } => label_options_arrived(a1, b, issue_id@, result) && fx.len()
            == 0,
        AppEvent::PrSummary { pr, result } => summary_arrived(a1, b, pr, result) && fx.len() == 0,
    }
}

/// Handle a report from a background task or a harness child; returns the
/// follow-up work for the event loop.
pub fn handle_app_event(app: &mut App, msg: AppEvent, rl: Option<RateLimitData>, prefix: &str) -> (fx: Vec<Effect>)
    requires
        msg matches AppEvent::Data(Ok(repos)) ==> issue_total(repos@) <= usize::MAX,
    ensures
        event_step(*old(app), *final(app), msg, rl, prefix@, fx@),
{
    match msg {
        AppEvent::HarnessDirty(_) => {
            return Vec::new();
        },
        AppEvent::HarnessExited { id, code } => {
            on_harness_exited(app, id, code);
            return Vec::new();
        },
        _ => {},
    }
    app.rate_limit = rl;
    match msg {
        AppEvent::Data(Ok(repos)) => on_data(app, repos),
        AppEvent::Data(Err(e)) => {
            on_data_error(app, e, prefix);
            Vec::new()
        },
        AppEvent::Comments { issue_id, result } => {
            on_comments(app, issue_id, result);
            Vec::new()
        },
        AppEvent::MutationDone { msg, comments } => on_mutation_done(app, msg, comments),
        AppEvent::MutationFailed(e) => {
            on_mutation_failed(app, e, prefix);
            Vec::new()
        },
        AppEvent::FormOptions { repo, result } => {
            on_form_options(app, repo, result);
            Vec::new()
        },
        AppEvent::PriorityOptions { issue_id, result } => {
            on_priority_options(app, issue_id, result);
            Vec::new()
        },
        AppEvent::LabelOptions { issue_id, result } => {
            on_label_options(app, issue_id, result);
            Vec::new()
        },
        AppEvent::PrSummary { pr, result } => {
            on_pr_summary(app, pr, result);
            Vec::new()
        },
        AppEvent::HarnessDirty(_) | AppEvent::HarnessExited { .. } => Vec::new(),
    }
}

/// The status after the event loop tried to open `url`.
pub fn note_opened(app: &mut App, url: &str, result: Result<(), String>)
    ensures
        *final(app) == (App { status: final(app).status, ..*old(app) }),
        match result {
            Ok(()) => status_is(*final(app), "opened "@ + url@),
            Err(e) => status_is(*final(app), "open failed: "@ + e@),
        },
{
    app.status = Some(match result {
        Ok(()) => cat("opened ", url),
        Err(e) => cat("open failed: ", e.as_str()),
    });
}

/// The status after the event loop tried to copy `text`.
pub fn note_copied(app: &mut App, text: &str, result: Result<(), String>)
    ensures
        *final(app) == (App { status: final(app).status, ..*old(app) }),
        match result {
            Ok(()) => status_is(*final(app), "copied "@ + text@),
            Err(e) => status_is(*final(app), "copy failed: "@ + e@),
        },
{
    app.status = Some(match result {
        Ok(()) => cat("copied ", text),
        Err(e) => cat("copy failed: ", e.as_str()),
    });
}

/// Whether the auto-refresh timer may fire on `a`: no fetch in flight, not
/// rate-limited, and only the passive list or help view on screen.
pub open spec fn refresh_due(a: App) -> bool {
    !a.loading && a.rate_limit_error.is_none() && (a.mode == Mode::Normal || a.mode is Help)
}

/// A tick of the auto-refresh timer: when one is due, a fetch starts and is
/// marked as the ticker's own; otherwise nothing happens.
pub fn refresh_tick(app: &mut App) -> (fx: Vec<Effect>)
    ensures
        refresh_due(*old(app)) ==> *final(app) == (App { loading: true, auto_refreshing: true, ..*old(app) })
            && fx@ == seq![Effect::FetchData],
        !refresh_due(*old(app)) ==> *final(app) == *old(app) && fx@.len() == 0,
{
    let mut fx: Vec<Effect> = Vec::new();
    if app.should_auto_refresh() {
        app.loading = true;
        app.auto_refreshing = true;
        fx.push(Effect::FetchData);
    }
    fx
}

/// Whether an event needs the screen redrawn: a session's output only when
/// that session is on screen, anything else always.
pub fn needs_redraw(app: &App, msg: &AppEvent) -> (r: bool)
    ensures
        r == match *msg {
            AppEvent::HarnessDirty(id) => app.harness@.active == Some(id),
            _ => true,
        },
{
    match msg {
        AppEvent::HarnessDirty(id) => app.harness.active_id() == Some(*id),
        _ => true,
    }
}

} // verus!
