//! The application state and the pure logic over it: the visible row list
//! built from data, filters, sort and collapse; the selection; and the
//! transitions the key handlers drive. No I/O happens here.
use vstd::prelude::*;

use crate::detail::DetailState;
use crate::editor::{EditorState, InputState};
use crate::filters::{Filters, StateFilter};
use crate::editor::BodyEditor;
use crate::form::IssueForm;
use crate::harness::LaunchAction;
use crate::help::HelpTopic;
use crate::mode::{CommentFocus, DetailSel, EditorTarget};
use crate::sorting::{names_strict, sort_dedup_names, views, RankBy};
use crate::types::{FormOptions, PrRef};
use crate::harness::HarnessState;
use crate::help::HelpState;
use crate::mode::{ConfirmChoice, Focus, Mode, Row};
use crate::picker::PickerState;
use crate::pr::PrState;
use crate::ranks::RankState;
use crate::sorting::{is_stable_sort, sort_issues, SortKey};
use crate::dates::{day_text, format_day};
use crate::filters::{parse_date, parse_filter_list, spec_parse_date, trimmed_nonempty};
use crate::mode::InputKind;
use crate::text::{
    decimal, eq_ic, eq_ignore_ascii_case, join, join_strings, owned, replace_all, replace_str,
    split, str_views, trim, trim_str, u64_to_string,
};
use crate::types::{Comment, Issue, RateLimitData, RepoIssues};

verus! {

broadcast use vstd::string::group_string_axioms, vstd::seq_lib::lemma_seq_contains_after_push;

// ---------------------------------------------------------------------------
// The visible rows, as a function of the data and the view settings.
// ---------------------------------------------------------------------------

/// Positions, in order, of the first `upto` issues the filters admit.
pub open spec fn visible_upto(issues: Seq<Issue>, f: Filters, st: StateFilter, upto: int) -> Seq<usize>
    decreases upto,
{
    if upto <= 0 {
        Seq::empty()
    } else {
        let prev = visible_upto(issues, f, st, upto - 1);
        if f.spec_matches(&issues[upto - 1], st) {
            prev.push((upto - 1) as usize)
        } else {
            prev
        }
    }
}

/// Positions, in order, of the issues the filters admit.
pub open spec fn visible(issues: Seq<Issue>, f: Filters, st: StateFilter) -> Seq<usize> {
    visible_upto(issues, f, st, issues.len() as int)
}

/// The rows of repo group `ri`: nothing when the repo filter rejects it or
/// it would be empty while empty groups are hidden; else its header, then
/// its admitted issues unless the group is collapsed.
pub open spec fn group_rows(
    ri: usize,
    repo: RepoIssues,
    f: Filters,
    st: StateFilter,
    collapsed: Seq<Seq<char>>,
    exact: bool,
) -> Seq<Row> {
    let vis = visible(repo.issues@, f, st);
    if !f.spec_repo_matches(repo.repo@, exact) || (vis.len() == 0 && f.hide_empty) {
        Seq::empty()
    } else if collapsed.contains(repo.repo@) {
        seq![Row::RepoHeader { repo_idx: ri }]
    } else {
        seq![Row::RepoHeader { repo_idx: ri }] + vis.map_values(
            |ii: usize| Row::Issue { repo_idx: ri, issue_idx: ii },
        )
    }
}

/// The rows of the first `upto` repo groups.
pub open spec fn rows_upto(
    repos: Seq<RepoIssues>,
    f: Filters,
    st: StateFilter,
    collapsed: Seq<Seq<char>>,
    exact: bool,
    upto: int,
) -> Seq<Row>
    decreases upto,
{
    if upto <= 0 {
        Seq::empty()
    } else {
        rows_upto(repos, f, st, collapsed, exact, upto - 1) + group_rows(
            (upto - 1) as usize,
            repos[upto - 1],
            f,
            st,
            collapsed,
            exact,
        )
    }
}

/// The repo filter names a loaded repo exactly (ignoring ASCII case).
pub open spec fn repo_filter_names(repos: Seq<RepoIssues>, f: Filters) -> bool {
    f.repo@.len() > 0 && exists|i: int| 0 <= i < repos.len() && eq_ic(#[trigger] repos[i].repo@, f.repo@)
}

/// `x` clamped into the index range of a list of `n` rows (0 when empty).
pub open spec fn clamp_index(x: int, n: int) -> int {
    if x >= n {
        if n == 0 {
            0
        } else {
            n - 1
        }
    } else {
        x
    }
}

/// Whether `v` holds a string whose view is `s`.
pub fn contains_str(v: &Vec<String>, s: &str) -> (r: bool)
    ensures
        r == str_views(v@).contains(s@),
{
    let wanted = owned(s);
    let mut i: usize = 0;
    while i < v.len()
        invariant
            i <= v@.len(),
            wanted@ == s@,
            forall|k: int| 0 <= k < i ==> v@[k]@ != s@,
        decreases v@.len() - i,
    {
        if v[i] == wanted {
            assert(str_views(v@)[i as int] == s@);
            return true;
        }
        i += 1;
    }
    assert(!str_views(v@).contains(s@)) by {
        if str_views(v@).contains(s@) {
            let k = choose|k: int| 0 <= k < str_views(v@).len() && str_views(v@)[k] == s@;
            assert(v@[k]@ == s@);
        }
    }
    false
}

/// Remove every string whose view is `s`; returns whether one was there.
pub fn remove_str(v: &mut Vec<String>, s: &str) -> (r: bool)
    ensures
        r == str_views(old(v)@).contains(s@),
        forall|t: Seq<char>|
            str_views(final(v)@).contains(t) <==> (str_views(old(v)@).contains(t) && t != s@),
{
    let wanted = owned(s);
    let mut rest: Vec<String> = Vec::new();
    std::mem::swap(&mut rest, v);
    let ghost orig = rest@;
    let ghost mut consumed: int = 0;
    let mut found = false;
    while rest.len() > 0
        invariant
            wanted@ == s@,
            0 <= consumed <= orig.len(),
            orig.len() == consumed + rest@.len(),
            rest@ =~= orig.subrange(consumed, orig.len() as int),
            found == str_views(orig.subrange(0, consumed)).contains(s@),
            forall|t: Seq<char>|
                str_views(v@).contains(t) <==> (str_views(orig.subrange(0, consumed)).contains(t)
                    && t != s@),
        decreases rest@.len(),
    {
        let ghost before = v@;
        let ghost rb = rest@;
        let x = rest.remove(0);
        assert(x == orig[consumed]);
        let ghost prefix = orig.subrange(0, consumed);
        let ghost next = orig.subrange(0, consumed + 1);
        assert(str_views(next) =~= str_views(prefix).push(x@));
        if x == wanted {
            found = true;
        } else {
            v.push(x);
            assert(str_views(v@) =~= str_views(before).push(orig[consumed]@));
        }
        proof {
            consumed = consumed + 1;
            assert(rest@ =~= rb.subrange(1, rb.len() as int));
        }
    }
    assert(orig.subrange(0, consumed) =~= orig);
    found
}

/// Make `s` a member (`on`) or not.
pub fn set_member(v: &mut Vec<String>, s: String, on: bool)
    ensures
        forall|t: Seq<char>|
            #![trigger str_views(final(v)@).contains(t)]
            str_views(final(v)@).contains(t) <==> (if on {
                str_views(old(v)@).contains(t) || t == s@
            } else {
                str_views(old(v)@).contains(t) && t != s@
            }),
{
    if on {
        insert_str(v, s);
    } else {
        remove_str(v, s.as_str());
    }
}

/// Add `s` unless a string with its view is already there; returns whether
/// it was added.
pub fn insert_str(v: &mut Vec<String>, s: String) -> (r: bool)
    ensures
        r == !str_views(old(v)@).contains(s@),
        forall|t: Seq<char>|
            str_views(final(v)@).contains(t) <==> (str_views(old(v)@).contains(t) || t == s@),
{
    if contains_str(v, s.as_str()) {
        false
    } else {
        let ghost before = v@;
        let ghost sv = s@;
        v.push(s);
        assert(str_views(v@) =~= str_views(before).push(sv));
        true
    }
}

// ---------------------------------------------------------------------------
// The application state.
// ---------------------------------------------------------------------------

pub struct App {
    pub org: String,
    /// Data as fetched.
    pub repos: Vec<RepoIssues>,
    /// Names of collapsed repo groups (survives reload).
    pub collapsed: Vec<String>,
    /// Repo names seen in any earlier load; the configured default collapse
    /// applies only to repos appearing for the first time.
    pub seen_repos: Vec<String>,
    /// Newly seen repos start collapsed.
    pub default_collapsed: bool,
    /// Default of the hide-empty-repos filter, restored on filter clear.
    pub hide_empty_default: bool,
    /// Template of the short reference: `{owner}`, `{repo}`, `{number}`.
    pub copy_format: String,
    /// Visible rows derived from repos, filters, sort and collapse.
    pub rows: Vec<Row>,
    pub selected: usize,
    pub state_filter: StateFilter,
    pub filters: Filters,
    pub sort_key: SortKey,
    pub sort_desc: bool,
    pub focus: Focus,
    pub detail: DetailState,
    pub mode: Mode,
    pub input: InputState,
    pub filter_menu_idx: usize,
    pub picker: PickerState,
    /// The new-issue form, present while it is open.
    pub issue_form: Option<IssueForm>,
    pub editor: EditorState,
    pub confirm_choice: ConfirmChoice,
    /// Cursor of the calendar date picker, as a day number.
    pub calendar_cursor: i32,
    pub loading: bool,
    /// The fetch in flight was started by the auto-refresh ticker.
    pub auto_refreshing: bool,
    pub include_closed: bool,
    pub status: Option<String>,
    pub rate_limit: Option<RateLimitData>,
    /// Persistent rate-limit error, shown until a fetch succeeds.
    pub rate_limit_error: Option<String>,
    pub pr: PrState,
    /// Comment threads fetched this refresh cycle, by issue id.
    pub comment_cache: Vec<(String, Vec<Comment>)>,
    /// Harness sessions: metadata only. Not reset by an org switch.
    pub harness: HarnessState,
    pub help: HelpState,
    pub label_rank: RankState,
    /// The move the confirmation popup asks about.
    pub pending_move: Option<PendingMove>,
    /// The priority write the confirmation popup asks about.
    pub pending_priority: Option<PendingPriority>,
    pub should_quit: bool,
}

/// A set-priority write that would strip ranked labels, waiting for
/// confirmation: the pick, the labels it removes, and the whole label set
/// it writes, captured when the picker committed.
#[derive(Debug, Clone, PartialEq, Eq)]
pub struct PendingPriority {
    pub issue_id: String,
    pub pick: Option<String>,
    pub removes: Vec<String>,
    pub names: Vec<String>,
}

/// A move of issue `issue_id` to repo `target`, waiting for confirmation.
#[derive(Debug, Clone, PartialEq, Eq)]
pub struct PendingMove {
    pub issue_id: String,
    pub target: String,
}

impl App {
    pub open spec fn spec_exact(&self) -> bool {
        repo_filter_names(self.repos@, self.filters)
    }

    /// The rows the current data and view settings call for.
    pub open spec fn spec_rows(&self) -> Seq<Row> {
        rows_upto(
            self.repos@,
            self.filters,
            self.state_filter,
            str_views(self.collapsed@),
            self.spec_exact(),
            self.repos@.len() as int,
        )
    }

    /// The issue under the selection, if the selected row is an issue row.
    pub open spec fn spec_selected_issue(&self) -> Option<Issue> {
        if self.selected < self.rows@.len() {
            match self.rows@[self.selected as int] {
                Row::Issue { repo_idx, issue_idx } => if repo_idx < self.repos@.len()
                    && issue_idx < self.repos@[repo_idx as int].issues@.len() {
                    Some(self.repos@[repo_idx as int].issues@[issue_idx as int])
                } else {
                    None
                },
                Row::RepoHeader { .. } => None,
            }
        } else {
            None
        }
    }

    /// The repo group of the selected row.
    pub open spec fn spec_selected_repo_idx(&self) -> Option<usize> {
        if self.selected < self.rows@.len() {
            let ri = match self.rows@[self.selected as int] {
                Row::Issue { repo_idx, .. } => repo_idx,
                Row::RepoHeader { repo_idx } => repo_idx,
            };
            if ri < self.repos@.len() {
                Some(ri)
            } else {
                None
            }
        } else {
            None
        }
    }

    pub fn new(
        org: String,
        initial_repo: Option<String>,
        include_closed: bool,
        default_collapsed: bool,
        copy_format: String,
    ) -> (r: App)
        ensures
            r.org == org,
            r.repos@.len() == 0,
            r.collapsed@.len() == 0,
            r.seen_repos@.len() == 0,
            r.default_collapsed == default_collapsed,
            r.hide_empty_default,
            r.copy_format == copy_format,
            r.rows@.len() == 0,
            r.selected == 0,
            r.state_filter == StateFilter::Open,
            r.filters.repo@ == (match initial_repo {
                Some(s) => s@,
                None => Seq::<char>::empty(),
            }),
            r.filters.text@.len() == 0,
            r.filters.hide_empty,
            r.sort_key == SortKey::Updated,
            r.sort_desc,
            r.focus == Focus::List,
            !r.detail.open,
            r.mode == Mode::Normal,
            r.issue_form.is_none(),
            r.confirm_choice == ConfirmChoice::No,
            r.loading,
            !r.auto_refreshing,
            r.include_closed == include_closed,
            r.status.is_none(),
            r.rate_limit.is_none(),
            r.rate_limit_error.is_none(),
            r.comment_cache@.len() == 0,
            r.harness@.sessions.len() == 0,
            r.harness@.wf(),
            r.pending_move.is_none(),
            r.pending_priority.is_none(),
            !r.should_quit,
    {
        let mut filters = Filters::new_default();
        filters.repo = match initial_repo {
            Some(s) => s,
            None => String::new(),
        };
        App {
            org,
            repos: Vec::new(),
            collapsed: Vec::new(),
            seen_repos: Vec::new(),
            default_collapsed,
            hide_empty_default: true,
            copy_format,
            rows: Vec::new(),
            selected: 0,
            state_filter: StateFilter::Open,
            filters,
            sort_key: SortKey::Updated,
            sort_desc: true,
            focus: Focus::List,
            detail: DetailState::new(),
            mode: Mode::Normal,
            input: InputState::new(),
            filter_menu_idx: 0,
            picker: PickerState::new(),
            issue_form: None,
            editor: EditorState::new(),
            confirm_choice: ConfirmChoice::No,
            calendar_cursor: crate::dates::today(),
            loading: true,
            auto_refreshing: false,
            include_closed,
            status: None,
            rate_limit: None,
            rate_limit_error: None,
            pr: PrState::new(),
            comment_cache: Vec::new(),
            harness: HarnessState::new(),
            help: HelpState::new(),
            label_rank: RankState::new(),
            pending_move: None,
            pending_priority: None,
            should_quit: false,
        }
    }

    /// Whether the auto-refresh ticker may fire: no fetch in flight, not
    /// rate-limited, and only the passive list or help view on screen.
    pub fn should_auto_refresh(&self) -> (r: bool)
        ensures
            r == (!self.loading && self.rate_limit_error.is_none() && (self.mode == Mode::Normal
                || self.mode is Help)),
    {
        !self.loading && self.rate_limit_error.is_none() && match self.mode {
            Mode::Normal => true,
            Mode::Help(_) => true,
            _ => false,
        }
    }

    /// Whether the repo filter exactly names a loaded repo: then only that
    /// repo matches rather than every repo containing the text.
    pub fn repo_filter_exact(&self) -> (r: bool)
        ensures
            r == self.spec_exact(),
    {
        if self.filters.repo.as_str().is_empty() {
            return false;
        }
        let mut i: usize = 0;
        while i < self.repos.len()
            invariant
                i <= self.repos@.len(),
                self.filters.repo@.len() > 0,
                forall|k: int| 0 <= k < i ==> !eq_ic(#[trigger] self.repos@[k].repo@, self.filters.repo@),
            decreases self.repos@.len() - i,
        {
            if eq_ignore_ascii_case(self.repos[i].repo.as_str(), self.filters.repo.as_str()) {
                assert(eq_ic(self.repos@[i as int].repo@, self.filters.repo@));
                return true;
            }
            i += 1;
        }
        false
    }

    /// Tab / Shift+Tab: move focus to the other pane; nothing while the
    /// detail split is closed.
    pub fn cycle_focus(&mut self)
        ensures
            *final(self) == (App {
                focus: if old(self).detail.open {
                    match old(self).focus {
                        Focus::List => Focus::Detail,
                        Focus::Detail => Focus::List,
                    }
                } else {
                    old(self).focus
                },
                ..*old(self)
            }),
    {
        if self.detail.open {
            self.focus = match self.focus {
                Focus::List => Focus::Detail,
                Focus::Detail => Focus::List,
            };
        }
    }
}

/// Positions of the issues the filters admit.
fn visible_indices(f: &Filters, issues: &Vec<Issue>, st: StateFilter) -> (r: Vec<usize>)
    ensures
        r@ == visible(issues@, *f, st),
{
    let mut out: Vec<usize> = Vec::new();
    let mut i: usize = 0;
    while i < issues.len()
        invariant
            i <= issues@.len(),
            out@ == visible_upto(issues@, *f, st, i as int),
        decreases issues@.len() - i,
    {
        if f.matches(&issues[i], st) {
            out.push(i);
        }
        i += 1;
    }
    out
}


impl App {
    /// Sort every repo's issues by the current key and direction.
    fn sort_all(&mut self)
        ensures
            final(self).repos@.len() == old(self).repos@.len(),
            forall|k: int|
                0 <= k < old(self).repos@.len() ==> {
                    &&& (#[trigger] final(self).repos@[k]).repo == old(self).repos@[k].repo
                    &&& final(self).repos@[k].repo_url == old(self).repos@[k].repo_url
                    &&& is_stable_sort(
                        final(self).repos@[k].issues@,
                        old(self).repos@[k].issues@,
                        old(self).sort_key,
                        old(self).sort_desc,
                    )
                },
            *final(self) == (App { repos: final(self).repos, ..*old(self) }),
    {
        let mut rest: Vec<RepoIssues> = Vec::new();
        std::mem::swap(&mut rest, &mut self.repos);
        let ghost orig = rest@;
        let key = self.sort_key;
        let desc = self.sort_desc;
        let mut sorted: Vec<RepoIssues> = Vec::new();
        while rest.len() > 0
            invariant
                orig.len() == sorted@.len() + rest@.len(),
                rest@ =~= orig.subrange(sorted@.len() as int, orig.len() as int),
                forall|k: int|
                    0 <= k < sorted@.len() ==> {
                        &&& (#[trigger] sorted@[k]).repo == orig[k].repo
                        &&& sorted@[k].repo_url == orig[k].repo_url
                        &&& is_stable_sort(sorted@[k].issues@, orig[k].issues@, key, desc)
                    },
            decreases rest@.len(),
        {
            let ghost rb = rest@;
            let mut r = rest.remove(0);
            assert(r == orig[sorted@.len() as int]);
            sort_issues(&mut r.issues, key, desc);
            sorted.push(r);
            assert(rest@ =~= rb.subrange(1, rb.len() as int));
        }
        self.repos = sorted;
    }

    /// Recompute the visible rows from the data, filters, sort and collapse
    /// state, keeping the selection in range.
    pub fn rebuild_rows(&mut self)
        ensures
            final(self).repos@.len() == old(self).repos@.len(),
            forall|k: int|
                0 <= k < old(self).repos@.len() ==> {
                    &&& (#[trigger] final(self).repos@[k]).repo == old(self).repos@[k].repo
                    &&& final(self).repos@[k].repo_url == old(self).repos@[k].repo_url
                    &&& is_stable_sort(
                        final(self).repos@[k].issues@,
                        old(self).repos@[k].issues@,
                        old(self).sort_key,
                        old(self).sort_desc,
                    )
                },
            final(self).rows@ == final(self).spec_rows(),
            final(self).selected == clamp_index(old(self).selected as int, final(self).rows@.len() as int),
            *final(self) == (App {
                repos: final(self).repos,
                rows: final(self).rows,
                selected: final(self).selected,
                ..*old(self)
            }),
    {
        self.sort_all();
        let exact = self.repo_filter_exact();
        let ghost coll = str_views(self.collapsed@);
        let mut rows: Vec<Row> = Vec::new();
        let mut ri: usize = 0;
        while ri < self.repos.len()
            invariant
                ri <= self.repos@.len(),
                coll == str_views(self.collapsed@),
                rows@ == rows_upto(self.repos@, self.filters, self.state_filter, coll, exact, ri as int),
            decreases self.repos@.len() - ri,
        {
            let repo = &self.repos[ri];
            let ghost base = rows@;
            if self.filters.repo_matches(repo.repo.as_str(), exact) {
                let vis = visible_indices(&self.filters, &repo.issues, self.state_filter);
                if !(vis.len() == 0 && self.filters.hide_empty) {
                    rows.push(Row::RepoHeader { repo_idx: ri });
                    if !contains_str(&self.collapsed, repo.repo.as_str()) {
                        let mut j: usize = 0;
                        while j < vis.len()
                            invariant
                                j <= vis@.len(),
                                rows@ =~= base + seq![Row::RepoHeader { repo_idx: ri }]
                                    + vis@.subrange(0, j as int).map_values(
                                    |ii: usize| Row::Issue { repo_idx: ri, issue_idx: ii },
                                ),
                            decreases vis@.len() - j,
                        {
                            rows.push(Row::Issue { repo_idx: ri, issue_idx: vis[j] });
                            j += 1;
                        }
                        assert(vis@.subrange(0, vis@.len() as int) =~= vis@);
                    }
                }
            }
            assert(rows@ =~= rows_upto(self.repos@, self.filters, self.state_filter, coll, exact, ri + 1));
            ri += 1;
        }
        self.rows = rows;
        if self.selected >= self.rows.len() {
            self.selected = if self.rows.len() == 0 {
                0
            } else {
                self.rows.len() - 1
            };
        }
    }
}


/// Issue rows among the first `upto` rows.
pub open spec fn issue_rows_upto(rows: Seq<Row>, upto: int) -> nat
    decreases upto,
{
    if upto <= 0 {
        0
    } else {
        issue_rows_upto(rows, upto - 1) + if rows[upto - 1] is Issue {
            1nat
        } else {
            0nat
        }
    }
}

/// Issues the filters admit among the first `upto` repos that the repo
/// filter admits, collapsed groups included.
pub open spec fn filtered_upto(repos: Seq<RepoIssues>, f: Filters, st: StateFilter, exact: bool, upto: int) -> nat
    decreases upto,
{
    if upto <= 0 {
        0
    } else {
        filtered_upto(repos, f, st, exact, upto - 1) + if f.spec_repo_matches(
            repos[upto - 1].repo@,
            exact,
        ) {
            visible(repos[upto - 1].issues@, f, st).len()
        } else {
            0nat
        }
    }
}

/// Positions of the first `upto` repos that the repo filter admits and
/// that show at least one issue.
pub open spec fn shown_groups(repos: Seq<RepoIssues>, f: Filters, st: StateFilter, exact: bool, upto: int) -> Seq<usize>
    decreases upto,
{
    if upto <= 0 {
        Seq::empty()
    } else {
        let prev = shown_groups(repos, f, st, exact, upto - 1);
        if f.spec_repo_matches(repos[upto - 1].repo@, exact) && visible(
            repos[upto - 1].issues@,
            f,
            st,
        ).len() > 0 {
            prev.push((upto - 1) as usize)
        } else {
            prev
        }
    }
}

/// `k` is the first header row of the group named `name`.
pub open spec fn is_first_header(rows: Seq<Row>, repos: Seq<RepoIssues>, name: Seq<char>, k: int) -> bool {
    &&& 0 <= k < rows.len()
    &&& row_heads(rows[k], repos, name)
    &&& forall|j: int| 0 <= j < k ==> !row_heads(rows[j], repos, name)
}

/// `row` is the header of the group named `name`.
pub open spec fn row_heads(row: Row, repos: Seq<RepoIssues>, name: Seq<char>) -> bool {
    row matches Row::RepoHeader { repo_idx } && repo_idx < repos.len() && repos[repo_idx as int].repo@
        == name
}

/// `k` is the first issue row showing the issue with id `id`.
pub open spec fn is_first_id_row(rows: Seq<Row>, repos: Seq<RepoIssues>, id: Seq<char>, k: int) -> bool {
    &&& 0 <= k < rows.len()
    &&& row_has_id(rows[k], repos, id)
    &&& forall|j: int| 0 <= j < k ==> !row_has_id(rows[j], repos, id)
}

pub open spec fn row_has_id(row: Row, repos: Seq<RepoIssues>, id: Seq<char>) -> bool {
    row matches Row::Issue { repo_idx, issue_idx } && repo_idx < repos.len() && issue_idx
        < repos[repo_idx as int].issues@.len() && repos[repo_idx as int].issues@[issue_idx as int].id@
        == id
}

pub open spec fn owner_pat() -> Seq<char> {
    seq!['{', 'o', 'w', 'n', 'e', 'r', '}']
}

pub open spec fn repo_pat() -> Seq<char> {
    seq!['{', 'r', 'e', 'p', 'o', '}']
}

pub open spec fn number_pat() -> Seq<char> {
    seq!['{', 'n', 'u', 'm', 'b', 'e', 'r', '}']
}

/// The short reference `copy_format` renders for an issue.
pub open spec fn short_ref(format: Seq<char>, owner: Seq<char>, repo: Seq<char>, number: u64) -> Seq<char> {
    replace_all(
        replace_all(replace_all(format, owner_pat(), owner), repo_pat(), repo),
        number_pat(),
        decimal(number as nat),
    )
}

impl App {
    /// `self` is `prev` with its issues sorted, rows rebuilt and the
    /// selection kept in range, and nothing else changed.
    pub open spec fn rebuilt_from(&self, prev: App) -> bool {
        &&& self.repos@.len() == prev.repos@.len()
        &&& forall|k: int|
            0 <= k < prev.repos@.len() ==> {
                &&& (#[trigger] self.repos@[k]).repo == prev.repos@[k].repo
                &&& self.repos@[k].repo_url == prev.repos@[k].repo_url
                &&& is_stable_sort(
                    self.repos@[k].issues@,
                    prev.repos@[k].issues@,
                    prev.sort_key,
                    prev.sort_desc,
                )
            }
        &&& self.rows@ == self.spec_rows()
        &&& self.selected == clamp_index(prev.selected as int, self.rows@.len() as int)
        &&& *self == (App { repos: self.repos, rows: self.rows, selected: self.selected, ..prev })
    }

    /// The name of the only repo group visible under the current filters.
    pub open spec fn spec_single_visible(&self) -> Option<Seq<char>> {
        let g = shown_groups(
            self.repos@,
            self.filters,
            self.state_filter,
            self.spec_exact(),
            self.repos@.len() as int,
        );
        if g.len() == 1 {
            Some(self.repos@[g[0] as int].repo@)
        } else {
            None
        }
    }

    pub fn selected_issue(&self) -> (r: Option<&Issue>)
        ensures
            match r {
                Some(i) => self.spec_selected_issue() == Some(*i),
                None => self.spec_selected_issue().is_none(),
            },
    {
        if self.selected >= self.rows.len() {
            return None;
        }
        match self.rows[self.selected] {
            Row::Issue { repo_idx, issue_idx } => {
                if repo_idx < self.repos.len() && issue_idx < self.repos[repo_idx].issues.len() {
                    Some(&self.repos[repo_idx].issues[issue_idx])
                } else {
                    None
                }
            },
            Row::RepoHeader { .. } => None,
        }
    }

    pub fn selected_repo(&self) -> (r: Option<&RepoIssues>)
        ensures
            match r {
                Some(x) => (self.spec_selected_repo_idx() matches Some(ri) && *x
                    == self.repos@[ri as int]),
                None => self.spec_selected_repo_idx().is_none(),
            },
    {
        if self.selected >= self.rows.len() {
            return None;
        }
        let ri = match self.rows[self.selected] {
            Row::Issue { repo_idx, .. } => repo_idx,
            Row::RepoHeader { repo_idx } => repo_idx,
        };
        if ri < self.repos.len() {
            Some(&self.repos[ri])
        } else {
            None
        }
    }

    /// The short reference of the selected issue, rendered from
    /// `copy_format`; `None` on a header row.
    pub fn selected_short_ref(&self) -> (r: Option<String>)
        ensures
            match self.spec_selected_issue() {
                Some(i) => r.is_some() && (self.spec_selected_repo_idx() matches Some(ri)
                    && r.unwrap()@ == short_ref(
                    self.copy_format@,
                    self.org@,
                    self.repos@[ri as int].repo@,
                    i.number,
                )),
                None => r.is_none(),
            },
    {
        let issue = match self.selected_issue() {
            Some(i) => i,
            None => return None,
        };
        let repo = match self.selected_repo() {
            Some(r) => r,
            None => return None,
        };
        proof {
            reveal_strlit("{owner}");
            reveal_strlit("{repo}");
            reveal_strlit("{number}");
        }
        assert("{owner}"@ =~= owner_pat());
        assert("{repo}"@ =~= repo_pat());
        assert("{number}"@ =~= number_pat());
        let a = replace_str(self.copy_format.as_str(), "{owner}", self.org.as_str());
        let b = replace_str(a.as_str(), "{repo}", repo.repo.as_str());
        let n = u64_to_string(issue.number);
        Some(replace_str(b.as_str(), "{number}", n.as_str()))
    }

    /// Move the selection by `delta` rows, clamped to the list.
    pub fn move_selection(&mut self, delta: isize)
        ensures
            *final(self) == (App {
                selected: if old(self).rows@.len() == 0 {
                    old(self).selected
                } else {
                    crate::detail::clamp_int(
                        old(self).selected + delta,
                        0,
                        old(self).rows@.len() - 1,
                    ) as usize
                },
                ..*old(self)
            }),
    {
        if self.rows.len() == 0 {
            return;
        }
        let len: i128 = self.rows.len() as i128;
        let next: i128 = self.selected as i128 + delta as i128;
        self.selected = if next < 0 {
            0
        } else if next > len - 1 {
            (len - 1) as usize
        } else {
            next as usize
        };
    }

    /// Issues of repo `repo_idx` the filters admit (the repo filter aside).
    pub fn repo_visible_count(&self, repo_idx: usize) -> (r: usize)
        ensures
            repo_idx < self.repos@.len() ==> r == visible(
                self.repos@[repo_idx as int].issues@,
                self.filters,
                self.state_filter,
            ).len(),
            repo_idx >= self.repos@.len() ==> r == 0,
    {
        if repo_idx < self.repos.len() {
            visible_indices(&self.filters, &self.repos[repo_idx].issues, self.state_filter).len()
        } else {
            0
        }
    }

    /// Issue rows currently visible (headers excluded).
    pub fn visible_issue_count(&self) -> (r: usize)
        ensures
            r == issue_rows_upto(self.rows@, self.rows@.len() as int),
    {
        let mut n: usize = 0;
        let mut i: usize = 0;
        while i < self.rows.len()
            invariant
                i <= self.rows@.len(),
                n == issue_rows_upto(self.rows@, i as int),
                n <= i,
            decreases self.rows@.len() - i,
        {
            if let Row::Issue { .. } = self.rows[i] {
                n += 1;
            }
            i += 1;
        }
        n
    }

    /// Issues passing the filters, including those inside collapsed groups.
    pub fn filtered_issue_count(&self) -> (r: usize)
        requires
            filtered_upto(
                self.repos@,
                self.filters,
                self.state_filter,
                self.spec_exact(),
                self.repos@.len() as int,
            ) <= usize::MAX,
        ensures
            r == filtered_upto(
                self.repos@,
                self.filters,
                self.state_filter,
                self.spec_exact(),
                self.repos@.len() as int,
            ),
    {
        let exact = self.repo_filter_exact();
        let mut n: usize = 0;
        let mut i: usize = 0;
        while i < self.repos.len()
            invariant
                i <= self.repos@.len(),
                exact == self.spec_exact(),
                n == filtered_upto(self.repos@, self.filters, self.state_filter, exact, i as int),
                filtered_upto(self.repos@, self.filters, self.state_filter, exact, self.repos@.len() as int)
                    <= usize::MAX,
            decreases self.repos@.len() - i,
        {
            if self.filters.repo_matches(self.repos[i].repo.as_str(), exact) {
                let c = visible_indices(&self.filters, &self.repos[i].issues, self.state_filter).len();
                proof {
                    lemma_filtered_monotone(
                        self.repos@,
                        self.filters,
                        self.state_filter,
                        exact,
                        i + 1,
                        self.repos@.len() as int,
                    );
                }
                n = n + c;
            }
            i += 1;
        }
        n
    }
}

pub proof fn lemma_visible_len(issues: Seq<Issue>, f: Filters, st: StateFilter, upto: int)
    ensures
        visible_upto(issues, f, st, upto).len() <= if upto < 0 { 0 } else { upto },
        forall|k: int|
            0 <= k < visible_upto(issues, f, st, upto).len() ==> #[trigger] visible_upto(issues, f, st, upto)[k]
                < upto,
    decreases upto,
{
    if upto > 0 {
        lemma_visible_len(issues, f, st, upto - 1);
    }
}

/// Prefix counts only grow.
pub proof fn lemma_filtered_monotone(repos: Seq<RepoIssues>, f: Filters, st: StateFilter, exact: bool, i: int, j: int)
    requires
        i <= j,
    ensures
        filtered_upto(repos, f, st, exact, i) <= filtered_upto(repos, f, st, exact, j),
    decreases j - i,
{
    if i < j {
        lemma_filtered_monotone(repos, f, st, exact, i, j - 1);
    }
}


/// `f2` is `f` after the input box of kind `kind` submitted `value`.
pub open spec fn input_applied(f2: Filters, f: Filters, kind: InputKind, value: Seq<char>) -> bool {
    let v = trim(value);
    match kind {
        InputKind::Search => f2 == (Filters { text: f2.text, ..f }) && f2.text@ == value,
        InputKind::FilterField(idx) => if idx == 0 {
            f2 == (Filters { text: f2.text, ..f }) && f2.text@ == v
        } else if idx == 1 {
            f2 == (Filters { repo: f2.repo, ..f }) && f2.repo@ == v
        } else if idx == 2 {
            f2 == (Filters { assignee: f2.assignee, ..f }) && f2.assignee@ == v
        } else if idx == 3 {
            f2 == (Filters { author: f2.author, ..f }) && f2.author@ == v
        } else if idx == 4 {
            f2 == (Filters { priority: f2.priority, ..f }) && str_views(f2.priority@)
                == trimmed_nonempty(split(v, ','))
        } else if idx == 5 {
            f2 == (Filters { status: f2.status, ..f }) && str_views(f2.status@) == trimmed_nonempty(
                split(v, ','),
            )
        } else if idx == 6 {
            f2 == (Filters { created_after: spec_parse_date(v), ..f })
        } else if idx == 7 {
            f2 == (Filters { created_before: spec_parse_date(v), ..f })
        } else if idx == 8 {
            f2 == (Filters { updated_after: spec_parse_date(v), ..f })
        } else if idx == 9 {
            f2 == (Filters { updated_before: spec_parse_date(v), ..f })
        } else if idx == 10 {
            f2 == (Filters { closed_after: spec_parse_date(v), ..f })
        } else if idx == 11 {
            f2 == (Filters { closed_before: spec_parse_date(v), ..f })
        } else {
            f2 == f
        },
        _ => f2 == f,
    }
}

/// Apply text submitted from an input box to the filters.
fn set_filter_field(filters: &mut Filters, kind: InputKind, value: &str)
    ensures
        input_applied(*final(filters), *old(filters), kind, value@),
{
    match kind {
        InputKind::Search => {
            filters.text = owned(value);
        },
        InputKind::FilterField(idx) => {
            let v = trim_str(value);
            if idx == 0 {
                filters.text = v;
            } else if idx == 1 {
                filters.repo = v;
            } else if idx == 2 {
                filters.assignee = v;
            } else if idx == 3 {
                filters.author = v;
            } else if idx == 4 {
                filters.priority = parse_filter_list(v.as_str());
            } else if idx == 5 {
                filters.status = parse_filter_list(v.as_str());
            } else if idx == 6 {
                filters.created_after = parse_date(v.as_str());
            } else if idx == 7 {
                filters.created_before = parse_date(v.as_str());
            } else if idx == 8 {
                filters.updated_after = parse_date(v.as_str());
            } else if idx == 9 {
                filters.updated_before = parse_date(v.as_str());
            } else if idx == 10 {
                filters.closed_after = parse_date(v.as_str());
            } else if idx == 11 {
                filters.closed_before = parse_date(v.as_str());
            }
        },
        _ => {},
    }
}

/// What a filter field shows in the editor.
pub open spec fn filter_value_text(f: Filters, idx: usize) -> Seq<char> {
    let d = |o: Option<i32>|
        match o {
            Some(x) => day_text(x),
            None => Seq::<char>::empty(),
        };
    if idx == 0 {
        f.text@
    } else if idx == 1 {
        f.repo@
    } else if idx == 2 {
        f.assignee@
    } else if idx == 3 {
        f.author@
    } else if idx == 4 {
        join(str_views(f.priority@), seq![',', ' '])
    } else if idx == 5 {
        join(str_views(f.status@), seq![',', ' '])
    } else if idx == 6 {
        d(f.created_after)
    } else if idx == 7 {
        d(f.created_before)
    } else if idx == 8 {
        d(f.updated_after)
    } else if idx == 9 {
        d(f.updated_before)
    } else if idx == 10 {
        d(f.closed_after)
    } else if idx == 11 {
        d(f.closed_before)
    } else if f.hide_empty {
        seq!['y', 'e', 's']
    } else {
        seq!['n', 'o']
    }
}

fn day_or_empty(o: Option<i32>) -> (r: String)
    ensures
        r@ == (match o {
            Some(x) => day_text(x),
            None => Seq::<char>::empty(),
        }),
{
    match o {
        Some(x) => format_day(x),
        None => String::new(),
    }
}

impl App {
    /// `self` is `prev` after `expand_single_visible`: the lone visible
    /// group, when collapsed, is expanded and the rows rebuilt.
    pub open spec fn expanded_from(&self, prev: App) -> bool {
        match prev.spec_single_visible() {
            Some(name) => if str_views(prev.collapsed@).contains(name) {
                &&& forall|t: Seq<char>|
                    #![trigger str_views(self.collapsed@).contains(t)]
                    str_views(self.collapsed@).contains(t) <==> (str_views(
                        prev.collapsed@,
                    ).contains(t) && t != name)
                &&& self.rebuilt_from(App { collapsed: self.collapsed, ..prev })
            } else {
                *self == prev
            },
            None => *self == prev,
        }
    }

    /// The name of the only repo group visible under the current filters.
    fn single_visible_repo(&self) -> (r: Option<String>)
        ensures
            match r {
                Some(s) => self.spec_single_visible() == Some(s@),
                None => self.spec_single_visible().is_none(),
            },
    {
        let exact = self.repo_filter_exact();
        let ghost g = shown_groups(
            self.repos@,
            self.filters,
            self.state_filter,
            exact,
            self.repos@.len() as int,
        );
        let mut count: usize = 0;
        let mut first: usize = 0;
        let mut i: usize = 0;
        while i < self.repos.len()
            invariant
                i <= self.repos@.len(),
                exact == self.spec_exact(),
                count == shown_groups(self.repos@, self.filters, self.state_filter, exact, i as int).len(),
                count <= i,
                count > 0 ==> first < i,
                count > 0 ==> first == shown_groups(
                    self.repos@,
                    self.filters,
                    self.state_filter,
                    exact,
                    i as int,
                )[0],
            decreases self.repos@.len() - i,
        {
            let ghost prev = shown_groups(self.repos@, self.filters, self.state_filter, exact, i as int);
            if self.filters.repo_matches(self.repos[i].repo.as_str(), exact) && visible_indices(
                &self.filters,
                &self.repos[i].issues,
                self.state_filter,
            ).len() > 0 {
                if count == 0 {
                    first = i;
                }
                count += 1;
                assert(shown_groups(self.repos@, self.filters, self.state_filter, exact, i + 1)
                    == prev.push(i));
            }
            i += 1;
        }
        if count == 1 {
            Some(self.repos[first].repo.clone())
        } else {
            None
        }
    }

    /// Expand the lone visible repo group, if it is collapsed.
    pub fn expand_single_visible(&mut self)
        ensures
            final(self).expanded_from(*old(self)),
    {
        let name = match self.single_visible_repo() {
            Some(n) => n,
            None => return,
        };
        if contains_str(&self.collapsed, name.as_str()) {
            remove_str(&mut self.collapsed, name.as_str());
            self.rebuild_rows();
        }
    }

    /// Collapse the selected repo group if it is expanded, or expand it.
    pub open spec fn collapse_toggled(&self, prev: App) -> bool {
        match prev.spec_selected_repo_idx() {
            None => *self == prev,
            Some(ri) => {
                let name = prev.repos@[ri as int].repo@;
                &&& forall|t: Seq<char>|
                    #![trigger str_views(self.collapsed@).contains(t)]
                    str_views(self.collapsed@).contains(t) <==> (str_views(prev.collapsed@).contains(t)
                        != (t == name))
                &&& self.rebuilt_from(App { collapsed: self.collapsed, ..prev })
            },
        }
    }

    pub fn toggle_collapse(&mut self)
        ensures
            final(self).collapse_toggled(*old(self)),
    {
        let name = match self.selected_repo() {
            Some(r) => r.repo.clone(),
            None => return,
        };
        if !remove_str(&mut self.collapsed, name.as_str()) {
            insert_str(&mut self.collapsed, name);
        }
        self.rebuild_rows();
    }

    /// Collapse or expand every repo group.
    pub open spec fn all_collapsed(&self, prev: App, collapsed: bool) -> bool {
        &&& collapsed ==> forall|t: Seq<char>|
            #![trigger str_views(self.collapsed@).contains(t)]
            str_views(self.collapsed@).contains(t) <==> exists|k: int|
                0 <= k < prev.repos@.len() && prev.repos@[k].repo@ == t
        &&& !collapsed ==> self.collapsed@.len() == 0
        &&& self.rebuilt_from(App { collapsed: self.collapsed, ..prev })
    }

    pub fn set_all_collapsed(&mut self, collapsed: bool)
        ensures
            final(self).all_collapsed(*old(self), collapsed),
    {
        let mut names: Vec<String> = Vec::new();
        if collapsed {
            let mut i: usize = 0;
            while i < self.repos.len()
                invariant
                    i <= self.repos@.len(),
                    names@.len() == i,
                    forall|k: int| 0 <= k < i ==> names@[k]@ == self.repos@[k].repo@,
                decreases self.repos@.len() - i,
            {
                names.push(self.repos[i].repo.clone());
                i += 1;
            }
            assert forall|t: Seq<char>|
                str_views(names@).contains(t) <==> exists|k: int|
                    0 <= k < self.repos@.len() && self.repos@[k].repo@ == t by {
                if str_views(names@).contains(t) {
                    let k = choose|k: int| 0 <= k < str_views(names@).len() && str_views(names@)[k] == t;
                    assert(self.repos@[k].repo@ == t);
                }
                if exists|k: int| 0 <= k < self.repos@.len() && self.repos@[k].repo@ == t {
                    let k = choose|k: int| 0 <= k < self.repos@.len() && self.repos@[k].repo@ == t;
                    assert(str_views(names@)[k] == t);
                }
            }
        }
        self.collapsed = names;
        self.rebuild_rows();
    }

    /// Restore the filters to their defaults; the hide-empty toggle returns
    /// to the configured default.
    pub fn clear_filters(&mut self)
        ensures
            (Filters { hide_empty: true, ..final(self).filters }).is_default(),
            final(self).filters.hide_empty == old(self).hide_empty_default,
            *final(self) == (App { filters: final(self).filters, ..*old(self) }),
    {
        self.filters.clear();
        self.filters.hide_empty = self.hide_empty_default;
    }

    /// Whether the filters-active indicator shows: any filter set, or the
    /// hide-empty toggle away from its configured default.
    pub fn filters_active(&self) -> (r: bool)
        ensures
            r == (self.filters.spec_is_active() || self.filters.hide_empty != self.hide_empty_default),
    {
        self.filters.is_active() || self.filters.hide_empty != self.hide_empty_default
    }

    /// Set the configured default of the hide-empty filter, applying it to
    /// the live filter too.
    pub fn set_hide_empty_default(&mut self, hide: bool)
        ensures
            *final(self) == (App {
                hide_empty_default: hide,
                filters: Filters { hide_empty: hide, ..old(self).filters },
                ..*old(self)
            }),
    {
        self.hide_empty_default = hide;
        self.filters.hide_empty = hide;
    }

    /// Flip the hide-empty-repos filter, rebuild, and expand a lone group.
    pub open spec fn hide_empty_toggled(&self, prev: App) -> bool {
        exists|m: App|
            m.rebuilt_from(
                App { filters: Filters { hide_empty: !prev.filters.hide_empty, ..prev.filters }, ..prev },
            ) && #[trigger] self.expanded_from(m)
    }

    pub fn toggle_hide_empty(&mut self)
        ensures
            final(self).hide_empty_toggled(*old(self)),
    {
        self.filters.hide_empty = !self.filters.hide_empty;
        self.rebuild_rows();
        let ghost m = *self;
        self.expand_single_visible();
        assert(m.rebuilt_from(
            App {
                filters: Filters { hide_empty: !old(self).filters.hide_empty, ..old(self).filters },
                ..*old(self)
            },
        ));
    }

    /// Apply text submitted from an input box to the filters, then rebuild
    /// and expand a lone group.
    /// Text submitted for filter `kind` applied, the rows rebuilt and a lone
    /// group expanded.
    pub open spec fn filter_input_applied(&self, prev: App, kind: InputKind, value: Seq<char>) -> bool {
        &&& input_applied(self.filters, prev.filters, kind, value)
        &&& exists|m: App|
            m.rebuilt_from(App { filters: self.filters, ..prev }) && #[trigger] self.expanded_from(m)
    }

    pub fn apply_filter_input(&mut self, kind: InputKind, value: &str)
        ensures
            final(self).filter_input_applied(*old(self), kind, value@),
    {
        set_filter_field(&mut self.filters, kind, value);
        self.rebuild_rows();
        let ghost m = *self;
        self.expand_single_visible();
        assert(m.rebuilt_from(App { filters: final(self).filters, ..*old(self) }));
    }

    /// Commit a multi-select filter field (4: priority, 5: status); other
    /// fields are ignored.
    /// A multi-select filter field committed (4: priority, 5: status), the
    /// rows rebuilt and a lone group expanded; other fields change nothing.
    pub open spec fn multi_filter_applied(&self, prev: App, idx: usize, values: Vec<String>) -> bool {
        &&& idx != 4 && idx != 5 ==> *self == prev
        &&& idx == 4 ==> self.filters == (Filters { priority: values, ..prev.filters })
        &&& idx == 5 ==> self.filters == (Filters { status: values, ..prev.filters })
        &&& idx == 4 || idx == 5 ==> exists|m: App|
            m.rebuilt_from(App { filters: self.filters, ..prev }) && #[trigger] self.expanded_from(m)
    }

    pub fn apply_multi_filter(&mut self, idx: usize, values: Vec<String>)
        ensures
            final(self).multi_filter_applied(*old(self), idx, values),
    {
        if idx == 4 {
            self.filters.priority = values;
        } else if idx == 5 {
            self.filters.status = values;
        } else {
            return;
        }
        self.rebuild_rows();
        let ghost m = *self;
        self.expand_single_visible();
        assert(m.rebuilt_from(App { filters: final(self).filters, ..*old(self) }));
    }

    /// What filter field `idx` shows in the editor.
    pub fn current_filter_value(&self, idx: usize) -> (r: String)
        ensures
            r@ == filter_value_text(self.filters, idx),
    {
        proof {
            reveal_strlit(", ");
            reveal_strlit("yes");
            reveal_strlit("no");
        }
        assert(", "@ =~= seq![',', ' ']);
        if idx == 0 {
            self.filters.text.clone()
        } else if idx == 1 {
            self.filters.repo.clone()
        } else if idx == 2 {
            self.filters.assignee.clone()
        } else if idx == 3 {
            self.filters.author.clone()
        } else if idx == 4 {
            join_strings(self.filters.priority.as_slice(), ", ")
        } else if idx == 5 {
            join_strings(self.filters.status.as_slice(), ", ")
        } else if idx == 6 {
            day_or_empty(self.filters.created_after)
        } else if idx == 7 {
            day_or_empty(self.filters.created_before)
        } else if idx == 8 {
            day_or_empty(self.filters.updated_after)
        } else if idx == 9 {
            day_or_empty(self.filters.updated_before)
        } else if idx == 10 {
            day_or_empty(self.filters.closed_after)
        } else if idx == 11 {
            day_or_empty(self.filters.closed_before)
        } else if self.filters.hide_empty {
            owned("yes")
        } else {
            owned("no")
        }
    }
}


/// The canonical `owner/repo#number` of an issue.
pub open spec fn issue_ref_text(owner: Seq<char>, repo: Seq<char>, number: u64) -> Seq<char> {
    owner + seq!['/'] + repo + seq!['#'] + decimal(number as nat)
}

/// The value of a `<prefix>:<value>` label name: the text after the first
/// `:` when the text before it equals `prefix` ignoring ASCII case.
pub open spec fn prefixed_value(name: Seq<char>, prefix: Seq<char>) -> Option<Seq<char>> {
    if exists|k: int| 0 <= k < name.len() && name[k] == ':' {
        let k = choose|k: int|
            0 <= k < name.len() && name[k] == ':' && forall|j: int| 0 <= j < k ==> name[j] != ':';
        if eq_ic(name.subrange(0, k), prefix) {
            Some(name.subrange(k + 1, name.len() as int))
        } else {
            None
        }
    } else {
        None
    }
}

/// Whether some label of a loaded issue carries value `v` under `prefix`.
pub open spec fn has_label_value(repos: Seq<RepoIssues>, prefix: Seq<char>, v: Seq<char>) -> bool {
    exists|r: int, i: int, l: int|
        0 <= r < repos.len() && 0 <= i < repos[r].issues@.len() && 0 <= l
            < repos[r].issues@[i].labels@.len() && #[trigger] prefixed_value(
            repos[r].issues@[i].labels@[l].name@,
            prefix,
        ) == Some(v)
}

/// The value after the first `:` of `name` when the part before it names
/// `prefix`.
fn label_value(name: &str, prefix: &str) -> (r: Option<String>)
    ensures
        match r {
            Some(v) => prefixed_value(name@, prefix@) == Some(v@),
            None => prefixed_value(name@, prefix@).is_none(),
        },
{
    let v = crate::text::chars_of(name);
    let mut k: usize = 0;
    while k < v.len() && v[k] != ':'
        invariant
            v@ == name@,
            k <= v@.len(),
            forall|j: int| 0 <= j < k ==> v@[j] != ':',
        decreases v@.len() - k,
    {
        k += 1;
    }
    if k == v.len() {
        return None;
    }
    let ghost first = k as int;
    assert(0 <= first < name@.len() && name@[first] == ':' && forall|j: int|
        0 <= j < first ==> name@[j] != ':');
    let ghost c = choose|c: int|
        0 <= c < name@.len() && name@[c] == ':' && forall|j: int| 0 <= j < c ==> name@[j] != ':';
    assert(c == first) by {
        if c < first {
            assert(v@[c] != ':');
        }
        if c > first {
            assert(name@[first] != ':');
        }
    }
    let head = crate::text::string_of_range(&v, 0, k);
    if eq_ignore_ascii_case(head.as_str(), prefix) {
        Some(crate::text::string_of_range(&v, k + 1, v.len()))
    } else {
        None
    }
}

impl App {
    /// The detail pane as it opens: on the body, at the top, with no thread
    /// loaded and no PR state.
    pub open spec fn detail_opened(&self, prev: App) -> bool {
        &&& *self == (App { focus: Focus::Detail, detail: self.detail, pr: self.pr, ..prev })
        &&& self.detail.open
        &&& self.detail.sel == DetailSel::Body
        &&& self.detail.body_scroll == 0
        &&& self.detail.comments_scroll == 0
        &&& self.detail.comments.is_none()
        &&& self.pr.links@.len() == 0
        &&& self.pr.target.is_none()
        &&& self.pr.summary.is_none()
        &&& self.pr.scroll == 0
        &&& self.pr.sel == 0
    }

    pub fn open_detail(&mut self)
        ensures
            final(self).detail_opened(*old(self)),
    {
        self.detail.open = true;
        self.focus = Focus::Detail;
        self.detail.reset_scroll();
        self.detail.comments = None;
        self.pr = PrState::new();
    }

    /// `→` on an issue row: focus the detail pane, opening it first when it
    /// is closed. Returns the issue id when the pane was newly opened and
    /// its comments need fetching; nothing happens on a header row.
    pub fn enter_detail(&mut self) -> (r: Option<String>)
        ensures
            match old(self).spec_selected_issue() {
                None => r.is_none() && *final(self) == *old(self),
                Some(i) => if old(self).detail.open {
                    r.is_none() && *final(self) == (App { focus: Focus::Detail, ..*old(self) })
                } else {
                    r.is_some() && r.unwrap()@ == i.id@ && final(self).detail_opened(*old(self))
                },
            },
    {
        let id = match self.selected_issue() {
            Some(i) => i.id.clone(),
            None => return None,
        };
        if self.detail.open {
            self.focus = Focus::Detail;
            None
        } else {
            self.open_detail();
            Some(id)
        }
    }

    /// `c`: start the inline comment editor for the selected issue, opening
    /// the detail pane first when it is closed; returns what `enter_detail`
    /// returns.
    /// What `c` leaves: the editor open on an empty new comment, the pane
    /// open, and `fetch` naming the issue whose thread the newly opened
    /// pane needs.
    pub open spec fn comment_editor_started(&self, prev: App, fetch: Option<Seq<char>>) -> bool {
        &&& prev.spec_selected_issue().is_none() ==> fetch.is_none() && *self == prev
        &&& prev.spec_selected_issue().is_some() ==> {
            &&& self.mode == Mode::CommentEditor
            &&& self.editor.target == EditorTarget::NewComment
            &&& self.editor.focus == CommentFocus::Editor
            &&& self.editor.body.spec_text().len() == 0
            &&& (prev.detail.open ==> fetch.is_none() && self.focus == Focus::Detail && self.detail
                == prev.detail)
            &&& (!prev.detail.open ==> fetch == Some(prev.spec_selected_issue().unwrap().id@)
                && self.detail.open)
        }
    }

    pub fn start_comment_editor(&mut self) -> (r: Option<String>)
        ensures
            final(self).comment_editor_started(
                *old(self),
                match r {
                    Some(s) => Some(s@),
                    None => None,
                },
            ),
    {
        if self.selected_issue().is_none() {
            return None;
        }
        let body = BodyEditor::new();
        proof {
            assert(crate::editor::buffers(body.lines@) =~~= seq![Seq::<char>::empty()]);
        }
        self.editor.start(body, EditorTarget::NewComment);
        self.mode = Mode::CommentEditor;
        self.enter_detail()
    }

    /// `e`: open the inline editor on the selected detail region, prefilled
    /// with the body or the comment; nothing while the pane is closed or the
    /// region is missing.
    /// What `e` leaves: the inline editor on the selected card (the body,
    /// or a loaded comment), prefilled with its text; nothing otherwise.
    pub open spec fn card_edit_started(&self, prev: App) -> bool {
        let edits = *self == (App { mode: Mode::CommentEditor, editor: self.editor, ..prev });
        &&& !prev.detail.open ==> *self == prev
        &&& prev.detail.open ==> match prev.detail.sel {
            DetailSel::Body => match prev.spec_selected_issue() {
                None => *self == prev,
                Some(i) => edits && self.editor.target == EditorTarget::EditBody
                    && self.editor.body.spec_text() == i.body@,
            },
            DetailSel::Comment(k) => if prev.detail.comments is Some && k
                < prev.detail.comments.unwrap()@.len() {
                let c = prev.detail.comments.unwrap()@[k as int];
                edits && (self.editor.target matches EditorTarget::EditComment { comment_id }
                    && comment_id@ == c.id@) && self.editor.body.spec_text() == c.body@
            } else {
                *self == prev
            },
        }
    }

    pub fn start_edit_selected_card(&mut self)
        ensures
            final(self).card_edit_started(*old(self)),
    {
        if !self.detail.open {
            return;
        }
        let (body, target) = match self.detail.sel {
            DetailSel::Body => {
                let b = match self.selected_issue() {
                    Some(issue) => {
                        let b = BodyEditor::from_text(issue.body.as_str());
                        proof {
                            crate::editor::lemma_from_text_round_trip(issue.body@, b);
                        }
                        b
                    },
                    None => return,
                };
                (b, EditorTarget::EditBody)
            },
            DetailSel::Comment(idx) => {
                let c = match &self.detail.comments {
                    Some(cs) => if idx < cs.len() {
                        &cs[idx]
                    } else {
                        return;
                    },
                    None => return,
                };
                let b = BodyEditor::from_text(c.body.as_str());
                proof {
                    crate::editor::lemma_from_text_round_trip(c.body@, b);
                }
                (b, EditorTarget::EditComment { comment_id: c.id.clone() })
            },
        };
        self.editor.start(body, target);
        self.mode = Mode::CommentEditor;
    }

    /// Close the detail pane, returning focus to the list.
    pub open spec fn detail_closed(&self, prev: App) -> bool {
        &&& *self == (App {
            focus: Focus::List,
            detail: DetailState { open: false, ..prev.detail },
            pr: self.pr,
            ..prev
        })
        &&& self.pr.links@.len() == 0
        &&& self.pr.target.is_none()
        &&& self.pr.summary.is_none()
    }

    pub fn close_detail(&mut self)
        ensures
            final(self).detail_closed(*old(self)),
    {
        self.detail.open = false;
        self.focus = Focus::List;
        self.pr = PrState::new();
    }

    /// Open the summary popup for one PR; the caller spawns the fetch.
    pub fn open_pr_summary(&mut self, pr: PrRef)
        ensures
            final(self).mode == Mode::PrSummary,
            final(self).pr.target == Some(pr),
            final(self).pr.summary.is_none(),
            final(self).pr.links == old(self).pr.links,
            *final(self) == (App { mode: Mode::PrSummary, pr: final(self).pr, ..*old(self) }),
    {
        self.pr.open(pr);
        self.mode = Mode::PrSummary;
    }

    /// Open a picker over several PR links, labelled `owner/repo#number`.
    pub fn open_pr_picker(&mut self, links: Vec<PrRef>)
        ensures
            final(self).mode == Mode::PrPicker,
            final(self).pr.links == links,
            final(self).picker.options@.len() == links@.len(),
            forall|k: int|
                0 <= k < links@.len() ==> (#[trigger] final(self).picker.options@[k])@
                    == links@[k].spec_label(),
            final(self).picker.idx == 0,
            final(self).picker.filter@.len() == 0,
            final(self).picker.multi_selected == old(self).picker.multi_selected,
            final(self).picker.priority_issue == old(self).picker.priority_issue,
            final(self).picker.label_issue == old(self).picker.label_issue,
            *final(self) == (App {
                mode: Mode::PrPicker,
                pr: PrState { links: final(self).pr.links, ..old(self).pr },
                picker: final(self).picker,
                ..*old(self)
            }),
    {
        let mut labels: Vec<String> = Vec::new();
        let mut i: usize = 0;
        while i < links.len()
            invariant
                i <= links@.len(),
                labels@.len() == i,
                forall|k: int| 0 <= k < i ==> (#[trigger] labels@[k])@ == links@[k].spec_label(),
            decreases links@.len() - i,
        {
            labels.push(links[i].label());
            i += 1;
        }
        self.picker.start(labels, 0);
        self.pr.links = links;
        self.mode = Mode::PrPicker;
    }

    /// Close the PR summary popup, back to the detail pane.
    pub fn close_pr_summary(&mut self)
        ensures
            final(self).mode == Mode::Normal,
            final(self).pr.target.is_none(),
            final(self).pr.summary.is_none(),
            final(self).pr.links == old(self).pr.links,
            final(self).pr.scroll == 0,
            final(self).pr.sel == 0,
            *final(self) == (App { mode: Mode::Normal, pr: final(self).pr, ..*old(self) }),
    {
        self.pr.close();
        self.mode = Mode::Normal;
    }

    /// Close the PR picker without choosing.
    pub fn close_pr_picker(&mut self)
        ensures
            final(self).mode == Mode::Normal,
            final(self).pr.links@.len() == 0,
            *final(self) == (App { mode: Mode::Normal, pr: PrState { links: final(self).pr.links, ..old(self).pr }, ..*old(self) }),
    {
        self.pr.links = Vec::new();
        self.mode = Mode::Normal;
    }

    /// Open the new-issue form for `repo`; its options arrive later.
    pub fn open_issue_form(&mut self, repo: String)
        ensures
            final(self).mode == Mode::IssueForm,
            final(self).issue_form is Some,
            final(self).issue_form.unwrap().repo == repo,
            final(self).issue_form.unwrap().options.is_none(),
            *final(self) == (App { mode: Mode::IssueForm, issue_form: final(self).issue_form, ..*old(self) }),
    {
        self.issue_form = Some(IssueForm::new(repo));
        self.mode = Mode::IssueForm;
    }

    /// Discard the form and return to the list.
    pub fn cancel_issue_form(&mut self)
        ensures
            *final(self) == (App { mode: Mode::Normal, issue_form: None, ..*old(self) }),
    {
        self.issue_form = None;
        self.mode = Mode::Normal;
    }

    /// Deliver a per-repo options fetch; dropped when the form was closed or
    /// now targets another repo.
    pub fn set_form_options(&mut self, repo: &str, options: FormOptions)
        ensures
            match old(self).issue_form {
                Some(f) => if f.repo@ == repo@ {
                    final(self).issue_form matches Some(g) && g.options == Some(options)
                        && g.repo == f.repo && g.title == f.title && g.field_idx == f.field_idx
                } else {
                    *final(self) == *old(self)
                },
                None => *final(self) == *old(self),
            },
            *final(self) == (App { issue_form: final(self).issue_form, ..*old(self) }),
    {
        let matches = match &self.issue_form {
            Some(f) => f.repo.as_str().len() == repo.len() && eq_str(f.repo.as_str(), repo),
            None => false,
        };
        if matches {
            let mut f = self.issue_form.take().unwrap();
            f.options = Some(options);
            self.issue_form = Some(f);
        }
    }

    /// Repos the selected issue can move to: every loaded repo but its own.
    pub fn move_targets(&self) -> (r: Vec<String>)
        ensures
            match old_repo_name(self) {
                None => r@.len() == 0,
                Some(cur) => forall|t: Seq<char>|
                    #![trigger str_views(r@).contains(t)]
                    str_views(r@).contains(t) <==> (t != cur && exists|k: int|
                        0 <= k < self.repos@.len() && self.repos@[k].repo@ == t),
            },
    {
        let cur = match self.selected_repo() {
            Some(r) => r.repo.clone(),
            None => return Vec::new(),
        };
        let mut out: Vec<String> = Vec::new();
        let mut i: usize = 0;
        while i < self.repos.len()
            invariant
                i <= self.repos@.len(),
                old_repo_name(self) == Some(cur@),
                forall|t: Seq<char>|
                    #![trigger str_views(out@).contains(t)]
                    str_views(out@).contains(t) <==> (t != cur@ && exists|k: int|
                        0 <= k < i && self.repos@[k].repo@ == t),
            decreases self.repos@.len() - i,
        {
            let ghost before = out@;
            if self.repos[i].repo != cur {
                out.push(self.repos[i].repo.clone());
                assert(str_views(out@) =~= str_views(before).push(self.repos@[i as int].repo@));
            }
            assert forall|t: Seq<char>|
                #![trigger str_views(out@).contains(t)]
                str_views(out@).contains(t) <==> (t != cur@ && exists|k: int|
                    0 <= k < i + 1 && self.repos@[k].repo@ == t) by {
                if t != cur@ && exists|k: int| 0 <= k < i + 1 && self.repos@[k].repo@ == t {
                    let k = choose|k: int| 0 <= k < i + 1 && self.repos@[k].repo@ == t;
                    if k < i {
                        assert(str_views(before).contains(t));
                    }
                }
            }
            i += 1;
        }
        out
    }

    /// Open the move-target picker.
    pub fn open_move_picker(&mut self, targets: Vec<String>)
        ensures
            final(self).mode == Mode::MovePicker,
            final(self).picker.options@ == targets@,
            final(self).picker.idx == 0,
            final(self).picker.filter@.len() == 0,
            final(self).picker == (PickerState {
                options: targets,
                idx: 0,
                filter: final(self).picker.filter,
                ..old(self).picker
            }),
            *final(self) == (App { mode: Mode::MovePicker, picker: final(self).picker, ..*old(self) }),
    {
        self.picker.start(targets, 0);
        self.mode = Mode::MovePicker;
    }

    /// Whether filter field `idx` picks one value from a list (repo,
    /// assignee, author).
    pub fn is_select_field(idx: usize) -> (r: bool)
        ensures
            r == (1 <= idx <= 3),
    {
        1 <= idx && idx <= 3
    }

    /// Whether filter field `idx` picks several values (priority, status).
    pub fn is_multi_select_field(idx: usize) -> (r: bool)
        ensures
            r == (idx == 4 || idx == 5),
    {
        idx == 4 || idx == 5
    }

    /// Whether filter field `idx` uses the calendar date picker.
    pub fn is_calendar_field(idx: usize) -> (r: bool)
        ensures
            r == (6 <= idx <= 11),
    {
        6 <= idx && idx <= 11
    }

    /// Put the calendar cursor on the field's current date, or on today
    /// when the field holds none.
    pub fn calendar_init(&mut self, idx: usize)
        ensures
            spec_parse_date(filter_value_text(old(self).filters, idx)) matches Some(d) ==> final(self).calendar_cursor == d,
            *final(self) == (App { calendar_cursor: final(self).calendar_cursor, ..*old(self) }),
    {
        let current = self.current_filter_value(idx);
        self.calendar_cursor = match parse_date(current.as_str()) {
            Some(d) => d,
            None => crate::dates::today(),
        };
    }

    /// The distinct values, sorted, of `<prefix>:<value>` labels across all
    /// loaded issues.
    fn label_values(&self, prefix: &str) -> (r: Vec<String>)
        ensures
            names_strict(views(r@), RankBy::Plain),
            forall|v: Seq<char>| #![trigger views(r@).contains(v)]
                views(r@).contains(v) <==> has_label_value(self.repos@, prefix@, v),
    {
        let mut out: Vec<String> = Vec::new();
        let mut r: usize = 0;
        while r < self.repos.len()
            invariant
                r <= self.repos@.len(),
                forall|v: Seq<char>| #![trigger views(out@).contains(v)]
                    views(out@).contains(v) ==> has_label_value(self.repos@, prefix@, v),
                forall|rr: int, ii: int, ll: int|
                    0 <= rr < r && 0 <= ii < self.repos@[rr].issues@.len() && 0 <= ll
                        < self.repos@[rr].issues@[ii].labels@.len() ==> covered(
                        views(out@),
                        #[trigger] label_at(self.repos@, rr, ii, ll),
                        prefix@,
                    ),
            decreases self.repos@.len() - r,
        {
            let issues = &self.repos[r].issues;
            let mut i: usize = 0;
            while i < issues.len()
                invariant
                    r < self.repos@.len(),
                    issues == self.repos@[r as int].issues,
                    i <= issues@.len(),
                    forall|v: Seq<char>| #![trigger views(out@).contains(v)]
                        views(out@).contains(v) ==> has_label_value(self.repos@, prefix@, v),
                    forall|rr: int, ii: int, ll: int|
                        ((0 <= rr < r && 0 <= ii < self.repos@[rr].issues@.len()) || (rr == r && 0
                            <= ii < i)) && 0 <= ll < self.repos@[rr].issues@[ii].labels@.len()
                            ==> covered(
                            views(out@),
                            #[trigger] label_at(self.repos@, rr, ii, ll),
                            prefix@,
                        ),
                decreases issues@.len() - i,
            {
                let labels = &issues[i].labels;
                let mut l: usize = 0;
                while l < labels.len()
                    invariant
                        r < self.repos@.len(),
                        issues == self.repos@[r as int].issues,
                        i < issues@.len(),
                        labels == issues@[i as int].labels,
                        l <= labels@.len(),
                        forall|v: Seq<char>| #![trigger views(out@).contains(v)]
                            views(out@).contains(v) ==> has_label_value(self.repos@, prefix@, v),
                        forall|rr: int, ii: int, ll: int|
                            ((0 <= rr < r && 0 <= ii < self.repos@[rr].issues@.len()) || (rr == r
                                && 0 <= ii < i) || (rr == r && ii == i && 0 <= ll < l)) && 0 <= ll
                                < self.repos@[rr].issues@[ii].labels@.len() ==> covered(
                                views(out@),
                                #[trigger] label_at(self.repos@, rr, ii, ll),
                                prefix@,
                            ),
                    decreases labels@.len() - l,
                {
                    let ghost before = out@;
                    match label_value(labels[l].name.as_str(), prefix) {
                        Some(v) => {
                            let ghost vv = v@;
                            out.push(v);
                            assert(views(out@) =~= views(before).push(vv));
                            assert(label_at(self.repos@, r as int, i as int, l as int) == labels@[l as int].name@);
                            assert(has_label_value(self.repos@, prefix@, vv)) by {
                                assert(prefixed_value(
                                    self.repos@[r as int].issues@[i as int].labels@[l as int].name@,
                                    prefix@,
                                ) == Some(vv));
                            }
                        },
                        None => {
                            assert(label_at(self.repos@, r as int, i as int, l as int) == labels@[l as int].name@);
                        },
                    }
                    l += 1;
                }
                i += 1;
            }
            r += 1;
        }
        let res = sort_dedup_names(out, RankBy::Plain);
        assert forall|v: Seq<char>| #![trigger views(res@).contains(v)]
            views(res@).contains(v) <==> has_label_value(self.repos@, prefix@, v) by {
            if has_label_value(self.repos@, prefix@, v) {
                let (rr, ii, ll) = choose|rr: int, ii: int, ll: int|
                    0 <= rr < self.repos@.len() && 0 <= ii < self.repos@[rr].issues@.len() && 0
                        <= ll < self.repos@[rr].issues@[ii].labels@.len()
                        && #[trigger] prefixed_value(
                        self.repos@[rr].issues@[ii].labels@[ll].name@,
                        prefix@,
                    ) == Some(v);
                assert(covered(views(out@), label_at(self.repos@, rr, ii, ll), prefix@));
            }
        }
        res
    }

    /// Options of a multi-select filter field: priority values ordered low
    /// to urgent with unknown values last, or status values alphabetically.
    /// The options a multi-select filter field offers: the distinct values
    /// of the loaded `priority:` (4, ordered low → urgent) or `status:` (5,
    /// alphabetical) labels; none for other fields.
    pub open spec fn multi_options(&self, idx: usize, opts: Seq<Seq<char>>) -> bool {
        &&& idx == 4 ==> names_strict(opts, RankBy::Value) && forall|v: Seq<char>|
            #![trigger opts.contains(v)]
            opts.contains(v) <==> has_label_value(self.repos@, seq!['p', 'r', 'i', 'o', 'r', 'i', 't', 'y'], v)
        &&& idx == 5 ==> names_strict(opts, RankBy::Plain) && forall|v: Seq<char>|
            #![trigger opts.contains(v)]
            opts.contains(v) <==> has_label_value(self.repos@, seq!['s', 't', 'a', 't', 'u', 's'], v)
        &&& idx != 4 && idx != 5 ==> opts.len() == 0
    }

    pub fn compute_multi_options(&self, idx: usize) -> (r: Vec<String>)
        ensures
            self.multi_options(idx, views(r@)),
    {
        proof {
            reveal_strlit("priority");
            reveal_strlit("status");
        }
        if idx == 4 {
            let p = "priority";
            assert(p@ =~= seq!['p', 'r', 'i', 'o', 'r', 'i', 't', 'y']);
            let v = self.label_values(p);
            sort_dedup_names(v, RankBy::Value)
        } else if idx == 5 {
            let p = "status";
            assert(p@ =~= seq!['s', 't', 'a', 't', 'u', 's']);
            self.label_values(p)
        } else {
            Vec::new()
        }
    }
}

/// The name of label `ll` of issue `ii` of repo `rr`.
pub open spec fn label_at(repos: Seq<RepoIssues>, rr: int, ii: int, ll: int) -> Seq<char> {
    repos[rr].issues@[ii].labels@[ll].name@
}

/// A label's value under `prefix`, if it has one, is among `out`.
pub open spec fn covered(out: Seq<Seq<char>>, name: Seq<char>, prefix: Seq<char>) -> bool {
    match prefixed_value(name, prefix) {
        Some(v) => out.contains(v),
        None => true,
    }
}

/// The name of the selected repo group.
pub open spec fn old_repo_name(app: &App) -> Option<Seq<char>> {
    match app.spec_selected_repo_idx() {
        Some(ri) => Some(app.repos@[ri as int].repo@),
        None => None,
    }
}

/// Character-wise equality of two strings.
pub fn eq_str(a: &str, b: &str) -> (r: bool)
    ensures
        r == (a@ == b@),
{
    let x = owned(a);
    let y = owned(b);
    x == y
}


/// Whether some loaded issue lists `who` among its assignees.
pub open spec fn has_assignee(repos: Seq<RepoIssues>, who: Seq<char>) -> bool {
    exists|r: int, i: int, a: int|
        0 <= r < repos.len() && 0 <= i < repos[r].issues@.len() && 0 <= a
            < repos[r].issues@[i].assignees@.len() && #[trigger] repos[r].issues@[i].assignees@[a]@
            == who
}

/// Whether some loaded issue was opened by `who`.
pub open spec fn has_author(repos: Seq<RepoIssues>, who: Seq<char>) -> bool {
    exists|r: int, i: int|
        0 <= r < repos.len() && 0 <= i < repos[r].issues@.len() && #[trigger] repos[r].issues@[i].author@
            == who
}

/// The "no filter" row of a select list.
pub open spec fn dash() -> Seq<char> {
    seq!['\u{2014}']
}

/// The owner a repo URL names: the path segment before the repo's own,
/// when the URL has a scheme, a host and both segments.
pub open spec fn url_owner(url: Seq<char>) -> Option<Seq<char>> {
    let p = split(url, '/');
    let q = if p.len() > 0 && p.last().len() == 0 {
        p.drop_last()
    } else {
        p
    };
    if q.len() >= 5 {
        Some(q[q.len() - 2])
    } else {
        None
    }
}

impl App {
    /// The help page that best explains where the user is; anywhere not
    /// listed opens the key table. `readiness_shown` says whether the detail
    /// pane shows a readiness verdict for the selected issue.
    pub fn context_topic(&self, readiness_shown: bool) -> (r: HelpTopic)
        ensures
            r == (match self.mode {
                Mode::Normal => if self.detail.open && self.focus == Focus::Detail && readiness_shown {
                    HelpTopic::Readiness
                } else {
                    HelpTopic::Keys
                },
                Mode::Input(InputKind::Search) => HelpTopic::Search,
                Mode::Input(InputKind::FilterField(0)) => HelpTopic::Search,
                Mode::FilterMenu => if self.filter_menu_idx == 0 {
                    HelpTopic::Search
                } else if self.filter_menu_idx == 4 {
                    HelpTopic::Priority
                } else {
                    HelpTopic::Keys
                },
                Mode::SelectFieldMulti(4) => HelpTopic::Priority,
                Mode::PrioritySet => HelpTopic::Priority,
                Mode::ConfirmPriority => HelpTopic::Priority,
                _ => HelpTopic::Keys,
            }),
    {
        match self.mode {
            Mode::Normal => {
                if self.detail.open && self.focus == Focus::Detail && readiness_shown {
                    HelpTopic::Readiness
                } else {
                    HelpTopic::Keys
                }
            },
            Mode::Input(InputKind::Search) => HelpTopic::Search,
            Mode::Input(InputKind::FilterField(0)) => HelpTopic::Search,
            Mode::FilterMenu => {
                if self.filter_menu_idx == 0 {
                    HelpTopic::Search
                } else if self.filter_menu_idx == 4 {
                    HelpTopic::Priority
                } else {
                    HelpTopic::Keys
                }
            },
            Mode::SelectFieldMulti(4) => HelpTopic::Priority,
            Mode::PrioritySet => HelpTopic::Priority,
            Mode::ConfirmPriority => HelpTopic::Priority,
            _ => HelpTopic::Keys,
        }
    }

    /// Open help on `topic`, remembering where to return; already open just
    /// changes page, so the return point is never help itself.
    pub fn open_help(&mut self, topic: HelpTopic)
        ensures
            final(self).mode == Mode::Help(topic),
            final(self).help.scroll == 0,
            final(self).help.return_to == (if old(self).mode is Help {
                old(self).help.return_to
            } else {
                old(self).mode
            }),
            *final(self) == (App { mode: Mode::Help(topic), help: final(self).help, ..*old(self) }),
    {
        let is_help = match self.mode {
            Mode::Help(_) => true,
            _ => false,
        };
        if !is_help {
            self.help.return_to = self.mode;
        }
        self.help.scroll = 0;
        self.mode = Mode::Help(topic);
    }

    /// The session key table over a harness session.
    pub fn open_session_help(&mut self)
        ensures
            final(self).mode == Mode::Help(HelpTopic::Keys),
            final(self).help.return_to == Mode::Harness,
            final(self).help.scroll == 0,
            *final(self) == (App { mode: final(self).mode, help: final(self).help, ..*old(self) }),
    {
        self.help.return_to = Mode::Harness;
        self.help.scroll = 0;
        self.mode = Mode::Help(HelpTopic::Keys);
    }

    /// Whether help shows the session key table rather than a topic.
    pub fn help_is_session(&self) -> (r: bool)
        ensures
            r == (self.help.return_to == Mode::Harness),
    {
        self.help.return_to == Mode::Harness
    }

    /// Return to wherever help was opened from.
    pub fn close_help(&mut self)
        ensures
            old(self).mode is Help ==> *final(self) == (App { mode: old(self).help.return_to, ..*old(self) }),
            !(old(self).mode is Help) ==> *final(self) == *old(self),
    {
        if let Mode::Help(_) = self.mode {
            self.mode = self.help.return_to;
        }
    }

    /// F1: open help for the current context, or close it when open.
    pub fn toggle_help(&mut self, readiness_shown: bool)
        ensures
            old(self).mode is Help ==> *final(self) == (App { mode: old(self).help.return_to, ..*old(self) }),
            !(old(self).mode is Help) ==> final(self).mode == Mode::Help(
                old(self).context_topic_spec(readiness_shown),
            ) && final(self).help.return_to == old(self).mode && final(self).help.scroll == 0
                && *final(self) == (App { mode: final(self).mode, help: final(self).help, ..*old(self) }),
    {
        if let Mode::Help(_) = self.mode {
            self.close_help();
        } else {
            let t = self.context_topic(readiness_shown);
            self.open_help(t);
        }
    }

    pub open spec fn context_topic_spec(&self, readiness_shown: bool) -> HelpTopic {
        match self.mode {
            Mode::Normal => if self.detail.open && self.focus == Focus::Detail && readiness_shown {
                HelpTopic::Readiness
            } else {
                HelpTopic::Keys
            },
            Mode::Input(InputKind::Search) => HelpTopic::Search,
            Mode::Input(InputKind::FilterField(0)) => HelpTopic::Search,
            Mode::FilterMenu => if self.filter_menu_idx == 0 {
                HelpTopic::Search
            } else if self.filter_menu_idx == 4 {
                HelpTopic::Priority
            } else {
                HelpTopic::Keys
            },
            Mode::SelectFieldMulti(4) => HelpTopic::Priority,
            Mode::PrioritySet => HelpTopic::Priority,
            Mode::ConfirmPriority => HelpTopic::Priority,
            _ => HelpTopic::Keys,
        }
    }

    /// Switch page along the strip, from its top.
    pub fn help_switch(&mut self, delta: isize)
        ensures
            old(self).mode matches Mode::Help(t) ==> *final(self) == (App {
                mode: Mode::Help(crate::help::topic_at((crate::help::topic_pos(t) + delta) % 5)),
                help: HelpState { scroll: 0, ..old(self).help },
                ..*old(self)
            }),
            !(old(self).mode is Help) ==> *final(self) == *old(self),
    {
        if let Mode::Help(topic) = self.mode {
            self.help.scroll = 0;
            self.mode = Mode::Help(topic.step(delta));
        }
    }

    /// Canonical `owner/repo#number` of the selected issue.
    pub fn selected_issue_ref(&self) -> (r: Option<String>)
        ensures
            match self.spec_selected_issue() {
                Some(i) => r.is_some() && (self.spec_selected_repo_idx() matches Some(ri)
                    && r.unwrap()@ == issue_ref_text(self.org@, self.repos@[ri as int].repo@, i.number)),
                None => r.is_none(),
            },
    {
        let issue = match self.selected_issue() {
            Some(i) => i,
            None => return None,
        };
        let repo = match self.selected_repo() {
            Some(r) => r,
            None => return None,
        };
        let mut s = owned(self.org.as_str());
        crate::text::string_push(&mut s, '/');
        crate::text::string_push_str(&mut s, repo.repo.as_str());
        crate::text::string_push(&mut s, '#');
        let n = u64_to_string(issue.number);
        crate::text::string_push_str(&mut s, n.as_str());
        Some(s)
    }

    /// What launching a harness on the current row does: nothing without an
    /// issue; attach to a live session for it or confirm relaunching an
    /// exited one; else spawn the default harness, or let the user pick.
    pub fn launch_action(&self, default_harness: Option<&str>) -> (r: LaunchAction)
        ensures
            match self.spec_selected_issue() {
                None => r == LaunchAction::NoIssue,
                Some(i) => self.spec_selected_repo_idx() matches Some(ri) && {
                    let rf = issue_ref_text(self.org@, self.repos@[ri as int].repo@, i.number);
                    match self.harness@.find_by_issue(rf) {
                        Some(m) => if m.status is Running {
                            r == LaunchAction::Attach(m.id)
                        } else {
                            r == LaunchAction::ConfirmRelaunch(m.id)
                        },
                        None => match default_harness {
                            Some(h) => r matches LaunchAction::Spawn { issue_ref, harness } && issue_ref@
                                == rf && harness@ == h@,
                            None => r matches LaunchAction::Pick { issue_ref } && issue_ref@ == rf,
                        },
                    }
                },
            },
    {
        let issue_ref = match self.selected_issue_ref() {
            Some(r) => r,
            None => return LaunchAction::NoIssue,
        };
        match self.harness.find_by_issue(issue_ref.as_str()) {
            Some(existing) => {
                if existing.status.is_running() {
                    LaunchAction::Attach(existing.id)
                } else {
                    LaunchAction::ConfirmRelaunch(existing.id)
                }
            },
            None => match default_harness {
                Some(h) => LaunchAction::Spawn { issue_ref, harness: owned(h) },
                None => LaunchAction::Pick { issue_ref },
            },
        }
    }

    /// Owner and name of the selected row's repo: the owner comes from the
    /// repo's URL when it names one, else the org being browsed.
    pub fn current_repo(&self) -> (r: Option<(String, String)>)
        ensures
            match self.spec_selected_repo_idx() {
                None => r.is_none(),
                Some(ri) => r.is_some() && r.unwrap().1@ == self.repos@[ri as int].repo@ && r.unwrap().0@
                    == (match url_owner(self.repos@[ri as int].repo_url@) {
                    Some(o) => o,
                    None => self.org@,
                }),
            },
    {
        let repo = match self.selected_repo() {
            Some(r) => r,
            None => return None,
        };
        let v = crate::text::chars_of(repo.repo_url.as_str());
        let pieces = crate::text::split_chars(&v, '/');
        proof {
            crate::text::lemma_split_len(v@, '/');
        }
        let mut n = pieces.len();
        if n > 0 && pieces[n - 1].as_str().is_empty() {
            n = n - 1;
        }
        let owner = if n >= 5 {
            let ghost p = split(repo.repo_url@, '/');
            let ghost q = if p.len() > 0 && p.last().len() == 0 {
                p.drop_last()
            } else {
                p
            };
            assert(q[q.len() - 2] == p[n - 2]);
            pieces[n - 2].clone()
        } else {
            self.org.clone()
        };
        Some((owner, repo.repo.clone()))
    }

    /// Options of a single-select filter field, led by "—" (no filter):
    /// repo names in load order, or the distinct sorted assignees or authors.
    /// The options a single-select filter field offers: `—` (no filter)
    /// first, then the loaded repos in order (1), or the distinct assignees
    /// (2) or authors (3), alphabetical.
    pub open spec fn select_options(&self, idx: usize, opts: Seq<Seq<char>>) -> bool {
        &&& opts.len() >= 1
        &&& opts[0] == dash()
        &&& idx == 1 ==> opts.len() == self.repos@.len() + 1 && forall|k: int|
            0 <= k < self.repos@.len() ==> #[trigger] opts[k + 1] == self.repos@[k].repo@
        &&& idx == 2 ==> names_strict(opts.drop_first(), RankBy::Plain) && forall|v: Seq<char>|
            #![trigger opts.drop_first().contains(v)]
            opts.drop_first().contains(v) <==> has_assignee(self.repos@, v)
        &&& idx == 3 ==> names_strict(opts.drop_first(), RankBy::Plain) && forall|v: Seq<char>|
            #![trigger opts.drop_first().contains(v)]
            opts.drop_first().contains(v) <==> has_author(self.repos@, v)
        &&& (idx < 1 || idx > 3) ==> opts.len() == 1
    }

    pub fn compute_select_options(&self, idx: usize) -> (r: Vec<String>)
        ensures
            r@.len() >= 1,
            r@[0]@ == dash(),
            idx == 1 ==> r@.len() == self.repos@.len() + 1 && forall|k: int|
                0 <= k < self.repos@.len() ==> (#[trigger] r@[k + 1])@ == self.repos@[k].repo@,
            idx == 2 ==> names_strict(views(r@.drop_first()), RankBy::Plain) && forall|v: Seq<char>|
                #![trigger views(r@.drop_first()).contains(v)]
                views(r@.drop_first()).contains(v) <==> has_assignee(self.repos@, v),
            idx == 3 ==> names_strict(views(r@.drop_first()), RankBy::Plain) && forall|v: Seq<char>|
                #![trigger views(r@.drop_first()).contains(v)]
                views(r@.drop_first()).contains(v) <==> has_author(self.repos@, v),
            (idx < 1 || idx > 3) ==> r@.len() == 1,
            self.select_options(idx, views(r@)),
    {
        let mut opts: Vec<String> = Vec::new();
        if idx == 1 {
            let mut i: usize = 0;
            while i < self.repos.len()
                invariant
                    i <= self.repos@.len(),
                    opts@.len() == i,
                    forall|k: int| 0 <= k < i ==> (#[trigger] opts@[k])@ == self.repos@[k].repo@,
                decreases self.repos@.len() - i,
            {
                opts.push(self.repos[i].repo.clone());
                i += 1;
            }
        } else if idx == 2 {
            opts = sort_dedup_names(self.all_assignees(), RankBy::Plain);
        } else if idx == 3 {
            opts = sort_dedup_names(self.all_authors(), RankBy::Plain);
        }
        let ghost before = opts@;
        let d = owned("\u{2014}");
        proof {
            reveal_strlit("\u{2014}");
        }
        opts.insert(0, d);
        assert(opts@.drop_first() =~= before);
        proof {
            assert(views(opts@).drop_first() =~= views(opts@.drop_first()));
            assert(views(opts@)[0] == dash());
            assert(views(opts@).len() >= 1);
            if idx == 2 {
                assert(names_strict(views(opts@).drop_first(), RankBy::Plain));
            }
            if idx == 1 {
                assert forall|k: int| 0 <= k < self.repos@.len() implies #[trigger] views(opts@)[k + 1]
                    == self.repos@[k].repo@ by {
                    assert(opts@[k + 1]@ == self.repos@[k].repo@);
                }
            }
        }
        opts
    }

    fn all_assignees(&self) -> (r: Vec<String>)
        ensures
            forall|v: Seq<char>| #![trigger views(r@).contains(v)]
                views(r@).contains(v) <==> has_assignee(self.repos@, v),
    {
        let mut out: Vec<String> = Vec::new();
        let mut r: usize = 0;
        while r < self.repos.len()
            invariant
                r <= self.repos@.len(),
                forall|v: Seq<char>| #![trigger views(out@).contains(v)]
                    views(out@).contains(v) ==> has_assignee(self.repos@, v),
                forall|rr: int, ii: int, aa: int|
                    0 <= rr < r && 0 <= ii < self.repos@[rr].issues@.len() && 0 <= aa
                        < self.repos@[rr].issues@[ii].assignees@.len() ==> views(out@).contains(
                        #[trigger] self.repos@[rr].issues@[ii].assignees@[aa]@,
                    ),
            decreases self.repos@.len() - r,
        {
            let issues = &self.repos[r].issues;
            let mut i: usize = 0;
            while i < issues.len()
                invariant
                    r < self.repos@.len(),
                    issues == self.repos@[r as int].issues,
                    i <= issues@.len(),
                    forall|v: Seq<char>| #![trigger views(out@).contains(v)]
                        views(out@).contains(v) ==> has_assignee(self.repos@, v),
                    forall|rr: int, ii: int, aa: int|
                        ((0 <= rr < r && 0 <= ii < self.repos@[rr].issues@.len()) || (rr == r && 0
                            <= ii < i)) && 0 <= aa < self.repos@[rr].issues@[ii].assignees@.len()
                            ==> views(out@).contains(
                            #[trigger] self.repos@[rr].issues@[ii].assignees@[aa]@,
                        ),
                decreases issues@.len() - i,
            {
                let who = &issues[i].assignees;
                let mut a: usize = 0;
                while a < who.len()
                    invariant
                        r < self.repos@.len(),
                        issues == self.repos@[r as int].issues,
                        i < issues@.len(),
                        who == issues@[i as int].assignees,
                        a <= who@.len(),
                        forall|v: Seq<char>| #![trigger views(out@).contains(v)]
                            views(out@).contains(v) ==> has_assignee(self.repos@, v),
                        forall|rr: int, ii: int, aa: int|
                            ((0 <= rr < r && 0 <= ii < self.repos@[rr].issues@.len()) || (rr == r
                                && 0 <= ii < i) || (rr == r && ii == i && 0 <= aa < a)) && 0 <= aa
                                < self.repos@[rr].issues@[ii].assignees@.len() ==> views(
                                out@,
                            ).contains(#[trigger] self.repos@[rr].issues@[ii].assignees@[aa]@),
                    decreases who@.len() - a,
                {
                    let ghost before = out@;
                    out.push(who[a].clone());
                    assert(views(out@) =~= views(before).push(who@[a as int]@));
                    assert(self.repos@[r as int].issues@[i as int].assignees@[a as int]@ == who@[a as int]@);
                    a += 1;
                }
                i += 1;
            }
            r += 1;
        }
        out
    }

    fn all_authors(&self) -> (r: Vec<String>)
        ensures
            forall|v: Seq<char>| #![trigger views(r@).contains(v)]
                views(r@).contains(v) <==> has_author(self.repos@, v),
    {
        let mut out: Vec<String> = Vec::new();
        let mut r: usize = 0;
        while r < self.repos.len()
            invariant
                r <= self.repos@.len(),
                forall|v: Seq<char>| #![trigger views(out@).contains(v)]
                    views(out@).contains(v) ==> has_author(self.repos@, v),
                forall|rr: int, ii: int|
                    0 <= rr < r && 0 <= ii < self.repos@[rr].issues@.len() ==> views(out@).contains(
                        #[trigger] self.repos@[rr].issues@[ii].author@,
                    ),
            decreases self.repos@.len() - r,
        {
            let issues = &self.repos[r].issues;
            let mut i: usize = 0;
            while i < issues.len()
                invariant
                    r < self.repos@.len(),
                    issues == self.repos@[r as int].issues,
                    i <= issues@.len(),
                    forall|v: Seq<char>| #![trigger views(out@).contains(v)]
                        views(out@).contains(v) ==> has_author(self.repos@, v),
                    forall|rr: int, ii: int|
                        ((0 <= rr < r && 0 <= ii < self.repos@[rr].issues@.len()) || (rr == r && 0
                            <= ii < i)) ==> views(out@).contains(
                            #[trigger] self.repos@[rr].issues@[ii].author@,
                        ),
                decreases issues@.len() - i,
            {
                let ghost before = out@;
                out.push(issues[i].author.clone());
                assert(views(out@) =~= views(before).push(issues@[i as int].author@));
                assert(self.repos@[r as int].issues@[i as int].author@ == issues@[i as int].author@);
                i += 1;
            }
            r += 1;
        }
        out
    }

    /// Browse a different org: drop the data and the per-org view state
    /// (filters, collapse, seen repos, detail pane, PR state). The closed
    /// setting and the harness sessions stay.
    /// What switching to org `org` leaves (see [`App::switch_org`]).
    pub open spec fn org_switched(&self, prev: App, org: String) -> bool {
        &&& self.org == org
        &&& self.repos@.len() == 0
        &&& self.comment_cache@.len() == 0
        &&& self.rows@.len() == 0
        &&& self.collapsed@.len() == 0
        &&& self.seen_repos@.len() == 0
        &&& (Filters { hide_empty: true, ..self.filters }).is_default()
        &&& self.filters.hide_empty == prev.hide_empty_default
        &&& self.state_filter == StateFilter::Open
        &&& self.selected == 0
        &&& self.focus == Focus::List
        &&& !self.detail.open
        &&& self.detail.comments.is_none()
        &&& self.detail.sel == DetailSel::Body
        &&& self.detail.body_scroll == 0
        &&& self.detail.comments_scroll == 0
        &&& self.pr.links@.len() == 0
        &&& self.pr.target.is_none()
        &&& self.pr.summary.is_none()
        &&& self.loading
        &&& *self == (App {
            org: self.org,
            repos: self.repos,
            comment_cache: self.comment_cache,
            rows: self.rows,
            collapsed: self.collapsed,
            seen_repos: self.seen_repos,
            filters: self.filters,
            state_filter: StateFilter::Open,
            selected: 0,
            focus: Focus::List,
            detail: self.detail,
            pr: self.pr,
            loading: true,
            ..prev
        })
    }

    pub fn switch_org(&mut self, org: String)
        ensures
            final(self).org_switched(*old(self), org),
    {
        self.org = org;
        self.repos = Vec::new();
        self.comment_cache = Vec::new();
        self.rows = Vec::new();
        self.collapsed = Vec::new();
        self.seen_repos = Vec::new();
        self.clear_filters();
        self.state_filter = StateFilter::Open;
        self.selected = 0;
        self.focus = Focus::List;
        self.detail.open = false;
        self.detail.comments = None;
        self.detail.reset_scroll();
        self.pr = PrState::new();
        self.loading = true;
    }
}


/// The selection after a reload: the first row showing the previously
/// selected issue when there is one, else `fallback`.
pub open spec fn reselected(rows: Seq<Row>, repos: Seq<RepoIssues>, prev: Option<Seq<char>>, fallback: usize, sel: usize) -> bool {
    match prev {
        Some(id) => if exists|k: int| is_first_id_row(rows, repos, id, k) {
            is_first_id_row(rows, repos, id, sel as int)
        } else {
            sel == fallback
        },
        None => sel == fallback,
    }
}

/// Whether repo `ri` holds an issue numbered `number` and, when `want`
/// names a repo, is that repo.
pub open spec fn jump_candidate(repos: Seq<RepoIssues>, ri: int, want: Option<Seq<char>>, number: u64) -> bool {
    &&& 0 <= ri < repos.len()
    &&& (want matches Some(w) ==> repos[ri].repo@ == w)
    &&& exists|i: int| 0 <= i < repos[ri].issues@.len() && #[trigger] repos[ri].issues@[i].number == number
}

/// `k` is the first step, going round from repo `start`, that reaches a
/// candidate repo.
pub open spec fn is_first_jump(repos: Seq<RepoIssues>, start: int, want: Option<Seq<char>>, number: u64, k: int) -> bool {
    &&& 0 <= k < repos.len()
    &&& candidate_at(repos, start, want, number, k)
    &&& forall|j: int| 0 <= j < k ==> !#[trigger] candidate_at(repos, start, want, number, j)
}

/// The repo `k` steps round from `start` is a candidate.
pub open spec fn candidate_at(repos: Seq<RepoIssues>, start: int, want: Option<Seq<char>>, number: u64, k: int) -> bool {
    jump_candidate(repos, (start + k) % (repos.len() as int), want, number)
}

/// `i` is the first issue of `issues` numbered `number`.
pub open spec fn is_first_number(issues: Seq<Issue>, number: u64, i: int) -> bool {
    &&& 0 <= i < issues.len()
    &&& issues[i].number == number
    &&& forall|j: int| 0 <= j < i ==> issues[j].number != number
}

/// `row` shows issue `number` of the repo named `name`.
pub open spec fn row_shows(row: Row, repos: Seq<RepoIssues>, name: Seq<char>, number: u64) -> bool {
    row matches Row::Issue { repo_idx, issue_idx } && repo_idx < repos.len() && repos[repo_idx as int].repo@
        == name && issue_idx < repos[repo_idx as int].issues@.len()
        && repos[repo_idx as int].issues@[issue_idx as int].number == number
}

/// `k` is the first row showing issue `number` of repo `name`.
pub open spec fn is_first_showing(rows: Seq<Row>, repos: Seq<RepoIssues>, name: Seq<char>, number: u64, k: int) -> bool {
    &&& 0 <= k < rows.len()
    &&& row_shows(rows[k], repos, name, number)
    &&& forall|j: int| 0 <= j < k ==> !row_shows(rows[j], repos, name, number)
}

/// The repo group a jump starts its search from: the selected row's.
pub open spec fn jump_start(app: App) -> int {
    if app.selected < app.rows@.len() {
        match app.rows@[app.selected as int] {
            Row::Issue { repo_idx, .. } => repo_idx as int,
            Row::RepoHeader { repo_idx } => repo_idx as int,
        }
    } else {
        0
    }
}

impl App {
    /// The first row showing the issue with id `id`.
    fn row_of_issue(&self, id: &str) -> (r: Option<usize>)
        ensures
            match r {
                Some(k) => is_first_id_row(self.rows@, self.repos@, id@, k as int),
                None => !exists|k: int| is_first_id_row(self.rows@, self.repos@, id@, k),
            },
    {
        let wanted = owned(id);
        let mut k: usize = 0;
        while k < self.rows.len()
            invariant
                k <= self.rows@.len(),
                wanted@ == id@,
                forall|j: int| 0 <= j < k ==> !row_has_id(self.rows@[j], self.repos@, id@),
            decreases self.rows@.len() - k,
        {
            if let Row::Issue { repo_idx, issue_idx } = self.rows[k] {
                if repo_idx < self.repos.len() && issue_idx < self.repos[repo_idx].issues.len() {
                    if self.repos[repo_idx].issues[issue_idx].id == wanted {
                        return Some(k);
                    }
                }
            }
            k += 1;
        }
        None
    }

    /// Keep the selection on issue `prev` when a row shows it.
    fn reselect(&mut self, prev: Option<String>)
        ensures
            reselected(
                old(self).rows@,
                old(self).repos@,
                match prev {
                    Some(p) => Some(p@),
                    None => None,
                },
                old(self).selected,
                final(self).selected,
            ),
            *final(self) == (App { selected: final(self).selected, ..*old(self) }),
    {
        match prev {
            Some(id) => {
                match self.row_of_issue(id.as_str()) {
                    Some(k) => {
                        self.selected = k;
                    },
                    None => {},
                }
            },
            None => {},
        }
    }

    /// Load fresh data. Repos seen for the first time take the configured
    /// default collapse (except the lone visible group, when there is one);
    /// the cached threads are dropped; the rows are rebuilt; and the
    /// selection stays on the same issue when it is still shown.
    /// What loading fresh data leaves (see [`App::set_data`]).
    pub open spec fn data_loaded(&self, prev: App, repos: Vec<RepoIssues>) -> bool {
        &&& self.comment_cache@.len() == 0
        &&& !self.loading
        &&& forall|t: Seq<char>|
            #![trigger str_views(self.seen_repos@).contains(t)]
            str_views(self.seen_repos@).contains(t) <==> (str_views(
                prev.seen_repos@,
            ).contains(t) || exists|k: int| 0 <= k < repos@.len() && repos@[k].repo@ == t)
        &&& forall|t: Seq<char>|
            #![trigger str_views(self.collapsed@).contains(t)]
            str_views(self.collapsed@).contains(t) <==> (str_views(
                prev.collapsed@,
            ).contains(t) || (prev.default_collapsed && !str_views(
                prev.seen_repos@,
            ).contains(t) && (exists|k: int| 0 <= k < repos@.len() && repos@[k].repo@ == t)
                && (App { repos: repos, ..prev }).spec_single_visible() != Some(t)))
        &&& (App {
            selected: clamp_index(prev.selected as int, self.rows@.len() as int) as usize,
            ..*self
        }).rebuilt_from(
            App {
                repos: repos,
                comment_cache: self.comment_cache,
                seen_repos: self.seen_repos,
                collapsed: self.collapsed,
                loading: false,
                ..prev
            },
        )
        &&& reselected(
            self.rows@,
            self.repos@,
            match prev.spec_selected_issue() {
                Some(i) => Some(i.id@),
                None => None,
            },
            clamp_index(prev.selected as int, self.rows@.len() as int) as usize,
            self.selected,
        )
    }

    pub fn set_data(&mut self, repos: Vec<RepoIssues>)
        ensures
            final(self).data_loaded(*old(self), repos),
    {
        let prev = match self.selected_issue() {
            Some(i) => Some(i.id.clone()),
            None => None,
        };
        self.comment_cache = Vec::new();
        self.repos = repos;
        let auto = if self.default_collapsed {
            self.single_visible_repo()
        } else {
            None
        };
        let ghost auto_v: Option<Seq<char>> = match &auto {
            Some(a) => Some(a@),
            None => None,
        };
        let ghost old_seen = str_views(self.seen_repos@);
        let ghost old_coll = str_views(self.collapsed@);
        let mut i: usize = 0;
        while i < self.repos.len()
            invariant
                i <= self.repos@.len(),
                self.repos == repos,
                self.default_collapsed == old(self).default_collapsed,
                auto_v == (if old(self).default_collapsed {
                    (App { repos: repos, ..*old(self) }).spec_single_visible()
                } else {
                    None
                }),
                match &auto {
                    Some(a) => auto_v == Some(a@),
                    None => auto_v.is_none(),
                },
                old_seen == str_views(old(self).seen_repos@),
                old_coll == str_views(old(self).collapsed@),
                forall|t: Seq<char>|
                    #![trigger str_views(self.seen_repos@).contains(t)]
                    str_views(self.seen_repos@).contains(t) <==> (old_seen.contains(t) || exists|k: int|
                        0 <= k < i && repos@[k].repo@ == t),
                forall|t: Seq<char>|
                    #![trigger str_views(self.collapsed@).contains(t)]
                    str_views(self.collapsed@).contains(t) <==> (old_coll.contains(t) || (
                    self.default_collapsed && !old_seen.contains(t) && (exists|k: int|
                        0 <= k < i && repos@[k].repo@ == t) && auto_v != Some(t))),
                *self == (App {
                    seen_repos: self.seen_repos,
                    collapsed: self.collapsed,
                    comment_cache: self.comment_cache,
                    repos: repos,
                    ..*old(self)
                }),
                self.comment_cache@.len() == 0,
            decreases self.repos@.len() - i,
        {
            let name = self.repos[i].repo.clone();
            let ghost nv = name@;
            let newly = insert_str(&mut self.seen_repos, name.clone());
            let skip = match &auto {
                Some(a) => eq_str(a.as_str(), name.as_str()),
                None => false,
            };
            if newly && self.default_collapsed && !skip {
                insert_str(&mut self.collapsed, name);
            }
            assert forall|t: Seq<char>|
                #![trigger str_views(self.collapsed@).contains(t)]
                str_views(self.collapsed@).contains(t) <==> (old_coll.contains(t) || (
                self.default_collapsed && !old_seen.contains(t) && (exists|k: int|
                    0 <= k < i + 1 && repos@[k].repo@ == t) && auto_v != Some(t))) by {
                if exists|k: int| 0 <= k < i + 1 && repos@[k].repo@ == t {
                    let k = choose|k: int| 0 <= k < i + 1 && repos@[k].repo@ == t;
                    if k < i {
                        assert(exists|k: int| 0 <= k < i && repos@[k].repo@ == t);
                    }
                }
            }
            assert forall|t: Seq<char>|
                #![trigger str_views(self.seen_repos@).contains(t)]
                str_views(self.seen_repos@).contains(t) <==> (old_seen.contains(t) || exists|k: int|
                    0 <= k < i + 1 && repos@[k].repo@ == t) by {
                if exists|k: int| 0 <= k < i + 1 && repos@[k].repo@ == t {
                    let k = choose|k: int| 0 <= k < i + 1 && repos@[k].repo@ == t;
                    if k < i {
                        assert(exists|k: int| 0 <= k < i && repos@[k].repo@ == t);
                    }
                }
            }
            i += 1;
        }
        self.loading = false;
        self.rebuild_rows();
        self.reselect(prev);
    }

    /// Collapse or expand the selected repo group; collapsing moves the
    /// selection onto the group's header.
    pub open spec fn current_collapsed(&self, prev: App, collapsed: bool) -> bool {
        match prev.spec_selected_repo_idx() {
            None => *self == prev,
            Some(ri) => {
                let name = prev.repos@[ri as int].repo@;
                &&& forall|t: Seq<char>|
                    #![trigger str_views(self.collapsed@).contains(t)]
                    str_views(self.collapsed@).contains(t) <==> (if collapsed {
                        str_views(prev.collapsed@).contains(t) || t == name
                    } else {
                        str_views(prev.collapsed@).contains(t) && t != name
                    })
                &&& (App {
                    selected: clamp_index(prev.selected as int, self.rows@.len() as int) as usize,
                    ..*self
                }).rebuilt_from(App { collapsed: self.collapsed, ..prev })
                &&& if collapsed && exists|k: int| is_first_header(self.rows@, self.repos@, name, k) {
                    is_first_header(self.rows@, self.repos@, name, self.selected as int)
                } else {
                    self.selected == clamp_index(prev.selected as int, self.rows@.len() as int)
                }
            },
        }
    }

    #[verifier::rlimit(60)]
    pub fn set_current_collapsed(&mut self, collapsed: bool)
        ensures
            final(self).current_collapsed(*old(self), collapsed),
    {
        let name = match self.selected_repo() {
            Some(r) => r.repo.clone(),
            None => return,
        };
        set_member(&mut self.collapsed, name.clone(), collapsed);
        self.rebuild_rows();
        if collapsed {
            match self.header_of(name.as_str()) {
                Some(k) => {
                    self.selected = k;
                },
                None => {},
            }
        }
    }

    /// The first header row of the group named `name`.
    fn header_of(&self, name: &str) -> (r: Option<usize>)
        ensures
            match r {
                Some(k) => is_first_header(self.rows@, self.repos@, name@, k as int),
                None => !exists|k: int| is_first_header(self.rows@, self.repos@, name@, k),
            },
    {
        let wanted = owned(name);
        let mut k: usize = 0;
        while k < self.rows.len()
            invariant
                k <= self.rows@.len(),
                wanted@ == name@,
                forall|j: int| 0 <= j < k ==> !row_heads(self.rows@[j], self.repos@, name@),
            decreases self.rows@.len() - k,
        {
            if let Row::RepoHeader { repo_idx } = self.rows[k] {
                if repo_idx < self.repos.len() && self.repos[repo_idx].repo == wanted {
                    return Some(k);
                }
            }
            k += 1;
        }
        None
    }
}


/// The text reported after a successful jump.
pub open spec fn jumped_text(number: u64) -> Seq<char> {
    seq!['j', 'u', 'm', 'p', 'e', 'd', ' ', 't', 'o', ' ', '#'] + decimal(number as nat)
}

/// The text reported when no loaded issue has the number.
pub open spec fn not_loaded_text(number: u64) -> Seq<char> {
    seq!['n', 'o', ' ', 'i', 's', 's', 'u', 'e', ' ', '#'] + decimal(number as nat) + seq![
        ' ',
        'l',
        'o',
        'a',
        'd',
        'e',
        'd',
    ]
}

pub open spec fn opt_str_view(o: Option<&str>) -> Option<Seq<char>> {
    match o {
        Some(s) => Some(s@),
        None => None,
    }
}

/// Where a jump lands, given the repo found: filters cleared (state to
/// all) when they hide the issue, the group expanded, the rows rebuilt,
/// and the selection on the issue's row.
pub open spec fn jump_landed(old_app: App, new_app: App, ri: int, number: u64, r: bool) -> bool {
    let name = old_app.repos@[ri].repo@;
    let issues = old_app.repos@[ri].issues@;
    let i = choose|i: int| is_first_number(issues, number, i);
    let hidden = !old_app.filters.spec_repo_matches(name, old_app.spec_exact())
        || !old_app.filters.spec_matches(&issues[i], old_app.state_filter);
    &&& hidden ==> (Filters { hide_empty: true, ..new_app.filters }).is_default()
        && new_app.filters.hide_empty == old_app.hide_empty_default && new_app.state_filter
        == StateFilter::All
    &&& !hidden ==> new_app.filters == old_app.filters && new_app.state_filter == old_app.state_filter
    &&& forall|t: Seq<char>|
        #![trigger str_views(new_app.collapsed@).contains(t)]
        str_views(new_app.collapsed@).contains(t) <==> (str_views(old_app.collapsed@).contains(t)
            && t != name)
    &&& (App {
        selected: clamp_index(old_app.selected as int, new_app.rows@.len() as int) as usize,
        status: old_app.status,
        ..new_app
    }).rebuilt_from(
        App {
            filters: new_app.filters,
            state_filter: new_app.state_filter,
            collapsed: new_app.collapsed,
            ..old_app
        },
    )
    &&& if exists|t: int| is_first_showing(new_app.rows@, new_app.repos@, name, number, t) {
        &&& r
        &&& is_first_showing(new_app.rows@, new_app.repos@, name, number, new_app.selected as int)
        &&& new_app.status matches Some(st) && st@ == jumped_text(number)
    } else {
        &&& !r
        &&& new_app.selected == clamp_index(old_app.selected as int, new_app.rows@.len() as int)
        &&& new_app.status == old_app.status
    }
}

/// What `jump_to_ref` does from `old_app`, reaching `new_app` and
/// returning `r`.
pub open spec fn jump_result(old_app: App, new_app: App, want: Option<Seq<char>>, number: u64, r: bool) -> bool {
    if old_app.repos@.len() == 0 {
        !r && new_app == old_app
    } else {
        let s0 = jump_start(old_app) % (old_app.repos@.len() as int);
        let n = old_app.repos@.len() as int;
        if exists|k: int| #[trigger] is_first_jump(old_app.repos@, s0, want, number, k) {
            let k = choose|k: int| #[trigger] is_first_jump(old_app.repos@, s0, want, number, k);
            jump_landed(old_app, new_app, (s0 + k) % n, number, r)
        } else {
            !r && new_app == old_app
        }
    }
}

impl App {
    /// The first issue of repo `ri` numbered `number`.
    fn first_numbered(&self, ri: usize, number: u64) -> (r: Option<usize>)
        requires
            ri < self.repos@.len(),
        ensures
            match r {
                Some(i) => is_first_number(self.repos@[ri as int].issues@, number, i as int),
                None => forall|i: int|
                    0 <= i < self.repos@[ri as int].issues@.len() ==> #[trigger] self.repos@[ri as int].issues@[i].number
                        != number,
            },
    {
        let issues = &self.repos[ri].issues;
        let mut i: usize = 0;
        while i < issues.len()
            invariant
                i <= issues@.len(),
                issues == self.repos@[ri as int].issues,
                forall|j: int| 0 <= j < i ==> issues@[j].number != number,
            decreases issues@.len() - i,
        {
            if issues[i].number == number {
                return Some(i);
            }
            i += 1;
        }
        None
    }

    /// The first row showing issue `number` of the repo named `name`.
    fn showing_row(&self, name: &str, number: u64) -> (r: Option<usize>)
        ensures
            match r {
                Some(k) => is_first_showing(self.rows@, self.repos@, name@, number, k as int),
                None => !exists|k: int| is_first_showing(self.rows@, self.repos@, name@, number, k),
            },
    {
        let wanted = owned(name);
        let mut k: usize = 0;
        while k < self.rows.len()
            invariant
                k <= self.rows@.len(),
                wanted@ == name@,
                forall|j: int| 0 <= j < k ==> !row_shows(self.rows@[j], self.repos@, name@, number),
            decreases self.rows@.len() - k,
        {
            if let Row::Issue { repo_idx, issue_idx } = self.rows[k] {
                if repo_idx < self.repos.len() && self.repos[repo_idx].repo == wanted && issue_idx
                    < self.repos[repo_idx].issues.len() && self.repos[repo_idx].issues[issue_idx].number
                    == number {
                    return Some(k);
                }
            }
            k += 1;
        }
        None
    }

    /// The repo a jump to `number` lands in: the first candidate going
    /// round from the selected row's group.
    fn jump_target(&self, want: Option<&str>, number: u64) -> (r: Option<usize>)
        requires
            self.repos@.len() > 0,
        ensures
            match r {
                Some(ri) => exists|k: int|
                    #[trigger] is_first_jump(self.repos@, jump_start(*self) % (self.repos@.len() as int), opt_str_view(want), number, k)
                        && ri == (jump_start(*self) % (self.repos@.len() as int) + k) % (self.repos@.len() as int),
                None => !exists|k: int|
                    #[trigger] is_first_jump(self.repos@, jump_start(*self) % (self.repos@.len() as int), opt_str_view(want), number, k),
            },
    {
        let n = self.repos.len();
        let start: usize = if self.selected < self.rows.len() {
            match self.rows[self.selected] {
                Row::Issue { repo_idx, .. } => repo_idx,
                Row::RepoHeader { repo_idx } => repo_idx,
            }
        } else {
            0
        };
        let s0 = start % n;
        let ghost wv = opt_str_view(want);
        let mut k: usize = 0;
        while k < n
            invariant
                n == self.repos@.len(),
                n > 0,
                s0 == jump_start(*self) % (n as int),
                s0 < n,
                k <= n,
                wv == opt_str_view(want),
                forall|j: int| 0 <= j < k ==> !#[trigger] candidate_at(self.repos@, s0 as int, wv, number, j),
            decreases n - k,
        {
            let ri = if k < n - s0 {
                s0 + k
            } else {
                k - (n - s0)
            };
            assert(ri == (s0 + k) % (n as int)) by {
                if k < n - s0 {
                    vstd::arithmetic::div_mod::lemma_small_mod((s0 + k) as nat, n as nat);
                } else {
                    vstd::arithmetic::div_mod::lemma_mod_add_multiples_vanish((s0 + k - n) as int, n as int);
                    vstd::arithmetic::div_mod::lemma_small_mod((s0 + k - n) as nat, n as nat);
                }
            }
            let name_ok = match want {
                Some(w) => eq_str(self.repos[ri].repo.as_str(), w),
                None => true,
            };
            if name_ok {
                match self.first_numbered(ri, number) {
                    Some(i) => {
                        assert(candidate_at(self.repos@, s0 as int, wv, number, k as int)) by {
                            assert(self.repos@[ri as int].issues@[i as int].number == number);
                        }
                        assert(is_first_jump(self.repos@, s0 as int, wv, number, k as int));
                        return Some(ri);
                    },
                    None => {
                        assert(!candidate_at(self.repos@, s0 as int, wv, number, k as int));
                    },
                }
            } else {
                assert(!candidate_at(self.repos@, s0 as int, wv, number, k as int));
            }
            k += 1;
        }
        proof {
            assert forall|k: int| !#[trigger] is_first_jump(self.repos@, s0 as int, wv, number, k) by {
                if 0 <= k < n {
                    assert(!candidate_at(self.repos@, s0 as int, wv, number, k));
                }
            }
        }
        None
    }

    /// Move the selection to loaded issue `number`, in the repo `repo`
    /// names when given, searching from the selected group round the rest.
    /// Filters hiding it are cleared (state to all) and its group expanded;
    /// returns whether the selection landed on it. Reports nothing on
    /// failure, so the caller decides what to say.
    pub fn jump_to_ref(&mut self, repo: Option<&str>, number: u64) -> (r: bool)
        ensures
            jump_result(*old(self), *final(self), opt_str_view(repo), number, r),
    {
        if self.repos.len() == 0 {
            return false;
        }
        let ri = match self.jump_target(repo, number) {
            Some(ri) => ri,
            None => return false,
        };
        proof {
            let s0 = jump_start(*old(self)) % (old(self).repos@.len() as int);
            let k = choose|k: int| #[trigger] is_first_jump(old(self).repos@, s0, opt_str_view(repo), number, k)
                && ri == (s0 + k) % (old(self).repos@.len() as int);
            let k2 = choose|k: int| #[trigger] is_first_jump(old(self).repos@, s0, opt_str_view(repo), number, k);
            if k2 < k {
                assert(!candidate_at(old(self).repos@, s0, opt_str_view(repo), number, k2));
            }
            if k < k2 {
                assert(!candidate_at(old(self).repos@, s0, opt_str_view(repo), number, k));
            }
        }
        self.jump_into(ri, number)
    }

    /// Jump into repo `ri` to issue `number`: reveal it (clear hiding
    /// filters, expand its group), rebuild, and select its row.
    #[verifier::rlimit(80)]
    fn jump_into(&mut self, ri: usize, number: u64) -> (r: bool)
        requires
            ri < old(self).repos@.len(),
            exists|i: int| 0 <= i < old(self).repos@[ri as int].issues@.len()
                && #[trigger] old(self).repos@[ri as int].issues@[i].number == number,
        ensures
            jump_landed(*old(self), *final(self), ri as int, number, r),
    {
        let name = self.repos[ri].repo.clone();
        let exact = self.repo_filter_exact();
        let first = self.first_numbered(ri, number);
        proof {
            let issues = old(self).repos@[ri as int].issues@;
            let i = choose|i: int| is_first_number(issues, number, i);
            match first {
                Some(f) => {
                    assert(is_first_number(issues, number, f as int));
                    assert(i == f) by {
                        if i < f {
                            assert(issues[i].number != number);
                        }
                        if f < i {
                            assert(issues[f as int].number != number);
                        }
                    }
                },
                None => {},
            }
        }
        let hidden = !self.filters.repo_matches(name.as_str(), exact) || match first {
            Some(i) => !self.filters.matches(&self.repos[ri].issues[i], self.state_filter),
            None => false,
        };
        if hidden {
            self.clear_filters();
            self.state_filter = StateFilter::All;
        }
        remove_str(&mut self.collapsed, name.as_str());
        self.rebuild_rows();
        match self.showing_row(name.as_str(), number) {
            Some(idx) => {
                self.selected = idx;
                let mut msg = owned("jumped to #");
                proof {
                    reveal_strlit("jumped to #");
                }
                let n = u64_to_string(number);
                crate::text::string_push_str(&mut msg, n.as_str());
                assert(msg@ =~= jumped_text(number));
                self.status = Some(msg);
                true
            },
            None => false,
        }
    }

    /// What a jump to issue `number` leaves: the selection on it, or, when
    /// none is loaded, the status saying so.
    pub open spec fn jumped_to_number(&self, prev: App, number: u64) -> bool {
        ||| jump_result(prev, *self, None, number, true)
        ||| (exists|mid: App|
            #[trigger] jump_result(prev, mid, None, number, false) && *self == (App { status: self.status, ..mid }))
            && (self.status matches Some(st) && st@ == not_loaded_text(number))
    }

    /// Move the selection to loaded issue `number` (any repo), reporting
    /// when none is loaded.
    pub fn jump_to_number(&mut self, number: u64) -> (r: bool)
        ensures
            r ==> jump_result(*old(self), *final(self), None, number, true),
            !r ==> exists|mid: App|
                #[trigger] jump_result(*old(self), mid, None, number, false) && *final(self) == (App {
                    status: final(self).status,
                    ..mid
                }),
            !r ==> (final(self).status matches Some(st) && st@ == not_loaded_text(number)),
            final(self).jumped_to_number(*old(self), number),
    {
        assert(opt_str_view(None) == None::<Seq<char>>);
        if self.jump_to_ref(None, number) {
            return true;
        }
        let ghost mid = *self;
        let mut msg = owned("no issue #");
        proof {
            reveal_strlit("no issue #");
            reveal_strlit(" loaded");
        }
        let n = u64_to_string(number);
        crate::text::string_push_str(&mut msg, n.as_str());
        crate::text::string_push_str(&mut msg, " loaded");
        assert(msg@ =~= not_loaded_text(number));
        self.status = Some(msg);
        assert(*self == (App { status: self.status, ..mid }));
        assert(jump_result(*old(self), mid, None, number, false));
        false
    }
}


/// Whether some loaded issue carries a label named `name`.
pub open spec fn has_label_name(repos: Seq<RepoIssues>, name: Seq<char>) -> bool {
    exists|r: int, i: int, l: int|
        0 <= r < repos.len() && 0 <= i < repos[r].issues@.len() && 0 <= l
            < repos[r].issues@[i].labels@.len() && #[trigger] label_at(repos, r, i, l) == name
}

/// The status text after a failed rank inference.
pub open spec fn ranks_failed_text(e: Seq<char>) -> Seq<char> {
    seq!['p', 'r', 'i', 'o', 'r', 'i', 't', 'y', ' ', 'r', 'a', 'n', 'k', 's', ' ', 'u', 'n', 'a', 'v', 'a', 'i', 'l', 'a', 'b', 'l', 'e', ' ', '(']
        + e + seq![')', ' ', '\u{2014}', ' ', 's', 'o', 'r', 't', 'i', 'n', 'g', ' ', 'b', 'y', ' ', 'l', 'a', 'b', 'e', 'l', ' ', 'c', 'o', 'n', 'v', 'e', 'n', 't', 'i', 'o', 'n']
}

impl App {
    /// Every label name on the loaded issues that is not a `priority:*`
    /// label and has no answer yet.
    fn unasked_labels(&self) -> (r: Vec<String>)
        ensures
            forall|v: Seq<char>| #![trigger views(r@).contains(v)]
                views(r@).contains(v) <==> (has_label_name(self.repos@, v)
                    && !crate::types::is_priority_name(v) && !self.label_rank.answers().dom().contains(v)),
    {
        let mut out: Vec<String> = Vec::new();
        let mut r: usize = 0;
        while r < self.repos.len()
            invariant
                r <= self.repos@.len(),
                forall|v: Seq<char>| #![trigger views(out@).contains(v)]
                    views(out@).contains(v) ==> (has_label_name(self.repos@, v)
                        && !crate::types::is_priority_name(v) && !self.label_rank.answers().dom().contains(v)),
                forall|rr: int, ii: int, ll: int|
                    0 <= rr < r && 0 <= ii < self.repos@[rr].issues@.len() && 0 <= ll
                        < self.repos@[rr].issues@[ii].labels@.len() ==> wanted_covered(
                        views(out@),
                        #[trigger] label_at(self.repos@, rr, ii, ll),
                        self.label_rank.answers(),
                    ),
            decreases self.repos@.len() - r,
        {
            let issues = &self.repos[r].issues;
            let mut i: usize = 0;
            while i < issues.len()
                invariant
                    r < self.repos@.len(),
                    issues == self.repos@[r as int].issues,
                    i <= issues@.len(),
                    forall|v: Seq<char>| #![trigger views(out@).contains(v)]
                        views(out@).contains(v) ==> (has_label_name(self.repos@, v)
                            && !crate::types::is_priority_name(v) && !self.label_rank.answers().dom().contains(v)),
                    forall|rr: int, ii: int, ll: int|
                        ((0 <= rr < r && 0 <= ii < self.repos@[rr].issues@.len()) || (rr == r && 0
                            <= ii < i)) && 0 <= ll < self.repos@[rr].issues@[ii].labels@.len()
                            ==> wanted_covered(
                            views(out@),
                            #[trigger] label_at(self.repos@, rr, ii, ll),
                            self.label_rank.answers(),
                        ),
                decreases issues@.len() - i,
            {
                let labels = &issues[i].labels;
                let mut l: usize = 0;
                while l < labels.len()
                    invariant
                        r < self.repos@.len(),
                        issues == self.repos@[r as int].issues,
                        i < issues@.len(),
                        labels == issues@[i as int].labels,
                        l <= labels@.len(),
                        forall|v: Seq<char>| #![trigger views(out@).contains(v)]
                            views(out@).contains(v) ==> (has_label_name(self.repos@, v)
                                && !crate::types::is_priority_name(v) && !self.label_rank.answers().dom().contains(v)),
                        forall|rr: int, ii: int, ll: int|
                            ((0 <= rr < r && 0 <= ii < self.repos@[rr].issues@.len()) || (rr == r
                                && 0 <= ii < i) || (rr == r && ii == i && 0 <= ll < l)) && 0 <= ll
                                < self.repos@[rr].issues@[ii].labels@.len() ==> wanted_covered(
                                views(out@),
                                #[trigger] label_at(self.repos@, rr, ii, ll),
                                self.label_rank.answers(),
                            ),
                    decreases labels@.len() - l,
                {
                    let ghost before = out@;
                    let name = &labels[l].name;
                    assert(label_at(self.repos@, r as int, i as int, l as int) == name@);
                    if !crate::types::is_priority_label(name.as_str()) && self.label_rank.rank_known(
                        name.as_str(),
                    ) == false {
                        out.push(name.clone());
                        assert(views(out@) =~= views(before).push(name@));
                    }
                    l += 1;
                }
                i += 1;
            }
            r += 1;
        }
        assert forall|v: Seq<char>| #![trigger views(out@).contains(v)]
            views(out@).contains(v) <== (has_label_name(self.repos@, v)
                && !crate::types::is_priority_name(v) && !self.label_rank.answers().dom().contains(v)) by {
            if has_label_name(self.repos@, v) {
                let (rr, ii, ll) = choose|rr: int, ii: int, ll: int|
                    0 <= rr < self.repos@.len() && 0 <= ii < self.repos@[rr].issues@.len() && 0
                        <= ll < self.repos@[rr].issues@[ii].labels@.len()
                        && #[trigger] label_at(self.repos@, rr, ii, ll) == v;
                assert(wanted_covered(views(out@), label_at(self.repos@, rr, ii, ll), self.label_rank.answers()));
            }
        }
        out
    }

    /// The label names on loaded issues that still need a rank, sorted and
    /// distinct, marking a request as out; `None` when a request is out,
    /// inference has failed, or nothing needs asking.
    pub fn begin_rank_inference(&mut self) -> (r: Option<Vec<String>>)
        ensures
            old(self).label_rank.spec_in_flight() || old(self).label_rank.spec_failed() ==> r.is_none()
                && *final(self) == *old(self),
            !old(self).label_rank.spec_in_flight() && !old(self).label_rank.spec_failed() ==> match r {
                None => *final(self) == *old(self) && !exists|v: Seq<char>|
                    has_label_name(old(self).repos@, v) && !crate::types::is_priority_name(v)
                        && !old(self).label_rank.answers().dom().contains(v),
                Some(names) => {
                    &&& names_strict(views(names@), RankBy::Plain)
                    &&& names@.len() > 0
                    &&& forall|v: Seq<char>| #![trigger views(names@).contains(v)]
                        views(names@).contains(v) <==> (has_label_name(old(self).repos@, v)
                            && !crate::types::is_priority_name(v) && !old(self).label_rank.answers().dom().contains(v))
                    &&& final(self).label_rank.spec_in_flight()
                    &&& final(self).label_rank.answers() == old(self).label_rank.answers()
                    &&& final(self).label_rank.spec_failed() == old(self).label_rank.spec_failed()
                    &&& *final(self) == (App { label_rank: final(self).label_rank, ..*old(self) })
                },
            },
    {
        if self.label_rank.is_in_flight() || self.label_rank.has_failed() {
            return None;
        }
        let names = self.unasked_labels();
        let sorted = sort_dedup_names(names, RankBy::Plain);
        if sorted.len() == 0 {
            proof {
                assert forall|v: Seq<char>| !(has_label_name(old(self).repos@, v)
                    && !crate::types::is_priority_name(v) && !old(self).label_rank.answers().dom().contains(v)) by {
                    if has_label_name(old(self).repos@, v) && !crate::types::is_priority_name(v)
                        && !old(self).label_rank.answers().dom().contains(v) {
                        assert(views(names@).contains(v));
                        assert(views(sorted@).contains(v));
                    }
                }
            }
            return None;
        }
        self.label_rank.set_in_flight(true);
        Some(sorted)
    }

    /// Take new rank answers in and rebuild, keeping the selection on the
    /// same issue.
    pub fn merge_label_ranks(&mut self, ranks: Vec<(String, Option<u8>)>)
        ensures
            final(self).label_rank.answers() == crate::ranks::merged(old(self).label_rank.answers(), ranks@),
            final(self).label_rank.spec_in_flight() == old(self).label_rank.spec_in_flight(),
            final(self).label_rank.spec_failed() == old(self).label_rank.spec_failed(),
            (App {
                selected: clamp_index(old(self).selected as int, final(self).rows@.len() as int) as usize,
                ..*final(self)
            }).rebuilt_from(App { label_rank: final(self).label_rank, ..*old(self) }),
            reselected(
                final(self).rows@,
                final(self).repos@,
                match old(self).spec_selected_issue() {
                    Some(i) => Some(i.id@),
                    None => None,
                },
                clamp_index(old(self).selected as int, final(self).rows@.len() as int) as usize,
                final(self).selected,
            ),
    {
        let prev = match self.selected_issue() {
            Some(i) => Some(i.id.clone()),
            None => None,
        };
        self.label_rank.merge(ranks);
        self.rebuild_rows();
        self.reselect(prev);
    }

    /// Deliver a finished inference; dropped when `org` is no longer the
    /// org being browsed. A failure switches inference off for the session
    /// and says so.
    pub fn apply_label_ranks(&mut self, org: &str, result: Result<Vec<(String, Option<u8>)>, String>)
        ensures
            org@ != old(self).org@ ==> *final(self) == *old(self),
            org@ == old(self).org@ ==> !final(self).label_rank.spec_in_flight(),
            org@ == old(self).org@ ==> match result {
                Ok(ranks) => final(self).label_rank.answers() == crate::ranks::merged(
                    old(self).label_rank.answers(),
                    ranks@,
                ) && final(self).label_rank.spec_failed() == old(self).label_rank.spec_failed(),
                Err(e) => final(self).label_rank.spec_failed() && final(self).label_rank.answers()
                    == old(self).label_rank.answers() && (final(self).status matches Some(st) && st@
                    == ranks_failed_text(e@)) && *final(self) == (App {
                    label_rank: final(self).label_rank,
                    status: final(self).status,
                    ..*old(self)
                }),
            },
    {
        if !eq_str(org, self.org.as_str()) {
            return;
        }
        self.label_rank.set_in_flight(false);
        match result {
            Ok(ranks) => self.merge_label_ranks(ranks),
            Err(e) => {
                self.label_rank.mark_failed();
                let mut msg = owned("priority ranks unavailable (");
                crate::text::string_push_str(&mut msg, e.as_str());
                crate::text::string_push_str(&mut msg, ") \u{2014} sorting by label convention");
                proof {
                    reveal_strlit("priority ranks unavailable (");
                    reveal_strlit(") \u{2014} sorting by label convention");
                }
                assert(msg@ =~= ranks_failed_text(e@));
                self.status = Some(msg);
            },
        }
    }
}

/// A label that needs a rank is among `out`.
pub open spec fn wanted_covered(out: Seq<Seq<char>>, name: Seq<char>, answers: Map<Seq<char>, Option<u8>>) -> bool {
    (!crate::types::is_priority_name(name) && !answers.dom().contains(name)) ==> out.contains(name)
}

} // verus!
