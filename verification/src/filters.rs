//! The filter model: which issues the list shows, and the label helpers the
//! priority picker and the priority/status filters share.
use vstd::prelude::*;

use crate::dates::{day_of, day_of_ts, parse_ymd, ymd_day};
use crate::sorting::{is_name_sort, sort_names, views, RankBy};
use crate::text::{
    chars_of, contains, decimal, eq_ic, eq_ignore_ascii_case, is_ws, lowercase, owned,
    split, split_chars, str_contains, string_of_range, string_push, string_push_str,
    to_lowercase, trim, trim_range, trim_start_char, trim_start_char_chars, trim_str,
    u64_to_string,
};
use crate::types::{is_priority_label, is_priority_name, Issue, IssueState, Label, RepoLabel};

verus! {

broadcast use vstd::string::group_string_axioms;

#[derive(Debug, Clone, Copy, PartialEq, Eq, Structural)]
pub enum StateFilter {
    Open,
    Closed,
    All,
}

impl StateFilter {
    pub open spec fn spec_next(self) -> StateFilter {
        match self {
            StateFilter::Open => StateFilter::Closed,
            StateFilter::Closed => StateFilter::All,
            StateFilter::All => StateFilter::Open,
        }
    }

    /// The next filter in the `f` cycle: open → closed → all → open.
    pub fn next(self) -> (r: StateFilter)
        ensures
            r == self.spec_next(),
    {
        match self {
            StateFilter::Open => StateFilter::Closed,
            StateFilter::Closed => StateFilter::All,
            StateFilter::All => StateFilter::Open,
        }
    }

    pub open spec fn spec_label(self) -> Seq<char> {
        match self {
            StateFilter::Open => seq!['o', 'p', 'e', 'n'],
            StateFilter::Closed => seq!['c', 'l', 'o', 's', 'e', 'd'],
            StateFilter::All => seq!['a', 'l', 'l'],
        }
    }

    pub fn label(self) -> (r: &'static str)
        ensures
            r@ == self.spec_label(),
    {
        proof {
            reveal_strlit("open");
            reveal_strlit("closed");
            reveal_strlit("all");
        }
        let r = match self {
            StateFilter::Open => "open",
            StateFilter::Closed => "closed",
            StateFilter::All => "all",
        };
        assert(r@ =~= self.spec_label());
        r
    }

    pub open spec fn admits(self, s: IssueState) -> bool {
        match self {
            StateFilter::All => true,
            StateFilter::Open => s == IssueState::Open,
            StateFilter::Closed => s == IssueState::Closed,
        }
    }
}

/// One optional date bound, parsed from `YYYY-MM-DD` (surrounding
/// whitespace ignored); blank text is no bound.
pub open spec fn spec_parse_date(input: Seq<char>) -> Option<i32> {
    if trim(input).len() == 0 {
        None
    } else {
        ymd_day(trim(input))
    }
}

pub fn parse_date(input: &str) -> (r: Option<i32>)
    ensures
        r == spec_parse_date(input@),
{
    let t = trim_str(input);
    if t.as_str().is_empty() {
        return None;
    }
    proof {
        assert(t@.len() != 0);
    }
    parse_ymd(t.as_str())
}

/// A timestamp passes a lower date bound when it falls on or after it; a
/// missing timestamp passes only when there is no bound.
pub open spec fn on_or_after(ts: Option<i64>, bound: Option<i32>) -> bool {
    match bound {
        None => true,
        Some(b) => match ts {
            Some(t) => day_of(t as int) >= b,
            None => false,
        },
    }
}

pub open spec fn on_or_before(ts: Option<i64>, bound: Option<i32>) -> bool {
    match bound {
        None => true,
        Some(b) => match ts {
            Some(t) => day_of(t as int) <= b,
            None => false,
        },
    }
}

fn after_exec(ts: Option<i64>, bound: Option<i32>) -> (r: bool)
    ensures
        r == on_or_after(ts, bound),
{
    match bound {
        None => true,
        Some(b) => match ts {
            Some(t) => day_of_ts(t) >= b as i64,
            None => false,
        },
    }
}

fn before_exec(ts: Option<i64>, bound: Option<i32>) -> (r: bool)
    ensures
        r == on_or_before(ts, bound),
{
    match bound {
        None => true,
        Some(b) => match ts {
            Some(t) => day_of_ts(t) <= b as i64,
            None => false,
        },
    }
}

/// `prefix:value`.
pub open spec fn prefixed(prefix: Seq<char>, v: Seq<char>) -> Seq<char> {
    prefix + seq![':'] + v
}

/// A label answers a filter value given bare (`high`) or in full
/// (`priority:high`), ignoring ASCII case.
pub open spec fn label_answers(name: Seq<char>, prefix: Seq<char>, v: Seq<char>) -> bool {
    eq_ic(name, v) || eq_ic(name, prefixed(prefix, v))
}

/// No values means no filter; otherwise some label answers some value.
pub open spec fn spec_label_filter(labels: Seq<Label>, prefix: Seq<char>, filters: Seq<String>) -> bool {
    filters.len() == 0 || exists|fi: int, li: int|
        0 <= fi < filters.len() && 0 <= li < labels.len() && #[trigger] label_answers(
            labels[li].name@,
            prefix,
            filters[fi]@,
        )
}

fn label_answers_exec(name: &str, prefix: &str, v: &str) -> (r: bool)
    ensures
        r == label_answers(name@, prefix@, v@),
{
    if eq_ignore_ascii_case(name, v) {
        return true;
    }
    let mut expected = owned(prefix);
    string_push(&mut expected, ':');
    string_push_str(&mut expected, v);
    assert(expected@ =~= prefixed(prefix@, v@));
    eq_ignore_ascii_case(name, expected.as_str())
}

/// Whether `issue` passes a priority or status filter (`prefix` names which).
pub fn label_filter_matches(issue: &Issue, prefix: &str, filters: &[String]) -> (r: bool)
    ensures
        r == spec_label_filter(issue.labels@, prefix@, filters@),
{
    if filters.len() == 0 {
        return true;
    }
    let mut fi: usize = 0;
    while fi < filters.len()
        invariant
            fi <= filters.len(),
            forall|a: int, b: int|
                0 <= a < fi && 0 <= b < issue.labels@.len() ==> !#[trigger] label_answers(
                    issue.labels@[b].name@,
                    prefix@,
                    filters@[a]@,
                ),
        decreases filters.len() - fi,
    {
        let mut li: usize = 0;
        while li < issue.labels.len()
            invariant
                fi < filters.len(),
                li <= issue.labels.len(),
                forall|b: int| 0 <= b < li ==> !#[trigger] label_answers(
                    issue.labels@[b].name@,
                    prefix@,
                    filters@[fi as int]@,
                ),
            decreases issue.labels.len() - li,
        {
            if label_answers_exec(issue.labels[li].name.as_str(), prefix, filters[fi].as_str()) {
                return true;
            }
            li += 1;
        }
        fi += 1;
    }
    false
}

/// Comma-separated text → filter values: each piece trimmed, empties dropped.
pub open spec fn trimmed_nonempty(ps: Seq<Seq<char>>) -> Seq<Seq<char>>
    decreases ps.len(),
{
    if ps.len() == 0 {
        Seq::<Seq<char>>::empty()
    } else {
        let r = trimmed_nonempty(ps.drop_last());
        if trim(ps.last()).len() > 0 {
            r.push(trim(ps.last()))
        } else {
            r
        }
    }
}

pub fn parse_filter_list(input: &str) -> (r: Vec<String>)
    ensures
        views(r@) == trimmed_nonempty(split(input@, ',')),
{
    let v = chars_of(input);
    let pieces = split_chars(&v, ',');
    let ghost ps = views(pieces@);
    let mut out: Vec<String> = Vec::new();
    let mut i: usize = 0;
    while i < pieces.len()
        invariant
            i <= pieces.len(),
            ps == views(pieces@),
            views(out@) == trimmed_nonempty(ps.take(i as int)),
        decreases pieces.len() - i,
    {
        let t = trim_str(pieces[i].as_str());
        proof {
            assert(ps.take(i + 1).drop_last() =~= ps.take(i as int));
            assert(ps.take(i + 1).last() == pieces@[i as int]@);
        }
        if !t.as_str().is_empty() {
            out.push(t);
            assert(views(out@) =~= trimmed_nonempty(ps.take(i + 1)));
        } else {
            assert(views(out@) =~= trimmed_nonempty(ps.take(i + 1)));
        }
        i += 1;
    }
    assert(ps.take(pieces.len() as int) =~= ps);
    assert(ps == split(v@, ','));
    out
}

/// The names of `labels` that follow the `priority:<value>` convention, in
/// order.
pub open spec fn priority_names(labels: Seq<RepoLabel>) -> Seq<Seq<char>>
    decreases labels.len(),
{
    if labels.len() == 0 {
        Seq::<Seq<char>>::empty()
    } else {
        let r = priority_names(labels.drop_last());
        if is_priority_name(labels.last().name@) {
            r.push(labels.last().name@)
        } else {
            r
        }
    }
}

pub open spec fn clear_option() -> Seq<char> {
    seq!['\u{2014}']
}

/// Options for the set-priority picker: `—` (clear) first, then the repo's
/// `priority:*` labels ordered low → urgent with unknown values last,
/// alphabetical within a rank.
pub fn priority_set_options(repo_labels: &[RepoLabel]) -> (r: Vec<String>)
    ensures
        r@.len() >= 1,
        r@[0]@ == clear_option(),
        is_name_sort(views(r@).skip(1), priority_names(repo_labels@), RankBy::LabelName),
{
    let mut prio: Vec<String> = Vec::new();
    let mut i: usize = 0;
    while i < repo_labels.len()
        invariant
            i <= repo_labels.len(),
            views(prio@) == priority_names(repo_labels@.take(i as int)),
        decreases repo_labels.len() - i,
    {
        proof {
            assert(repo_labels@.take(i + 1).drop_last() =~= repo_labels@.take(i as int));
        }
        if is_priority_label(repo_labels[i].name.as_str()) {
            prio.push(repo_labels[i].name.clone());
            assert(views(prio@) =~= priority_names(repo_labels@.take(i + 1)));
        } else {
            assert(views(prio@) =~= priority_names(repo_labels@.take(i + 1)));
        }
        i += 1;
    }
    assert(repo_labels@.take(repo_labels.len() as int) =~= repo_labels@);
    let sorted = sort_names(prio, RankBy::LabelName);
    let mut opts: Vec<String> = Vec::new();
    let dash = "\u{2014}";
    proof {
        reveal_strlit("\u{2014}");
    }
    opts.push(owned(dash));
    assert(opts@[0]@ =~= clear_option());
    let mut k: usize = 0;
    while k < sorted.len()
        invariant
            k <= sorted.len(),
            opts@.len() == k + 1,
            opts@[0]@ == clear_option(),
            views(opts@).skip(1) == views(sorted@).take(k as int),
        decreases sorted.len() - k,
    {
        opts.push(sorted[k].clone());
        assert(views(opts@).skip(1) =~= views(sorted@).take(k + 1));
        k += 1;
    }
    assert(views(sorted@).take(sorted.len() as int) =~= views(sorted@));
    opts
}

/// The issue's label names without any `priority:*` label.
pub open spec fn non_priority_names(labels: Seq<Label>) -> Seq<Seq<char>>
    decreases labels.len(),
{
    if labels.len() == 0 {
        Seq::<Seq<char>>::empty()
    } else {
        let r = non_priority_names(labels.drop_last());
        if is_priority_name(labels.last().name@) {
            r
        } else {
            r.push(labels.last().name@)
        }
    }
}

/// The issue's label names with any `priority:*` label replaced by `pick`,
/// or removed when `pick` is `None`.
pub fn priority_label_set(issue: &Issue, pick: Option<&str>) -> (r: Vec<String>)
    ensures
        views(r@) == (match pick {
            Some(p) => non_priority_names(issue.labels@).push(p@),
            None => non_priority_names(issue.labels@),
        }),
{
    let mut names: Vec<String> = Vec::new();
    let mut i: usize = 0;
    while i < issue.labels.len()
        invariant
            i <= issue.labels.len(),
            views(names@) == non_priority_names(issue.labels@.take(i as int)),
        decreases issue.labels.len() - i,
    {
        proof {
            assert(issue.labels@.take(i + 1).drop_last() =~= issue.labels@.take(i as int));
        }
        if !is_priority_label(issue.labels[i].name.as_str()) {
            names.push(issue.labels[i].name.clone());
        }
        assert(views(names@) =~= non_priority_names(issue.labels@.take(i + 1)));
        i += 1;
    }
    assert(issue.labels@.take(issue.labels.len() as int) =~= issue.labels@);
    if let Some(p) = pick {
        names.push(owned(p));
        assert(views(names@) =~= non_priority_names(issue.labels@).push(p@));
    }
    names
}

/// Which issues the list shows: free text, assignee, author, label values
/// and date bounds. The repo filter is separate — see `repo_matches`.
pub struct Filters {
    pub text: String,
    pub repo: String,
    pub assignee: String,
    pub author: String,
    /// Matches any of these `priority:<value>` labels (bare values or full
    /// label names); empty means no filter.
    pub priority: Vec<String>,
    /// Matches any of these `status:<value>` labels; empty means no filter.
    pub status: Vec<String>,
    pub created_after: Option<i32>,
    pub created_before: Option<i32>,
    pub updated_after: Option<i32>,
    pub updated_before: Option<i32>,
    pub closed_after: Option<i32>,
    pub closed_before: Option<i32>,
    /// Hide repo groups with zero visible issues.
    pub hide_empty: bool,
}

/// Free text hits an issue when its lowercase form occurs in the lowercased
/// title or body, or names the issue number (leading `#`s ignored).
pub open spec fn text_hit(needle: Seq<char>, issue: &Issue) -> bool {
    ||| contains(lowercase(issue.title@), needle)
    ||| contains(lowercase(issue.body@), needle)
    ||| decimal(issue.number as nat) == trim_start_char(needle, '#')
}

pub open spec fn assignee_hit(assignees: Seq<String>, who: Seq<char>) -> bool {
    exists|k: int| 0 <= k < assignees.len() && eq_ic(#[trigger] assignees[k]@, who)
}

impl Filters {
    /// Everything cleared, hide-empty on.
    pub open spec fn is_default(&self) -> bool {
        &&& self.text@.len() == 0
        &&& self.repo@.len() == 0
        &&& self.assignee@.len() == 0
        &&& self.author@.len() == 0
        &&& self.priority@.len() == 0
        &&& self.status@.len() == 0
        &&& self.created_after is None
        &&& self.created_before is None
        &&& self.updated_after is None
        &&& self.updated_before is None
        &&& self.closed_after is None
        &&& self.closed_before is None
        &&& self.hide_empty
    }

    pub fn new_default() -> (r: Filters)
        ensures
            r.is_default(),
    {
        Filters {
            text: String::new(),
            repo: String::new(),
            assignee: String::new(),
            author: String::new(),
            priority: Vec::new(),
            status: Vec::new(),
            created_after: None,
            created_before: None,
            updated_after: None,
            updated_before: None,
            closed_after: None,
            closed_before: None,
            hide_empty: true,
        }
    }

    pub open spec fn spec_matches(&self, issue: &Issue, state: StateFilter) -> bool {
        &&& state.admits(issue.state)
        &&& self.text@.len() == 0 || text_hit(lowercase(self.text@), issue)
        &&& self.assignee@.len() == 0 || assignee_hit(issue.assignees@, self.assignee@)
        &&& self.author@.len() == 0 || eq_ic(issue.author@, self.author@)
        &&& spec_label_filter(issue.labels@, seq!['p', 'r', 'i', 'o', 'r', 'i', 't', 'y'], self.priority@)
        &&& spec_label_filter(issue.labels@, seq!['s', 't', 'a', 't', 'u', 's'], self.status@)
        &&& on_or_after(Some(issue.created_at), self.created_after)
        &&& on_or_before(Some(issue.created_at), self.created_before)
        &&& on_or_after(Some(issue.updated_at), self.updated_after)
        &&& on_or_before(Some(issue.updated_at), self.updated_before)
        &&& on_or_after(issue.closed_at, self.closed_after)
        &&& on_or_before(issue.closed_at, self.closed_before)
    }

    fn text_matches(&self, issue: &Issue) -> (r: bool)
        requires
            self.text@.len() > 0,
        ensures
            r == text_hit(lowercase(self.text@), issue),
    {
        let needle = to_lowercase(self.text.as_str());
        let title = to_lowercase(issue.title.as_str());
        if str_contains(title.as_str(), needle.as_str()) {
            return true;
        }
        let body = to_lowercase(issue.body.as_str());
        if str_contains(body.as_str(), needle.as_str()) {
            return true;
        }
        let nv = chars_of(needle.as_str());
        let lo = trim_start_char_chars(&nv, '#');
        let stripped = string_of_range(&nv, lo, nv.len());
        let num = u64_to_string(issue.number);
        num == stripped
    }

    fn assignee_matches(&self, issue: &Issue) -> (r: bool)
        ensures
            r == assignee_hit(issue.assignees@, self.assignee@),
    {
        let mut k: usize = 0;
        while k < issue.assignees.len()
            invariant
                k <= issue.assignees.len(),
                forall|j: int| 0 <= j < k ==> !eq_ic(#[trigger] issue.assignees@[j]@, self.assignee@),
            decreases issue.assignees.len() - k,
        {
            if eq_ignore_ascii_case(issue.assignees[k].as_str(), self.assignee.as_str()) {
                return true;
            }
            k += 1;
        }
        false
    }

    /// Whether `issue` passes every filter except the repo filter.
    pub fn matches(&self, issue: &Issue, state: StateFilter) -> (r: bool)
        ensures
            r == self.spec_matches(issue, state),
    {
        let state_ok = match state {
            StateFilter::All => true,
            StateFilter::Open => issue.state == IssueState::Open,
            StateFilter::Closed => issue.state == IssueState::Closed,
        };
        if !state_ok {
            return false;
        }
        if !self.text.as_str().is_empty() && !self.text_matches(issue) {
            return false;
        }
        if !self.assignee.as_str().is_empty() && !self.assignee_matches(issue) {
            return false;
        }
        if !self.author.as_str().is_empty() && !eq_ignore_ascii_case(
            issue.author.as_str(),
            self.author.as_str(),
        ) {
            return false;
        }
        let priority = "priority";
        let status = "status";
        proof {
            reveal_strlit("priority");
            reveal_strlit("status");
        }
        assert(priority@ =~= seq!['p', 'r', 'i', 'o', 'r', 'i', 't', 'y']);
        assert(status@ =~= seq!['s', 't', 'a', 't', 'u', 's']);
        if !label_filter_matches(issue, priority, self.priority.as_slice()) {
            return false;
        }
        if !label_filter_matches(issue, status, self.status.as_slice()) {
            return false;
        }
        after_exec(Some(issue.created_at), self.created_after) && before_exec(
            Some(issue.created_at),
            self.created_before,
        ) && after_exec(Some(issue.updated_at), self.updated_after) && before_exec(
            Some(issue.updated_at),
            self.updated_before,
        ) && after_exec(issue.closed_at, self.closed_after) && before_exec(
            issue.closed_at,
            self.closed_before,
        )
    }

    /// With `exact`, only the repo the filter names matches; otherwise the
    /// filter is a case-insensitive substring. An empty filter matches all.
    pub open spec fn spec_repo_matches(&self, repo: Seq<char>, exact: bool) -> bool {
        if self.repo@.len() == 0 {
            true
        } else if exact {
            eq_ic(repo, self.repo@)
        } else {
            contains(lowercase(repo), lowercase(self.repo@))
        }
    }

    pub fn repo_matches(&self, repo: &str, exact: bool) -> (r: bool)
        ensures
            r == self.spec_repo_matches(repo@, exact),
    {
        if self.repo.as_str().is_empty() {
            return true;
        }
        if exact {
            eq_ignore_ascii_case(repo, self.repo.as_str())
        } else {
            let a = to_lowercase(repo);
            let b = to_lowercase(self.repo.as_str());
            str_contains(a.as_str(), b.as_str())
        }
    }

    pub open spec fn spec_is_active(&self) -> bool {
        ||| self.text@.len() != 0
        ||| self.repo@.len() != 0
        ||| self.assignee@.len() != 0
        ||| self.author@.len() != 0
        ||| self.priority@.len() != 0
        ||| self.status@.len() != 0
        ||| self.created_after is Some
        ||| self.created_before is Some
        ||| self.updated_after is Some
        ||| self.updated_before is Some
        ||| self.closed_after is Some
        ||| self.closed_before is Some
    }

    /// Whether any text, label or date filter is set (hide-empty aside).
    pub fn is_active(&self) -> (r: bool)
        ensures
            r == self.spec_is_active(),
    {
        !self.text.as_str().is_empty() || !self.repo.as_str().is_empty() || !self.assignee.as_str().is_empty()
            || !self.author.as_str().is_empty() || self.priority.len() != 0 || self.status.len() != 0
            || self.created_after.is_some() || self.created_before.is_some()
            || self.updated_after.is_some() || self.updated_before.is_some()
            || self.closed_after.is_some() || self.closed_before.is_some()
    }

    /// Reset every filter to its default.
    pub fn clear(&mut self)
        ensures
            final(self).is_default(),
    {
        *self = Filters::new_default();
    }
}

impl Default for Filters {
    fn default() -> (r: Filters)
        ensures
            r.is_default(),
    {
        Filters::new_default()
    }
}

/// Each date bound of the filter editor reads its own timestamp: an issue
/// that `matches` lies on the right side of every bound that is set, the
/// created bounds judged by when it was created, the updated bounds by when
/// it was last updated, the closed bounds by when it was closed (an issue
/// never closed fails a closed bound).
pub proof fn law_date_bounds_read_their_own_timestamps(f: Filters, issue: Issue, state: StateFilter)
    requires
        f.spec_matches(&issue, state),
    ensures
        state == StateFilter::Open ==> issue.state == IssueState::Open,
        state == StateFilter::Closed ==> issue.state == IssueState::Closed,
        f.author@.len() > 0 ==> eq_ic(issue.author@, f.author@),
        f.assignee@.len() > 0 ==> exists|k: int|
            0 <= k < issue.assignees@.len() && eq_ic(#[trigger] issue.assignees@[k]@, f.assignee@),
        f.created_after matches Some(b) ==> day_of(issue.created_at as int) >= b,
        f.created_before matches Some(b) ==> day_of(issue.created_at as int) <= b,
        f.updated_after matches Some(b) ==> day_of(issue.updated_at as int) >= b,
        f.updated_before matches Some(b) ==> day_of(issue.updated_at as int) <= b,
        f.closed_after matches Some(b) ==> (issue.closed_at matches Some(t) && day_of(t as int) >= b),
        f.closed_before matches Some(b) ==> (issue.closed_at matches Some(t) && day_of(t as int) <= b),
{
}

/// With nothing set but an updated-after bound, an issue is shown exactly
/// when it was updated on or after that day, whenever it was created or
/// closed.
pub proof fn law_updated_after_alone_decides(f: Filters, issue: Issue, b: i32)
    requires
        f.text@.len() == 0,
        f.assignee@.len() == 0,
        f.author@.len() == 0,
        f.priority@.len() == 0,
        f.status@.len() == 0,
        f.created_after is None,
        f.created_before is None,
        f.updated_after == Some(b),
        f.updated_before is None,
        f.closed_after is None,
        f.closed_before is None,
    ensures
        f.spec_matches(&issue, StateFilter::All) == (day_of(issue.updated_at as int) >= b),
        forall|created: i64, closed: Option<i64>|
            #[trigger] f.spec_matches(&Issue { created_at: created, closed_at: closed, ..issue }, StateFilter::All)
                == (day_of(issue.updated_at as int) >= b),
{
}

/// Without created bounds, when an issue was created never changes whether
/// it matches.
pub proof fn law_creation_time_only_meets_created_bounds(f: Filters, issue: Issue, state: StateFilter, created: i64)
    requires
        f.created_after is None,
        f.created_before is None,
    ensures
        f.spec_matches(&Issue { created_at: created, ..issue }, state) == f.spec_matches(&issue, state),
{
    let other = Issue { created_at: created, ..issue };
    assert(text_hit(lowercase(f.text@), &other) == text_hit(lowercase(f.text@), &issue));
}

} // verus!
