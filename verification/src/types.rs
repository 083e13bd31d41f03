//! The issue-tracker data the state machine works over: issues grouped by
//! repo, their labels and comments, and the new-issue form's option lists.
//!
//! Timestamps are seconds since the Unix epoch (UTC); calendar dates are
//! day numbers counted from 0001-01-01 (day 1), the proleptic Gregorian
//! count a `chrono::NaiveDate` reports.
use vstd::prelude::*;

use crate::text::{
    chars_of, decimal, eq_ic, eq_ignore_ascii_case, owned, string_of_range, string_push, string_push_str,
    u64_to_string,
};

verus! {

broadcast use vstd::string::group_string_axioms;

#[derive(Debug, Clone, Copy, PartialEq, Eq, Structural)]
pub enum IssueState {
    Open,
    Closed,
}

impl IssueState {
    /// Display word: `open` or `closed`.
    pub open spec fn spec_word(self) -> Seq<char> {
        match self {
            IssueState::Open => seq!['o', 'p', 'e', 'n'],
            IssueState::Closed => seq!['c', 'l', 'o', 's', 'e', 'd'],
        }
    }

    pub fn word(self) -> (r: &'static str)
        ensures
            r@ == self.spec_word(),
    {
        match self {
            IssueState::Open => {
                let r = "open";
                proof {
                    reveal_strlit("open");
                }
                assert(r@ =~= self.spec_word());
                r
            },
            IssueState::Closed => {
                let r = "closed";
                proof {
                    reveal_strlit("closed");
                }
                assert(r@ =~= self.spec_word());
                r
            },
        }
    }
}

#[derive(Debug, Clone, PartialEq, Eq)]
pub struct Label {
    pub name: String,
    pub color: String,
}

#[derive(Debug, Clone, PartialEq, Eq)]
pub struct Issue {
    pub id: String,
    pub number: u64,
    pub title: String,
    pub body: String,
    pub state: IssueState,
    pub url: String,
    pub author: String,
    pub assignees: Vec<String>,
    pub labels: Vec<Label>,
    pub comment_count: u64,
    /// Seconds since the Unix epoch.
    pub created_at: i64,
    pub updated_at: i64,
    pub closed_at: Option<i64>,
}

#[derive(Debug, Clone, PartialEq, Eq)]
pub struct RepoIssues {
    pub repo: String,
    pub repo_url: String,
    pub issues: Vec<Issue>,
}

#[derive(Debug, Clone, PartialEq, Eq)]
pub struct RepoLabel {
    pub id: String,
    pub name: String,
}

#[derive(Debug, Clone, PartialEq, Eq)]
pub struct IdName {
    pub id: String,
    pub name: String,
}

#[derive(Debug, Clone, PartialEq, Eq)]
pub struct FormOptions {
    pub repo_id: String,
    pub users: Vec<IdName>,
    pub labels: Vec<IdName>,
    pub issue_types: Vec<IdName>,
    pub projects: Vec<IdName>,
    pub milestones: Vec<IdName>,
}

#[derive(Debug, Clone, PartialEq, Eq)]
pub struct NewIssueParams {
    pub repo_id: String,
    pub title: String,
    pub body: String,
    pub assignee_ids: Vec<String>,
    pub label_ids: Vec<String>,
    pub milestone_id: Option<String>,
    pub issue_type_id: Option<String>,
    pub project_id: Option<String>,
}

#[derive(Debug, Clone, PartialEq, Eq)]
pub struct Comment {
    pub id: String,
    pub author: String,
    /// Seconds since the Unix epoch.
    pub created_at: i64,
    pub body: String,
}

impl Comment {
    /// A field-for-field copy.
    pub fn duplicate(&self) -> (r: Comment)
        ensures
            r == *self,
    {
        Comment {
            id: self.id.clone(),
            author: self.author.clone(),
            created_at: self.created_at,
            body: self.body.clone(),
        }
    }
}

/// A pull request named by owner, repo and number.
#[derive(Debug, Clone, PartialEq, Eq)]
pub struct PrRef {
    pub owner: String,
    pub repo: String,
    pub number: u64,
}

impl PrRef {
    pub open spec fn spec_label(&self) -> Seq<char> {
        self.owner@ + seq!['/'] + self.repo@ + seq!['#'] + decimal(self.number as nat)
    }

    /// `owner/repo#number`, the picker's text for a link.
    pub fn label(&self) -> (r: String)
        ensures
            r@ == self.spec_label(),
    {
        let mut s = owned(self.owner.as_str());
        string_push(&mut s, '/');
        string_push_str(&mut s, self.repo.as_str());
        string_push(&mut s, '#');
        let n = u64_to_string(self.number);
        string_push_str(&mut s, n.as_str());
        s
    }

    /// Field-wise equality.
    pub open spec fn same(&self, other: &PrRef) -> bool {
        self.owner@ == other.owner@ && self.repo@ == other.repo@ && self.number == other.number
    }

    pub fn equals(&self, other: &PrRef) -> (r: bool)
        ensures
            r == self.same(other),
    {
        self.owner == other.owner && self.repo == other.repo && self.number == other.number
    }

    pub fn duplicate(&self) -> (r: PrRef)
        ensures
            r == *self,
            r.same(self),
    {
        PrRef { owner: self.owner.clone(), repo: self.repo.clone(), number: self.number }
    }
}

/// A fetched pull-request summary, as far as the popup state needs it.
#[derive(Debug, Clone, PartialEq, Eq)]
pub struct PrSummary {
    pub pr: PrRef,
    pub title: String,
    pub body: String,
}

/// API rate-limit state last reported by the backend.
#[derive(Debug, Clone, Copy)]
pub struct RateLimitData {
    pub limit: u64,
    pub remaining: u64,
    pub reset_at: i64,
}

// ---------------------------------------------------------------------------
// The `priority:<value>` label convention.
// ---------------------------------------------------------------------------

pub open spec fn priority_prefix() -> Seq<char> {
    seq!['p', 'r', 'i', 'o', 'r', 'i', 't', 'y', ':']
}

/// Whether `name` starts with `priority:`, ignoring ASCII case.
pub open spec fn is_priority_name(name: Seq<char>) -> bool {
    name.len() >= 9 && eq_ic(name.subrange(0, 9), priority_prefix())
}

/// The value of a `priority:<value>` label (the text after the colon).
pub open spec fn priority_value(name: Seq<char>) -> Option<Seq<char>> {
    if is_priority_name(name) {
        Some(name.subrange(9, name.len() as int))
    } else {
        None
    }
}

/// The rank of a known priority value, low (1) to urgent (4), ignoring
/// ASCII case; `None` for anything else.
pub open spec fn priority_value_rank(v: Seq<char>) -> Option<u8> {
    if eq_ic(v, seq!['l', 'o', 'w']) {
        Some(1)
    } else if eq_ic(v, seq!['m', 'e', 'd', 'i', 'u', 'm']) {
        Some(2)
    } else if eq_ic(v, seq!['h', 'i', 'g', 'h']) {
        Some(3)
    } else if eq_ic(v, seq!['u', 'r', 'g', 'e', 'n', 't']) {
        Some(4)
    } else {
        None
    }
}

/// The rank a label name carries under the convention, if any.
pub open spec fn label_rank(name: Seq<char>) -> Option<u8> {
    match priority_value(name) {
        Some(v) => priority_value_rank(v),
        None => None,
    }
}

pub fn is_priority_label(name: &str) -> (r: bool)
    ensures
        r == is_priority_name(name@),
{
    let v = chars_of(name);
    if v.len() < 9 {
        return false;
    }
    let p = "priority:";
    proof {
        reveal_strlit("priority:");
    }
    let pv = string_of_range(&v, 0, 9);
    assert(p@ =~= priority_prefix());
    eq_ignore_ascii_case(pv.as_str(), p)
}

/// The value of a `priority:<value>` label, or `None`.
pub fn priority_value_of(name: &str) -> (r: Option<String>)
    ensures
        r matches Some(s) ==> priority_value(name@) == Some(s@),
        r is None ==> priority_value(name@) is None,
{
    if is_priority_label(name) {
        let v = chars_of(name);
        Some(string_of_range(&v, 9, v.len()))
    } else {
        None
    }
}

pub fn priority_value_rank_of(v: &str) -> (r: Option<u8>)
    ensures
        r == priority_value_rank(v@),
{
    proof {
        reveal_strlit("low");
        reveal_strlit("medium");
        reveal_strlit("high");
        reveal_strlit("urgent");
    }
    let low = "low";
    assert(low@ =~= seq!['l', 'o', 'w']);
    let medium = "medium";
    assert(medium@ =~= seq!['m', 'e', 'd', 'i', 'u', 'm']);
    let high = "high";
    assert(high@ =~= seq!['h', 'i', 'g', 'h']);
    let urgent = "urgent";
    assert(urgent@ =~= seq!['u', 'r', 'g', 'e', 'n', 't']);
    if eq_ignore_ascii_case(v, low) {
        Some(1)
    } else if eq_ignore_ascii_case(v, medium) {
        Some(2)
    } else if eq_ignore_ascii_case(v, high) {
        Some(3)
    } else if eq_ignore_ascii_case(v, urgent) {
        Some(4)
    } else {
        None
    }
}

pub fn label_rank_of(name: &str) -> (r: Option<u8>)
    ensures
        r == label_rank(name@),
{
    match priority_value_of(name) {
        Some(v) => priority_value_rank_of(v.as_str()),
        None => None,
    }
}

/// The rank of the first label carrying a known priority, 0 when none does.
pub open spec fn labels_rank(labels: Seq<Label>) -> u8
    decreases labels.len(),
{
    if labels.len() == 0 {
        0
    } else {
        match label_rank(labels[0].name@) {
            Some(r) => r,
            None => labels_rank(labels.drop_first()),
        }
    }
}

/// The first label named `priority:<value>`.
pub open spec fn first_priority_label(labels: Seq<Label>) -> Option<Label>
    decreases labels.len(),
{
    if labels.len() == 0 {
        None
    } else if is_priority_name(labels[0].name@) {
        Some(labels[0])
    } else {
        first_priority_label(labels.drop_first())
    }
}

impl Issue {
    /// The issue's `priority:<value>` label, the first when there are several.
    pub fn priority_label(&self) -> (r: Option<&Label>)
        ensures
            match r {
                Some(l) => first_priority_label(self.labels@) == Some(*l),
                None => first_priority_label(self.labels@).is_none(),
            },
    {
        let mut i: usize = 0;
        assert(self.labels@.skip(0) =~= self.labels@);
        while i < self.labels.len()
            invariant
                i <= self.labels.len(),
                first_priority_label(self.labels@) == first_priority_label(self.labels@.skip(i as int)),
            decreases self.labels.len() - i,
        {
            let ghost rest = self.labels@.skip(i as int);
            assert(rest[0] == self.labels@[i as int]);
            assert(rest.drop_first() =~= self.labels@.skip(i + 1));
            if is_priority_label(self.labels[i].name.as_str()) {
                return Some(&self.labels[i]);
            }
            i += 1;
        }
        None
    }

    pub open spec fn spec_priority_rank(&self) -> u8 {
        labels_rank(self.labels@)
    }

    /// The issue's priority rank: 0 (none or unknown) up to 4 (urgent).
    pub fn priority_rank(&self) -> (r: u8)
        ensures
            r == self.spec_priority_rank(),
    {
        let mut i: usize = 0;
        assert(self.labels@.skip(0) =~= self.labels@);
        while i < self.labels.len()
            invariant
                i <= self.labels.len(),
                labels_rank(self.labels@) == labels_rank(self.labels@.skip(i as int)),
            decreases self.labels.len() - i,
        {
            let ghost rest = self.labels@.skip(i as int);
            assert(rest[0] == self.labels@[i as int]);
            assert(rest.drop_first() =~= self.labels@.skip(i + 1));
            if let Some(r) = label_rank_of(self.labels[i].name.as_str()) {
                return r;
            }
            i += 1;
        }
        0
    }
}

} // verus!
