//! Stable sorting of issues by the list's sort key, and ordering of the
//! option lists the pickers show.
use vstd::prelude::*;

use crate::order::{int_order, lemma_lex_antisym, lemma_lex_trans, lex_order, lex_order_str};
use crate::text::{join, join_strings};
use crate::types::{Issue, IssueState, priority_value, priority_value_rank, label_rank};

verus! {

#[derive(Debug, Clone, Copy, PartialEq, Eq, Structural)]
pub enum SortKey {
    Updated,
    Created,
    Closed,
    State,
    Assignee,
    Author,
    Priority,
}

impl SortKey {
    pub open spec fn spec_next(self) -> SortKey {
        match self {
            SortKey::Updated => SortKey::Created,
            SortKey::Created => SortKey::Closed,
            SortKey::Closed => SortKey::State,
            SortKey::State => SortKey::Assignee,
            SortKey::Assignee => SortKey::Author,
            SortKey::Author => SortKey::Priority,
            SortKey::Priority => SortKey::Updated,
        }
    }

    /// The next key in the `s` cycle.
    pub fn next(self) -> (r: SortKey)
        ensures
            r == self.spec_next(),
    {
        match self {
            SortKey::Updated => SortKey::Created,
            SortKey::Created => SortKey::Closed,
            SortKey::Closed => SortKey::State,
            SortKey::State => SortKey::Assignee,
            SortKey::Assignee => SortKey::Author,
            SortKey::Author => SortKey::Priority,
            SortKey::Priority => SortKey::Updated,
        }
    }

    pub open spec fn spec_label(self) -> Seq<char> {
        match self {
            SortKey::Updated => seq!['u', 'p', 'd', 'a', 't', 'e', 'd'],
            SortKey::Created => seq!['c', 'r', 'e', 'a', 't', 'e', 'd'],
            SortKey::Closed => seq!['c', 'l', 'o', 's', 'e', 'd'],
            SortKey::State => seq!['s', 't', 'a', 't', 'e'],
            SortKey::Assignee => seq!['a', 's', 's', 'i', 'g', 'n', 'e', 'e'],
            SortKey::Author => seq!['a', 'u', 't', 'h', 'o', 'r'],
            SortKey::Priority => seq!['p', 'r', 'i', 'o', 'r', 'i', 't', 'y'],
        }
    }

    /// The key's name in the list title.
    pub fn label(self) -> (r: &'static str)
        ensures
            r@ == self.spec_label(),
    {
        proof {
            reveal_strlit("updated");
            reveal_strlit("created");
            reveal_strlit("closed");
            reveal_strlit("state");
            reveal_strlit("assignee");
            reveal_strlit("author");
            reveal_strlit("priority");
        }
        let r = match self {
            SortKey::Updated => "updated",
            SortKey::Created => "created",
            SortKey::Closed => "closed",
            SortKey::State => "state",
            SortKey::Assignee => "assignee",
            SortKey::Author => "author",
            SortKey::Priority => "priority",
        };
        assert(r@ =~= self.spec_label());
        r
    }
}

/// Absent sorts before present; two present values by number.
pub open spec fn opt_order(a: Option<i64>, b: Option<i64>) -> int {
    match (a, b) {
        (None, None) => 0,
        (None, Some(_)) => -1,
        (Some(_), None) => 1,
        (Some(x), Some(y)) => int_order(x as int, y as int),
    }
}

pub open spec fn assignee_text(i: &Issue) -> Seq<char> {
    join(i.assignees@.map_values(|x: String| x@), seq![','])
}

/// Ascending comparison of two issues on one key.
pub open spec fn key_order(a: &Issue, b: &Issue, key: SortKey) -> int {
    match key {
        SortKey::Updated => int_order(a.updated_at as int, b.updated_at as int),
        SortKey::Created => int_order(a.created_at as int, b.created_at as int),
        SortKey::Closed => opt_order(a.closed_at, b.closed_at),
        SortKey::State => lex_order(a.state.spec_word(), b.state.spec_word()),
        SortKey::Assignee => lex_order(assignee_text(a), assignee_text(b)),
        SortKey::Author => lex_order(a.author@, b.author@),
        SortKey::Priority => int_order(a.spec_priority_rank() as int, b.spec_priority_rank() as int),
    }
}

/// The list order: the key ascending or descending; priority ties fall back
/// to most recently updated first, in both directions.
pub open spec fn issue_order(a: &Issue, b: &Issue, key: SortKey, desc: bool) -> int {
    let o = if desc {
        -key_order(a, b, key)
    } else {
        key_order(a, b, key)
    };
    if o == 0 && key == SortKey::Priority {
        int_order(b.updated_at as int, a.updated_at as int)
    } else {
        o
    }
}

pub proof fn lemma_key_order(a: &Issue, b: &Issue, c: &Issue, key: SortKey)
    ensures
        key_order(a, b, key) == -key_order(b, a, key),
        -1 <= key_order(a, b, key) <= 1,
        key_order(a, b, key) <= 0 && key_order(b, c, key) <= 0 ==> key_order(a, c, key) <= 0,
{
    match key {
        SortKey::State => {
            lemma_lex_antisym(a.state.spec_word(), b.state.spec_word());
            if key_order(a, b, key) <= 0 && key_order(b, c, key) <= 0 {
                lemma_lex_trans(a.state.spec_word(), b.state.spec_word(), c.state.spec_word());
            }
        },
        SortKey::Assignee => {
            lemma_lex_antisym(assignee_text(a), assignee_text(b));
            if key_order(a, b, key) <= 0 && key_order(b, c, key) <= 0 {
                lemma_lex_trans(assignee_text(a), assignee_text(b), assignee_text(c));
            }
        },
        SortKey::Author => {
            lemma_lex_antisym(a.author@, b.author@);
            if key_order(a, b, key) <= 0 && key_order(b, c, key) <= 0 {
                lemma_lex_trans(a.author@, b.author@, c.author@);
            }
        },
        _ => {},
    }
}

pub proof fn lemma_issue_order(a: &Issue, b: &Issue, c: &Issue, key: SortKey, desc: bool)
    ensures
        issue_order(a, b, key, desc) == -issue_order(b, a, key, desc),
        issue_order(a, b, key, desc) <= 0 && issue_order(b, c, key, desc) <= 0 ==> issue_order(
            a,
            c,
            key,
            desc,
        ) <= 0,
{
    lemma_key_order(a, b, c, key);
    lemma_key_order(b, c, a, key);
    lemma_key_order(c, a, b, key);
    lemma_key_order(a, c, b, key);
    lemma_key_order(b, a, c, key);
    lemma_key_order(c, b, a, key);
}

pub open spec fn sorted_by(s: Seq<Issue>, key: SortKey, desc: bool) -> bool {
    forall|i: int, j: int| 0 <= i < j < s.len() ==> issue_order(&s[i], &s[j], key, desc) <= 0
}

/// `p` maps each position of `out` to a distinct position of `inp` holding
/// the same issue, `out` is in list order, and equal issues keep their
/// relative order from `inp`.
pub open spec fn stable_perm(
    out: Seq<Issue>,
    inp: Seq<Issue>,
    p: Seq<int>,
    key: SortKey,
    desc: bool,
) -> bool {
    &&& p.len() == inp.len()
    &&& out.len() == inp.len()
    &&& forall|i: int| 0 <= i < p.len() ==> 0 <= #[trigger] p[i] < inp.len()
    &&& forall|i: int, j: int| 0 <= i < j < p.len() ==> p[i] != p[j]
    &&& forall|i: int| 0 <= i < out.len() ==> #[trigger] out[i] == inp[p[i]]
    &&& sorted_by(out, key, desc)
    &&& forall|i: int, j: int|
        0 <= i < j < out.len() && issue_order(&out[i], &out[j], key, desc) == 0 ==> p[i] < p[j]
}

/// `out` is `inp` stably sorted into list order.
pub open spec fn is_stable_sort(out: Seq<Issue>, inp: Seq<Issue>, key: SortKey, desc: bool) -> bool {
    exists|p: Seq<int>| stable_perm(out, inp, p, key, desc)
}

fn state_word_order(a: IssueState, b: IssueState) -> (r: i8)
    ensures
        r as int == lex_order(a.spec_word(), b.spec_word()),
{
    lex_order_str(a.word(), b.word())
}

fn int_compare(a: i64, b: i64) -> (r: i8)
    ensures
        r as int == int_order(a as int, b as int),
{
    if a < b {
        -1
    } else if a > b {
        1
    } else {
        0
    }
}

fn key_compare(a: &Issue, b: &Issue, key: SortKey) -> (r: i8)
    ensures
        r as int == key_order(a, b, key),
{
    match key {
        SortKey::Updated => int_compare(a.updated_at, b.updated_at),
        SortKey::Created => int_compare(a.created_at, b.created_at),
        SortKey::Closed => match (a.closed_at, b.closed_at) {
            (None, None) => 0,
            (None, Some(_)) => -1,
            (Some(_), None) => 1,
            (Some(x), Some(y)) => int_compare(x, y),
        },
        SortKey::State => state_word_order(a.state, b.state),
        SortKey::Assignee => {
            let x = join_strings(a.assignees.as_slice(), ",");
            let y = join_strings(b.assignees.as_slice(), ",");
            proof {
                reveal_strlit(",");
            }
            assert(","@ =~= seq![',']);
            lex_order_str(x.as_str(), y.as_str())
        },
        SortKey::Author => lex_order_str(a.author.as_str(), b.author.as_str()),
        SortKey::Priority => int_compare(a.priority_rank() as i64, b.priority_rank() as i64),
    }
}

/// `issue_order` computed.
pub fn issue_compare(a: &Issue, b: &Issue, key: SortKey, desc: bool) -> (r: i8)
    ensures
        r as int == issue_order(a, b, key, desc),
{
    proof {
        lemma_key_order(a, b, a, key);
    }
    let k = key_compare(a, b, key);
    let o: i8 = if desc {
        -k
    } else {
        k
    };
    if o == 0 && key == SortKey::Priority {
        int_compare(b.updated_at, a.updated_at)
    } else {
        o
    }
}

/// Sort `issues` into list order. Stable: issues the key cannot tell apart
/// keep the order they arrived in.
pub fn sort_issues(issues: &mut Vec<Issue>, key: SortKey, descending: bool)
    ensures
        is_stable_sort(final(issues)@, old(issues)@, key, descending),
{
    let mut inp: Vec<Issue> = Vec::new();
    std::mem::swap(issues, &mut inp);
    let ghost orig = inp@;
    let n = inp.len();
    assert(orig.len() == n);
    let mut out: Vec<Issue> = Vec::new();
    let ghost mut p: Seq<int> = Seq::empty();
    let mut k: usize = 0;
    assert(orig.take(0) =~= Seq::<Issue>::empty());
    assert(orig.skip(0) =~= orig);
    while inp.len() > 0
        invariant
            k <= orig.len(),
            inp.len() == orig.len() - k,
            orig.len() == n,
            inp@ == orig.skip(k as int),
            stable_perm(out@, orig.take(k as int), p, key, descending),
        decreases inp.len(),
    {
        let x = inp.remove(0);
        assert(x == orig[k as int]);
        let mut j: usize = 0;
        while j < out.len() && issue_compare(&out[j], &x, key, descending) <= 0
            invariant
                j <= out.len(),
                forall|i: int| 0 <= i < j ==> issue_order(&out@[i], &x, key, descending) <= 0,
            decreases out.len() - j,
        {
            j += 1;
        }
        assert(j < out.len() ==> issue_order(&out@[j as int], &x, key, descending) > 0);
        let ghost old_out = out@;
        let ghost old_p = p;
        let ghost prev = orig.take(k as int);
        out.insert(j, x);
        proof {
            p = old_p.insert(j as int, k as int);
            let ghost cur = orig.take(k + 1);
            assert(cur =~= prev.push(x));
            // Every later element sorts strictly after `x`.
            if j < old_out.len() {
                lemma_issue_order(&old_out[j as int], &x, &x, key, descending);
                assert forall|m: int| j <= m < old_out.len() implies issue_order(
                    &x,
                    &old_out[m],
                    key,
                    descending,
                ) < 0 by {
                    if m > j {
                        assert(issue_order(&old_out[j as int], &old_out[m], key, descending) <= 0);
                    }
                    lemma_issue_order(&old_out[j as int], &old_out[m], &x, key, descending);
                    lemma_issue_order(&x, &old_out[m], &x, key, descending);
                }
            }
            assert forall|i: int| 0 <= i < p.len() implies 0 <= #[trigger] p[i] < cur.len() by {}
            assert forall|i: int, jj: int| 0 <= i < jj < p.len() implies p[i] != p[jj] by {
                if i < j && jj > j {
                    assert(p[i] == old_p[i] && p[jj] == old_p[jj - 1]);
                } else if i < j && jj < j {
                } else if i > j && jj > j {
                    assert(p[i] == old_p[i - 1] && p[jj] == old_p[jj - 1]);
                }
            }
            assert forall|i: int| 0 <= i < out@.len() implies #[trigger] out@[i] == cur[p[i]] by {
                if i < j {
                    assert(out@[i] == old_out[i]);
                } else if i > j {
                    assert(out@[i] == old_out[i - 1]);
                }
            }
            assert forall|i: int, jj: int| 0 <= i < jj < out@.len() implies issue_order(
                &out@[i],
                &out@[jj],
                key,
                descending,
            ) <= 0 by {
                if i < j && jj == j {
                } else if i == j && jj > j {
                    assert(out@[jj] == old_out[jj - 1]);
                } else if i < j && jj > j {
                    assert(out@[i] == old_out[i] && out@[jj] == old_out[jj - 1]);
                } else if i < j && jj < j {
                    assert(out@[i] == old_out[i] && out@[jj] == old_out[jj]);
                } else {
                    assert(out@[i] == old_out[i - 1] && out@[jj] == old_out[jj - 1]);
                }
            }
            assert forall|i: int, jj: int|
                0 <= i < jj < out@.len() && issue_order(&out@[i], &out@[jj], key, descending)
                    == 0 implies p[i] < p[jj] by {
                if i < j && jj == j {
                    assert(p[i] == old_p[i]);
                } else if i == j && jj > j {
                    assert(out@[jj] == old_out[jj - 1]);
                } else if i < j && jj > j {
                    assert(out@[i] == old_out[i] && out@[jj] == old_out[jj - 1]);
                    assert(p[i] == old_p[i] && p[jj] == old_p[jj - 1]);
                } else if i < j && jj < j {
                    assert(out@[i] == old_out[i] && out@[jj] == old_out[jj]);
                    assert(p[i] == old_p[i] && p[jj] == old_p[jj]);
                } else {
                    assert(out@[i] == old_out[i - 1] && out@[jj] == old_out[jj - 1]);
                    assert(p[i] == old_p[i - 1] && p[jj] == old_p[jj - 1]);
                }
            }
            assert(stable_perm(out@, cur, p, key, descending));
            assert(inp@ =~= orig.skip(k + 1));
        }
        k += 1;
    }
    assert(orig.take(k as int) =~= orig);
    *issues = out;
}

/// Sorting by closing time puts issues in the order they were closed:
/// ascending, an issue still open (no closing time) comes before any
/// closed one and closed issues go by their closing timestamps; descending
/// reverses that. Nothing else about the issues (when they were updated or
/// created) decides between two of them.
pub proof fn law_closed_sort_follows_closing_time(out: Seq<Issue>, inp: Seq<Issue>, desc: bool)
    requires
        is_stable_sort(out, inp, SortKey::Closed, desc),
    ensures
        forall|i: int, j: int|
            #![trigger out[i], out[j]]
            0 <= i < j < out.len() ==> {
                let (x, y) = if desc {
                    (out[j].closed_at, out[i].closed_at)
                } else {
                    (out[i].closed_at, out[j].closed_at)
                };
                match (x, y) {
                    (Some(_), None) => false,
                    (Some(p), Some(q)) => p <= q,
                    _ => true,
                }
            },
        out.len() == inp.len(),
{
    let p = choose|p: Seq<int>| stable_perm(out, inp, p, SortKey::Closed, desc);
    assert forall|i: int, j: int| #![trigger out[i], out[j]] 0 <= i < j < out.len() implies {
        let (x, y) = if desc {
            (out[j].closed_at, out[i].closed_at)
        } else {
            (out[i].closed_at, out[j].closed_at)
        };
        match (x, y) {
            (Some(_), None) => false,
            (Some(p), Some(q)) => p <= q,
            _ => true,
        }
    } by {
        assert(issue_order(&out[i], &out[j], SortKey::Closed, desc) <= 0);
    }
}

/// Sorting by creation or update time orders by that timestamp alone:
/// ascending, earlier first; descending, later first.
pub proof fn law_time_sort_follows_its_timestamp(out: Seq<Issue>, inp: Seq<Issue>, key: SortKey, desc: bool)
    requires
        key == SortKey::Created || key == SortKey::Updated,
        is_stable_sort(out, inp, key, desc),
    ensures
        forall|i: int, j: int|
            #![trigger out[i], out[j]]
            0 <= i < j < out.len() ==> {
                let (x, y) = if key == SortKey::Created {
                    (out[i].created_at, out[j].created_at)
                } else {
                    (out[i].updated_at, out[j].updated_at)
                };
                if desc {
                    x >= y
                } else {
                    x <= y
                }
            },
{
    let p = choose|p: Seq<int>| stable_perm(out, inp, p, key, desc);
    assert forall|i: int, j: int| #![trigger out[i], out[j]] 0 <= i < j < out.len() implies {
        let (x, y) = if key == SortKey::Created {
            (out[i].created_at, out[j].created_at)
        } else {
            (out[i].updated_at, out[j].updated_at)
        };
        if desc {
            x >= y
        } else {
            x <= y
        }
    } by {
        assert(issue_order(&out[i], &out[j], key, desc) <= 0);
    }
}

} // verus!

verus! {

/// How an option list is ordered before its names are compared.
#[derive(Debug, Clone, Copy, PartialEq, Eq, Structural)]
pub enum RankBy {
    /// Alphabetical only.
    Plain,
    /// `priority:*` label names: low → urgent, unknown values last.
    LabelName,
    /// Bare priority values: low → urgent, unknown values last.
    Value,
}

/// Unknown priority values rank after the four known ones.
pub open spec fn name_rank(s: Seq<char>, by: RankBy) -> int {
    match by {
        RankBy::Plain => 0,
        RankBy::LabelName => match label_rank(s) {
            Some(r) => r as int,
            None => 5,
        },
        RankBy::Value => match priority_value_rank(s) {
            Some(r) => r as int,
            None => 5,
        },
    }
}

/// Rank first, then alphabetical.
pub open spec fn name_order(a: Seq<char>, b: Seq<char>, by: RankBy) -> int {
    if name_rank(a, by) != name_rank(b, by) {
        int_order(name_rank(a, by), name_rank(b, by))
    } else {
        lex_order(a, b)
    }
}

pub proof fn lemma_name_order(a: Seq<char>, b: Seq<char>, c: Seq<char>, by: RankBy)
    ensures
        name_order(a, b, by) == -name_order(b, a, by),
        name_order(a, b, by) == 0 <==> a == b,
        name_order(a, b, by) <= 0 && name_order(b, c, by) <= 0 ==> name_order(a, c, by) <= 0,
{
    lemma_lex_antisym(a, b);
    lemma_lex_antisym(b, c);
    lemma_lex_antisym(a, c);
    if name_order(a, b, by) <= 0 && name_order(b, c, by) <= 0 {
        if name_rank(a, by) == name_rank(b, by) && name_rank(b, by) == name_rank(c, by) {
            lemma_lex_trans(a, b, c);
        }
    }
}

pub open spec fn views(v: Seq<String>) -> Seq<Seq<char>> {
    crate::text::str_views(v)
}

pub open spec fn names_sorted(s: Seq<Seq<char>>, by: RankBy) -> bool {
    forall|i: int, j: int| 0 <= i < j < s.len() ==> name_order(s[i], s[j], by) <= 0
}

/// `out` is a rearrangement of `inp` (through the distinct positions `p`).
pub open spec fn perm_of(out: Seq<Seq<char>>, inp: Seq<Seq<char>>, p: Seq<int>) -> bool {
    &&& p.len() == inp.len()
    &&& out.len() == inp.len()
    &&& forall|i: int| 0 <= i < p.len() ==> 0 <= #[trigger] p[i] < inp.len()
    &&& forall|i: int, j: int| 0 <= i < j < p.len() ==> p[i] != p[j]
    &&& forall|i: int| 0 <= i < out.len() ==> #[trigger] out[i] == inp[p[i]]
}

/// `out` holds exactly `inp`'s names, in `by` order.
pub open spec fn is_name_sort(out: Seq<Seq<char>>, inp: Seq<Seq<char>>, by: RankBy) -> bool {
    names_sorted(out, by) && exists|p: Seq<int>| perm_of(out, inp, p)
}

fn name_rank_exec(s: &str, by: RankBy) -> (r: u8)
    ensures
        r as int == name_rank(s@, by),
{
    match by {
        RankBy::Plain => 0,
        RankBy::LabelName => match crate::types::label_rank_of(s) {
            Some(r) => r,
            None => 5,
        },
        RankBy::Value => match crate::types::priority_value_rank_of(s) {
            Some(r) => r,
            None => 5,
        },
    }
}

/// `name_order` computed.
pub fn name_compare(a: &str, b: &str, by: RankBy) -> (r: i8)
    ensures
        r as int == name_order(a@, b@, by),
{
    let ra = name_rank_exec(a, by);
    let rb = name_rank_exec(b, by);
    if ra < rb {
        -1
    } else if ra > rb {
        1
    } else {
        lex_order_str(a, b)
    }
}

/// Sort names into `by` order.
pub fn sort_names(v: Vec<String>, by: RankBy) -> (r: Vec<String>)
    ensures
        is_name_sort(views(r@), views(v@), by),
{
    let mut inp = v;
    let ghost orig = views(inp@);
    let n = inp.len();
    let mut out: Vec<String> = Vec::new();
    let ghost mut p: Seq<int> = Seq::empty();
    let mut k: usize = 0;
    assert(orig.take(0) =~= Seq::<Seq<char>>::empty());
    assert(views(inp@) =~= orig.skip(0));
    assert(views(out@) =~= Seq::<Seq<char>>::empty());
    while inp.len() > 0
        invariant
            k <= n,
            orig.len() == n,
            inp.len() == n - k,
            views(inp@) == orig.skip(k as int),
            names_sorted(views(out@), by),
            perm_of(views(out@), orig.take(k as int), p),
        decreases inp.len(),
    {
        let ghost before = inp@;
        let x = inp.remove(0);
        assert(x@ == orig[k as int]) by {
            assert(views(before)[0] == before[0]@);
        }
        let mut j: usize = 0;
        while j < out.len() && name_compare(out[j].as_str(), x.as_str(), by) <= 0
            invariant
                j <= out.len(),
                forall|i: int| 0 <= i < j ==> name_order(out@[i]@, x@, by) <= 0,
            decreases out.len() - j,
        {
            j += 1;
        }
        assert(j < out.len() ==> name_order(out@[j as int]@, x@, by) > 0);
        let ghost old_out = views(out@);
        let ghost old_p = p;
        let ghost prev = orig.take(k as int);
        out.insert(j, x);
        proof {
            p = old_p.insert(j as int, k as int);
            let cur = orig.take(k + 1);
            let o = views(out@);
            assert(cur =~= prev.push(x@));
            assert(o =~= old_out.insert(j as int, x@));
            if j < old_out.len() {
                assert(old_out[j as int] == out@[j as int + 1]@);
                lemma_name_order(old_out[j as int], x@, x@, by);
                assert forall|m: int| j <= m < old_out.len() implies name_order(
                    x@,
                    old_out[m],
                    by,
                ) < 0 by {
                    if m > j {
                        assert(name_order(old_out[j as int], old_out[m], by) <= 0);
                    }
                    lemma_name_order(old_out[j as int], old_out[m], x@, by);
                    lemma_name_order(x@, old_out[m], x@, by);
                }
            }
            assert forall|i: int| 0 <= i < j implies name_order(#[trigger] old_out[i], x@, by)
                <= 0 by {
                assert(old_out[i] == out@[i]@);
            }
            assert forall|i: int, jj: int| 0 <= i < jj < p.len() implies p[i] != p[jj] by {
                if i < j && jj > j {
                    assert(p[i] == old_p[i] && p[jj] == old_p[jj - 1]);
                } else if i > j && jj > j {
                    assert(p[i] == old_p[i - 1] && p[jj] == old_p[jj - 1]);
                }
            }
            assert forall|i: int| 0 <= i < o.len() implies #[trigger] o[i] == cur[p[i]] by {
                if i < j {
                    assert(o[i] == old_out[i]);
                } else if i > j {
                    assert(o[i] == old_out[i - 1]);
                }
            }
            assert forall|i: int, jj: int| 0 <= i < jj < o.len() implies name_order(
                o[i],
                o[jj],
                by,
            ) <= 0 by {
                if i < j && jj == j {
                } else if i == j && jj > j {
                    assert(o[jj] == old_out[jj - 1]);
                } else if i < j && jj > j {
                    assert(o[i] == old_out[i] && o[jj] == old_out[jj - 1]);
                } else if i < j && jj < j {
                    assert(o[i] == old_out[i] && o[jj] == old_out[jj]);
                } else {
                    assert(o[i] == old_out[i - 1] && o[jj] == old_out[jj - 1]);
                }
            }
            assert(inp@ =~= before.subrange(1, before.len() as int));
            assert(views(inp@) =~= views(before).subrange(1, before.len() as int));
            assert(views(inp@) =~= orig.skip(k + 1));
        }
        k += 1;
    }
    assert(orig.take(k as int) =~= orig);
    out
}

/// Strictly increasing in `by` order: sorted with no repeats.
pub open spec fn names_strict(s: Seq<Seq<char>>, by: RankBy) -> bool {
    forall|i: int, j: int| 0 <= i < j < s.len() ==> name_order(s[i], s[j], by) < 0
}

/// Sort names into `by` order and drop repeats: the distinct names of `v`.
pub fn sort_dedup_names(v: Vec<String>, by: RankBy) -> (r: Vec<String>)
    ensures
        names_strict(views(r@), by),
        forall|s: Seq<char>| views(r@).contains(s) <==> views(v@).contains(s),
{
    let sorted = sort_names(v, by);
    let ghost sv = views(sorted@);
    let ghost p = choose|p: Seq<int>| perm_of(sv, views(v@), p);
    let mut out: Vec<String> = Vec::new();
    let mut i: usize = 0;
    while i < sorted.len()
        invariant
            i <= sorted.len(),
            sv == views(sorted@),
            names_sorted(sv, by),
            names_strict(views(out@), by),
            i > 0 ==> out.len() > 0 && views(out@).last() == sv[i - 1],
            i == 0 ==> out.len() == 0,
            forall|s: Seq<char>| views(out@).contains(s) <==> sv.take(i as int).contains(s),
        decreases sorted.len() - i,
    {
        let ghost before = views(out@);
        let fresh = out.len() == 0 || out[out.len() - 1] != sorted[i];
        if fresh {
            out.push(sorted[i].clone());
            proof {
                assert(views(out@) =~= before.push(sv[i as int]));
                if before.len() > 0 {
                    lemma_name_order(before.last(), sv[i as int], sv[i as int], by);
                    assert(name_order(sv[i - 1], sv[i as int], by) <= 0);
                    assert forall|a: int, b: int| 0 <= a < b < views(out@).len() implies name_order(
                        views(out@)[a],
                        views(out@)[b],
                        by,
                    ) < 0 by {
                        if b == before.len() {
                            if a < before.len() - 1 {
                                lemma_name_order(before[a], before.last(), sv[i as int], by);
                                lemma_name_order(sv[i as int], before[a], sv[i as int], by);
                            }
                        } else {
                            assert(views(out@)[a] == before[a] && views(out@)[b] == before[b]);
                        }
                    }
                }
            }
        } else {
            assert(views(out@) == before);
        }
        proof {
            assert(sv.take(i + 1) =~= sv.take(i as int).push(sv[i as int]));
            assert forall|s: Seq<char>| views(out@).contains(s) implies sv.take(i + 1).contains(s) by {
                let q = choose|q: int| 0 <= q < views(out@).len() && views(out@)[q] == s;
                if q < before.len() {
                    assert(views(out@)[q] == before[q]);
                    assert(before.contains(s));
                    let w = choose|w: int| 0 <= w < sv.take(i as int).len() && #[trigger] sv.take(i as int)[w] == s;
                    assert(sv.take(i + 1)[w] == s);
                } else {
                    assert(sv.take(i + 1)[i as int] == s);
                }
            }
            assert forall|s: Seq<char>| sv.take(i + 1).contains(s) implies views(out@).contains(s) by {
                let q = choose|q: int| 0 <= q < sv.take(i + 1).len() && #[trigger] sv.take(i + 1)[q] == s;
                if q < i {
                    assert(sv.take(i as int)[q] == s);
                    assert(before.contains(s));
                    let w = choose|w: int| 0 <= w < before.len() && before[w] == s;
                    assert(views(out@)[w] == s);
                } else {
                    assert(s == sv[i as int]);
                    if fresh {
                        assert(views(out@)[views(out@).len() - 1] == s);
                    } else {
                        assert(before[before.len() - 1] == s);
                    }
                }
            }
        }
        i += 1;
    }
    proof {
        assert(sv.take(sorted.len() as int) =~= sv);
        assert forall|s: Seq<char>| sv.contains(s) <==> views(v@).contains(s) by {
            if sv.contains(s) {
                let q = choose|q: int| 0 <= q < sv.len() && sv[q] == s;
                assert(views(v@)[p[q]] == s);
            }
            if views(v@).contains(s) {
                let q = choose|q: int| 0 <= q < views(v@).len() && views(v@)[q] == s;
                // `p` is injective on `0..n` into `0..n`, so some position maps to `q`.
                lemma_perm_onto(p, q);
                let w = choose|w: int| 0 <= w < p.len() && p[w] == q;
                assert(sv[w] == s);
            }
        }
    }
    out
}

/// An injective map from `0..n` into `0..n` reaches every position.
pub proof fn lemma_perm_onto(p: Seq<int>, q: int)
    requires
        0 <= q < p.len(),
        forall|i: int| 0 <= i < p.len() ==> 0 <= #[trigger] p[i] < p.len(),
        forall|i: int, j: int| 0 <= i < j < p.len() ==> p[i] != p[j],
    ensures
        exists|w: int| 0 <= w < p.len() && p[w] == q,
{
    if forall|w: int| 0 <= w < p.len() ==> p[w] != q {
        let pset = p.to_set();
        let full = Set::new(|v: int| 0 <= v < p.len() && v != q);
        assert(p.no_duplicates()) by {
            assert forall|i: int, j: int| 0 <= i < p.len() && 0 <= j < p.len() && i != j implies p[i]
                != p[j] by {
                if i < j {
                } else {
                }
            }
        }
        p.unique_seq_to_set();
        assert(pset.subset_of(full));
        let r = vstd::set_lib::set_int_range(0, p.len() as int);
        vstd::set_lib::lemma_int_range(0, p.len() as int);
        assert(full =~= r.remove(q));
        vstd::set_lib::lemma_len_subset(pset, full);
        assert(false);
    }
}

} // verus!
