//! Session state for label-rank inference: the answers received for the
//! current org, and whether a request is out or has failed.
use vstd::prelude::*;

use crate::text::owned;
use crate::sorting::{names_strict, sort_dedup_names, views, RankBy};
use crate::types::{is_priority_label, is_priority_name, RepoLabel};

verus! {

broadcast use vstd::string::group_string_axioms;

/// The answers of a list of `(label, rank)` pairs; a later pair for the
/// same label replaces an earlier one.
pub open spec fn answer_map(s: Seq<(String, Option<u8>)>) -> Map<Seq<char>, Option<u8>>
    decreases s.len(),
{
    if s.len() == 0 {
        Map::empty()
    } else {
        answer_map(s.drop_last()).insert(s.last().0@, s.last().1)
    }
}

/// `m` with the pairs of `s` taken in, later pairs winning.
pub open spec fn merged(m: Map<Seq<char>, Option<u8>>, s: Seq<(String, Option<u8>)>) -> Map<Seq<char>, Option<u8>>
    decreases s.len(),
{
    if s.len() == 0 {
        m
    } else {
        merged(m, s.drop_last()).insert(s.last().0@, s.last().1)
    }
}

pub proof fn lemma_answer_map_append(a: Seq<(String, Option<u8>)>, b: Seq<(String, Option<u8>)>)
    ensures
        answer_map(a + b) == merged(answer_map(a), b),
    decreases b.len(),
{
    if b.len() == 0 {
        assert(a + b =~= a);
    } else {
        assert((a + b).drop_last() =~= a + b.drop_last());
        lemma_answer_map_append(a, b.drop_last());
    }
}

/// The rank an answer map gives a label: none for a label never asked
/// about, and none for one that was answered "not a priority label".
pub open spec fn rank_in(m: Map<Seq<char>, Option<u8>>, label: Seq<char>) -> Option<u8> {
    if m.dom().contains(label) {
        m[label]
    } else {
        None
    }
}

/// Label-rank session state, reset as a unit when the org changes.
#[derive(Debug)]
pub struct RankState {
    /// Every answer received: label name and rank. `None` is a real answer
    /// ("not a priority label") and stops the label being asked again.
    ranks: Vec<(String, Option<u8>)>,
    /// A request is out.
    in_flight: bool,
    /// The request failed: inference is off for the rest of the session.
    failed: bool,
}

impl RankState {
    /// The answers received, by label name.
    pub closed spec fn answers(&self) -> Map<Seq<char>, Option<u8>> {
        answer_map(self.ranks@)
    }

    pub closed spec fn spec_in_flight(&self) -> bool {
        self.in_flight
    }

    pub closed spec fn spec_failed(&self) -> bool {
        self.failed
    }

    pub fn new() -> (r: RankState)
        ensures
            r.answers() == Map::<Seq<char>, Option<u8>>::empty(),
            !r.spec_in_flight(),
            !r.spec_failed(),
    {
        RankState { ranks: Vec::new(), in_flight: false, failed: false }
    }

    /// Whether `label` has an answer, and the answer.
    fn lookup(&self, label: &str) -> (r: Option<Option<u8>>)
        ensures
            r is Some <==> self.answers().dom().contains(label@),
            r matches Some(v) ==> v == self.answers()[label@],
    {
        let wanted = owned(label);
        let mut found: Option<Option<u8>> = None;
        let mut i: usize = 0;
        while i < self.ranks.len()
            invariant
                i <= self.ranks@.len(),
                wanted@ == label@,
                found is Some <==> answer_map(self.ranks@.subrange(0, i as int)).dom().contains(
                    label@,
                ),
                found matches Some(v) ==> v == answer_map(self.ranks@.subrange(0, i as int))[label@],
            decreases self.ranks@.len() - i,
        {
            assert(self.ranks@.subrange(0, i + 1).drop_last() =~= self.ranks@.subrange(0, i as int));
            if self.ranks[i].0 == wanted {
                found = Some(self.ranks[i].1);
            }
            i += 1;
        }
        assert(self.ranks@.subrange(0, self.ranks@.len() as int) =~= self.ranks@);
        found
    }

    /// Whether `label` has an answer (possibly "not a priority label").
    pub fn rank_known(&self, label: &str) -> (r: bool)
        ensures
            r == self.answers().dom().contains(label@),
    {
        self.lookup(label).is_some()
    }

    /// The rank resolved for `label`; `None` both when it was never asked
    /// about and when it is not a priority label.
    pub fn rank_of(&self, label: &str) -> (r: Option<u8>)
        ensures
            r == rank_in(self.answers(), label@),
    {
        match self.lookup(label) {
            Some(v) => v,
            None => None,
        }
    }

    /// The distinct names, sorted, of `labels` that have no answer yet and
    /// are not `priority:*` labels (the convention already ranks those).
    pub fn unranked(&self, labels: &[RepoLabel]) -> (r: Vec<String>)
        ensures
            names_strict(views(r@), RankBy::Plain),
            forall|s: Seq<char>|
                views(r@).contains(s) <==> exists|i: int|
                    0 <= i < labels@.len() && #[trigger] labels@[i].name@ == s
                        && !is_priority_name(s) && !self.answers().dom().contains(s),
    {
        let mut names: Vec<String> = Vec::new();
        let mut i: usize = 0;
        while i < labels.len()
            invariant
                i <= labels@.len(),
                forall|s: Seq<char>|
                    views(names@).contains(s) <==> exists|j: int|
                        0 <= j < i && #[trigger] labels@[j].name@ == s && !is_priority_name(s)
                            && !self.answers().dom().contains(s),
            decreases labels@.len() - i,
        {
            let name = &labels[i].name;
            let ghost before = names@;
            if !is_priority_label(name.as_str()) && self.lookup(name.as_str()).is_none() {
                names.push(name.clone());
                assert(views(names@) =~= views(before).push(name@));
                assert forall|s: Seq<char>|
                    views(names@).contains(s) <==> exists|j: int|
                        0 <= j < i + 1 && #[trigger] labels@[j].name@ == s && !is_priority_name(s)
                            && !self.answers().dom().contains(s) by {
                    if views(names@).contains(s) && !views(before).contains(s) {
                        assert(labels@[i as int].name@ == s);
                    }
                    if exists|j: int|
                        0 <= j < i + 1 && #[trigger] labels@[j].name@ == s && !is_priority_name(s)
                            && !self.answers().dom().contains(s) {
                        let j = choose|j: int|
                            0 <= j < i + 1 && #[trigger] labels@[j].name@ == s && !is_priority_name(
                                s,
                            ) && !self.answers().dom().contains(s);
                        if j == i {
                            assert(views(names@)[before.len() as int] == s);
                        } else {
                            assert(views(before).contains(s));
                            let k = choose|k: int| 0 <= k < before.len() && views(before)[k] == s;
                            assert(views(names@)[k] == s);
                        }
                    }
                }
            } else {
                assert forall|s: Seq<char>|
                    views(names@).contains(s) <==> exists|j: int|
                        0 <= j < i + 1 && #[trigger] labels@[j].name@ == s && !is_priority_name(s)
                            && !self.answers().dom().contains(s) by {
                    if exists|j: int|
                        0 <= j < i + 1 && #[trigger] labels@[j].name@ == s && !is_priority_name(s)
                            && !self.answers().dom().contains(s) {
                        let j = choose|j: int|
                            0 <= j < i + 1 && #[trigger] labels@[j].name@ == s && !is_priority_name(
                                s,
                            ) && !self.answers().dom().contains(s);
                        assert(j != i);
                    }
                }
            }
            i += 1;
        }
        sort_dedup_names(names, RankBy::Plain)
    }

    /// Inference failed this session, so nothing should ask again.
    pub fn has_failed(&self) -> (r: bool)
        ensures
            r == self.spec_failed(),
    {
        self.failed
    }

    /// Record a failure: inference is off for the rest of the session.
    pub fn mark_failed(&mut self)
        ensures
            final(self).spec_failed(),
            final(self).answers() == old(self).answers(),
            final(self).spec_in_flight() == old(self).spec_in_flight(),
    {
        self.failed = true;
    }

    pub fn is_in_flight(&self) -> (r: bool)
        ensures
            r == self.spec_in_flight(),
    {
        self.in_flight
    }

    /// Mark a request as out, or as landed.
    pub fn set_in_flight(&mut self, on: bool)
        ensures
            final(self).spec_in_flight() == on,
            final(self).answers() == old(self).answers(),
            final(self).spec_failed() == old(self).spec_failed(),
    {
        self.in_flight = on;
    }

    /// Take new answers in; an answer for a label already answered replaces
    /// the old one.
    pub fn merge(&mut self, answers: Vec<(String, Option<u8>)>)
        ensures
            final(self).answers() == merged(old(self).answers(), answers@),
            final(self).spec_in_flight() == old(self).spec_in_flight(),
            final(self).spec_failed() == old(self).spec_failed(),
    {
        let ghost start = self.ranks@;
        let mut i: usize = 0;
        while i < answers.len()
            invariant
                i <= answers@.len(),
                self.ranks@ =~= start + answers@.subrange(0, i as int),
                self.in_flight == old(self).in_flight,
                self.failed == old(self).failed,
            decreases answers@.len() - i,
        {
            let pair = (answers[i].0.clone(), answers[i].1);
            self.ranks.push(pair);
            i += 1;
        }
        assert(answers@.subrange(0, answers@.len() as int) =~= answers@);
        proof {
            lemma_answer_map_append(start, answers@);
        }
    }
}

impl Default for RankState {
    fn default() -> (r: RankState)
        ensures
            r.answers() == Map::<Seq<char>, Option<u8>>::empty(),
            !r.spec_in_flight(),
            !r.spec_failed(),
    {
        RankState::new()
    }
}

} // verus!
