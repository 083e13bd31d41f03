//! Session state for the ticket-readiness badge: the judgements received,
//! by issue id, the requests out, and a failure latch. An answer is derived
//! from an issue's body and thread, so it is dropped whenever they change.
//! The judgement itself is whatever the ranking service returns; this
//! state only keeps it.
use vstd::prelude::*;

use crate::app::eq_str;

verus! {

broadcast use vstd::string::group_string_axioms;

/// Whether no id occurs twice among the answers.
pub open spec fn unique_keys<A>(s: Seq<(String, A)>) -> bool {
    forall|i: int, j: int| 0 <= i < j < s.len() ==> s[i].0@ != s[j].0@
}

/// Whether some answer is kept for `id`.
pub open spec fn has_key<A>(s: Seq<(String, A)>, id: Seq<char>) -> bool {
    exists|i: int| 0 <= i < s.len() && s[i].0@ == id
}

/// The answer kept for `id`.
pub open spec fn answer_of<A>(s: Seq<(String, A)>, id: Seq<char>) -> Option<A> {
    if has_key(s, id) {
        Some(s[choose|i: int| 0 <= i < s.len() && s[i].0@ == id].1)
    } else {
        None
    }
}

pub proof fn lemma_answer_at<A>(s: Seq<(String, A)>, id: Seq<char>, i: int)
    requires
        unique_keys(s),
        0 <= i < s.len(),
        s[i].0@ == id,
    ensures
        answer_of(s, id) == Some(s[i].1),
{
    let j = choose|j: int| 0 <= j < s.len() && s[j].0@ == id;
    if j != i {
        if j < i {
            assert(s[j].0@ != s[i].0@);
        } else {
            assert(s[i].0@ != s[j].0@);
        }
    }
}

/// Whether `v` holds `id`.
pub open spec fn holds(v: Seq<String>, id: Seq<char>) -> bool {
    exists|i: int| 0 <= i < v.len() && v[i]@ == id
}

pub proof fn lemma_holds_push(v: Seq<String>, x: String, t: Seq<char>)
    ensures
        holds(v.push(x), t) == (holds(v, t) || x@ == t),
{
    if holds(v, t) {
        let k = choose|k: int| 0 <= k < v.len() && v[k]@ == t;
        assert(v.push(x)[k] == v[k]);
    }
    if x@ == t {
        assert(v.push(x)[v.len() as int] == x);
    }
    if holds(v.push(x), t) && !holds(v, t) {
        let k = choose|k: int| 0 <= k < v.push(x).len() && v.push(x)[k]@ == t;
        if k < v.len() {
            assert(v.push(x)[k] == v[k]);
        }
    }
}

/// Judgements received, requests out, and whether asking has failed.
#[derive(Debug)]
pub struct ReadinessState<A> {
    answers: Vec<(String, A)>,
    in_flight: Vec<String>,
    failed: bool,
}

impl<A> ReadinessState<A> {
    /// Every id has at most one answer.
    pub closed spec fn wf(&self) -> bool {
        unique_keys(self.answers@)
    }

    /// The judgement kept for `id`.
    pub closed spec fn spec_answer(&self, id: Seq<char>) -> Option<A> {
        answer_of(self.answers@, id)
    }

    /// Whether a request for `id` is out.
    pub closed spec fn spec_in_flight(&self, id: Seq<char>) -> bool {
        holds(self.in_flight@, id)
    }

    pub closed spec fn spec_failed(&self) -> bool {
        self.failed
    }

    pub fn new() -> (r: Self)
        ensures
            r.wf(),
            forall|id: Seq<char>| #[trigger] r.spec_answer(id).is_none() && !r.spec_in_flight(id),
            !r.spec_failed(),
    {
        ReadinessState { answers: Vec::new(), in_flight: Vec::new(), failed: false }
    }

    fn index_of(&self, id: &str) -> (r: Option<usize>)
        ensures
            match r {
                Some(i) => i < self.answers@.len() && self.answers@[i as int].0@ == id@,
                None => !has_key(self.answers@, id@),
            },
    {
        let mut i: usize = 0;
        while i < self.answers.len()
            invariant
                i <= self.answers@.len(),
                forall|k: int| 0 <= k < i ==> self.answers@[k].0@ != id@,
            decreases self.answers@.len() - i,
        {
            if eq_str(self.answers[i].0.as_str(), id) {
                return Some(i);
            }
            i += 1;
        }
        None
    }

    fn flight_index(&self, id: &str) -> (r: Option<usize>)
        ensures
            match r {
                Some(i) => i < self.in_flight@.len() && self.in_flight@[i as int]@ == id@,
                None => !holds(self.in_flight@, id@),
            },
    {
        let mut i: usize = 0;
        while i < self.in_flight.len()
            invariant
                i <= self.in_flight@.len(),
                forall|k: int| 0 <= k < i ==> self.in_flight@[k]@ != id@,
            decreases self.in_flight@.len() - i,
        {
            if eq_str(self.in_flight[i].as_str(), id) {
                return Some(i);
            }
            i += 1;
        }
        None
    }

    /// The judgement for `id`, if one has landed.
    pub fn get(&self, id: &str) -> (r: Option<&A>)
        requires
            self.wf(),
        ensures
            match r {
                Some(a) => self.spec_answer(id@) == Some(*a),
                None => self.spec_answer(id@).is_none(),
            },
    {
        match self.index_of(id) {
            Some(i) => {
                proof {
                    lemma_answer_at(self.answers@, id@, i as int);
                }
                Some(&self.answers[i].1)
            },
            None => None,
        }
    }

    /// Asking has failed this session, so nothing will ask again.
    pub fn has_failed(&self) -> (r: bool)
        ensures
            r == self.spec_failed(),
    {
        self.failed
    }

    /// Forget the judgement for `id`: the body or thread it came from changed.
    pub fn invalidate(&mut self, id: &str)
        requires
            old(self).wf(),
        ensures
            final(self).wf(),
            final(self).spec_answer(id@).is_none(),
            forall|t: Seq<char>| t != id@ ==> #[trigger] final(self).spec_answer(t) == old(self).spec_answer(t),
            forall|t: Seq<char>| #[trigger] final(self).spec_in_flight(t) == old(self).spec_in_flight(t),
            final(self).spec_failed() == old(self).spec_failed(),
    {
        match self.index_of(id) {
            Some(i) => {
                let ghost s = self.answers@;
                self.answers.remove(i);
                let ghost n = self.answers@;
                assert(n =~= s.remove(i as int));
                assert forall|t: Seq<char>| t != id@ implies #[trigger] answer_of(n, t) == answer_of(s, t) by {
                    if has_key(s, t) {
                        let k = choose|k: int| 0 <= k < s.len() && s[k].0@ == t;
                        lemma_answer_at(s, t, k);
                        assert(k != i);
                        let kk = if k < i { k } else { k - 1 };
                        assert(n[kk] == s[k]);
                        lemma_answer_at(n, t, kk);
                    } else {
                        assert forall|k: int| 0 <= k < n.len() implies n[k].0@ != t by {
                            let kk = if k < i { k } else { k + 1 };
                            assert(n[k] == s[kk]);
                        }
                    }
                }
                assert forall|k: int| 0 <= k < n.len() implies n[k].0@ != id@ by {
                    let kk = if k < i { k } else { k + 1 };
                    assert(n[k] == s[kk]);
                    assert(kk != i);
                }
            },
            None => {},
        }
    }

    /// Drop everything, the failure latch included: fresh data or a new org
    /// deserves a fresh attempt.
    pub fn clear(&mut self)
        ensures
            final(self).wf(),
            forall|id: Seq<char>| #[trigger] final(self).spec_answer(id).is_none() && !final(self).spec_in_flight(id),
            !final(self).spec_failed(),
    {
        self.answers = Vec::new();
        self.in_flight = Vec::new();
        self.failed = false;
    }

    /// Whether to ask about `id` now, marking the request in flight: not
    /// after a failure, nor when an answer is kept or a request is out.
    pub fn begin(&mut self, id: &str) -> (r: bool)
        requires
            old(self).wf(),
        ensures
            r == (!old(self).spec_failed() && old(self).spec_answer(id@).is_none() && !old(self).spec_in_flight(id@)),
            final(self).wf(),
            forall|t: Seq<char>| #[trigger] final(self).spec_answer(t) == old(self).spec_answer(t),
            forall|t: Seq<char>|
                #[trigger] final(self).spec_in_flight(t) == (old(self).spec_in_flight(t) || (r && t == id@)),
            final(self).spec_failed() == old(self).spec_failed(),
    {
        if self.failed || self.index_of(id).is_some() || self.flight_index(id).is_some() {
            return false;
        }
        let ghost s = self.in_flight@;
        self.in_flight.push(crate::text::owned(id));
        assert forall|t: Seq<char>| #[trigger] holds(self.in_flight@, t) == (holds(s, t) || t == id@) by {
            if holds(s, t) {
                let k = choose|k: int| 0 <= k < s.len() && s[k]@ == t;
                assert(self.in_flight@[k] == s[k]);
            }
            if t == id@ {
                assert(self.in_flight@[s.len() as int]@ == id@);
            }
            if holds(self.in_flight@, t) && !holds(s, t) {
                let k = choose|k: int| 0 <= k < self.in_flight@.len() && self.in_flight@[k]@ == t;
                if k < s.len() {
                    assert(self.in_flight@[k] == s[k]);
                }
            }
        }
        true
    }

    /// Record the outcome for `id` and clear its in-flight mark: an answer
    /// is kept (replacing any earlier one); a failure latches asking off
    /// for the session, without a status message.
    pub fn apply(&mut self, id: String, result: Result<A, String>)
        requires
            old(self).wf(),
        ensures
            final(self).wf(),
            !final(self).spec_in_flight(id@),
            forall|t: Seq<char>| t != id@ ==> #[trigger] final(self).spec_in_flight(t) == old(self).spec_in_flight(t),
            match result {
                Ok(a) => {
                    &&& final(self).spec_answer(id@) == Some(a)
                    &&& forall|t: Seq<char>| t != id@ ==> #[trigger] final(self).spec_answer(t) == old(self).spec_answer(t)
                    &&& final(self).spec_failed() == old(self).spec_failed()
                },
                Err(_) => {
                    &&& forall|t: Seq<char>| #[trigger] final(self).spec_answer(t) == old(self).spec_answer(t)
                    &&& final(self).spec_failed()
                },
            },
    {
        self.drop_flight(id.as_str());
        let ghost mid = *self;
        match result {
            Ok(a) => {
                self.invalidate(id.as_str());
                let ghost after = *self;
                let ghost s = self.answers@;
                let ghost key = id@;
                self.answers.push((id, a));
                assert(self.in_flight == after.in_flight);
                assert forall|t: Seq<char>| #[trigger] self.spec_in_flight(t) == mid.spec_in_flight(t) by {
                    assert(after.spec_in_flight(t) == mid.spec_in_flight(t));
                }
                let ghost n = self.answers@;
                assert forall|i: int, j: int| 0 <= i < j < n.len() implies n[i].0@ != n[j].0@ by {
                    if j == s.len() {
                        assert(n[i] == s[i]);
                        assert(!has_key(s, key)) by {
                            if has_key(s, key) {
                                let k = choose|k: int| 0 <= k < s.len() && s[k].0@ == key;
                                lemma_answer_at(s, key, k);
                            }
                        }
                    } else {
                        assert(n[i] == s[i] && n[j] == s[j]);
                    }
                }
                proof {
                    lemma_answer_at(n, key, s.len() as int);
                }
                assert forall|t: Seq<char>| t != key implies #[trigger] answer_of(n, t) == answer_of(s, t) by {
                    if has_key(s, t) {
                        let k = choose|k: int| 0 <= k < s.len() && s[k].0@ == t;
                        lemma_answer_at(s, t, k);
                        assert(n[k] == s[k]);
                        lemma_answer_at(n, t, k);
                    } else {
                        assert forall|k: int| 0 <= k < n.len() implies n[k].0@ != t by {
                            if k < s.len() {
                                assert(n[k] == s[k]);
                            }
                        }
                    }
                }
                assert forall|t: Seq<char>| t != key implies #[trigger] self.spec_answer(t) == old(self).spec_answer(t) by {
                    assert(mid.spec_answer(t) == old(self).spec_answer(t));
                    assert(after.spec_answer(t) == mid.spec_answer(t));
                    assert(answer_of(n, t) == answer_of(s, t));
                }
                assert(mid.spec_failed() == old(self).spec_failed());
            },
            Err(_) => {
                self.failed = true;
            },
        }
        assert forall|t: Seq<char>| t != id@ implies #[trigger] self.spec_in_flight(t) == old(self).spec_in_flight(t) by {
            assert(mid.spec_in_flight(t) == old(self).spec_in_flight(t));
        }
        assert(!mid.spec_in_flight(id@));
    }

    /// Clear the in-flight mark of `id`.
    fn drop_flight(&mut self, id: &str)
        requires
            old(self).wf(),
        ensures
            final(self).wf(),
            !final(self).spec_in_flight(id@),
            forall|t: Seq<char>| t != id@ ==> #[trigger] final(self).spec_in_flight(t) == old(self).spec_in_flight(t),
            forall|t: Seq<char>| #[trigger] final(self).spec_answer(t) == old(self).spec_answer(t),
            final(self).spec_failed() == old(self).spec_failed(),
            final(self).answers == old(self).answers,
    {
        let ghost src = self.in_flight@;
        let mut kept: Vec<String> = Vec::new();
        let mut i: usize = 0;
        while i < self.in_flight.len()
            invariant
                i <= src.len(),
                src == self.in_flight@,
                forall|t: Seq<char>| #[trigger] holds(kept@, t) == (t != id@ && holds(src.subrange(0, i as int), t)),
            decreases src.len() - i,
        {
            let ghost before = kept@;
            let ghost pre = src.subrange(0, i as int);
            let ghost post = src.subrange(0, i + 1);
            assert(post =~= pre.push(src[i as int]));
            if !eq_str(self.in_flight[i].as_str(), id) {
                kept.push(self.in_flight[i].clone());
                assert(kept@ == before.push(src[i as int]));
            } else {
                assert(kept@ == before);
            }
            assert forall|t: Seq<char>| #[trigger] holds(kept@, t) == (t != id@ && holds(post, t)) by {
                lemma_holds_push(pre, src[i as int], t);
                if src[i as int]@ != id@ {
                    lemma_holds_push(before, src[i as int], t);
                }
            }
            i += 1;
        }
        assert(src.subrange(0, i as int) =~= src);
        self.in_flight = kept;
    }
}

} // verus!
