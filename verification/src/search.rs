//! Session state for semantic search: the query judged so far, the
//! generation that makes stale answers recognisable, and the failure latch.
use vstd::prelude::*;

use crate::text::{chars_of, owned, string_of_range, string_push, trim, trim_end, trim_end_str, trim_str};

verus! {

broadcast use vstd::string::group_string_axioms;

/// Longest reason the info bar shows beside `off`.
pub const REASON_CHARS: usize = 30;

/// What the info bar says about semantic search.
#[derive(Debug, Clone, PartialEq, Eq)]
pub enum SemanticIndicator {
    /// A request is out.
    Searching,
    /// The answer landed and added this many issues the substring match did
    /// not already show.
    Added(usize),
    /// Asking failed; the short reason may be empty.
    Off(String),
}

/// The first line of `s`, as `str::lines` yields it: the text before the
/// first `\n`, without a trailing `\r`.
pub open spec fn first_line(s: Seq<char>) -> Seq<char> {
    let cut = if exists|k: int| 0 <= k < s.len() && s[k] == '\n' {
        let k = choose|k: int| 0 <= k < s.len() && s[k] == '\n' && forall|j: int| 0 <= j < k ==> s[j] != '\n';
        s.subrange(0, k)
    } else {
        s
    };
    if cut.len() > 0 && cut.last() == '\r' {
        cut.drop_last()
    } else {
        cut
    }
}

/// The first line of an error, trimmed and cut to fit the info bar with a
/// trailing ellipsis.
pub open spec fn spec_short_reason(error: Seq<char>) -> Seq<char> {
    let line = trim(first_line(error));
    if line.len() <= REASON_CHARS {
        line
    } else {
        trim_end(line.subrange(0, (REASON_CHARS - 1) as int)).push('\u{2026}')
    }
}

/// First line of `error`, cut to fit the info bar.
pub fn short_reason(error: &str) -> (r: String)
    ensures
        r@ == spec_short_reason(error@),
{
    let v = chars_of(error);
    let mut k: usize = 0;
    while k < v.len() && v[k] != '\n'
        invariant
            v@ == error@,
            k <= v@.len(),
            forall|j: int| 0 <= j < k ==> v@[j] != '\n',
        decreases v@.len() - k,
    {
        k += 1;
    }
    let ghost cut = if exists|m: int| 0 <= m < error@.len() && error@[m] == '\n' {
        let m = choose|m: int|
            0 <= m < error@.len() && error@[m] == '\n' && forall|j: int| 0 <= j < m ==> error@[j] != '\n';
        error@.subrange(0, m)
    } else {
        error@
    };
    if k < v.len() {
        let ghost m = choose|m: int|
            0 <= m < error@.len() && error@[m] == '\n' && forall|j: int| 0 <= j < m ==> error@[j] != '\n';
        assert(m == k) by {
            if m < k {
                assert(v@[m] != '\n');
            }
            if m > k {
                assert(error@[k as int] != '\n');
            }
        }
    } else {
        assert(v@.subrange(0, k as int) =~= error@);
    }
    assert(v@.subrange(0, k as int) == cut);
    let end = if k > 0 && v[k - 1] == '\r' {
        k - 1
    } else {
        k
    };
    let first = string_of_range(&v, 0, end);
    assert(first@ =~= first_line(error@));
    let line = trim_str(first.as_str());
    let lv = chars_of(line.as_str());
    if lv.len() <= REASON_CHARS {
        return line;
    }
    let head = string_of_range(&lv, 0, REASON_CHARS - 1);
    let mut out = trim_end_str(head.as_str());
    string_push(&mut out, '\u{2026}');
    out
}

/// Semantic-search session state.
#[derive(Debug)]
pub struct SearchState {
    /// The query `judged` belongs to.
    query: String,
    /// Ids already sent for `query`.
    judged: Vec<String>,
    /// Bumped whenever the query changes or a search starts; an answer
    /// carrying an older generation is stale.
    generation: u64,
    /// Asking failed: off for the rest of the session.
    failed: bool,
    /// Why, in a few words.
    failure: Option<String>,
    /// A request for the current query is out.
    in_flight: bool,
    /// An answer for the current query has landed.
    answered: bool,
}

impl SearchState {
    pub closed spec fn spec_generation(&self) -> u64 {
        self.generation
    }

    pub closed spec fn spec_failed(&self) -> bool {
        self.failed
    }

    pub closed spec fn spec_in_flight(&self) -> bool {
        self.in_flight
    }

    pub closed spec fn spec_answered(&self) -> bool {
        self.answered
    }

    pub closed spec fn spec_judged_count(&self) -> nat {
        self.judged@.len()
    }

    pub closed spec fn spec_judged(&self) -> Seq<Seq<char>> {
        self.judged@.map_values(|j: String| j@)
    }

    pub closed spec fn spec_query(&self) -> Seq<char> {
        self.query@
    }

    pub closed spec fn spec_failure(&self) -> Option<Seq<char>> {
        match self.failure {
            Some(f) => Some(f@),
            None => None,
        }
    }

    pub fn new() -> (r: SearchState)
        ensures
            r.spec_generation() == 0,
            !r.spec_failed(),
            !r.spec_in_flight(),
            !r.spec_answered(),
            r.spec_judged_count() == 0,
            r.spec_query().len() == 0,
            r.spec_failure().is_none(),
    {
        SearchState {
            query: String::new(),
            judged: Vec::new(),
            generation: 0,
            failed: false,
            failure: None,
            in_flight: false,
            answered: false,
        }
    }

    pub fn has_failed(&self) -> (r: bool)
        ensures
            r == self.spec_failed(),
    {
        self.failed
    }

    /// Forget what has been judged and make any in-flight answer stale. The
    /// generation only ever increases, so an old answer can never pass for
    /// a new one.
    pub fn invalidate(&mut self)
        requires
            old(self).spec_generation() < u64::MAX,
        ensures
            final(self).spec_generation() == old(self).spec_generation() + 1,
            final(self).spec_judged_count() == 0,
            !final(self).spec_in_flight(),
            !final(self).spec_answered(),
            final(self).spec_failed() == old(self).spec_failed(),
    {
        self.query = String::new();
        self.judged = Vec::new();
        self.generation = self.generation + 1;
        self.in_flight = false;
        self.answered = false;
    }

    /// Forget everything, the failure latch included; the generation still
    /// advances.
    pub fn reset(&mut self)
        requires
            old(self).spec_generation() < u64::MAX,
        ensures
            final(self).spec_generation() == old(self).spec_generation() + 1,
            final(self).spec_judged_count() == 0,
            !final(self).spec_in_flight(),
            !final(self).spec_answered(),
            !final(self).spec_failed(),
    {
        self.invalidate();
        self.failed = false;
        self.failure = None;
    }

    /// Whether an answer carrying `generation` is still current.
    pub fn is_current(&self, generation: u64) -> (r: bool)
        ensures
            r == (generation == self.spec_generation()),
    {
        generation == self.generation
    }

    /// Record a failed search: off for the session, with a short reason.
    pub fn fail(&mut self, error: &str)
        ensures
            final(self).spec_failed(),
            !final(self).spec_in_flight(),
            final(self).spec_judged_count() == 0,
            final(self).spec_generation() == old(self).spec_generation(),
            final(self).spec_query() == old(self).spec_query(),
            final(self).spec_failure() == Some(spec_short_reason(error@)),
    {
        self.in_flight = false;
        self.failed = true;
        self.failure = Some(short_reason(error));
        self.judged = Vec::new();
    }
}

impl Default for SearchState {
    fn default() -> (r: SearchState)
        ensures
            r.spec_generation() == 0,
            !r.spec_failed(),
            !r.spec_in_flight(),
            !r.spec_answered(),
    {
        SearchState::new()
    }
}

/// Whether `ids` holds nothing that `judged` lacks.
pub open spec fn all_in(ids: Seq<Seq<char>>, judged: Seq<Seq<char>>) -> bool {
    forall|k: int| 0 <= k < ids.len() ==> judged.contains(#[trigger] ids[k])
}

pub open spec fn texts(v: Seq<String>) -> Seq<Seq<char>> {
    v.map_values(|s: String| s@)
}

impl SearchState {
    /// Whether a search for `query` over the candidates `ids` would tell
    /// nothing new: asking failed this session, the query is not one to
    /// send (`worth` false), there are no candidates, or every candidate was
    /// already judged for this very query.
    pub open spec fn nothing_to_ask(&self, query: Seq<char>, worth: bool, ids: Seq<Seq<char>>) -> bool {
        ||| self.spec_failed()
        ||| !worth
        ||| ids.len() == 0
        ||| (self.spec_query() == query && all_in(ids, self.spec_judged()))
    }

    fn judged_has(&self, id: &str) -> (r: bool)
        ensures
            r == self.spec_judged().contains(id@),
    {
        let mut i: usize = 0;
        while i < self.judged.len()
            invariant
                i <= self.judged@.len(),
                forall|k: int| 0 <= k < i ==> self.judged@[k]@ != id@,
            decreases self.judged@.len() - i,
        {
            if crate::app::eq_str(self.judged[i].as_str(), id) {
                assert(self.spec_judged()[i as int] == id@);
                return true;
            }
            i += 1;
        }
        assert forall|k: int| 0 <= k < self.spec_judged().len() implies self.spec_judged()[k] != id@ by {
            assert(self.spec_judged()[k] == self.judged@[k]@);
        }
        false
    }

    /// Start a search for `query` over the candidate ids `ids` when it could
    /// tell something new: a fresh generation is handed out (so any answer
    /// still out for an older one is stale), the request is marked in
    /// flight, and `ids` become what is judged for `query`. Otherwise
    /// nothing changes and nothing is asked.
    pub fn begin(&mut self, query: &str, worth: bool, ids: Vec<String>) -> (r: Option<u64>)
        requires
            old(self).spec_generation() < u64::MAX,
        ensures
            old(self).nothing_to_ask(query@, worth, texts(ids@)) ==> r.is_none() && *final(self) == *old(self),
            !old(self).nothing_to_ask(query@, worth, texts(ids@)) ==> {
                &&& r == Some((old(self).spec_generation() + 1) as u64)
                &&& final(self).spec_generation() == old(self).spec_generation() + 1
                &&& final(self).spec_in_flight()
                &&& !final(self).spec_answered()
                &&& !final(self).spec_failed()
                &&& final(self).spec_query() == query@
                &&& final(self).spec_judged() == texts(ids@)
            },
    {
        if self.failed || !worth || ids.len() == 0 {
            return None;
        }
        if crate::app::eq_str(self.query.as_str(), query) {
            let mut all = true;
            let mut i: usize = 0;
            while i < ids.len()
                invariant
                    i <= ids@.len(),
                    all == all_in(texts(ids@).take(i as int), self.spec_judged()),
                decreases ids@.len() - i,
            {
                let found = self.judged_has(ids[i].as_str());
                proof {
                    assert(texts(ids@).take(i + 1) =~= texts(ids@).take(i as int).push(ids@[i as int]@));
                    if all && found {
                        assert forall|k: int| 0 <= k < i + 1 implies self.spec_judged().contains(
                            #[trigger] texts(ids@).take(i + 1)[k],
                        ) by {
                            if k < i {
                                assert(texts(ids@).take(i + 1)[k] == texts(ids@).take(i as int)[k]);
                            }
                        }
                    }
                    if !found {
                        assert(texts(ids@).take(i + 1)[i as int] == ids@[i as int]@);
                    }
                    if !all {
                        let w = choose|k: int| 0 <= k < i && !self.spec_judged().contains(
                            #[trigger] texts(ids@).take(i as int)[k],
                        );
                        assert(texts(ids@).take(i + 1)[w] == texts(ids@).take(i as int)[w]);
                    }
                }
                all = all && found;
                i += 1;
            }
            assert(texts(ids@).take(ids@.len() as int) =~= texts(ids@));
            if all {
                return None;
            }
        }
        self.generation = self.generation + 1;
        self.in_flight = true;
        self.answered = false;
        self.query = owned(query);
        self.judged = ids;
        Some(self.generation)
    }

    /// An answer for `generation` landed: `Ok` when the search succeeded.
    /// An answer for any other generation is stale and changes nothing. A
    /// current one clears the in-flight mark; success marks it answered
    /// (and `true` says its hits are to be shown), failure latches the
    /// search off for the session.
    pub fn land(&mut self, generation: u64, result: Result<(), String>) -> (r: bool)
        ensures
            generation != old(self).spec_generation() ==> !r && *final(self) == *old(self),
            generation == old(self).spec_generation() ==> {
                &&& r == result is Ok
                &&& !final(self).spec_in_flight()
                &&& final(self).spec_generation() == old(self).spec_generation()
                &&& final(self).spec_query() == old(self).spec_query()
                &&& (result is Ok ==> final(self).spec_answered() && final(self).spec_failed()
                    == old(self).spec_failed() && final(self).spec_judged() == old(self).spec_judged())
                &&& (result is Err ==> final(self).spec_failed() && final(self).spec_judged_count() == 0)
            },
    {
        if generation != self.generation {
            return false;
        }
        self.in_flight = false;
        match result {
            Ok(()) => {
                self.answered = true;
                true
            },
            Err(e) => {
                self.fail(e.as_str());
                false
            },
        }
    }
}

} // verus!
