//! The state every list-of-choices popup shares: the options, the type-ahead
//! filter narrowing them, the highlighted position and the multi-select set.
use vstd::prelude::*;

use std::collections::HashSet;

use crate::app::clamp_index;
use crate::text::{chars_of, contains, lowercase, str_contains, string_of, string_push, to_lowercase};

verus! {

broadcast use vstd::string::group_string_axioms, vstd::std_specs::hash::group_hash_axioms;

/// Whether an option shows under a lowercased filter `needle`: an empty
/// filter shows everything, otherwise the lowercased option must contain it.
pub open spec fn option_shows(option: Seq<char>, needle: Seq<char>) -> bool {
    needle.len() == 0 || contains(lowercase(option), needle)
}

/// Indices, in order, of the first `upto` options that show under `needle`.
pub open spec fn shown_indices(options: Seq<String>, needle: Seq<char>, upto: int) -> Seq<usize>
    decreases upto,
{
    if upto <= 0 {
        Seq::empty()
    } else {
        let prev = shown_indices(options, needle, upto - 1);
        if option_shows(options[upto - 1]@, needle) {
            prev.push((upto - 1) as usize)
        } else {
            prev
        }
    }
}

#[derive(Debug)]
pub struct PickerState {
    /// Available options for the current picker.
    pub options: Vec<String>,
    /// Highlighted position within the filtered view.
    pub idx: usize,
    /// Type-ahead filter narrowing the view.
    pub filter: String,
    /// Toggled indices of a multi-select popup, in `options` terms.
    pub multi_selected: HashSet<usize>,
    /// Issue id the set-priority picker was requested for.
    pub priority_issue: Option<String>,
    /// Issue id the edit-labels picker was requested for.
    pub label_issue: Option<String>,
}

impl PickerState {
    /// The options shown under the current filter, as indices into `options`.
    pub open spec fn shown(&self) -> Seq<usize> {
        shown_indices(self.options@, lowercase(self.filter@), self.options@.len() as int)
    }

    pub fn new() -> (r: PickerState)
        ensures
            r.options@.len() == 0,
            r.idx == 0,
            r.filter@.len() == 0,
            r.multi_selected@ == Set::<usize>::empty(),
            r.priority_issue.is_none(),
            r.label_issue.is_none(),
    {
        PickerState {
            options: Vec::new(),
            idx: 0,
            filter: String::new(),
            multi_selected: HashSet::new(),
            priority_issue: None,
            label_issue: None,
        }
    }

    /// Open a picker: set its options and highlight, and clear the filter.
    pub fn start(&mut self, options: Vec<String>, idx: usize)
        ensures
            final(self).options == options,
            final(self).idx == idx,
            final(self).filter@.len() == 0,
            final(self).multi_selected == old(self).multi_selected,
            final(self).priority_issue == old(self).priority_issue,
            final(self).label_issue == old(self).label_issue,
    {
        self.options = options;
        self.idx = idx;
        self.filter = String::new();
    }

    /// The filtered view: `(original index, text)` pairs whose lowercased
    /// text contains the lowercased filter; an empty filter shows all.
    pub fn filtered(&self) -> (r: Vec<(usize, &str)>)
        ensures
            r@.len() == self.shown().len(),
            forall|k: int|
                0 <= k < r@.len() ==> {
                    &&& (#[trigger] r@[k]).0 == self.shown()[k]
                    &&& r@[k].0 < self.options@.len()
                    &&& r@[k].1@ == self.options@[r@[k].0 as int]@
                },
            self.filter@.len() == 0 ==> r@.len() == self.options@.len(),
    {
        let needle = to_lowercase(self.filter.as_str());
        let ghost nd = lowercase(self.filter@);
        let mut out: Vec<(usize, &str)> = Vec::new();
        let mut i: usize = 0;
        while i < self.options.len()
            invariant
                i <= self.options@.len(),
                needle@ == nd,
                nd == lowercase(self.filter@),
                out@.len() == shown_indices(self.options@, nd, i as int).len(),
                forall|k: int|
                    0 <= k < out@.len() ==> {
                        &&& (#[trigger] out@[k]).0 == shown_indices(self.options@, nd, i as int)[k]
                        &&& out@[k].0 < i
                        &&& out@[k].1@ == self.options@[out@[k].0 as int]@
                    },
                self.filter@.len() == 0 ==> needle@.len() == 0,
                self.filter@.len() == 0 ==> out@.len() == i,
            decreases self.options@.len() - i,
        {
            let o: &str = self.options[i].as_str();
            let shows = if needle.as_str().is_empty() {
                true
            } else {
                let lo = to_lowercase(o);
                str_contains(lo.as_str(), needle.as_str())
            };
            if shows {
                out.push((i, o));
            }
            i += 1;
        }
        out
    }

    /// Index into `options` of the highlighted row; `None` when the filter
    /// matches nothing at that position.
    pub fn selected_original(&self) -> (r: Option<usize>)
        ensures
            self.idx < self.shown().len() ==> r == Some(self.shown()[self.idx as int]),
            self.idx >= self.shown().len() ==> r.is_none(),
            r matches Some(o) ==> o < self.options@.len(),
    {
        let f = self.filtered();
        if self.idx < f.len() {
            Some(f[self.idx].0)
        } else {
            None
        }
    }

    /// Append a type-ahead character; the highlight jumps to the first match.
    pub fn filter_push(&mut self, c: char)
        ensures
            final(self).filter@ == old(self).filter@.push(c),
            final(self).idx == 0,
            final(self).options == old(self).options,
            final(self).multi_selected == old(self).multi_selected,
            final(self).priority_issue == old(self).priority_issue,
            final(self).label_issue == old(self).label_issue,
    {
        string_push(&mut self.filter, c);
        self.idx = 0;
    }

    /// Keep the highlight inside the filtered view (at 0 when it is empty).
    fn clamp_idx(&mut self)
        ensures
            final(self).idx == (if old(self).idx >= old(self).shown().len() {
                if old(self).shown().len() == 0 {
                    0
                } else {
                    (old(self).shown().len() - 1) as int
                }
            } else {
                old(self).idx as int
            }),
            final(self).filter == old(self).filter,
            final(self).options == old(self).options,
            final(self).multi_selected == old(self).multi_selected,
            final(self).priority_issue == old(self).priority_issue,
            final(self).label_issue == old(self).label_issue,
            old(self).filter@.len() == 0 ==> old(self).shown().len() == old(self).options@.len(),
    {
        let len = self.filtered().len();
        if self.idx >= len {
            self.idx = if len == 0 {
                0
            } else {
                len - 1
            };
        }
    }

    /// Drop the last filter character and keep the highlight in range.
    pub fn filter_backspace(&mut self)
        ensures
            final(self).filter@ == (if old(self).filter@.len() == 0 {
                old(self).filter@
            } else {
                old(self).filter@.drop_last()
            }),
            final(self).options == old(self).options,
            final(self).idx == clamp_index(old(self).idx as int, final(self).shown().len() as int),
            final(self).shown().len() > 0 ==> final(self).idx < final(self).shown().len(),
            final(self).shown().len() == 0 ==> final(self).idx == 0,
            final(self).idx <= old(self).idx,
            final(self).multi_selected == old(self).multi_selected,
            final(self).priority_issue == old(self).priority_issue,
            final(self).label_issue == old(self).label_issue,
    {
        let v = chars_of(self.filter.as_str());
        if v.len() > 0 {
            let keep = v.len() - 1;
            let mut shorter: Vec<char> = Vec::new();
            let mut i: usize = 0;
            while i < keep
                invariant
                    keep == v@.len() - 1,
                    i <= keep,
                    shorter@ == v@.subrange(0, i as int),
                decreases keep - i,
            {
                shorter.push(v[i]);
                i += 1;
            }
            assert(shorter@ =~= v@.drop_last());
            self.filter = string_of(&shorter);
        }
        self.clamp_idx();
    }

    /// Clear the filter; the highlight is kept in range of the full list.
    pub fn filter_clear(&mut self)
        ensures
            final(self).filter@.len() == 0,
            final(self).options == old(self).options,
            final(self).idx == clamp_index(old(self).idx as int, final(self).shown().len() as int),
            final(self).options@.len() > 0 ==> final(self).idx < final(self).options@.len(),
            final(self).options@.len() == 0 ==> final(self).idx == 0,
            final(self).multi_selected == old(self).multi_selected,
            final(self).priority_issue == old(self).priority_issue,
            final(self).label_issue == old(self).label_issue,
    {
        self.filter = String::new();
        self.clamp_idx();
    }

    /// Toggle `orig` in the multi-select set.
    pub fn toggle_multi(&mut self, orig: usize)
        ensures
            old(self).multi_selected@.contains(orig) ==> final(self).multi_selected@ == old(
                self,
            ).multi_selected@.remove(orig),
            !old(self).multi_selected@.contains(orig) ==> final(self).multi_selected@ == old(
                self,
            ).multi_selected@.insert(orig),
            *final(self) == (PickerState { multi_selected: final(self).multi_selected, ..*old(self) }),
    {
        if !self.multi_selected.remove(&orig) {
            self.multi_selected.insert(orig);
        }
    }
}

impl Default for PickerState {
    fn default() -> (r: PickerState)
        ensures
            r.options@.len() == 0,
            r.idx == 0,
            r.filter@.len() == 0,
            r.multi_selected@ == Set::<usize>::empty(),
            r.priority_issue.is_none(),
            r.label_issue.is_none(),
    {
        PickerState::new()
    }
}

/// A copy of a set of positions.
pub fn copy_set(s: &HashSet<usize>) -> (r: HashSet<usize>)
    ensures
        r@ == s@,
{
    let mut out: HashSet<usize> = HashSet::new();
    let ghost keys = vstd::std_specs::iter::IteratorSpec::remaining(
        &vstd::std_specs::hash::spec_hash_keys_iter(s),
    ).unref();
    assert(keys.to_set() == s@);
    for k in it: s.iter()
        invariant
            keys.to_set() == s@,
            it.seq().unref() == keys,
            out@ == keys.take(it.index() as int).to_set(),
    {
        proof {
            assert(keys.take(it.index() + 1) =~= keys.take(it.index() as int).push(*k));
        }
        out.insert(*k);
        proof {
            assert(out@ =~= keys.take(it.index() + 1).to_set()) by {
                keys.take(it.index() as int).lemma_push_to_set_commute(*k);
            }
        }
    }
    assert(keys.take(keys.len() as int) =~= keys);
    out
}

} // verus!
