//! The PR summary popup's state: the links found on the issue, which PR is
//! being fetched or shown, and the popup's scroll and selection.
use vstd::prelude::*;

use crate::detail::clamp_int;
use crate::mode::PrTarget;
use crate::types::{PrRef, PrSummary};

verus! {

#[derive(Debug)]
pub struct PrState {
    /// Candidate PR links, populated when more than one is found.
    pub links: Vec<PrRef>,
    /// The PR currently being fetched or shown.
    pub target: Option<PrRef>,
    /// `None` while the summary fetch for `target` is in flight.
    pub summary: Option<Result<PrSummary, String>>,
    pub scroll: u16,
    /// Index of the open-able row that `o`/Enter opens.
    pub sel: usize,
}

/// `Some(pr)` names the same pull request as `target`.
pub open spec fn targets(target: Option<PrRef>, pr: PrRef) -> bool {
    match target {
        Some(t) => t.same(&pr),
        None => false,
    }
}

impl PrState {
    pub fn new() -> (r: PrState)
        ensures
            r.links@.len() == 0,
            r.target.is_none(),
            r.summary.is_none(),
            r.scroll == 0,
            r.sel == 0,
    {
        PrState { links: Vec::new(), target: None, summary: None, scroll: 0, sel: 0 }
    }

    /// The rendered summary and the position within it are discarded.
    fn reset_view(&mut self)
        ensures
            final(self).summary.is_none(),
            final(self).scroll == 0,
            final(self).sel == 0,
            final(self).links == old(self).links,
            final(self).target == old(self).target,
    {
        self.summary = None;
        self.scroll = 0;
        self.sel = 0;
    }

    /// Show a single PR: set the target and reset the view to loading.
    pub fn open(&mut self, pr: PrRef)
        ensures
            final(self).target == Some(pr),
            final(self).summary.is_none(),
            final(self).scroll == 0,
            final(self).sel == 0,
            final(self).links == old(self).links,
    {
        self.target = Some(pr);
        self.reset_view();
    }

    /// Close the summary popup; the discovered links stay.
    pub fn close(&mut self)
        ensures
            final(self).target.is_none(),
            final(self).summary.is_none(),
            final(self).scroll == 0,
            final(self).sel == 0,
            final(self).links == old(self).links,
    {
        self.target = None;
        self.reset_view();
    }

    /// Re-fetch in place: the target stays so the response still matches.
    pub fn refresh(&mut self)
        ensures
            final(self).target == old(self).target,
            final(self).summary.is_none(),
            final(self).scroll == 0,
            final(self).sel == 0,
            final(self).links == old(self).links,
    {
        self.reset_view();
    }

    /// Deliver a fetch; dropped unless `pr` is still the target.
    pub fn set_summary(&mut self, pr: &PrRef, result: Result<PrSummary, String>)
        ensures
            targets(old(self).target, *pr) ==> final(self).summary == Some(result),
            !targets(old(self).target, *pr) ==> final(self).summary == old(self).summary,
            final(self).target == old(self).target,
            final(self).links == old(self).links,
            final(self).scroll == old(self).scroll,
            final(self).sel == old(self).sel,
    {
        let matches = match &self.target {
            Some(t) => t.equals(pr),
            None => false,
        };
        if matches {
            self.summary = Some(result);
        }
    }

    /// Tab / Shift+Tab: cycle the selection among the open-able rows,
    /// wrapping at both ends, and snap the scroll to the selected row.
    pub fn select(&mut self, delta: isize, targets: &[PrTarget])
        ensures
            targets@.len() == 0 ==> final(self).sel == old(self).sel && final(self).scroll
                == old(self).scroll,
            targets@.len() > 0 ==> {
                &&& final(self).sel == (old(self).sel + delta) % (targets@.len() as int)
                &&& final(self).scroll == targets@[final(self).sel as int].line
            },
            final(self).target == old(self).target,
            final(self).links == old(self).links,
            final(self).summary == old(self).summary,
    {
        if targets.len() == 0 {
            return;
        }
        let n: i128 = targets.len() as i128;
        let sum: i128 = self.sel as i128 + delta as i128;
        let next: i128 = match sum.checked_rem_euclid(n) {
            Some(v) => v,
            None => 0,
        };
        assert(0 <= next < n);
        let i = next as usize;
        self.sel = i;
        self.scroll = targets[i].line;
    }

    /// `j`/`k`: move by `delta` rows, never above the top nor past `max`.
    pub fn scroll_by(&mut self, delta: i16, max: u16)
        ensures
            final(self).scroll == clamp_int(old(self).scroll + delta, 0, max as int),
            final(self).sel == old(self).sel,
            final(self).target == old(self).target,
            final(self).links == old(self).links,
            final(self).summary == old(self).summary,
    {
        let moved: u16 = if delta < 0 {
            let d: u16 = (0 - (delta as i32)) as u16;
            self.scroll.saturating_sub(d)
        } else {
            self.scroll.saturating_add(delta as u16)
        };
        self.scroll = if moved < max {
            moved
        } else {
            max
        };
    }

    /// Pull the scroll back inside the content.
    pub fn clamp_scroll(&mut self, max: u16)
        ensures
            final(self).scroll == (if old(self).scroll < max { old(self).scroll } else { max }),
            final(self).sel == old(self).sel,
            final(self).target == old(self).target,
            final(self).links == old(self).links,
            final(self).summary == old(self).summary,
    {
        if self.scroll > max {
            self.scroll = max;
        }
    }

    /// Home: jump to the first row; the selection stays.
    pub fn scroll_to_top(&mut self)
        ensures
            final(self).scroll == 0,
            final(self).sel == old(self).sel,
            final(self).target == old(self).target,
            final(self).links == old(self).links,
            final(self).summary == old(self).summary,
    {
        self.scroll = 0;
    }

    /// End: jump to the row past which only blank space remains.
    pub fn scroll_to_bottom(&mut self, max: u16)
        ensures
            final(self).scroll == max,
            final(self).sel == old(self).sel,
            final(self).target == old(self).target,
            final(self).links == old(self).links,
            final(self).summary == old(self).summary,
    {
        self.scroll = max;
    }

    /// URL the selected row would open.
    pub fn selected_url(&self, targets: &[PrTarget]) -> (r: Option<String>)
        ensures
            self.sel < targets@.len() ==> r == Some(targets@[self.sel as int].url),
            self.sel >= targets@.len() ==> r.is_none(),
    {
        if self.sel < targets.len() {
            Some(targets[self.sel].url.clone())
        } else {
            None
        }
    }
}

impl Default for PrState {
    fn default() -> (r: PrState)
        ensures
            r.links@.len() == 0,
            r.target.is_none(),
            r.summary.is_none(),
            r.scroll == 0,
            r.sel == 0,
    {
        PrState::new()
    }
}

/// With at least one target, any selection step lands on a target, whatever
/// the selection and the step were.
pub proof fn law_select_in_range(sel: int, delta: int, n: int)
    requires
        n > 0,
    ensures
        0 <= (sel + delta) % n < n,
{
}

} // verus!
