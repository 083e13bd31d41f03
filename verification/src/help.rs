//! State for the in-app help viewer: which page is open, where closing
//! returns to, how far it is scrolled, and how a status line reads.
use vstd::prelude::*;

use crate::detail::clamp_int;
use crate::mode::Mode;

verus! {

/// A page of the help viewer.
#[derive(Debug, Clone, Copy, PartialEq, Eq, Structural)]
pub enum HelpTopic {
    /// The key table.
    Keys,
    /// Semantic search.
    Search,
    /// The ticket-readiness badge.
    Readiness,
    /// Inferred priority ranks and the priority picker.
    Priority,
    /// Setup and disclosure for the remote-assist features.
    TypeSafe,
}

/// Number of help pages.
pub const HELP_TOPIC_COUNT: usize = 5;

/// Position of a page on the topic strip.
pub open spec fn topic_pos(t: HelpTopic) -> int {
    match t {
        HelpTopic::Keys => 0,
        HelpTopic::Search => 1,
        HelpTopic::Readiness => 2,
        HelpTopic::Priority => 3,
        HelpTopic::TypeSafe => 4,
    }
}

/// The page at strip position `p` (for `0 <= p < 5`).
pub open spec fn topic_at(p: int) -> HelpTopic {
    if p == 0 {
        HelpTopic::Keys
    } else if p == 1 {
        HelpTopic::Search
    } else if p == 2 {
        HelpTopic::Readiness
    } else if p == 3 {
        HelpTopic::Priority
    } else {
        HelpTopic::TypeSafe
    }
}

impl HelpTopic {
    /// The pages in strip order.
    pub fn all() -> (r: [HelpTopic; 5])
        ensures
            forall|i: int| 0 <= i < 5 ==> #[trigger] r@[i] == topic_at(i),
    {
        [
            HelpTopic::Keys,
            HelpTopic::Search,
            HelpTopic::Readiness,
            HelpTopic::Priority,
            HelpTopic::TypeSafe,
        ]
    }

    /// The name on the topic strip.
    pub fn title(self) -> (r: &'static str)
        ensures
            self == HelpTopic::Keys ==> r@ == "keys"@,
            self == HelpTopic::Search ==> r@ == "search"@,
            self == HelpTopic::Readiness ==> r@ == "readiness"@,
            self == HelpTopic::Priority ==> r@ == "priority"@,
            self == HelpTopic::TypeSafe ==> r@ == "typesafe"@,
    {
        match self {
            HelpTopic::Keys => "keys",
            HelpTopic::Search => "search",
            HelpTopic::Readiness => "readiness",
            HelpTopic::Priority => "priority",
            HelpTopic::TypeSafe => "typesafe",
        }
    }

    /// The page `delta` places along the strip, wrapping at both ends.
    pub fn step(self, delta: isize) -> (r: HelpTopic)
        ensures
            r == topic_at((topic_pos(self) + delta) % 5),
    {
        let at: i128 = match self {
            HelpTopic::Keys => 0,
            HelpTopic::Search => 1,
            HelpTopic::Readiness => 2,
            HelpTopic::Priority => 3,
            HelpTopic::TypeSafe => 4,
        };
        let sum: i128 = at + delta as i128;
        let p: i128 = match sum.checked_rem_euclid(5) {
            Some(v) => v,
            None => 0,
        };
        let all = HelpTopic::all();
        all[p as usize]
    }
}

/// Stepping forward then back along the strip returns to the same page.
pub proof fn law_step_round_trip(t: HelpTopic)
    ensures
        topic_at((topic_pos(topic_at((topic_pos(t) + 1) % 5)) - 1) % 5) == t,
{
}

/// How one line of the status block reads.
#[derive(Debug, Clone, Copy, PartialEq, Eq, Structural)]
pub enum Tone {
    On,
    Off,
    Failed,
}

/// One row of the live-status block a help page opens with.
#[derive(Debug, Clone, PartialEq, Eq)]
pub struct StatusLine {
    pub label: &'static str,
    pub value: String,
    pub tone: Tone,
}

/// The viewer's own state; the page lives in the mode.
#[derive(Debug)]
pub struct HelpState {
    /// The mode help was opened from, restored on close.
    pub return_to: Mode,
    pub scroll: u16,
}

impl HelpState {
    pub fn new() -> (r: HelpState)
        ensures
            r.return_to == Mode::Normal,
            r.scroll == 0,
    {
        HelpState { return_to: Mode::Normal, scroll: 0 }
    }

    /// Move the viewport by `delta` rows, clamped to `0..=max`.
    pub fn scroll_by(&mut self, delta: i16, max: u16)
        ensures
            final(self).scroll == clamp_int(old(self).scroll + delta, 0, max as int),
            final(self).return_to == old(self).return_to,
    {
        let moved: i32 = self.scroll as i32 + delta as i32;
        let sat: u16 = if moved < 0 {
            0
        } else if moved > 65535 {
            65535
        } else {
            moved as u16
        };
        self.scroll = if sat < max {
            sat
        } else {
            max
        };
    }
}

impl Default for HelpState {
    fn default() -> (r: HelpState)
        ensures
            r.return_to == Mode::Normal,
            r.scroll == 0,
    {
        HelpState::new()
    }
}

} // verus!
