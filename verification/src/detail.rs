//! The detail pane's state: whether it is open, which region has the
//! keyboard selection, the loaded comment thread, and the two regions'
//! scroll offsets.
use vstd::prelude::*;

use crate::mode::DetailSel;
use crate::types::Comment;

verus! {

/// `x` clamped into `[lo, hi]` (for `lo <= hi`).
pub open spec fn clamp_int(x: int, lo: int, hi: int) -> int {
    if x < lo {
        lo
    } else if x > hi {
        hi
    } else {
        x
    }
}

/// Position of a selection in the cycle `Body, Comment(0), …`.
pub open spec fn sel_pos(sel: DetailSel) -> int {
    match sel {
        DetailSel::Body => 0,
        DetailSel::Comment(i) => i + 1,
    }
}

/// The selection at cycle position `p` (`p >= 0`).
pub open spec fn sel_at(p: int) -> DetailSel {
    if p <= 0 {
        DetailSel::Body
    } else {
        DetailSel::Comment((p - 1) as usize)
    }
}

/// Number of `\n` characters in `s`.
pub open spec fn newlines(s: Seq<char>) -> nat
    decreases s.len(),
{
    if s.len() == 0 {
        0
    } else {
        newlines(s.drop_last()) + if s.last() == '\n' {
            1nat
        } else {
            0nat
        }
    }
}

/// Number of lines `str::lines` yields: a final newline ends the last line
/// rather than starting an empty one.
pub open spec fn line_count(s: Seq<char>) -> nat {
    if s.len() == 0 {
        0
    } else if s.last() == '\n' {
        newlines(s)
    } else {
        newlines(s) + 1
    }
}

pub proof fn lemma_newlines_bound(s: Seq<char>)
    ensures
        newlines(s) <= s.len(),
    decreases s.len(),
{
    if s.len() > 0 {
        lemma_newlines_bound(s.drop_last());
    }
}

/// Lines one rendered comment card takes: a header rule, one line per body
/// line, a bottom rule and a trailing blank.
pub fn comment_card_lines(c: &Comment) -> (r: usize)
    requires
        c.body@.len() + 3 <= usize::MAX,
    ensures
        r == 3 + line_count(c.body@),
{
    let v = crate::text::chars_of(c.body.as_str());
    let mut n: usize = 0;
    let mut i: usize = 0;
    while i < v.len()
        invariant
            v@ == c.body@,
            i <= v@.len(),
            n == newlines(v@.subrange(0, i as int)),
            n <= i,
            v@.len() + 3 <= usize::MAX,
        decreases v@.len() - i,
    {
        assert(v@.subrange(0, i + 1).drop_last() =~= v@.subrange(0, i as int));
        if v[i] == '\n' {
            n += 1;
        }
        i += 1;
    }
    assert(v@.subrange(0, v@.len() as int) =~= v@);
    if v.len() == 0 {
        3
    } else if v[v.len() - 1] == '\n' {
        3 + n
    } else {
        proof {
            lemma_newlines_bound(v@.drop_last());
        }
        4 + n
    }
}

/// A card selection kept inside a thread of `n` comments: past the end
/// falls back to the last comment, an empty thread to the body.
pub open spec fn clamped_sel(sel: DetailSel, n: nat) -> DetailSel {
    match sel {
        DetailSel::Body => DetailSel::Body,
        DetailSel::Comment(i) => if n == 0 {
            DetailSel::Body
        } else if i >= n {
            DetailSel::Comment((n - 1) as usize)
        } else {
            DetailSel::Comment(i)
        },
    }
}

/// The pane's state; `Default` is what a closed pane looks like.
#[derive(Debug)]
pub struct DetailState {
    pub open: bool,
    pub sel: DetailSel,
    pub comments: Option<Vec<Comment>>,
    pub body_scroll: u16,
    pub comments_scroll: u16,
}

impl DetailState {
    /// Number of loaded comments: 0 while they are fetching or absent.
    pub open spec fn spec_comment_count(&self) -> nat {
        match self.comments {
            Some(v) => v@.len(),
            None => 0,
        }
    }

    pub fn new() -> (r: DetailState)
        ensures
            !r.open,
            r.sel == DetailSel::Body,
            r.comments.is_none(),
            r.body_scroll == 0,
            r.comments_scroll == 0,
    {
        DetailState {
            open: false,
            sel: DetailSel::Body,
            comments: None,
            body_scroll: 0,
            comments_scroll: 0,
        }
    }

    /// Reset the selection and both scroll offsets to the top.
    pub fn reset_scroll(&mut self)
        ensures
            final(self).sel == DetailSel::Body,
            final(self).body_scroll == 0,
            final(self).comments_scroll == 0,
            final(self).open == old(self).open,
            final(self).comments == old(self).comments,
    {
        self.sel = DetailSel::Body;
        self.body_scroll = 0;
        self.comments_scroll = 0;
    }

    pub fn comment_count(&self) -> (r: usize)
        ensures
            r == self.spec_comment_count(),
    {
        match &self.comments {
            Some(v) => v.len(),
            None => 0,
        }
    }

    /// Tab (`delta = 1`) / Shift+Tab (`delta = -1`): cycle the selection
    /// through `Body → Comment(0) → … → Comment(n-1)` and wrap.
    pub fn select(&mut self, delta: isize)
        ensures
            final(self).sel == sel_at(
                (sel_pos(old(self).sel) + delta) % ((old(self).spec_comment_count() + 1) as int),
            ),
            final(self).open == old(self).open,
            final(self).comments == old(self).comments,
            final(self).body_scroll == old(self).body_scroll,
            final(self).comments_scroll == old(self).comments_scroll,
    {
        let n = self.comment_count();
        let total: i128 = n as i128 + 1;
        let cur: i128 = match self.sel {
            DetailSel::Body => 0,
            DetailSel::Comment(i) => i as i128 + 1,
        };
        let sum: i128 = cur + delta as i128;
        let next: i128 = match sum.checked_rem_euclid(total) {
            Some(v) => v,
            None => 0,
        };
        assert(next == sum % total);
        assert(0 <= next < total);
        self.sel = if next == 0 {
            DetailSel::Body
        } else {
            DetailSel::Comment((next - 1) as usize)
        };
    }

    /// Keep the selection valid after a new thread lands: past the end falls
    /// back to the last comment, an empty thread falls back to the body.
    pub fn clamp_sel(&mut self)
        ensures
            final(self).sel == clamped_sel(old(self).sel, old(self).spec_comment_count()),
            final(self).open == old(self).open,
            final(self).comments == old(self).comments,
            final(self).body_scroll == old(self).body_scroll,
            final(self).comments_scroll == old(self).comments_scroll,
    {
        if let DetailSel::Comment(i) = self.sel {
            let n = self.comment_count();
            self.sel = if n == 0 {
                DetailSel::Body
            } else if i >= n {
                DetailSel::Comment(n - 1)
            } else {
                DetailSel::Comment(i)
            };
        }
    }

    /// Scroll the body region, clamped to `[0, max]`.
    pub fn scroll_body(&mut self, delta: isize, max: u16)
        ensures
            final(self).body_scroll == clamp_int(old(self).body_scroll + delta, 0, max as int),
            final(self).sel == old(self).sel,
            final(self).open == old(self).open,
            final(self).comments == old(self).comments,
            final(self).comments_scroll == old(self).comments_scroll,
    {
        let next: i128 = self.body_scroll as i128 + delta as i128;
        self.body_scroll = if next < 0 {
            0
        } else if next > max as i128 {
            max
        } else {
            next as u16
        };
    }

    /// Scroll within the selected comment: clamped to `[lo, max(hi, lo)]`, so
    /// a comment that fits does not scroll.
    pub fn scroll_comment(&mut self, delta: isize, lo: u16, hi: u16)
        ensures
            final(self).comments_scroll == clamp_int(
                old(self).comments_scroll + delta,
                lo as int,
                if hi < lo { lo as int } else { hi as int },
            ),
            final(self).sel == old(self).sel,
            final(self).open == old(self).open,
            final(self).comments == old(self).comments,
            final(self).body_scroll == old(self).body_scroll,
    {
        let top: u16 = if hi < lo { lo } else { hi };
        let next: i128 = self.comments_scroll as i128 + delta as i128;
        self.comments_scroll = if next < lo as i128 {
            lo
        } else if next > top as i128 {
            top
        } else {
            next as u16
        };
    }

    /// Snap the comments viewport so offset `top` sits at the region's top.
    pub fn snap_comment(&mut self, top: u16)
        ensures
            final(self).comments_scroll == top,
            final(self).sel == old(self).sel,
            final(self).open == old(self).open,
            final(self).comments == old(self).comments,
            final(self).body_scroll == old(self).body_scroll,
    {
        self.comments_scroll = top;
    }
}

impl Default for DetailState {
    fn default() -> (r: DetailState)
        ensures
            !r.open,
            r.sel == DetailSel::Body,
            r.comments.is_none(),
            r.body_scroll == 0,
            r.comments_scroll == 0,
    {
        DetailState::new()
    }
}

/// Cycling the selection forward once and back once returns to where it
/// started, for any thread length and any valid selection.
pub proof fn law_select_round_trip(sel: DetailSel, n: nat)
    requires
        sel_pos(sel) <= n,
        n <= usize::MAX,
    ensures
        sel_at((sel_pos(sel_at((sel_pos(sel) + 1) % ((n + 1) as int))) - 1) % ((n + 1) as int)) == sel,
{
    let p = sel_pos(sel);
    let q = (p + 1) % ((n + 1) as int);
    assert(0 <= q <= n);
    assert(sel_pos(sel_at(q)) == q);
    if p == n {
        vstd::arithmetic::div_mod::lemma_mod_self_0((n + 1) as int);
        assert(q == 0);
        vstd::arithmetic::div_mod::lemma_mod_add_multiples_vanish(-1, (n + 1) as int);
        vstd::arithmetic::div_mod::lemma_small_mod(n, (n + 1) as nat);
        assert((q - 1) % ((n + 1) as int) == n);
    } else {
        assert(q == p + 1) by (nonlinear_arith)
            requires
                q == (p + 1) % ((n + 1) as int),
                0 <= p < n,
        {
            vstd::arithmetic::div_mod::lemma_small_mod((p + 1) as nat, (n + 1) as nat);
        }
        assert((q - 1) % ((n + 1) as int) == p) by {
            vstd::arithmetic::div_mod::lemma_small_mod(p as nat, (n + 1) as nat);
        }
    }
    match sel {
        DetailSel::Body => {},
        DetailSel::Comment(i) => {},
    }
}

/// A selection cycle always lands on the body or on a loaded comment.
pub proof fn law_select_stays_in_thread(p: int, delta: int, n: nat)
    ensures
        sel_pos(sel_at((p + delta) % ((n + 1) as int))) <= n,
{
    let q = (p + delta) % ((n + 1) as int);
    assert(0 <= q <= n);
}

} // verus!
