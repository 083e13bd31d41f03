//! The text editors: a single-line input and a multi-line body editor, plus
//! the word-wrap geometry both the renderer and the key handlers share.
//!
//! Positions are character indices, never bytes, so multi-byte text edits
//! safely. A cursor past the end of the text counts as the end wherever the
//! editors read it.
use vstd::prelude::*;

use crate::text::{
    chars_of, char_count, is_whitespace, is_ws, join, join_strings, owned, split, split_chars,
    string_of, string_of_range, string_push, string_push_str, trim, trim_str, u64_to_string,
    decimal, lemma_split_len,
};
use crate::sorting::views;
use crate::mode::{CommentFocus, EditorTarget};

verus! {

broadcast use vstd::string::group_string_axioms;

/// Start of the whitespace run that ends at `i` (moving left).
pub open spec fn skip_ws_back(s: Seq<char>, i: int) -> int
    decreases i,
{
    if i > 0 && i <= s.len() && is_ws(s[i - 1]) {
        skip_ws_back(s, i - 1)
    } else {
        i
    }
}

/// Start of the non-whitespace run that ends at `i` (moving left).
pub open spec fn skip_word_back(s: Seq<char>, i: int) -> int
    decreases i,
{
    if i > 0 && i <= s.len() && !is_ws(s[i - 1]) {
        skip_word_back(s, i - 1)
    } else {
        i
    }
}

/// Ctrl+←: the start of the current or previous whitespace-delimited word.
pub open spec fn word_left_pos(s: Seq<char>, i: int) -> int {
    skip_word_back(s, skip_ws_back(s, i))
}

pub open spec fn skip_ws_fwd(s: Seq<char>, i: int) -> int
    decreases s.len() - i,
{
    if 0 <= i < s.len() && is_ws(s[i]) {
        skip_ws_fwd(s, i + 1)
    } else {
        i
    }
}

pub open spec fn skip_word_fwd(s: Seq<char>, i: int) -> int
    decreases s.len() - i,
{
    if 0 <= i < s.len() && !is_ws(s[i]) {
        skip_word_fwd(s, i + 1)
    } else {
        i
    }
}

/// Ctrl+→: the end of the current or next word.
pub open spec fn word_right_pos(s: Seq<char>, i: int) -> int {
    skip_word_fwd(s, skip_ws_fwd(s, i))
}

pub proof fn lemma_back_bounds(s: Seq<char>, i: int)
    requires
        0 <= i <= s.len(),
    ensures
        0 <= skip_ws_back(s, i) <= i,
        0 <= skip_word_back(s, i) <= i,
        0 <= word_left_pos(s, i) <= i,
    decreases i,
{
    if i > 0 {
        lemma_back_bounds(s, i - 1);
    }
    let j = skip_ws_back(s, i);
    if j < i {
        lemma_back_bounds(s, j);
    }
}

pub proof fn lemma_fwd_bounds(s: Seq<char>, i: int)
    requires
        0 <= i,
    ensures
        i <= skip_ws_fwd(s, i),
        i <= skip_word_fwd(s, i),
        i <= word_right_pos(s, i),
        i <= s.len() ==> skip_ws_fwd(s, i) <= s.len() && skip_word_fwd(s, i) <= s.len()
            && word_right_pos(s, i) <= s.len(),
    decreases s.len() - i,
{
    if i < s.len() {
        lemma_fwd_bounds(s, i + 1);
    }
    let j = skip_ws_fwd(s, i);
    if j > i {
        lemma_fwd_bounds(s, j);
    }
}

/// A single-line text input with a character cursor.
#[derive(Debug)]
pub struct InputState {
    pub buffer: String,
    pub cursor: usize,
}

/// `x` clamped to at most `n`.
pub open spec fn at_most(x: int, n: int) -> int {
    if x < n {
        x
    } else {
        n
    }
}

impl InputState {
    pub fn new() -> (r: InputState)
        ensures
            r.buffer@.len() == 0,
            r.cursor == 0,
    {
        InputState { buffer: String::new(), cursor: 0 }
    }

    /// Open the input on `initial`, cursor at its end.
    pub fn start(&mut self, initial: &str)
        ensures
            final(self).buffer@ == initial@,
            final(self).cursor == initial@.len(),
    {
        self.buffer = owned(initial);
        self.cursor = char_count(initial);
    }

    /// Type `c` at the cursor.
    pub fn insert(&mut self, c: char)
        requires
            old(self).cursor < usize::MAX,
        ensures
            final(self).buffer@ == old(self).buffer@.insert(
                at_most(old(self).cursor as int, old(self).buffer@.len() as int),
                c,
            ),
            final(self).cursor == old(self).cursor + 1,
    {
        let mut v = chars_of(self.buffer.as_str());
        let b = if self.cursor < v.len() {
            self.cursor
        } else {
            v.len()
        };
        v.insert(b, c);
        self.buffer = string_of(&v);
        self.cursor = self.cursor + 1;
    }

    /// Delete the character before the cursor.
    pub fn backspace(&mut self)
        requires
            old(self).cursor <= old(self).buffer@.len(),
        ensures
            old(self).cursor > 0 ==> final(self).buffer@ == old(self).buffer@.remove(
                old(self).cursor - 1,
            ) && final(self).cursor == old(self).cursor - 1,
            old(self).cursor == 0 ==> final(self).buffer@ == old(self).buffer@ && final(self).cursor
                == 0,
    {
        if self.cursor > 0 {
            self.cursor = self.cursor - 1;
            let mut v = chars_of(self.buffer.as_str());
            v.remove(self.cursor);
            self.buffer = string_of(&v);
        }
    }

    pub fn left(&mut self)
        ensures
            final(self).buffer@ == old(self).buffer@,
            final(self).cursor == if old(self).cursor > 0 {
                old(self).cursor - 1
            } else {
                0
            },
    {
        if self.cursor > 0 {
            self.cursor = self.cursor - 1;
        }
    }

    pub fn right(&mut self)
        requires
            old(self).cursor < usize::MAX,
        ensures
            final(self).buffer@ == old(self).buffer@,
            final(self).cursor == at_most(old(self).cursor + 1, old(self).buffer@.len() as int),
    {
        let n = char_count(self.buffer.as_str());
        let c = self.cursor + 1;
        self.cursor = if c < n {
            c
        } else {
            n
        };
    }

    /// Delete/Ctrl+D: remove the character under the cursor.
    pub fn delete_char(&mut self)
        ensures
            final(self).cursor == old(self).cursor,
            final(self).buffer@ == if old(self).cursor < old(self).buffer@.len() {
                old(self).buffer@.remove(old(self).cursor as int)
            } else {
                old(self).buffer@
            },
    {
        let mut v = chars_of(self.buffer.as_str());
        if self.cursor < v.len() {
            v.remove(self.cursor);
            self.buffer = string_of(&v);
        }
    }

    pub fn home(&mut self)
        ensures
            final(self).buffer@ == old(self).buffer@,
            final(self).cursor == 0,
    {
        self.cursor = 0;
    }

    pub fn end(&mut self)
        ensures
            final(self).buffer@ == old(self).buffer@,
            final(self).cursor == old(self).buffer@.len(),
    {
        self.cursor = char_count(self.buffer.as_str());
    }

    /// Ctrl+←: to the start of the current or previous word
    /// (whitespace-delimited).
    pub fn word_left(&mut self)
        requires
            old(self).cursor <= old(self).buffer@.len(),
        ensures
            final(self).buffer@ == old(self).buffer@,
            final(self).cursor == word_left_pos(old(self).buffer@, old(self).cursor as int),
    {
        let chars = chars_of(self.buffer.as_str());
        let ghost s = chars@;
        let mut i = self.cursor;
        while i > 0 && is_whitespace(chars[i - 1])
            invariant
                i <= chars.len(),
                skip_ws_back(s, self.cursor as int) == skip_ws_back(s, i as int),
                s == chars@,
            decreases i,
        {
            i -= 1;
        }
        let ghost mid = i;
        while i > 0 && !is_whitespace(chars[i - 1])
            invariant
                i <= chars.len(),
                skip_word_back(s, mid as int) == skip_word_back(s, i as int),
                s == chars@,
            decreases i,
        {
            i -= 1;
        }
        self.cursor = i;
    }

    /// Ctrl+→: to the end of the current or next word.
    pub fn word_right(&mut self)
        ensures
            final(self).buffer@ == old(self).buffer@,
            old(self).cursor <= old(self).buffer@.len() ==> final(self).cursor == word_right_pos(
                old(self).buffer@,
                old(self).cursor as int,
            ),
            old(self).cursor > old(self).buffer@.len() ==> final(self).cursor == old(self).cursor,
    {
        let chars = chars_of(self.buffer.as_str());
        let ghost s = chars@;
        let mut i = self.cursor;
        while i < chars.len() && is_whitespace(chars[i])
            invariant
                self.cursor <= i,
                self.cursor <= chars.len() ==> i <= chars.len(),
                self.cursor > chars.len() ==> i == self.cursor,
                skip_ws_fwd(s, self.cursor as int) == skip_ws_fwd(s, i as int),
                s == chars@,
            decreases chars.len() - i,
        {
            i += 1;
        }
        let ghost mid = i;
        while i < chars.len() && !is_whitespace(chars[i])
            invariant
                mid <= i,
                self.cursor <= chars.len() ==> i <= chars.len(),
                self.cursor > chars.len() ==> i == self.cursor,
                skip_word_fwd(s, mid as int) == skip_word_fwd(s, i as int),
                s == chars@,
            decreases chars.len() - i,
        {
            i += 1;
        }
        self.cursor = i;
    }

    /// Ctrl+W: delete the word before the cursor (and the whitespace between
    /// it and the cursor).
    pub fn delete_word_back(&mut self)
        requires
            old(self).cursor <= old(self).buffer@.len(),
        ensures
            final(self).cursor == word_left_pos(old(self).buffer@, old(self).cursor as int),
            final(self).buffer@ == old(self).buffer@.subrange(0, final(self).cursor as int)
                + old(self).buffer@.subrange(old(self).cursor as int, old(self).buffer@.len() as int),
    {
        let end = self.cursor;
        let ghost s = self.buffer@;
        self.word_left();
        proof {
            lemma_back_bounds(s, end as int);
        }
        let v = chars_of(self.buffer.as_str());
        let mut head = string_of_range(&v, 0, self.cursor);
        let tail = string_of_range(&v, end, v.len());
        string_push_str(&mut head, tail.as_str());
        self.buffer = head;
    }

    /// Ctrl+U: delete from the cursor back to the start of the line.
    pub fn kill_to_start(&mut self)
        ensures
            final(self).cursor == 0,
            final(self).buffer@ == old(self).buffer@.subrange(
                at_most(old(self).cursor as int, old(self).buffer@.len() as int),
                old(self).buffer@.len() as int,
            ),
    {
        let v = chars_of(self.buffer.as_str());
        let b = if self.cursor < v.len() {
            self.cursor
        } else {
            v.len()
        };
        self.buffer = string_of_range(&v, b, v.len());
        self.cursor = 0;
    }

    /// Ctrl+K: delete from the cursor to the end of the line.
    pub fn kill_to_end(&mut self)
        ensures
            final(self).cursor == old(self).cursor,
            final(self).buffer@ == old(self).buffer@.subrange(
                0,
                at_most(old(self).cursor as int, old(self).buffer@.len() as int),
            ),
    {
        let v = chars_of(self.buffer.as_str());
        let b = if self.cursor < v.len() {
            self.cursor
        } else {
            v.len()
        };
        self.buffer = string_of_range(&v, 0, b);
    }

    /// Split at the cursor: everything before stays, the tail is returned.
    pub fn split_at_cursor(&mut self) -> (tail: String)
        ensures
            final(self).cursor == old(self).cursor,
            final(self).buffer@ == old(self).buffer@.subrange(
                0,
                at_most(old(self).cursor as int, old(self).buffer@.len() as int),
            ),
            tail@ == old(self).buffer@.subrange(
                at_most(old(self).cursor as int, old(self).buffer@.len() as int),
                old(self).buffer@.len() as int,
            ),
    {
        let v = chars_of(self.buffer.as_str());
        let b = if self.cursor < v.len() {
            self.cursor
        } else {
            v.len()
        };
        let tail = string_of_range(&v, b, v.len());
        self.buffer = string_of_range(&v, 0, b);
        tail
    }
}

impl Default for InputState {
    fn default() -> (r: InputState)
        ensures
            r.buffer@.len() == 0,
            r.cursor == 0,
    {
        InputState::new()
    }
}

} // verus!

verus! {

/// One visual row of the word-wrapped body: a char range of a logical line.
#[derive(Debug, Clone, Copy, PartialEq, Eq, Structural)]
pub struct VisualRow {
    /// Index into `BodyEditor::lines`.
    pub line: usize,
    /// Char range within that line (`start..end`).
    pub start: usize,
    pub end: usize,
}

/// A visual row as `(line, start, end)`.
pub open spec fn row_of(r: VisualRow) -> (int, int, int) {
    (r.line as int, r.start as int, r.end as int)
}

pub open spec fn rows_of(rs: Seq<VisualRow>) -> Seq<(int, int, int)> {
    rs.map_values(|r: VisualRow| row_of(r))
}

/// The last whitespace position in `s[lo..hi)`, or -1 when there is none.
pub open spec fn last_ws_in(s: Seq<char>, lo: int, hi: int) -> int
    decreases hi - lo,
{
    if hi <= lo {
        -1
    } else if 0 <= hi - 1 < s.len() && is_ws(s[hi - 1]) {
        hi - 1
    } else {
        last_ws_in(s, lo, hi - 1)
    }
}

pub proof fn lemma_last_ws_in(s: Seq<char>, lo: int, hi: int)
    ensures
        last_ws_in(s, lo, hi) == -1 || (lo <= last_ws_in(s, lo, hi) < hi),
    decreases hi - lo,
{
    if hi > lo {
        lemma_last_ws_in(s, lo, hi - 1);
    }
}

/// Where a row starting at `start` breaks: after the last whitespace that
/// fits in the `width` window, else a hard break at the window's end.
pub open spec fn break_at(s: Seq<char>, start: int, width: int) -> int {
    let w = last_ws_in(s, start, start + width);
    if w >= 0 {
        w + 1
    } else {
        start + width
    }
}

/// The rows of logical line `line` (text `s`) from char `start` on.
pub open spec fn line_rows(s: Seq<char>, line: int, start: int, width: int) -> Seq<(int, int, int)>
    decreases s.len() - start,
    when width >= 1 && 0 <= start
{
    if s.len() - start <= width {
        seq![(line, start, s.len() as int)]
    } else {
        let b = break_at(s, start, width);
        proof {
            lemma_last_ws_in(s, start, start + width);
        }
        seq![(line, start, b)] + line_rows(s, line, b, width)
    }
}

/// Every logical line word-wrapped at `width`, in order.
pub open spec fn all_rows(lines: Seq<Seq<char>>, width: int) -> Seq<(int, int, int)>
    decreases lines.len(),
{
    if lines.len() == 0 {
        Seq::<(int, int, int)>::empty()
    } else {
        all_rows(lines.drop_last(), width) + line_rows(lines.last(), lines.len() - 1, 0, width)
    }
}

pub open spec fn buffers(lines: Seq<InputState>) -> Seq<Seq<char>> {
    lines.map_values(|l: InputState| l.buffer@)
}

pub open spec fn clamp_width(width: int) -> int {
    if width < 1 {
        1
    } else {
        width
    }
}

/// Word-wrap every logical line at `width` chars: break after the last
/// whitespace fitting in the window, hard-break words longer than `width`.
/// An empty line yields one empty row; `width` of 0 is treated as 1.
pub fn wrap_lines(lines: &[InputState], width: usize) -> (rows: Vec<VisualRow>)
    ensures
        rows_of(rows@) == all_rows(buffers(lines@), clamp_width(width as int)),
{
    let width: usize = if width < 1 {
        1
    } else {
        width
    };
    let ghost w = width as int;
    let ghost bufs = buffers(lines@);
    let mut rows: Vec<VisualRow> = Vec::new();
    let mut k: usize = 0;
    while k < lines.len()
        invariant
            k <= lines.len(),
            w == width as int,
            width >= 1,
            bufs == buffers(lines@),
            rows_of(rows@) == all_rows(bufs.take(k as int), w),
        decreases lines.len() - k,
    {
        let chars = chars_of(lines[k].buffer.as_str());
        assert(chars@ == bufs[k as int]);
        assert(bufs.take(k + 1).drop_last() =~= bufs.take(k as int));
        assert(bufs.take(k + 1).last() == chars@);
        let mut start: usize = 0;
        loop
            invariant_except_break
                rows_of(rows@) + line_rows(chars@, k as int, start as int, w) == all_rows(
                    bufs.take(k + 1),
                    w,
                ),
            invariant
                k < lines.len(),
                w == width as int,
                width >= 1,
                start <= chars.len(),
            ensures
                rows_of(rows@) == all_rows(bufs.take(k + 1), w),
            decreases chars.len() - start,
        {
            if chars.len() - start <= width {
                let ghost before = rows@;
                rows.push(VisualRow { line: k, start, end: chars.len() });
                assert(rows_of(rows@) =~= rows_of(before) + line_rows(chars@, k as int, start as int, w));
                break;
            }
            let window_end = start + width;
            let mut i = window_end;
            while i > start && !is_whitespace(chars[i - 1])
                invariant
                    start <= i <= window_end,
                    window_end == start + width,
                    window_end < chars.len(),
                    last_ws_in(chars@, start as int, window_end as int) == last_ws_in(
                        chars@,
                        start as int,
                        i as int,
                    ),
                decreases i,
            {
                i -= 1;
            }
            let brk = if i > start {
                i
            } else {
                window_end
            };
            assert(brk == break_at(chars@, start as int, w));
            let ghost before = rows@;
            rows.push(VisualRow { line: k, start, end: brk });
            proof {
                lemma_last_ws_in(chars@, start as int, start + w);
                assert(rows_of(rows@) =~= rows_of(before).push((k as int, start as int, brk as int)));
            }
            start = brk;
        }
        k += 1;
    }
    assert(bufs.take(lines.len() as int) =~= bufs);
    rows
}

/// Whether the cursor at char `cursor` of logical line `line` sits on visual
/// row `idx`: before the row's end, or exactly at the end of the line's final
/// row. (A cursor on a wrap boundary belongs to the next row.)
pub open spec fn on_row(rows: Seq<(int, int, int)>, line: int, cursor: int, idx: int) -> bool {
    &&& 0 <= idx < rows.len()
    &&& rows[idx].0 == line
    &&& (cursor < rows[idx].2 || (cursor == rows[idx].2 && (idx + 1 == rows.len() || rows[idx
        + 1].0 != line)))
}

/// The first row the cursor sits on.
pub open spec fn first_on_row(rows: Seq<(int, int, int)>, line: int, cursor: int, idx: int) -> bool {
    on_row(rows, line, cursor, idx) && forall|k: int| 0 <= k < idx ==> !#[trigger] on_row(
        rows,
        line,
        cursor,
        k,
    )
}

/// `(row index, column)` of the cursor: the first row holding it, or
/// `(0, 0)` when none does.
pub open spec fn cursor_pos(rows: Seq<(int, int, int)>, line: int, cursor: int) -> (int, int) {
    if exists|idx: int| first_on_row(rows, line, cursor, idx) {
        let idx = choose|idx: int| first_on_row(rows, line, cursor, idx);
        (idx, cursor - rows[idx].1)
    } else {
        (0, 0)
    }
}

/// Rows of one logical line are contiguous; a line's first row starts at
/// char 0 and each later row starts where the previous one ended.
pub open spec fn rows_chained(rows: Seq<(int, int, int)>) -> bool {
    &&& forall|i: int|
        0 <= i < rows.len() && (i == 0 || rows[i - 1].0 != rows[i].0) ==> #[trigger] rows[i].1
            == 0
    &&& forall|i: int|
        0 < i < rows.len() && rows[i - 1].0 == rows[i].0 ==> #[trigger] rows[i].1 == rows[i
            - 1].2
}

pub proof fn lemma_first_on_row_unique(rows: Seq<(int, int, int)>, line: int, cursor: int, a: int, b: int)
    requires
        first_on_row(rows, line, cursor, a),
        first_on_row(rows, line, cursor, b),
    ensures
        a == b,
{
    if a < b {
        assert(!on_row(rows, line, cursor, a));
    } else if b < a {
        assert(!on_row(rows, line, cursor, b));
    }
}

pub proof fn lemma_chained_start(rows: Seq<(int, int, int)>, line: int, cursor: int, idx: int)
    requires
        rows_chained(rows),
        cursor >= 0,
        first_on_row(rows, line, cursor, idx),
    ensures
        rows[idx].1 <= cursor,
{
    if idx > 0 && rows[idx - 1].0 == rows[idx].0 {
        assert(!on_row(rows, line, cursor, idx - 1));
        assert(rows[idx].1 == rows[idx - 1].2);
    } else {
        assert(rows[idx].1 == 0);
    }
}

/// The visual position of a cursor: `(row index, column within the row)`,
/// or `(0, 0)` when no row holds it.
pub fn cursor_row(rows: &[VisualRow], line: usize, cursor: usize) -> (r: (usize, usize))
    requires
        forall|idx: int| #[trigger]
            first_on_row(rows_of(rows@), line as int, cursor as int, idx) ==> rows@[idx].start
                <= cursor,
    ensures
        (r.0 as int, r.1 as int) == cursor_pos(rows_of(rows@), line as int, cursor as int),
{
    let ghost rs = rows_of(rows@);
    let mut idx: usize = 0;
    while idx < rows.len()
        invariant
            idx <= rows.len(),
            rs == rows_of(rows@),
            forall|k: int| 0 <= k < idx ==> !#[trigger] on_row(rs, line as int, cursor as int, k),
            forall|i: int| #[trigger]
                first_on_row(rs, line as int, cursor as int, i) ==> rows@[i].start <= cursor,
        decreases rows.len() - idx,
    {
        let row = rows[idx];
        if row.line == line {
            let line_final = idx + 1 >= rows.len() || rows[idx + 1].line != line;
            if cursor < row.end || (cursor == row.end && line_final) {
                assert(on_row(rs, line as int, cursor as int, idx as int));
                assert(first_on_row(rs, line as int, cursor as int, idx as int));
                proof {
                    let c = choose|i: int| first_on_row(rs, line as int, cursor as int, i);
                    lemma_first_on_row_unique(rs, line as int, cursor as int, c, idx as int);
                }
                return (idx, cursor - row.start);
            }
        }
        assert(!on_row(rs, line as int, cursor as int, idx as int));
        idx += 1;
    }
    assert(!exists|i: int| first_on_row(rs, line as int, cursor as int, i));
    (0, 0)
}

/// The popup's inner width: `outer` clamped to the frame, minus the borders.
pub open spec fn popup_inner(outer: int, frame: int) -> int {
    let w = if outer < frame {
        outer
    } else {
        frame
    };
    if w >= 2 {
        w - 2
    } else {
        0
    }
}

/// The single-line input popup's outer width.
pub const INPUT_POPUP_WIDTH: u16 = 60;

/// The body-editor popup's outer width.
pub const BODY_POPUP_WIDTH: u16 = 76;

pub fn input_popup_width(frame_width: u16) -> (r: u16)
    ensures
        r == popup_inner(60, frame_width as int),
{
    let w = if INPUT_POPUP_WIDTH < frame_width {
        INPUT_POPUP_WIDTH
    } else {
        frame_width
    };
    if w >= 2 {
        w - 2
    } else {
        0
    }
}

pub fn body_popup_width(frame_width: u16) -> (r: u16)
    ensures
        r == popup_inner(76, frame_width as int),
{
    let w = if BODY_POPUP_WIDTH < frame_width {
        BODY_POPUP_WIDTH
    } else {
        frame_width
    };
    if w >= 2 {
        w - 2
    } else {
        0
    }
}

/// The inline comment section's inner width: the detail pane is the right
/// 60% of the frame, minus the section's two border columns.
pub fn comment_pane_width(frame_width: u16) -> (r: u16)
    ensures
        r == if (frame_width as int) * 60 / 100 >= 2 {
            (frame_width as int) * 60 / 100 - 2
        } else {
            0
        },
{
    let right: u32 = (frame_width as u32) * 60 / 100;
    assert(right <= 65535);
    let right16 = right as u16;
    if right16 >= 2 {
        right16 - 2
    } else {
        0
    }
}

/// The char index to start displaying from so a single-line input's cursor
/// always stays within a `width`-wide window (a width of 0 counts as 1).
pub fn input_scroll_skip(cursor: usize, width: usize) -> (r: usize)
    ensures
        r == if cursor + 1 > clamp_width(width as int) {
            cursor + 1 - clamp_width(width as int)
        } else {
            0
        },
{
    let width = if width < 1 {
        1
    } else {
        width
    };
    let keep = width - 1;
    if cursor > keep {
        cursor - keep
    } else {
        0
    }
}

} // verus!

verus! {

/// Rows of one line from `start`: all on `line`, chained, inside the text,
/// and ending at the line's end.
pub proof fn lemma_line_rows(s: Seq<char>, line: int, start: int, w: int)
    requires
        w >= 1,
        0 <= start <= s.len(),
    ensures
        ({
            let rs = line_rows(s, line, start, w);
            &&& rs.len() >= 1
            &&& rs[0].1 == start
            &&& rs.last().2 == s.len()
            &&& forall|i: int| 0 <= i < rs.len() ==> (#[trigger] rs[i]).0 == line && start
                <= rs[i].1 <= rs[i].2 <= s.len()
            &&& forall|i: int| 0 < i < rs.len() ==> (#[trigger] rs[i]).1 == rs[i - 1].2
        }),
    decreases s.len() - start,
{
    if s.len() - start > w {
        let b = break_at(s, start, w);
        lemma_last_ws_in(s, start, start + w);
        lemma_line_rows(s, line, b, w);
        let rest = line_rows(s, line, b, w);
        let rs = line_rows(s, line, start, w);
        assert(rs == seq![(line, start, b)] + rest);
        assert forall|i: int| 0 < i < rs.len() implies (#[trigger] rs[i]).1 == rs[i - 1].2 by {
            if i > 1 {
                assert(rs[i] == rest[i - 1] && rs[i - 1] == rest[i - 2]);
            }
        }
        assert forall|i: int| 0 <= i < rs.len() implies (#[trigger] rs[i]).0 == line && start
            <= rs[i].1 <= rs[i].2 <= s.len() by {
            if i > 0 {
                assert(rs[i] == rest[i - 1]);
            }
        }
    }
}

/// The wrapped rows are chained, every row lies inside its line's text, and
/// line numbers never decrease.
pub proof fn lemma_all_rows(lines: Seq<Seq<char>>, w: int)
    requires
        w >= 1,
    ensures
        rows_chained(all_rows(lines, w)),
        forall|i: int|
            0 <= i < all_rows(lines, w).len() ==> 0 <= (#[trigger] all_rows(lines, w)[i]).0
                < lines.len() && 0 <= all_rows(lines, w)[i].1 <= all_rows(lines, w)[i].2
                <= lines[all_rows(lines, w)[i].0].len(),
    decreases lines.len(),
{
    if lines.len() > 0 {
        let pre = lines.drop_last();
        lemma_all_rows(pre, w);
        let a = all_rows(pre, w);
        let k = lines.len() - 1;
        lemma_line_rows(lines.last(), k, 0, w);
        let b = line_rows(lines.last(), k, 0, w);
        let rs = all_rows(lines, w);
        assert(rs == a + b);
        assert forall|i: int| 0 <= i < rs.len() implies 0 <= (#[trigger] rs[i]).0 < lines.len()
            && 0 <= rs[i].1 <= rs[i].2 <= lines[rs[i].0].len() by {
            if i < a.len() {
                assert(rs[i] == a[i]);
                assert(lines[rs[i].0] == pre[rs[i].0]);
            } else {
                assert(rs[i] == b[i - a.len()]);
            }
        }
        assert forall|i: int|
            0 <= i < rs.len() && (i == 0 || rs[i - 1].0 != rs[i].0) implies #[trigger] rs[i].1
            == 0 by {
            if i < a.len() {
                assert(rs[i] == a[i]);
                if i > 0 {
                    assert(rs[i - 1] == a[i - 1]);
                }
            } else if i > a.len() {
                assert(rs[i] == b[i - a.len()] && rs[i - 1] == b[i - 1 - a.len()]);
            } else {
                assert(rs[i] == b[0]);
            }
        }
        assert forall|i: int| 0 < i < rs.len() && rs[i - 1].0 == rs[i].0 implies #[trigger] rs[i].1
            == rs[i - 1].2 by {
            if i < a.len() {
                assert(rs[i] == a[i] && rs[i - 1] == a[i - 1]);
            } else if i > a.len() {
                assert(rs[i] == b[i - a.len()] && rs[i - 1] == b[i - 1 - a.len()]);
            } else {
                assert(rs[i - 1] == a[i - 1]);
                assert(rs[i] == b[0]);
            }
        }
    }
}

/// Where a move of `delta` visual rows lands: `(line, cursor)`, or `None`
/// when it would leave the wrapped text. The column is kept, clamped to the
/// target row; on a non-final row the rightmost spot is one before its end,
/// since the end already belongs to the next row.
pub open spec fn visual_target(rows: Seq<(int, int, int)>, line: int, cursor: int, delta: int) -> Option<(int, int)> {
    let (ri, col) = cursor_pos(rows, line, cursor);
    let t = ri + delta;
    if 0 <= t < rows.len() {
        let row = rows[t];
        let line_final = t + 1 == rows.len() || rows[t + 1].0 != row.0;
        let max = if line_final {
            row.2
        } else if row.2 >= 1 {
            row.2 - 1
        } else {
            0
        };
        Some((row.0, at_most(row.1 + col, max)))
    } else {
        None
    }
}

/// Minimal multi-line editor: one `InputState` per line. Always holds at
/// least one line, and `line` indexes one of them.
#[derive(Debug)]
pub struct BodyEditor {
    pub lines: Vec<InputState>,
    /// Index of the line the cursor is on.
    pub line: usize,
}

/// All lines but `k` equal between `a` and `b`, which have the same length.
pub open spec fn others_same(a: Seq<InputState>, b: Seq<InputState>, k: int) -> bool {
    a.len() == b.len() && forall|i: int| 0 <= i < a.len() && i != k ==> #[trigger] a[i] == b[i]
}

impl BodyEditor {
    pub open spec fn wf(&self) -> bool {
        self.lines.len() >= 1 && self.line < self.lines.len()
    }

    /// The editor's text: its lines joined by newlines.
    pub open spec fn spec_text(&self) -> Seq<char> {
        join(buffers(self.lines@), seq!['\n'])
    }

    pub open spec fn cur(&self) -> InputState {
        self.lines@[self.line as int]
    }

    pub fn new() -> (r: BodyEditor)
        ensures
            r.wf(),
            r.lines.len() == 1,
            r.line == 0,
            r.lines@[0].buffer@.len() == 0,
            r.lines@[0].cursor == 0,
    {
        let mut lines: Vec<InputState> = Vec::new();
        lines.push(InputState::new());
        BodyEditor { lines, line: 0 }
    }

    /// Prefill with existing text, one line per `\n`-separated piece, cursor
    /// at the end of the last line. Empty text gives the single blank line.
    pub fn from_text(text: &str) -> (r: BodyEditor)
        ensures
            r.wf(),
            text@.len() == 0 ==> r.lines.len() == 1 && r.line == 0 && r.lines@[0].buffer@.len()
                == 0 && r.lines@[0].cursor == 0,
            text@.len() > 0 ==> buffers(r.lines@) == split(text@, '\n') && r.line == r.lines.len()
                - 1 && forall|i: int|
                0 <= i < r.lines.len() ==> (#[trigger] r.lines@[i]).cursor == r.lines@[i].buffer@.len(),
    {
        if text.is_empty() {
            return BodyEditor::new();
        }
        let v = chars_of(text);
        let pieces = split_chars(&v, '\n');
        proof {
            lemma_split_len(v@, '\n');
        }
        let mut lines: Vec<InputState> = Vec::new();
        let mut i: usize = 0;
        while i < pieces.len()
            invariant
                i <= pieces.len(),
                lines.len() == i,
                buffers(lines@) == views(pieces@).take(i as int),
                forall|j: int|
                    0 <= j < lines.len() ==> (#[trigger] lines@[j]).cursor == lines@[j].buffer@.len(),
            decreases pieces.len() - i,
        {
            let n = char_count(pieces[i].as_str());
            let b = pieces[i].clone();
            assert(b@ == pieces@[i as int]@);
            let ghost before = lines@;
            lines.push(InputState { buffer: b, cursor: n });
            assert(lines@[i as int].buffer@ == views(pieces@)[i as int]);
            assert(buffers(lines@) =~= buffers(before).push(views(pieces@)[i as int]));
            assert(buffers(lines@) =~= views(pieces@).take(i + 1));
            i += 1;
        }
        assert(views(pieces@).take(pieces.len() as int) =~= views(pieces@));
        let line = lines.len() - 1;
        BodyEditor { lines, line }
    }

    /// The text, lines joined with `\n`.
    pub fn text(&self) -> (r: String)
        ensures
            r@ == self.spec_text(),
    {
        let mut bufs: Vec<String> = Vec::new();
        let mut i: usize = 0;
        while i < self.lines.len()
            invariant
                i <= self.lines.len(),
                bufs.len() == i,
                views(bufs@) == buffers(self.lines@).take(i as int),
            decreases self.lines.len() - i,
        {
            let b = self.lines[i].buffer.clone();
            assert(b@ == self.lines@[i as int].buffer@);
            let ghost before = bufs@;
            bufs.push(b);
            assert(views(bufs@) =~= views(before).push(buffers(self.lines@)[i as int]));
            assert(views(bufs@) =~= buffers(self.lines@).take(i + 1));
            i += 1;
        }
        assert(buffers(self.lines@).take(self.lines.len() as int) =~= buffers(self.lines@));
        let nl = "\n";
        proof {
            reveal_strlit("\n");
        }
        assert(nl@ =~= seq!['\n']);
        join_strings(bufs.as_slice(), nl)
    }

    /// Take the current line out (the caller puts it back).
    fn take_current(&mut self) -> (l: InputState)
        requires
            old(self).wf(),
        ensures
            l == old(self).cur(),
            final(self).lines@ == old(self).lines@.remove(old(self).line as int),
            final(self).line == old(self).line,
    {
        self.lines.remove(self.line)
    }

    fn put_current(&mut self, l: InputState)
        requires
            old(self).line <= old(self).lines.len(),
        ensures
            final(self).lines@ == old(self).lines@.insert(old(self).line as int, l),
            final(self).line == old(self).line,
    {
        self.lines.insert(self.line, l);
    }

    /// `c` typed at the cursor of the current line.
    pub open spec fn typed(&self, o: &BodyEditor, c: char) -> bool {
        &&& self.wf()
        &&& self.line == o.line
        &&& others_same(o.lines@, self.lines@, o.line as int)
        &&& self.cur().buffer@ == o.cur().buffer@.insert(
            at_most(o.cur().cursor as int, o.cur().buffer@.len() as int),
            c,
        )
        &&& self.cur().cursor == o.cur().cursor + 1
    }

    /// The current line split at the cursor, the cursor at the start of the
    /// new line below.
    pub open spec fn newlined(&self, o: &BodyEditor) -> bool {
        let c = o.cur();
        let b = at_most(c.cursor as int, c.buffer@.len() as int);
        let k = o.line as int;
        &&& self.wf()
        &&& self.line == o.line + 1
        &&& self.lines.len() == o.lines.len() + 1
        &&& self.lines@[k].buffer@ == c.buffer@.subrange(0, b)
        &&& self.lines@[k].cursor == c.cursor
        &&& self.lines@[k + 1].buffer@ == c.buffer@.subrange(b, c.buffer@.len() as int)
        &&& self.lines@[k + 1].cursor == 0
        &&& forall|i: int| 0 <= i < k ==> #[trigger] self.lines@[i] == o.lines@[i]
        &&& forall|i: int| k + 1 < i < self.lines.len() ==> #[trigger] self.lines@[i] == o.lines@[i - 1]
    }

    /// Backspace: the character before the cursor removed, or at a line's
    /// start the line joined onto the one above.
    pub open spec fn backspaced(&self, o: &BodyEditor) -> bool {
        let c = o.cur();
        let k = o.line as int;
        &&& self.wf()
        &&& c.cursor > 0 ==> self.line == o.line && others_same(o.lines@, self.lines@, k)
            && self.cur().buffer@ == c.buffer@.remove(c.cursor - 1) && self.cur().cursor == c.cursor - 1
        &&& c.cursor == 0 && k == 0 ==> self.lines@ == o.lines@ && self.line == 0
        &&& c.cursor == 0 && k > 0 ==> {
            let prev = o.lines@[k - 1];
            &&& self.line == k - 1
            &&& self.lines@ == o.lines@.remove(k).update(k - 1, self.lines@[k - 1])
            &&& self.lines@[k - 1].buffer@ == prev.buffer@ + c.buffer@
            &&& self.lines@[k - 1].cursor == prev.buffer@.len()
        }
    }

    /// Delete: the character under the cursor removed, or at a line's end
    /// the next line joined on.
    pub open spec fn deleted(&self, o: &BodyEditor) -> bool {
        let c = o.cur();
        let k = o.line as int;
        &&& self.wf()
        &&& self.line == o.line
        &&& c.cursor < c.buffer@.len() ==> others_same(o.lines@, self.lines@, k) && self.cur().buffer@
            == c.buffer@.remove(c.cursor as int) && self.cur().cursor == c.cursor
        &&& c.cursor >= c.buffer@.len() && k + 1 < o.lines.len() ==> {
            &&& self.lines@ == o.lines@.remove(k + 1).update(k, self.lines@[k])
            &&& self.lines@[k].buffer@ == c.buffer@ + o.lines@[k + 1].buffer@
            &&& self.lines@[k].cursor == c.cursor
        }
        &&& c.cursor >= c.buffer@.len() && k + 1 >= o.lines.len() ==> self.lines@ == o.lines@
    }

    pub fn insert(&mut self, c: char)
        requires
            old(self).wf(),
            old(self).cur().cursor < usize::MAX,
        ensures
            final(self).wf(),
            final(self).line == old(self).line,
            others_same(old(self).lines@, final(self).lines@, old(self).line as int),
            final(self).cur().buffer@ == old(self).cur().buffer@.insert(
                at_most(old(self).cur().cursor as int, old(self).cur().buffer@.len() as int),
                c,
            ),
            final(self).cur().cursor == old(self).cur().cursor + 1,
            final(self).typed(old(self), c),
    {
        let mut l = self.take_current();
        l.insert(c);
        self.put_current(l);
        assert(others_same(old(self).lines@, self.lines@, self.line as int));
    }

    /// Enter: split the current line at the cursor; the tail becomes a new
    /// line below, cursor at its start.
    pub fn newline(&mut self)
        requires
            old(self).wf(),
        ensures
            final(self).newlined(old(self)),
    {
        let mut l = self.take_current();
        let tail = l.split_at_cursor();
        self.put_current(l);
        self.line = self.line + 1;
        self.lines.insert(self.line, InputState { buffer: tail, cursor: 0 });
    }

    /// Backspace: within a line deletes a char; at column 0 merges the line
    /// into the previous one, cursor at the join.
    pub fn backspace(&mut self)
        requires
            old(self).wf(),
            old(self).cur().cursor <= old(self).cur().buffer@.len(),
        ensures
            final(self).wf(),
            old(self).cur().cursor > 0 ==> final(self).line == old(self).line && others_same(
                old(self).lines@,
                final(self).lines@,
                old(self).line as int,
            ) && final(self).cur().buffer@ == old(self).cur().buffer@.remove(
                old(self).cur().cursor - 1,
            ) && final(self).cur().cursor == old(self).cur().cursor - 1,
            old(self).cur().cursor == 0 && old(self).line == 0 ==> final(self).lines@ == old(
                self,
            ).lines@ && final(self).line == 0,
            old(self).cur().cursor == 0 && old(self).line > 0 ==> ({
                let k = old(self).line as int;
                let prev = old(self).lines@[k - 1];
                &&& final(self).line == k - 1
                &&& final(self).lines@ == old(self).lines@.remove(k).update(
                    k - 1,
                    final(self).lines@[k - 1],
                )
                &&& final(self).lines@[k - 1].buffer@ == prev.buffer@ + old(self).cur().buffer@
                &&& final(self).lines@[k - 1].cursor == prev.buffer@.len()
            }),
            final(self).backspaced(old(self)),
    {
        if self.lines[self.line].cursor > 0 {
            let mut l = self.take_current();
            l.backspace();
            self.put_current(l);
            assert(others_same(old(self).lines@, self.lines@, self.line as int));
        } else if self.line > 0 {
            let removed = self.take_current();
            self.line = self.line - 1;
            let mut prev = self.take_current();
            prev.cursor = char_count(prev.buffer.as_str());
            string_push_str(&mut prev.buffer, removed.buffer.as_str());
            self.put_current(prev);
            assert(self.lines@ =~= old(self).lines@.remove(old(self).line as int).update(
                self.line as int,
                self.lines@[self.line as int],
            ));
        }
    }

    /// Delete/Ctrl+D: within a line deletes the char under the cursor; at
    /// the end of a line merges the next line up (mirror of backspace).
    pub fn delete_char(&mut self)
        requires
            old(self).wf(),
        ensures
            final(self).wf(),
            final(self).line == old(self).line,
            old(self).cur().cursor < old(self).cur().buffer@.len() ==> others_same(
                old(self).lines@,
                final(self).lines@,
                old(self).line as int,
            ) && final(self).cur().buffer@ == old(self).cur().buffer@.remove(
                old(self).cur().cursor as int,
            ) && final(self).cur().cursor == old(self).cur().cursor,
            old(self).cur().cursor >= old(self).cur().buffer@.len() && old(self).line + 1 < old(
                self,
            ).lines.len() ==> ({
                let k = old(self).line as int;
                &&& final(self).lines@ == old(self).lines@.remove(k + 1).update(
                    k,
                    final(self).lines@[k],
                )
                &&& final(self).lines@[k].buffer@ == old(self).cur().buffer@ + old(
                    self,
                ).lines@[k + 1].buffer@
                &&& final(self).lines@[k].cursor == old(self).cur().cursor
            }),
            old(self).cur().cursor >= old(self).cur().buffer@.len() && old(self).line + 1 >= old(
                self,
            ).lines.len() ==> final(self).lines@ == old(self).lines@,
            final(self).deleted(old(self)),
    {
        let n = char_count(self.lines[self.line].buffer.as_str());
        if self.lines[self.line].cursor < n {
            let mut l = self.take_current();
            l.delete_char();
            self.put_current(l);
            assert(others_same(old(self).lines@, self.lines@, self.line as int));
        } else if self.line + 1 < self.lines.len() {
            let removed = self.lines.remove(self.line + 1);
            let mut cur = self.take_current();
            string_push_str(&mut cur.buffer, removed.buffer.as_str());
            self.put_current(cur);
            assert(self.lines@ =~= old(self).lines@.remove(self.line + 1).update(
                self.line as int,
                self.lines@[self.line as int],
            ));
        }
    }

    pub open spec fn moved_to(&self, o: &BodyEditor, pos: int) -> bool {
        &&& self.wf()
        &&& self.line == o.line
        &&& others_same(o.lines@, self.lines@, o.line as int)
        &&& self.cur().buffer@ == o.cur().buffer@
        &&& self.cur().cursor == pos
    }

    pub fn left(&mut self)
        requires
            old(self).wf(),
        ensures
            final(self).moved_to(
                old(self),
                if old(self).cur().cursor > 0 {
                    old(self).cur().cursor - 1
                } else {
                    0
                },
            ),
    {
        let mut l = self.take_current();
        l.left();
        self.put_current(l);
        assert(others_same(old(self).lines@, self.lines@, self.line as int));
    }

    pub fn right(&mut self)
        requires
            old(self).wf(),
            old(self).cur().cursor < usize::MAX,
        ensures
            final(self).moved_to(
                old(self),
                at_most(old(self).cur().cursor + 1, old(self).cur().buffer@.len() as int),
            ),
    {
        let mut l = self.take_current();
        l.right();
        self.put_current(l);
        assert(others_same(old(self).lines@, self.lines@, self.line as int));
    }

    pub fn word_left(&mut self)
        requires
            old(self).wf(),
            old(self).cur().cursor <= old(self).cur().buffer@.len(),
        ensures
            final(self).moved_to(
                old(self),
                word_left_pos(old(self).cur().buffer@, old(self).cur().cursor as int),
            ),
    {
        let mut l = self.take_current();
        l.word_left();
        self.put_current(l);
        assert(others_same(old(self).lines@, self.lines@, self.line as int));
    }

    /// Ctrl+→ on the current line; a cursor past the line's end stays put.
    pub fn word_right(&mut self)
        requires
            old(self).wf(),
        ensures
            final(self).moved_to(
                old(self),
                if old(self).cur().cursor <= old(self).cur().buffer@.len() {
                    word_right_pos(old(self).cur().buffer@, old(self).cur().cursor as int)
                } else {
                    old(self).cur().cursor as int
                },
            ),
    {
        let mut l = self.take_current();
        l.word_right();
        self.put_current(l);
        assert(others_same(old(self).lines@, self.lines@, self.line as int));
    }

    pub fn home(&mut self)
        requires
            old(self).wf(),
        ensures
            final(self).moved_to(old(self), 0),
    {
        let mut l = self.take_current();
        l.home();
        self.put_current(l);
        assert(others_same(old(self).lines@, self.lines@, self.line as int));
    }

    pub fn end(&mut self)
        requires
            old(self).wf(),
        ensures
            final(self).moved_to(old(self), old(self).cur().buffer@.len() as int),
    {
        let mut l = self.take_current();
        l.end();
        self.put_current(l);
        assert(others_same(old(self).lines@, self.lines@, self.line as int));
    }

    /// The current line replaced by `buf`, cursor at `pos`, others untouched.
    pub open spec fn edited_to(&self, o: &BodyEditor, buf: Seq<char>, pos: int) -> bool {
        &&& self.wf()
        &&& self.line == o.line
        &&& others_same(o.lines@, self.lines@, o.line as int)
        &&& self.cur().buffer@ == buf
        &&& self.cur().cursor == pos
    }

    pub fn delete_word_back(&mut self)
        requires
            old(self).wf(),
            old(self).cur().cursor <= old(self).cur().buffer@.len(),
        ensures
            ({
                let o = old(self).cur();
                let p = word_left_pos(o.buffer@, o.cursor as int);
                final(self).edited_to(
                    old(self),
                    o.buffer@.subrange(0, p) + o.buffer@.subrange(o.cursor as int, o.buffer@.len() as int),
                    p,
                )
            }),
    {
        let mut l = self.take_current();
        l.delete_word_back();
        self.put_current(l);
        assert(others_same(old(self).lines@, self.lines@, self.line as int));
    }

    pub fn kill_to_start(&mut self)
        requires
            old(self).wf(),
        ensures
            ({
                let o = old(self).cur();
                final(self).edited_to(
                    old(self),
                    o.buffer@.subrange(at_most(o.cursor as int, o.buffer@.len() as int), o.buffer@.len() as int),
                    0,
                )
            }),
    {
        let mut l = self.take_current();
        l.kill_to_start();
        self.put_current(l);
        assert(others_same(old(self).lines@, self.lines@, self.line as int));
    }

    pub fn kill_to_end(&mut self)
        requires
            old(self).wf(),
        ensures
            ({
                let o = old(self).cur();
                final(self).edited_to(
                    old(self),
                    o.buffer@.subrange(0, at_most(o.cursor as int, o.buffer@.len() as int)),
                    o.cursor as int,
                )
            }),
    {
        let mut l = self.take_current();
        l.kill_to_end();
        self.put_current(l);
        assert(others_same(old(self).lines@, self.lines@, self.line as int));
    }

    /// The outcome of a visual move: unchanged, or the cursor placed on
    /// `(line, cursor)` with every buffer untouched.
    pub open spec fn moved_visually(&self, o: &BodyEditor, width: usize, delta: int) -> bool {
        &&& self.wf()
        &&& match visual_target(
            all_rows(buffers(o.lines@), clamp_width(width as int)),
            o.line as int,
            o.cur().cursor as int,
            delta,
        ) {
            None => self.lines@ == o.lines@ && self.line == o.line,
            Some((l, c)) => {
                &&& self.line == l
                &&& others_same(o.lines@, self.lines@, l)
                &&& self.lines@[l].buffer@ == o.lines@[l].buffer@
                &&& self.lines@[l].cursor == c
            },
        }
    }

    #[verifier::rlimit(40)]
    fn move_visual(&mut self, width: usize, down: bool)
        requires
            old(self).wf(),
        ensures
            final(self).moved_visually(
                old(self),
                width,
                if down {
                    1
                } else {
                    -1
                },
            ),
    {
        let rows = wrap_lines(self.lines.as_slice(), width);
        let ghost w = clamp_width(width as int);
        let ghost rs = rows_of(rows@);
        let cursor = self.lines[self.line].cursor;
        proof {
            lemma_all_rows(buffers(self.lines@), w);
            assert forall|idx: int| #[trigger]
                first_on_row(rows_of(rows@), self.line as int, cursor as int, idx) implies rows@[idx].start
                <= cursor by {
                lemma_chained_start(rs, self.line as int, cursor as int, idx);
            }
        }
        let (row_idx, col) = cursor_row(rows.as_slice(), self.line, cursor);
        let ghost pos = cursor_pos(rs, self.line as int, cursor as int);
        proof {
            if exists|idx: int| first_on_row(rs, self.line as int, cursor as int, idx) {
                let idx = choose|idx: int| first_on_row(rs, self.line as int, cursor as int, idx);
                assert(0 <= idx < rs.len());
            }
            assert(row_idx <= rows.len());
        }
        let target: usize;
        if down {
            if row_idx + 1 >= rows.len() {
                return;
            }
            target = row_idx + 1;
        } else {
            if row_idx == 0 || row_idx > rows.len() {
                return;
            }
            target = row_idx - 1;
        }
        let row = rows[target];
        assert(rs[target as int] == row_of(row));
        let line_final = target + 1 >= rows.len() || rows[target + 1].line != row.line;
        proof {
            if target + 1 < rows.len() {
                assert(rs[target + 1] == row_of(rows@[target + 1]));
            }
        }
        let max = if line_final {
            row.end
        } else if row.end >= 1 {
            row.end - 1
        } else {
            0
        };
        let want = row.start.saturating_add(col);
        let c = if want < max {
            want
        } else {
            max
        };
        self.line = row.line;
        let mut l = self.take_current();
        l.cursor = c;
        self.put_current(l);
        assert(others_same(old(self).lines@, self.lines@, self.line as int));
    }

    /// Up one *visual* row of the `width`-wrapped layout, keeping the column;
    /// a no-op on the first row.
    pub fn up_visual(&mut self, width: usize)
        requires
            old(self).wf(),
        ensures
            final(self).moved_visually(old(self), width, -1),
    {
        self.move_visual(width, false);
    }

    /// Down one visual row; a no-op on the last.
    pub fn down_visual(&mut self, width: usize)
        requires
            old(self).wf(),
        ensures
            final(self).moved_visually(old(self), width, 1),
    {
        self.move_visual(width, true);
    }

    /// One-line summary for the form row: the first line of the trimmed
    /// text, plus how many more lines follow.
    pub fn summary(&self) -> (r: String)
        ensures
            r@ == spec_summary(self.spec_text()),
    {
        let text = self.text();
        let t = trim_str(text.as_str());
        if t.as_str().is_empty() {
            return String::new();
        }
        let tv = chars_of(t.as_str());
        let pieces = split_chars(&tv, '\n');
        proof {
            lemma_split_len(tv@, '\n');
        }
        let fv = chars_of(pieces[0].as_str());
        let extra = pieces.len() - 1;
        if extra > 0 {
            let n = fv.len();
            let first = if n > 0 && fv[n - 1] == '\r' {
                string_of_range(&fv, 0, n - 1)
            } else {
                string_of_range(&fv, 0, n)
            };
            let mut out = first;
            let a = " (+";
            let b = " more lines)";
            proof {
                reveal_strlit(" (+");
                reveal_strlit(" more lines)");
            }
            string_push_str(&mut out, a);
            let num = u64_to_string(extra as u64);
            string_push_str(&mut out, num.as_str());
            string_push_str(&mut out, b);
            assert(out@ =~= spec_summary(self.spec_text()));
            out
        } else {
            pieces[0].clone()
        }
    }
}

impl Default for BodyEditor {
    fn default() -> (r: BodyEditor)
        ensures
            r.wf(),
            r.lines.len() == 1,
            r.line == 0,
            r.lines@[0].buffer@.len() == 0,
            r.lines@[0].cursor == 0,
    {
        BodyEditor::new()
    }
}

/// A line's text without one trailing carriage return.
pub open spec fn strip_cr(p: Seq<char>) -> Seq<char> {
    if p.len() > 0 && p.last() == '\r' {
        p.drop_last()
    } else {
        p
    }
}

/// What `summary` shows for `text`: its first line after trimming, and
/// `(+N more lines)` when more follow; empty for blank text.
pub open spec fn spec_summary(text: Seq<char>) -> Seq<char> {
    let t = trim(text);
    if t.len() == 0 {
        Seq::<char>::empty()
    } else {
        let ps = split(t, '\n');
        if ps.len() > 1 {
            strip_cr(ps[0]) + seq![' ', '(', '+'] + decimal((ps.len() - 1) as nat) + seq![
                ' ',
                'm',
                'o',
                'r',
                'e',
                ' ',
                'l',
                'i',
                'n',
                'e',
                's',
                ')',
            ]
        } else {
            ps[0]
        }
    }
}


/// An editor made from a text holds exactly that text.
pub proof fn lemma_from_text_round_trip(text: Seq<char>, b: BodyEditor)
    requires
        text.len() == 0 ==> b.lines.len() == 1 && b.lines@[0].buffer@.len() == 0,
        text.len() > 0 ==> buffers(b.lines@) == split(text, '\n'),
    ensures
        b.spec_text() == text,
{
    if text.len() == 0 {
        assert(buffers(b.lines@) =~~= seq![Seq::<char>::empty()]);
    } else {
        crate::text::lemma_join_split(text, '\n');
    }
}

/// The inline comment/description editor's session: what is being typed,
/// which element of the widget has keys, and what a save writes. `Default`
/// is "editor closed, nothing pending".
#[derive(Debug)]
pub struct EditorState {
    pub body: BodyEditor,
    pub focus: CommentFocus,
    pub target: EditorTarget,
}

impl EditorState {
    pub fn new() -> (r: EditorState)
        ensures
            r.body.wf(),
            r.body.spec_text().len() == 0,
            r.body.lines.len() == 1,
            r.body.line == 0,
            r.body.lines@[0].cursor == 0,
            r.focus == CommentFocus::Editor,
            r.target == EditorTarget::NewComment,
    {
        let body = BodyEditor::new();
        assert(buffers(body.lines@) =~~= seq![Seq::<char>::empty()]);
        EditorState { body, focus: CommentFocus::Editor, target: EditorTarget::NewComment }
    }

    /// Open the editor on `body`, writing to `target` on save.
    pub fn start(&mut self, body: BodyEditor, target: EditorTarget)
        ensures
            final(self).body == body,
            final(self).focus == CommentFocus::Editor,
            final(self).target == target,
    {
        self.body = body;
        self.focus = CommentFocus::Editor;
        self.target = target;
    }

    /// Take the composed text and the target, and reset to closed.
    pub fn take(&mut self) -> (r: (String, EditorTarget))
        ensures
            r.0@ == old(self).body.spec_text(),
            r.1 == old(self).target,
            final(self).body.wf(),
            final(self).body.spec_text().len() == 0,
            final(self).focus == CommentFocus::Editor,
            final(self).target == EditorTarget::NewComment,
    {
        let text = self.body.text();
        let mut fresh = EditorState::new();
        std::mem::swap(self, &mut fresh);
        (text, fresh.target)
    }
}

impl Default for EditorState {
    fn default() -> (r: EditorState)
        ensures
            r.body.wf(),
            r.body.spec_text().len() == 0,
            r.body.lines.len() == 1,
            r.body.line == 0,
            r.body.lines@[0].cursor == 0,
            r.focus == CommentFocus::Editor,
            r.target == EditorTarget::NewComment,
    {
        EditorState::new()
    }
}

} // verus!
