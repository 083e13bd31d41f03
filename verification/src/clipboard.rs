//! The OSC 52 escape sequence that asks the terminal to set the clipboard,
//! wrapped for tmux's passthrough when running inside tmux.
use vstd::prelude::*;

use base64::Engine;

use crate::text::{chars_of, string_push, string_push_str};

verus! {

broadcast use vstd::string::group_string_axioms;

/// The standard, padded base64 text of the UTF-8 bytes of `t`.
pub uninterp spec fn base64_text(t: Seq<char>) -> Seq<char>;

/// `base64::engine::general_purpose::STANDARD.encode` on the text's UTF-8
/// bytes; the result is a function of the text alone, named `base64_text`.
#[verifier::external_body]
fn base64_encode(text: &str) -> (r: String)
    ensures
        r@ == base64_text(text@),
{
    base64::engine::general_purpose::STANDARD.encode(text)
}

pub open spec fn esc() -> char {
    '\u{1b}'
}

/// `s` with every ESC doubled, as tmux's passthrough expects.
pub open spec fn double_escapes(s: Seq<char>) -> Seq<char>
    decreases s.len(),
{
    if s.len() == 0 {
        Seq::empty()
    } else {
        double_escapes(s.drop_last()) + if s.last() == esc() {
            seq![esc(), esc()]
        } else {
            seq![s.last()]
        }
    }
}

/// `ESC ] 52 ; c ; <payload> BEL`.
pub open spec fn osc52(payload: Seq<char>) -> Seq<char> {
    seq![esc(), ']', '5', '2', ';', 'c', ';'] + payload + seq!['\u{7}']
}

/// The sequence for an already encoded payload: bare, or inside tmux's
/// `ESC P tmux; ... ESC \` passthrough with its escapes doubled.
pub open spec fn framed(payload: Seq<char>, tmux: bool) -> Seq<char> {
    if tmux {
        seq![esc(), 'P', 't', 'm', 'u', 'x', ';'] + double_escapes(osc52(payload)) + seq![esc(), '\\']
    } else {
        osc52(payload)
    }
}

/// Frame an encoded payload for the terminal (`tmux` when running in tmux).
pub fn osc52_frame(encoded: &str, tmux: bool) -> (r: String)
    ensures
        r@ == framed(encoded@, tmux),
{
    let mut seq = String::new();
    string_push(&mut seq, '\u{1b}');
    string_push_str(&mut seq, "]52;c;");
    string_push_str(&mut seq, encoded);
    string_push(&mut seq, '\u{7}');
    proof {
        reveal_strlit("]52;c;");
        assert(seq@ =~= osc52(encoded@));
    }
    if !tmux {
        return seq;
    }
    let v = chars_of(seq.as_str());
    let mut out = String::new();
    string_push(&mut out, '\u{1b}');
    string_push_str(&mut out, "Ptmux;");
    proof {
        reveal_strlit("Ptmux;");
    }
    let ghost head = out@;
    assert(head =~= seq![esc(), 'P', 't', 'm', 'u', 'x', ';']);
    let mut i: usize = 0;
    while i < v.len()
        invariant
            i <= v@.len(),
            v@ == osc52(encoded@),
            out@ == head + double_escapes(v@.subrange(0, i as int)),
        decreases v@.len() - i,
    {
        assert(v@.subrange(0, i + 1).drop_last() =~= v@.subrange(0, i as int));
        if v[i] == '\u{1b}' {
            string_push(&mut out, '\u{1b}');
            string_push(&mut out, '\u{1b}');
        } else {
            string_push(&mut out, v[i]);
        }
        proof {
            let t = v@.subrange(0, i + 1);
            assert(t.last() == v@[i as int]);
        }
        i += 1;
        assert(out@ =~= head + double_escapes(v@.subrange(0, i as int)));
    }
    assert(v@.subrange(0, v@.len() as int) =~= v@);
    string_push(&mut out, '\u{1b}');
    string_push(&mut out, '\\');
    assert(out@ =~= framed(encoded@, true));
    out
}

/// The OSC 52 sequence that puts `text` on the clipboard.
pub fn osc52_sequence(text: &str, tmux: bool) -> (r: String)
    ensures
        r@ == framed(base64_text(text@), tmux),
{
    let encoded = base64_encode(text);
    osc52_frame(encoded.as_str(), tmux)
}

} // verus!
