//! Properties that hold across keys and reports: what one key undoes of
//! another, and what a report can and cannot change.
use vstd::prelude::*;

use crate::app::App;
use crate::dispatch::{key_step, Screen};
use crate::editor_keys::{spec_next_focus, spec_prev_focus};
use crate::events::{event_step, priority_options_arrived, still_waiting, label_options_arrived, AppEvent};
use crate::filter_keys::filter_menu_step;
use crate::form_keys::{spec_next_field, spec_prev_field};
use crate::help::HelpState;
use crate::keys::{picker_key_result, Effect, Key, KeyCode, KeyEnv};
use crate::mode::{CommentFocus, ConfirmChoice, Mode};
use crate::normal::thread_at_hand;
use crate::picker::PickerState;
use crate::popup_keys::confirm_step;
use crate::threads::{cached, issue_comment_count};
use crate::types::{Comment, RateLimitData, RepoLabel};
use crate::session_keys::{
    back_mode, chord_step, confirm_harness_step, exited_step, harness_key_step, is_over, launch_step,
};
use crate::mode::HarnessConfirm;

verus! {

/// Tab then Shift+Tab in the comment editor returns focus where it was, and
/// the other way round.
pub proof fn law_comment_focus_round_trip(f: CommentFocus)
    ensures
        spec_prev_focus(spec_next_focus(f)) == f,
        spec_next_focus(spec_prev_focus(f)) == f,
{
}

/// Tab then Shift+Tab in the new-issue form returns to the same row, and the
/// other way round, for every row of the form.
pub proof fn law_form_field_round_trip(i: usize)
    requires
        i <= 9,
    ensures
        spec_prev_field(spec_next_field(i)) == i,
        spec_next_field(spec_prev_field(i)) == i,
{
}

/// Down then Up in any picker returns the highlight to a row it was on.
pub proof fn law_picker_down_up(p: PickerState, q: PickerState, r: PickerState)
    requires
        p.idx < p.shown().len() <= usize::MAX,
        picker_key_result(p, q, Key { code: KeyCode::Down, ctrl: false }, true),
        picker_key_result(q, r, Key { code: KeyCode::Up, ctrl: false }, true),
    ensures
        r == p,
{
    let n = p.shown().len() as int;
    assert(q == (PickerState { idx: ((p.idx + 1) % n) as usize, ..p }));
    assert(q.shown() == p.shown());
    let i = p.idx as int;
    if i + 1 < n {
        assert((i + 1) % n == i + 1) by (nonlinear_arith)
            requires
                0 <= i + 1 < n,
        ;
        assert(q.idx == i + 1);
        vstd::arithmetic::div_mod::lemma_mod_add_multiples_vanish(i, n);
        vstd::arithmetic::div_mod::lemma_small_mod(i as nat, n as nat);
        assert((q.idx + n - 1) % n == i);
    } else {
        assert((i + 1) % n == 0) by (nonlinear_arith)
            requires
                i + 1 == n,
                n > 0,
        ;
        assert(q.idx == 0);
        vstd::arithmetic::div_mod::lemma_small_mod((n - 1) as nat, n as nat);
        assert((q.idx + n - 1) % n == i);
    }
    assert(r.idx == p.idx);
}

/// Down then Up in the filter editor returns to the same row.
pub proof fn law_filter_menu_down_up(a: App, b: App, c: App)
    requires
        a.filter_menu_idx < 13,
        filter_menu_step(a, b, Key { code: KeyCode::Down, ctrl: false }),
        filter_menu_step(b, c, Key { code: KeyCode::Up, ctrl: false }),
    ensures
        c == a,
{
    let i = a.filter_menu_idx as int;
    if i + 1 < 13 {
        vstd::arithmetic::div_mod::lemma_small_mod((i + 1) as nat, 13);
        vstd::arithmetic::div_mod::lemma_mod_add_multiples_vanish(i, 13);
        vstd::arithmetic::div_mod::lemma_small_mod(i as nat, 13);
    }
}

/// Flipping the choice of a confirmation twice leaves it as it was.
pub proof fn law_confirm_flip_twice(a: App, b: App, c: App, fx1: Seq<Effect>, fx2: Seq<Effect>)
    requires
        confirm_step(a, b, Key { code: KeyCode::Tab, ctrl: false }, fx1),
        confirm_step(b, c, Key { code: KeyCode::Tab, ctrl: false }, fx2),
    ensures
        c == a,
        fx1.len() == 0 && fx2.len() == 0,
{
}

/// `F1` twice, outside help and outside a session, comes back to the same
/// screen: only the help viewer's own bookkeeping remembers the visit.
pub proof fn law_help_toggle_round_trip(
    a: App,
    b: App,
    c: App,
    screen: Screen,
    env: KeyEnv,
    fx1: Seq<Effect>,
    fx2: Seq<Effect>,
)
    requires
        !(a.mode is Help),
        a.mode != Mode::Harness,
        key_step(a, b, Key { code: KeyCode::F(1), ctrl: false }, screen, env, fx1),
        key_step(b, c, Key { code: KeyCode::F(1), ctrl: false }, screen, env, fx2),
    ensures
        c == (App { help: HelpState { return_to: a.mode, scroll: 0 }, ..a }),
{
}

/// A thread that was cached is shown without a request, exactly as it was
/// cached.
pub proof fn law_cached_thread_is_served(a: App, id: Seq<char>, cs: Seq<Comment>)
    requires
        cached(a.comment_cache@, id) == Some(cs),
    ensures
        thread_at_hand(a, id) == Some(cs),
{
}

/// After its thread was dropped from the cache, an issue that has comments
/// needs a request again.
pub proof fn law_dropped_thread_is_refetched(a: App, b: App, id: Seq<char>)
    requires
        forall|t: Seq<char>|
            #[trigger] cached(b.comment_cache@, t) == if t == id {
                None
            } else {
                cached(a.comment_cache@, t)
            },
        b.repos == a.repos,
        issue_comment_count(a.repos@, id) != Some(0u64),
    ensures
        thread_at_hand(b, id).is_none(),
{
    assert(cached(b.comment_cache@, id).is_none());
}

/// An answer to an options request that is no longer pending (the list
/// left, or the selection moved) never opens a picker: the mode, the
/// options and the highlight stay.
pub proof fn law_stale_options_open_nothing(a: App, b: App, id: Seq<char>, result: Result<Vec<RepoLabel>, String>, labels: bool)
    requires
        !still_waiting(a, id, labels),
        labels ==> label_options_arrived(a, b, id, result),
        !labels ==> priority_options_arrived(a, b, id, result),
    ensures
        b.mode == a.mode,
        b.picker.options == a.picker.options,
        b.picker.idx == a.picker.idx,
        b.status == a.status,
{
}

/// A session's output report changes nothing and asks for nothing.
pub proof fn law_output_report_is_inert(a: App, b: App, id: u64, rl: Option<RateLimitData>, prefix: Seq<char>, fx: Seq<Effect>)
    requires
        event_step(a, b, AppEvent::HarnessDirty(id), rl, prefix, fx),
    ensures
        b == a,
        fx.len() == 0,
{
}

/// Starting a harness on an issue that already has a live session starts
/// nothing: that session is shown and the session table stays as it was.
pub proof fn law_live_session_is_not_duplicated(
    a: App,
    b: App,
    issue_ref: Seq<char>,
    harness: Seq<char>,
    names: Seq<String>,
    fx: Seq<Effect>,
)
    requires
        a.harness@.find_by_issue(issue_ref) matches Some(s) && s.status is Running,
        launch_step(a, b, issue_ref, harness, names, fx),
    ensures
        b.harness@.sessions == a.harness@.sessions,
        b.mode == Mode::Harness,
        forall|k: int| 0 <= k < fx.len() ==> !(#[trigger] fx[k] is StartSession),
{
}

/// `F12` then `d` in a session returns to the list with every session
/// still there: detaching is not killing.
pub proof fn law_detach_keeps_sessions(
    a: App,
    b: App,
    c: App,
    screen: Screen,
    env: KeyEnv,
    fx1: Seq<Effect>,
    fx2: Seq<Effect>,
)
    requires
        a.mode == Mode::Harness,
        a.harness@.active is Some,
        !a.harness@.prefix_pending,
        key_step(a, b, Key { code: KeyCode::F(12), ctrl: false }, screen, env, fx1),
        key_step(b, c, Key { code: KeyCode::Char('d'), ctrl: false }, screen, env, fx2),
    ensures
        c.mode == Mode::Normal,
        c.harness@.sessions == a.harness@.sessions,
        c.harness@.active is None,
        fx1.len() == 0,
        fx2.len() == 0,
{
    reveal(chord_step);
    let id = a.harness@.active.unwrap();
    assert(b.harness@ == a.harness@.with_prefix(true));
    assert(b.mode == Mode::Harness);
    let m = choose|m: App|
        #[trigger] crate::session_keys::with_harness(b, m, b.harness@.with_prefix(false)) && chord_step(
            m,
            c,
            Key { code: KeyCode::Char('d'), ctrl: false },
            id,
            env,
            fx2,
        );
    assert(c.harness@ == m.harness@.detached());
}

/// The prefix chord takes exactly one more key: whatever it was, the chord
/// is disarmed afterwards.
pub proof fn law_chord_disarms(a: App, b: App, key: Key, env: KeyEnv, fx: Seq<Effect>)
    requires
        a.harness@.active is Some,
        a.harness@.prefix_pending,
        harness_key_step(a, b, key, env, fx),
    ensures
        !b.harness@.prefix_pending,
{
    reveal(chord_step);
    let id = a.harness@.active.unwrap();
    let m = choose|m: App|
        #[trigger] crate::session_keys::with_harness(a, m, a.harness@.with_prefix(false)) && chord_step(m, b, key, id, env, fx);
    assert(!m.harness@.prefix_pending);
}

/// Declining a harness confirmation (`n` or Esc) changes nothing but the
/// screen, which goes back to what the popup covered; nothing is ended,
/// started or quit.
pub proof fn law_declined_confirmation_is_inert(
    a: App,
    b: App,
    key: Key,
    what: HarnessConfirm,
    env: KeyEnv,
    fx: Seq<Effect>,
)
    requires
        key.code == KeyCode::Esc || key.code == KeyCode::Char('n') || key.code == KeyCode::Char('N'),
        confirm_harness_step(a, b, key, what, env, fx),
    ensures
        b == (App { mode: back_mode(a), ..a }),
        fx.len() == 0,
{
}

/// In a session whose child has exited, `k` then `j` scrolls back to where
/// the screen was.
pub proof fn law_exited_scroll_round_trip(a: App, b: App, c: App, env: KeyEnv, fx1: Seq<Effect>, fx2: Seq<Effect>)
    requires
        a.harness@.active matches Some(id) && is_over(a, id),
        !a.harness@.prefix_pending,
        a.harness@.scrollback < usize::MAX,
        harness_key_step(a, b, Key { code: KeyCode::Char('k'), ctrl: false }, env, fx1),
        harness_key_step(b, c, Key { code: KeyCode::Char('j'), ctrl: false }, env, fx2),
    ensures
        c.harness@ == a.harness@,
        c == (App { harness: c.harness, ..a }),
{
    reveal(exited_step);
}

} // verus!
