//! Keys for harness sessions and their popups.
//!
//! Inside a session the child owns the keyboard: every key goes to it but
//! `F12`, a prefix whose second key detaches, switches, kills or starts
//! sessions (`F12 F12` sends a literal `F12`). A session whose child has
//! exited shows its frozen screen, which the keys scroll. What needs the
//! live terminals (sending keys, ending children, starting them) comes back
//! as effects for the event loop.
use vstd::prelude::*;

use crate::app::{eq_str, issue_ref_text, App};
use crate::harness::{picker_row, LaunchAction, SessionStatus, SessionView};
use crate::keys::{status_is, Effect, Key, KeyCode, KeyEnv};
use crate::mode::{ConfirmChoice, HarnessConfirm, Mode, SessionId};
use crate::picker::PickerState;
use crate::text::{owned, string_push_str};

verus! {

broadcast use vstd::string::group_string_axioms;

/// Where a harness popup returns to: the session on screen, or the list.
pub open spec fn back_mode(a: App) -> Mode {
    if a.harness@.active is Some {
        Mode::Harness
    } else {
        Mode::Normal
    }
}

/// Whether session `id` is known and its child still runs.
pub open spec fn is_live(a: App, id: SessionId) -> bool {
    a.harness@.get(id) matches Some(s) && s.status is Running
}

/// Whether session `id` is known and its child has exited.
pub open spec fn is_over(a: App, id: SessionId) -> bool {
    a.harness@.get(id) matches Some(s) && !(s.status is Running)
}

/// The canonical reference of the selected issue.
pub open spec fn sel_ref(a: App) -> Option<Seq<char>> {
    match (a.spec_selected_issue(), a.spec_selected_repo_idx()) {
        (Some(i), Some(ri)) => Some(issue_ref_text(a.org@, a.repos@[ri as int].repo@, i.number)),
        _ => None,
    }
}

pub open spec fn views(v: Seq<String>) -> Seq<Seq<char>> {
    v.map_values(|s: String| s@)
}

/// Session `id` dropped from the table (the list shows again when it was
/// on screen), with `msg` in the status line when one is given.
pub open spec fn session_ended(a: App, b: App, id: SessionId, fx: Seq<Effect>) -> bool {
    let h = a.harness@.removed(id);
    &&& b.harness@ == h
    &&& b == (App {
        harness: b.harness,
        mode: if h.active is None {
            Mode::Normal
        } else {
            a.mode
        },
        ..a
    })
    &&& fx == seq![Effect::EndSession(id)]
}

pub open spec fn ended_with(a: App, b: App, id: SessionId, fx: Seq<Effect>, msg: Seq<char>) -> bool {
    exists|m: App| #[trigger] session_ended(a, m, id, fx) && b == (App { status: b.status, ..m }) && status_is(b, msg)
}

/// A picker opened on fresh options at the top, its other state kept.
pub open spec fn picker_restarted(p: PickerState, q: PickerState) -> bool {
    &&& q.idx == 0
    &&& q.filter@.len() == 0
    &&& q.multi_selected == p.multi_selected
    &&& q.priority_issue == p.priority_issue
    &&& q.label_issue == p.label_issue
}

/// The picker of configured harnesses, or a note that there are none.
pub open spec fn harness_picker_opened(a: App, b: App, names: Seq<String>) -> bool {
    if names.len() == 0 {
        b == (App { status: b.status, ..a }) && status_is(b, "no harnesses configured"@)
    } else {
        &&& b == (App { picker: b.picker, mode: Mode::HarnessPicker, ..a })
        &&& picker_restarted(a.picker, b.picker)
        &&& views(b.picker.options@) == views(names)
    }
}

/// The picker of sessions, one row each, or a note that there are none.
pub open spec fn session_picker_opened(a: App, b: App) -> bool {
    let s = a.harness@.sessions;
    if s.len() == 0 {
        b == (App { status: b.status, ..a }) && status_is(b, "no harness sessions"@)
    } else {
        &&& b == (App { picker: b.picker, mode: Mode::SessionPicker, ..a })
        &&& picker_restarted(a.picker, b.picker)
        &&& b.picker.options@.len() == s.len()
        &&& forall|k: int| 0 <= k < s.len() ==> (#[trigger] b.picker.options@[k])@ == picker_row(s[k])
    }
}

/// Session `id` on screen, in session mode.
pub open spec fn shown_session(a: App, b: App, id: SessionId) -> bool {
    b.harness@ == a.harness@.attached(id) && b == (App { harness: b.harness, mode: Mode::Harness, ..a })
}

/// The request to open a terminal onto running session `s` when it was
/// adopted from an earlier run (the event loop skips it when one is open
/// already).
pub open spec fn open_if_adopted(s: SessionView) -> Seq<Effect> {
    if s.bg_id is Some {
        seq![Effect::OpenSession(s.id)]
    } else {
        seq![]
    }
}

/// Whether `names` holds `h`.
pub open spec fn names_hold(names: Seq<String>, h: Seq<char>) -> bool {
    exists|k: int| 0 <= k < names.len() && (#[trigger] names[k])@ == h
}

/// The request to start `harness` on the selected issue.
pub open spec fn start_request(a: App, e: Effect, issue_ref: Seq<char>, harness: Seq<char>) -> bool {
    match (a.spec_selected_issue(), a.spec_selected_repo_idx()) {
        (Some(i), Some(ri)) => e matches Effect::StartSession { issue_ref: r, harness: h, owner, repo, number, url, title }
            && r@ == issue_ref && h@ == harness && owner@ == a.org@ && repo@ == a.repos@[ri as int].repo@
            && number == i.number && url@ == i.url@ && title@ == i.title@,
        _ => false,
    }
}

/// Starting `harness` on `issue_ref` when the issue has no session: an
/// unknown harness, no selection, or a selection that moved off the issue
/// is reported; otherwise the start is requested.
pub open spec fn fresh_launch(
    a: App,
    b: App,
    issue_ref: Seq<char>,
    harness: Seq<char>,
    names: Seq<String>,
    fx: Seq<Effect>,
) -> bool {
    if !names_hold(names, harness) {
        b == (App { status: b.status, ..a }) && status_is(b, "unknown harness \""@ + harness + "\""@) && fx.len()
            == 0
    } else {
        match sel_ref(a) {
            None => b == (App { status: b.status, ..a }) && status_is(b, "no issue selected"@) && fx.len() == 0,
            Some(r) => if r != issue_ref {
                &&& b == (App { status: b.status, ..a })
                &&& status_is(b, "selection moved away from "@ + issue_ref)
                &&& fx.len() == 0
            } else {
                b == a && fx.len() == 1 && start_request(a, fx[0], issue_ref, harness)
            },
        }
    }
}

/// Starting `harness` on `issue_ref`: one session per issue, so a live
/// session is shown instead, and an exited one is dropped first.
pub open spec fn launch_step(
    a: App,
    b: App,
    issue_ref: Seq<char>,
    harness: Seq<char>,
    names: Seq<String>,
    fx: Seq<Effect>,
) -> bool {
    match a.harness@.find_by_issue(issue_ref) {
        Some(s) => if s.status is Running {
            &&& b.harness@ == a.harness@.attached(s.id)
            &&& b == (App { harness: b.harness, mode: Mode::Harness, status: b.status, ..a })
            &&& status_is(b, issue_ref + " already has a session"@)
            &&& fx == open_if_adopted(s)
        } else {
            &&& fx.len() >= 1
            &&& fx[0] == Effect::EndSession(s.id)
            &&& exists|m: App|
                #[trigger] m.harness@ == a.harness@.removed(s.id) && m == (App { harness: m.harness, ..a })
                    && fresh_launch(m, b, issue_ref, harness, names, fx.drop_first())
        },
        None => fresh_launch(a, b, issue_ref, harness, names, fx),
    }
}

/// A copy of a list of strings.
fn copy_strings(v: &Vec<String>) -> (r: Vec<String>)
    ensures
        r@ == v@,
{
    let mut out: Vec<String> = Vec::new();
    let mut i: usize = 0;
    while i < v.len()
        invariant
            i <= v@.len(),
            out@ == v@.subrange(0, i as int),
        decreases v@.len() - i,
    {
        out.push(v[i].clone());
        i += 1;
        assert(out@ =~= v@.subrange(0, i as int));
    }
    assert(v@.subrange(0, v@.len() as int) =~= v@);
    out
}

/// Whether `names` holds `h`.
fn holds_name(names: &Vec<String>, h: &str) -> (r: bool)
    ensures
        r == names_hold(names@, h@),
{
    let mut i: usize = 0;
    while i < names.len()
        invariant
            i <= names@.len(),
            forall|k: int| 0 <= k < i ==> (#[trigger] names@[k])@ != h@,
        decreases names@.len() - i,
    {
        if eq_str(names[i].as_str(), h) {
            assert(names@[i as int]@ == h@);
            return true;
        }
        i += 1;
    }
    false
}

/// Drop session `id` and its child; the list shows again when it was the
/// one on screen.
pub fn end_session(app: &mut App, id: SessionId) -> (fx: Vec<Effect>)
    ensures
        session_ended(*old(app), *final(app), id, fx@),
{
    app.harness.remove(id);
    if app.harness.active_id().is_none() {
        app.mode = Mode::Normal;
    }
    let mut fx: Vec<Effect> = Vec::new();
    fx.push(Effect::EndSession(id));
    fx
}

/// Open the picker listing the configured harnesses.
pub fn open_harness_picker(app: &mut App, names: &Vec<String>)
    ensures
        harness_picker_opened(*old(app), *final(app), names@),
{
    if names.len() == 0 {
        app.status = Some(owned("no harnesses configured"));
        return;
    }
    let opts = copy_strings(names);
    app.picker.start(opts, 0);
    app.mode = Mode::HarnessPicker;
}

/// Open the picker listing the sessions.
pub fn open_session_picker(app: &mut App)
    ensures
        session_picker_opened(*old(app), *final(app)),
{
    let rows = app.harness.picker_rows();
    if rows.len() == 0 {
        app.status = Some(owned("no harness sessions"));
        return;
    }
    app.picker.start(rows, 0);
    app.mode = Mode::SessionPicker;
}

/// Start `harness` for `issue_ref`, whatever entry point asked: a live
/// session for the issue is shown instead, an exited one is dropped first.
pub fn launch(app: &mut App, issue_ref: &str, harness: &str, names: &Vec<String>) -> (fx: Vec<Effect>)
    ensures
        launch_step(*old(app), *final(app), issue_ref@, harness@, names@, fx@),
{
    let found = match app.harness.find_by_issue(issue_ref) {
        Some(m) => Some((m.id, m.status, m.bg_id.is_some())),
        None => None,
    };
    match found {
        Some((id, status, adopted)) => {
            if status.is_running() {
                app.harness.attach(id);
                app.mode = Mode::Harness;
                let mut msg = owned(issue_ref);
                string_push_str(&mut msg, " already has a session");
                app.status = Some(msg);
                let mut fx: Vec<Effect> = Vec::new();
                if adopted {
                    fx.push(Effect::OpenSession(id));
                }
                proof {
                    reveal_strlit(" already has a session");
                }
                return fx;
            }
            app.harness.remove(id);
            let mut rest = fresh(app, issue_ref, harness, names);
            let ghost tail = rest@;
            rest.insert(0, Effect::EndSession(id));
            assert(rest@.drop_first() =~= tail);
            rest
        },
        None => fresh(app, issue_ref, harness, names),
    }
}

/// The part of a launch after any old session for the issue is gone.
fn fresh(app: &mut App, issue_ref: &str, harness: &str, names: &Vec<String>) -> (fx: Vec<Effect>)
    ensures
        fresh_launch(*old(app), *final(app), issue_ref@, harness@, names@, fx@),
{
    let mut fx: Vec<Effect> = Vec::new();
    if !holds_name(names, harness) {
        let mut msg = owned("unknown harness \"");
        string_push_str(&mut msg, harness);
        string_push_str(&mut msg, "\"");
        proof {
            reveal_strlit("unknown harness \"");
            reveal_strlit("\"");
        }
        app.status = Some(msg);
        return fx;
    }
    let current = app.selected_issue_ref();
    match current {
        None => {
            app.status = Some(owned("no issue selected"));
            fx
        },
        Some(r) => {
            if !eq_str(r.as_str(), issue_ref) {
                let mut msg = owned("selection moved away from ");
                string_push_str(&mut msg, issue_ref);
                proof {
                    reveal_strlit("selection moved away from ");
                }
                app.status = Some(msg);
                return fx;
            }
            match (app.selected_issue(), app.selected_repo()) {
                (Some(issue), Some(repo)) => {
                    fx.push(
                        Effect::StartSession {
                            issue_ref: owned(issue_ref),
                            harness: owned(harness),
                            owner: app.org.clone(),
                            repo: repo.repo.clone(),
                            number: issue.number,
                            url: issue.url.clone(),
                            title: issue.title.clone(),
                        },
                    );
                },
                _ => {},
            }
            fx
        },
    }
}

/// The hint shown for a key the prefix chord does not bind.
pub open spec fn chord_hint() -> Seq<char> {
    "F12 d detach \u{b7} s switch \u{b7} k kill \u{b7} n new \u{b7} F12 F12 literal \u{b7} ? help"@
}

/// The harness part of `a` changed to `h`, nothing else.
pub open spec fn with_harness(a: App, b: App, h: crate::harness::HarnessView) -> bool {
    b.harness@ == h && b == (App { harness: b.harness, ..a })
}

/// The second key of an `F12` chord in session `id`.
#[verifier::opaque]
pub open spec fn chord_step(a: App, b: App, key: Key, id: SessionId, env: KeyEnv, fx: Seq<Effect>) -> bool {
    match key.code {
        KeyCode::Char(c) => if c == 'd' {
            with_harness(App { mode: Mode::Normal, ..a }, b, a.harness@.detached()) && fx.len() == 0
        } else if c == 's' {
            session_picker_opened(a, b) && fx.len() == 0
        } else if c == 'k' {
            if is_live(a, id) {
                b == (App { confirm_choice: ConfirmChoice::No, mode: Mode::ConfirmHarness(HarnessConfirm::Kill(id)), ..a })
                    && fx.len() == 0
            } else {
                ended_with(a, b, id, fx, "session dismissed"@)
            }
        } else if c == 'n' {
            harness_picker_opened(a, b, env.harness_names@) && fx.len() == 0
        } else if c == '?' {
            &&& b == (App { mode: Mode::Help(crate::help::HelpTopic::Keys), help: b.help, ..a })
            &&& b.help.return_to == Mode::Harness
            &&& b.help.scroll == 0
            &&& fx.len() == 0
        } else {
            b == (App { status: b.status, ..a }) && status_is(b, chord_hint()) && fx.len() == 0
        },
        KeyCode::F(n) => if n == 12 {
            b == a && fx == seq![Effect::SendKey { id, key }]
        } else {
            b == (App { status: b.status, ..a }) && status_is(b, chord_hint()) && fx.len() == 0
        },
        _ => b == (App { status: b.status, ..a }) && status_is(b, chord_hint()) && fx.len() == 0,
    }
}

/// An exited session's screen scrolled to `rows` back.
pub open spec fn scrolled_to(a: App, b: App, id: SessionId, rows: int, fx: Seq<Effect>) -> bool {
    with_harness(a, b, a.harness@.with_scrollback(rows as usize)) && fx == seq![
        Effect::ShowScrollback { id, rows: rows as usize },
    ]
}

pub open spec fn up_by(s: usize, n: int) -> int {
    if s + n > usize::MAX {
        usize::MAX as int
    } else {
        s + n
    }
}

pub open spec fn down_by(s: usize, n: int) -> int {
    if s < n {
        0
    } else {
        s - n
    }
}

/// A key in session `id` whose child has exited: `k`/Up and PageUp move
/// back into its output, `j`/Down and PageDown forward, `G`/End to the
/// end; Esc or `q` leaves it, `x` dismisses it.
#[verifier::opaque]
pub open spec fn exited_step(a: App, b: App, key: Key, id: SessionId, fx: Seq<Effect>) -> bool {
    let s = a.harness@.scrollback;
    let left = with_harness(App { mode: Mode::Normal, ..a }, b, a.harness@.detached()) && fx.len() == 0;
    match key.code {
        KeyCode::Up => scrolled_to(a, b, id, up_by(s, 1), fx),
        KeyCode::Down => scrolled_to(a, b, id, down_by(s, 1), fx),
        KeyCode::PageUp => scrolled_to(a, b, id, up_by(s, 10), fx),
        KeyCode::PageDown => scrolled_to(a, b, id, down_by(s, 10), fx),
        KeyCode::End => scrolled_to(a, b, id, 0, fx),
        KeyCode::Esc => left,
        KeyCode::Char(c) => if c == 'k' {
            scrolled_to(a, b, id, up_by(s, 1), fx)
        } else if c == 'j' {
            scrolled_to(a, b, id, down_by(s, 1), fx)
        } else if c == 'G' {
            scrolled_to(a, b, id, 0, fx)
        } else if c == 'q' {
            left
        } else if c == 'x' {
            ended_with(a, b, id, fx, "session dismissed"@)
        } else {
            b == a && fx.len() == 0
        },
        _ => b == a && fx.len() == 0,
    }
}

/// A key in session mode: everything goes to the child but the `F12`
/// prefix; an exited session's keys read its frozen screen.
pub open spec fn harness_key_step(a: App, b: App, key: Key, env: KeyEnv, fx: Seq<Effect>) -> bool {
    match a.harness@.active {
        None => b == (App { mode: Mode::Normal, ..a }) && fx.len() == 0,
        Some(id) => if a.harness@.prefix_pending {
            exists|m: App| #[trigger] with_harness(a, m, a.harness@.with_prefix(false)) && chord_step(m, b, key, id, env, fx)
        } else if key.code == KeyCode::F(12) {
            with_harness(a, b, a.harness@.with_prefix(true)) && fx.len() == 0
        } else if is_over(a, id) {
            exited_step(a, b, key, id, fx)
        } else {
            b == a && fx == seq![Effect::SendKey { id, key }]
        },
    }
}

/// Whether the session on screen is known and has exited.
fn active_over(app: &App, id: SessionId) -> (r: bool)
    ensures
        r == is_over(*app, id),
{
    match app.harness.get(id) {
        Some(s) => !s.status.is_running(),
        None => false,
    }
}

fn scroll_exited(app: &mut App, id: SessionId, rows: usize) -> (fx: Vec<Effect>)
    ensures
        scrolled_to(*old(app), *final(app), id, rows as int, fx@),
{
    app.harness.set_scrollback(rows);
    let mut fx: Vec<Effect> = Vec::new();
    fx.push(Effect::ShowScrollback { id, rows });
    fx
}

fn dismiss(app: &mut App, id: SessionId, msg: &str) -> (fx: Vec<Effect>)
    ensures
        ended_with(*old(app), *final(app), id, fx@, msg@),
{
    let fx = end_session(app, id);
    let ghost m = *app;
    app.status = Some(owned(msg));
    assert(session_ended(*old(app), m, id, fx@));
    fx
}

fn exited_key(app: &mut App, key: Key, id: SessionId) -> (fx: Vec<Effect>)
    ensures
        exited_step(*old(app), *final(app), key, id, fx@),
{
    reveal(exited_step);
    let s = app.harness.scrollback_rows();
    let up1 = s.saturating_add(1);
    let up10 = s.saturating_add(10);
    let down1 = s.saturating_sub(1);
    let down10 = s.saturating_sub(10);
    match key.code {
        KeyCode::Up => scroll_exited(app, id, up1),
        KeyCode::Down => scroll_exited(app, id, down1),
        KeyCode::PageUp => scroll_exited(app, id, up10),
        KeyCode::PageDown => scroll_exited(app, id, down10),
        KeyCode::End => scroll_exited(app, id, 0),
        KeyCode::Esc => {
            app.harness.detach();
            app.mode = Mode::Normal;
            Vec::new()
        },
        KeyCode::Char(c) => {
            if c == 'k' {
                scroll_exited(app, id, up1)
            } else if c == 'j' {
                scroll_exited(app, id, down1)
            } else if c == 'G' {
                scroll_exited(app, id, 0)
            } else if c == 'q' {
                app.harness.detach();
                app.mode = Mode::Normal;
                Vec::new()
            } else if c == 'x' {
                dismiss(app, id, "session dismissed")
            } else {
                Vec::new()
            }
        },
        _ => Vec::new(),
    }
}

fn chord_key(app: &mut App, key: Key, id: SessionId, env: &KeyEnv) -> (fx: Vec<Effect>)
    ensures
        chord_step(*old(app), *final(app), key, id, *env, fx@),
{
    reveal(chord_step);
    let mut fx: Vec<Effect> = Vec::new();
    match key.code {
        KeyCode::Char(c) => {
            if c == 'd' {
                app.harness.detach();
                app.mode = Mode::Normal;
            } else if c == 's' {
                open_session_picker(app);
            } else if c == 'k' {
                let live = match app.harness.get(id) {
                    Some(s) => s.status.is_running(),
                    None => false,
                };
                if live {
                    app.confirm_choice = ConfirmChoice::No;
                    app.mode = Mode::ConfirmHarness(HarnessConfirm::Kill(id));
                } else {
                    fx = dismiss(app, id, "session dismissed");
                }
            } else if c == 'n' {
                open_harness_picker(app, &env.harness_names);
            } else if c == '?' {
                app.open_session_help();
            } else {
                app.status = Some(owned(
                    "F12 d detach \u{b7} s switch \u{b7} k kill \u{b7} n new \u{b7} F12 F12 literal \u{b7} ? help",
                ));
            }
        },
        KeyCode::F(n) => {
            if n == 12 {
                fx.push(Effect::SendKey { id, key });
            } else {
                app.status = Some(owned(
                    "F12 d detach \u{b7} s switch \u{b7} k kill \u{b7} n new \u{b7} F12 F12 literal \u{b7} ? help",
                ));
            }
        },
        _ => {
            app.status = Some(owned(
                "F12 d detach \u{b7} s switch \u{b7} k kill \u{b7} n new \u{b7} F12 F12 literal \u{b7} ? help",
            ));
        },
    }
    fx
}

/// Session mode: forward everything to the child except the `F12` chord.
#[verifier::rlimit(40)]
#[verifier::spinoff_prover]
pub fn handle_harness_key(app: &mut App, key: Key, env: &KeyEnv) -> (fx: Vec<Effect>)
    ensures
        harness_key_step(*old(app), *final(app), key, *env, fx@),
{
    let id = match app.harness.active_id() {
        Some(id) => id,
        None => {
            app.mode = Mode::Normal;
            return Vec::new();
        },
    };
    if app.harness.prefix_armed() {
        app.harness.set_prefix_pending(false);
        let ghost m = *app;
        let fx = chord_key(app, key, id, env);
        assert(with_harness(*old(app), m, old(app).harness@.with_prefix(false)) && chord_step(m, *app, key, id, *env, fx@));
        return fx;
    }
    let is_f12 = match key.code {
        KeyCode::F(n) => n == 12,
        _ => false,
    };
    if is_f12 {
        app.harness.set_prefix_pending(true);
        return Vec::new();
    }
    if active_over(app, id) {
        return exited_key(app, key, id);
    }
    let mut fx: Vec<Effect> = Vec::new();
    fx.push(Effect::SendKey { id, key });
    fx
}

/// Whether a key is one the harness pickers handle themselves.
pub open spec fn nav_key(key: Key) -> bool {
    key.code is Esc || key.code is Down || key.code is Up || key.code is Backspace || key.code is Char
}

/// Movement, type-ahead and cancel in the harness pickers; Esc returns to
/// the session on screen, if any.
pub open spec fn picker_nav_step(a: App, b: App, key: Key) -> bool {
    let p = a.picker;
    match key.code {
        KeyCode::Esc => b == (App { mode: back_mode(a), ..a }),
        KeyCode::Down => b == (App {
            picker: PickerState {
                idx: if p.idx + 1 < p.shown().len() {
                    (p.idx + 1) as usize
                } else {
                    p.idx
                },
                ..p
            },
            ..a
        }),
        KeyCode::Up => b == (App {
            picker: PickerState {
                idx: if p.idx == 0 {
                    0
                } else {
                    (p.idx - 1) as usize
                },
                ..p
            },
            ..a
        }),
        KeyCode::Backspace => {
            &&& b == (App { picker: b.picker, ..a })
            &&& b.picker.filter@ == (if p.filter@.len() == 0 {
                p.filter@
            } else {
                p.filter@.drop_last()
            })
            &&& b.picker.options == p.options
            &&& b.picker.idx == crate::app::clamp_index(p.idx as int, b.picker.shown().len() as int)
            &&& b.picker.multi_selected == p.multi_selected
            &&& b.picker.priority_issue == p.priority_issue
            &&& b.picker.label_issue == p.label_issue
        },
        KeyCode::Char(c) => {
            &&& b == (App { picker: b.picker, ..a })
            &&& b.picker.filter@ == p.filter@.push(c)
            &&& b.picker.idx == 0
            &&& b.picker.options == p.options
            &&& b.picker.multi_selected == p.multi_selected
            &&& b.picker.priority_issue == p.priority_issue
            &&& b.picker.label_issue == p.label_issue
        },
        _ => b == a,
    }
}

fn picker_nav(app: &mut App, key: Key) -> (r: bool)
    ensures
        r == nav_key(key),
        picker_nav_step(*old(app), *final(app), key),
{
    match key.code {
        KeyCode::Esc => {
            app.mode = if app.harness.active_id().is_some() {
                Mode::Harness
            } else {
                Mode::Normal
            };
            true
        },
        KeyCode::Down => {
            let len = app.picker.filtered().len();
            if app.picker.idx < len && app.picker.idx + 1 < len {
                app.picker.idx = app.picker.idx + 1;
            }
            true
        },
        KeyCode::Up => {
            if app.picker.idx > 0 {
                app.picker.idx = app.picker.idx - 1;
            }
            true
        },
        KeyCode::Backspace => {
            app.picker.filter_backspace();
            true
        },
        KeyCode::Char(c) => {
            app.picker.filter_push(c);
            true
        },
        _ => false,
    }
}

/// The session behind the picker's highlighted row.
pub open spec fn picked_session(a: App) -> Option<SessionId> {
    let p = a.picker;
    if p.idx < p.shown().len() && p.shown()[p.idx as int] < a.harness@.sessions.len() {
        Some(a.harness@.sessions[p.shown()[p.idx as int] as int].id)
    } else {
        None
    }
}

/// A key in the session picker: Enter shows the highlighted session.
pub open spec fn session_picker_step(a: App, b: App, key: Key) -> bool {
    if nav_key(key) {
        picker_nav_step(a, b, key)
    } else if key.code == KeyCode::Enter {
        match picked_session(a) {
            Some(id) => shown_session(a, b, id),
            None => b == (App { mode: Mode::Normal, ..a }),
        }
    } else {
        b == a
    }
}

/// The session picker.
pub fn handle_session_picker_key(app: &mut App, key: Key)
    ensures
        session_picker_step(*old(app), *final(app), key),
{
    if picker_nav(app, key) {
        return;
    }
    if key.code == KeyCode::Enter {
        let id = match app.picker.selected_original() {
            Some(i) => app.harness.session_at(i),
            None => None,
        };
        match id {
            Some(id) => {
                app.harness.attach(id);
                app.mode = Mode::Harness;
            },
            None => {
                app.mode = Mode::Normal;
            },
        }
    }
}

/// The harness the picker highlights.
pub open spec fn picked_name(a: App) -> Option<Seq<char>> {
    let p = a.picker;
    if p.idx < p.shown().len() && p.shown()[p.idx as int] < p.options@.len() {
        Some(p.options@[p.shown()[p.idx as int] as int]@)
    } else {
        None
    }
}

/// A key in the harness picker: Enter starts the highlighted harness on
/// the selected issue.
pub open spec fn harness_picker_step(a: App, b: App, key: Key, env: KeyEnv, fx: Seq<Effect>) -> bool {
    if nav_key(key) {
        picker_nav_step(a, b, key) && fx.len() == 0
    } else if key.code == KeyCode::Enter {
        let m = App { mode: Mode::Normal, ..a };
        match (picked_name(a), sel_ref(a)) {
            (Some(h), Some(r)) => launch_step(m, b, r, h, env.harness_names@, fx),
            _ => b == m && fx.len() == 0,
        }
    } else {
        b == a && fx.len() == 0
    }
}

/// The harness picker.
pub fn handle_harness_picker_key(app: &mut App, key: Key, env: &KeyEnv) -> (fx: Vec<Effect>)
    ensures
        harness_picker_step(*old(app), *final(app), key, *env, fx@),
{
    if picker_nav(app, key) {
        return Vec::new();
    }
    if key.code != KeyCode::Enter {
        return Vec::new();
    }
    let chosen = match app.picker.selected_original() {
        Some(i) => Some(app.picker.options[i].clone()),
        None => None,
    };
    app.mode = Mode::Normal;
    let issue_ref = app.selected_issue_ref();
    match (chosen, issue_ref) {
        (Some(h), Some(r)) => launch(app, r.as_str(), h.as_str(), &env.harness_names),
        _ => Vec::new(),
    }
}

/// A confirmed (`yes`) or declined harness popup: back to what it covered,
/// then the action when confirmed.
pub open spec fn harness_confirmed(a: App, b: App, what: HarnessConfirm, yes: bool, env: KeyEnv, fx: Seq<Effect>) -> bool {
    let m = App { mode: back_mode(a), ..a };
    if !yes {
        b == m && fx.len() == 0
    } else {
        match what {
            HarnessConfirm::Kill(id) => ended_with(m, b, id, fx, "session terminated"@),
            HarnessConfirm::Relaunch(id) => match m.harness@.get(id) {
                Some(s) => {
                    &&& fx.len() >= 1
                    &&& fx[0] == Effect::EndSession(id)
                    &&& exists|e: App|
                        #[trigger] session_ended(m, e, id, seq![Effect::EndSession(id)]) && launch_step(
                            e,
                            b,
                            s.issue_ref,
                            s.harness,
                            env.harness_names@,
                            fx.drop_first(),
                        )
                },
                None => session_ended(m, b, id, fx),
            },
            HarnessConfirm::Quit => b == (App { should_quit: true, ..m }) && fx == seq![Effect::EndAllSessions],
        }
    }
}

/// A key in a harness confirmation popup: `y`/`n` answer directly, the
/// arrows and Tab move the focus, Enter answers with the focused button.
pub open spec fn confirm_harness_step(a: App, b: App, key: Key, what: HarnessConfirm, env: KeyEnv, fx: Seq<Effect>) -> bool {
    match key.code {
        KeyCode::Left | KeyCode::Right | KeyCode::Tab => {
            &&& b == (App {
                confirm_choice: if a.confirm_choice == ConfirmChoice::Yes {
                    ConfirmChoice::No
                } else {
                    ConfirmChoice::Yes
                },
                ..a
            })
            &&& fx.len() == 0
        },
        KeyCode::Enter => harness_confirmed(a, b, what, a.confirm_choice == ConfirmChoice::Yes, env, fx),
        KeyCode::Esc => harness_confirmed(a, b, what, false, env, fx),
        KeyCode::Char(c) => if c == 'y' || c == 'Y' {
            harness_confirmed(a, b, what, true, env, fx)
        } else if c == 'n' || c == 'N' {
            harness_confirmed(a, b, what, false, env, fx)
        } else {
            b == a && fx.len() == 0
        },
        _ => b == a && fx.len() == 0,
    }
}

fn answer_harness(app: &mut App, what: HarnessConfirm, yes: bool, env: &KeyEnv) -> (fx: Vec<Effect>)
    ensures
        harness_confirmed(*old(app), *final(app), what, yes, *env, fx@),
{
    app.mode = if app.harness.active_id().is_some() {
        Mode::Harness
    } else {
        Mode::Normal
    };
    if !yes {
        return Vec::new();
    }
    match what {
        HarnessConfirm::Kill(id) => dismiss(app, id, "session terminated"),
        HarnessConfirm::Relaunch(id) => {
            let previous = match app.harness.get(id) {
                Some(s) => Some((s.issue_ref.clone(), s.harness.clone())),
                None => None,
            };
            let ended = end_session(app, id);
            match previous {
                Some((issue_ref, harness)) => {
                    let ghost e = *app;
                    let mut fx = launch(app, issue_ref.as_str(), harness.as_str(), &env.harness_names);
                    let ghost tail = fx@;
                    fx.insert(0, Effect::EndSession(id));
                    assert(fx@.drop_first() =~= tail);
                    assert(session_ended(App { mode: back_mode(*old(app)), ..*old(app) }, e, id, seq![Effect::EndSession(id)]));
                    fx
                },
                None => ended,
            }
        },
        HarnessConfirm::Quit => {
            app.should_quit = true;
            let mut fx: Vec<Effect> = Vec::new();
            fx.push(Effect::EndAllSessions);
            fx
        },
    }
}

/// The Yes/No popup in front of an irreversible harness action.
pub fn handle_confirm_harness_key(app: &mut App, key: Key, what: HarnessConfirm, env: &KeyEnv) -> (fx: Vec<Effect>)
    ensures
        confirm_harness_step(*old(app), *final(app), key, what, *env, fx@),
{
    match key.code {
        KeyCode::Left | KeyCode::Right | KeyCode::Tab => {
            app.confirm_choice = if app.confirm_choice == ConfirmChoice::Yes {
                ConfirmChoice::No
            } else {
                ConfirmChoice::Yes
            };
            Vec::new()
        },
        KeyCode::Enter => {
            let yes = app.confirm_choice == ConfirmChoice::Yes;
            answer_harness(app, what, yes, env)
        },
        KeyCode::Esc => answer_harness(app, what, false, env),
        KeyCode::Char(c) => {
            if c == 'y' || c == 'Y' {
                answer_harness(app, what, true, env)
            } else if c == 'n' || c == 'N' {
                answer_harness(app, what, false, env)
            } else {
                Vec::new()
            }
        },
        _ => Vec::new(),
    }
}

/// The status after `harness` started in `cwd`; a child that finished
/// straight away is pointed out.
pub open spec fn started_text(harness: Seq<char>, cwd: Seq<char>, finished_fast: bool) -> Seq<char> {
    harness + " started in "@ + cwd + if finished_fast {
        " \u{2014} already finished; check the pane"@
    } else {
        Seq::empty()
    }
}

/// Session `id`'s child started (with background session `bg_id`, when the
/// harness dispatches one): it is shown, and the status says where it runs.
pub fn session_started(
    app: &mut App,
    id: SessionId,
    bg_id: Option<String>,
    harness: &str,
    cwd: &str,
    finished_fast: bool,
)
    ensures
        final(app).harness@ == (match bg_id {
            Some(b) => old(app).harness@.with_bg_id(id, b@),
            None => old(app).harness@,
        }).attached(id),
        *final(app) == (App { harness: final(app).harness, mode: Mode::Harness, status: final(app).status, ..*old(app) }),
        status_is(*final(app), started_text(harness@, cwd@, finished_fast)),
{
    match bg_id {
        Some(b) => app.harness.set_bg_id(id, b),
        None => {},
    }
    app.harness.attach(id);
    app.mode = Mode::Harness;
    let mut msg = owned(harness);
    string_push_str(&mut msg, " started in ");
    string_push_str(&mut msg, cwd);
    if finished_fast {
        string_push_str(&mut msg, " \u{2014} already finished; check the pane");
    }
    proof {
        reveal_strlit(" started in ");
        reveal_strlit(" \u{2014} already finished; check the pane");
    }
    app.status = Some(msg);
}

/// Session `id` could not be started or reached: it is dropped, so no
/// session is left without a process, and `msg` says why.
pub fn session_failed(app: &mut App, id: SessionId, msg: String)
    ensures
        final(app).harness@ == old(app).harness@.removed(id),
        *final(app) == (App { harness: final(app).harness, status: Some(msg), ..*old(app) }),
{
    app.harness.remove(id);
    app.status = Some(msg);
}

/// `A` on the list: show the issue's live session, ask before replacing an
/// exited one, else start the default harness or let the user pick one.
pub open spec fn launch_key_step(a: App, b: App, env: KeyEnv, fx: Seq<Effect>) -> bool {
    match sel_ref(a) {
        None => {
            &&& b == (App { status: b.status, ..a })
            &&& status_is(b, "select an issue to launch a harness"@)
            &&& fx.len() == 0
        },
        Some(rf) => match a.harness@.find_by_issue(rf) {
            Some(s) => if s.status is Running {
                shown_session(a, b, s.id) && fx == open_if_adopted(s)
            } else {
                &&& b == (App {
                    confirm_choice: ConfirmChoice::No,
                    mode: Mode::ConfirmHarness(HarnessConfirm::Relaunch(s.id)),
                    ..a
                })
                &&& fx.len() == 0
            },
            None => match env.default_harness {
                Some(h) => launch_step(a, b, rf, h@, env.harness_names@, fx),
                None => harness_picker_opened(a, b, env.harness_names@) && fx.len() == 0,
            },
        },
    }
}

/// `A` on the list.
pub fn launch_key(app: &mut App, env: &KeyEnv) -> (fx: Vec<Effect>)
    ensures
        launch_key_step(*old(app), *final(app), *env, fx@),
{
    let default = match &env.default_harness {
        Some(h) => Some(h.as_str()),
        None => None,
    };
    match app.launch_action(default) {
        LaunchAction::NoIssue => {
            app.status = Some(owned("select an issue to launch a harness"));
            Vec::new()
        },
        LaunchAction::Attach(id) => {
            let adopted = match app.selected_issue_ref() {
                Some(r) => match app.harness.find_by_issue(r.as_str()) {
                    Some(m) => m.bg_id.is_some(),
                    None => false,
                },
                None => false,
            };
            app.harness.attach(id);
            app.mode = Mode::Harness;
            let mut fx: Vec<Effect> = Vec::new();
            if adopted {
                fx.push(Effect::OpenSession(id));
            }
            fx
        },
        LaunchAction::ConfirmRelaunch(id) => {
            app.confirm_choice = ConfirmChoice::No;
            app.mode = Mode::ConfirmHarness(HarnessConfirm::Relaunch(id));
            Vec::new()
        },
        LaunchAction::Spawn { issue_ref, harness } => launch(app, issue_ref.as_str(), harness.as_str(), &env.harness_names),
        LaunchAction::Pick { .. } => {
            open_harness_picker(app, &env.harness_names);
            Vec::new()
        },
    }
}

} // verus!
