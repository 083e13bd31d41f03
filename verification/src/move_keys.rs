//! Keys of the move-issue picker and of the confirmation in front of a move.
use vstd::prelude::*;

use crate::app::{eq_str, App, PendingMove};
use crate::filter_keys::highlighted;
use crate::input_keys::sent;
use crate::keys::{
    opt_view, picker_common_key, picker_key_handled, picker_key_result, sel_id, selected_id, status_is,
    with_issue, CommentRefresh, Effect, Key, KeyCode, Mutation,
};
use crate::mode::{ConfirmChoice, Mode};
use crate::popup_keys::cancelled;
use crate::text::{owned, string_push_str};

verus! {

broadcast use vstd::string::group_string_axioms;

/// A key in the move picker: Enter asks to confirm moving the selected
/// issue to the highlighted repo.
pub open spec fn move_picker_step(a: App, b: App, key: Key) -> bool {
    if picker_key_handled(key, true) {
        picker_key_result(a.picker, b.picker, key, true) && b == (App { picker: b.picker, ..a })
    } else {
        match key.code {
            KeyCode::Esc => b == (App { mode: Mode::Normal, ..a }),
            KeyCode::Enter => match highlighted(a.picker) {
                None => if a.picker.options@.len() == 0 {
                    b == (App { mode: Mode::Normal, ..a })
                } else {
                    b == a
                },
                Some(orig) => match a.spec_selected_issue() {
                    None => b == (App { mode: Mode::Normal, ..a }),
                    Some(i) => b == (App {
                        pending_move: Some(PendingMove { issue_id: i.id, target: a.picker.options@[orig as int] }),
                        confirm_choice: ConfirmChoice::No,
                        mode: Mode::ConfirmMove,
                        ..a
                    }),
                },
            },
            _ => b == a,
        }
    }
}

pub fn handle_move_picker_key(app: &mut App, key: Key)
    ensures
        move_picker_step(*old(app), *final(app), key),
{
    if picker_common_key(&mut app.picker, key, true) {
        return;
    }
    assert(app.picker == old(app).picker);
    match key.code {
        KeyCode::Esc => {
            app.mode = Mode::Normal;
        },
        KeyCode::Enter => {
            let orig = match app.picker.selected_original() {
                Some(o) => o,
                None => {
                    if app.picker.options.len() == 0 {
                        app.mode = Mode::Normal;
                    }
                    return;
                },
            };
            let target = app.picker.options[orig].clone();
            let issue_id = match app.selected_issue() {
                Some(i) => i.id.clone(),
                None => {
                    app.mode = Mode::Normal;
                    return;
                },
            };
            app.pending_move = Some(PendingMove { issue_id, target });
            app.confirm_choice = ConfirmChoice::No;
            app.mode = Mode::ConfirmMove;
        },
        _ => {},
    }
}

/// Yes on the move confirmation: the pending move goes out, unless the
/// selection moved off the issue it was asked for.
pub open spec fn move_confirmed(a: App, b: App, fx: Seq<Effect>) -> bool {
    let a1 = App { mode: Mode::Normal, pending_move: None, ..a };
    match a.pending_move {
        None => b == App { mode: Mode::Normal, ..a } && fx.len() == 0,
        Some(p) => if sel_id(a) != Some(p.issue_id@) {
            b == (App { status: b.status, ..a1 }) && status_is(b, "selection changed \u{2014} issue not moved"@)
                && fx.len() == 0
        } else {
            &&& sent(a1, b, fx, "moved to "@ + p.target@, CommentRefresh::Skip)
            &&& fx.len() == 1 && (fx[0] matches Effect::Mutate { op: Mutation::MoveIssue { org, target }, .. }
                && org == a.org && target == p.target)
        },
    }
}

fn confirm_move(app: &mut App) -> (fx: Vec<Effect>)
    ensures
        move_confirmed(*old(app), *final(app), fx@),
{
    app.mode = Mode::Normal;
    let pending = match app.pending_move.take() {
        Some(p) => p,
        None => return Vec::new(),
    };
    let still = match app.selected_issue() {
        Some(i) => eq_str(i.id.as_str(), pending.issue_id.as_str()),
        None => false,
    };
    if !still {
        app.status = Some(owned("selection changed \u{2014} issue not moved"));
        return Vec::new();
    }
    let org = app.org.clone();
    let mut msg = owned("moved to ");
    string_push_str(&mut msg, pending.target.as_str());
    let mut fx: Vec<Effect> = Vec::new();
    match with_issue(app, msg.as_str(), CommentRefresh::Skip, Mutation::MoveIssue { org, target: pending.target }) {
        Some(e) => fx.push(e),
        None => {},
    }
    fx
}

/// No on the move confirmation.
pub open spec fn move_cancelled(a: App, b: App) -> bool {
    cancelled(App { pending_move: None, ..a }, b)
}

fn cancel_move(app: &mut App)
    ensures
        move_cancelled(*old(app), *final(app)),
{
    app.pending_move = None;
    app.mode = Mode::Normal;
    app.status = Some(owned("cancelled"));
}

/// A key in the move confirmation.
pub open spec fn confirm_move_step(a: App, b: App, key: Key, fx: Seq<Effect>) -> bool {
    let flip = b == (App {
        confirm_choice: match a.confirm_choice {
            ConfirmChoice::Yes => ConfirmChoice::No,
            ConfirmChoice::No => ConfirmChoice::Yes,
        },
        ..a
    }) && fx.len() == 0;
    match key.code {
        KeyCode::Left | KeyCode::Right | KeyCode::Tab => flip,
        KeyCode::Char(c) => if c == 'h' || c == 'l' {
            flip
        } else if c == 'y' {
            move_confirmed(a, b, fx)
        } else if c == 'n' {
            move_cancelled(a, b) && fx.len() == 0
        } else {
            b == a && fx.len() == 0
        },
        KeyCode::Esc => move_cancelled(a, b) && fx.len() == 0,
        KeyCode::Enter => match a.confirm_choice {
            ConfirmChoice::Yes => move_confirmed(a, b, fx),
            ConfirmChoice::No => move_cancelled(a, b) && fx.len() == 0,
        },
        _ => b == a && fx.len() == 0,
    }
}

pub fn handle_confirm_move_key(app: &mut App, key: Key) -> (fx: Vec<Effect>)
    ensures
        confirm_move_step(*old(app), *final(app), key, fx@),
{
    let flip = match key.code {
        KeyCode::Left | KeyCode::Right | KeyCode::Tab => true,
        KeyCode::Char(c) => c == 'h' || c == 'l',
        _ => false,
    };
    if flip {
        app.confirm_choice = match app.confirm_choice {
            ConfirmChoice::Yes => ConfirmChoice::No,
            ConfirmChoice::No => ConfirmChoice::Yes,
        };
        return Vec::new();
    }
    match key.code {
        KeyCode::Char(c) => {
            if c == 'y' {
                return confirm_move(app);
            } else if c == 'n' {
                cancel_move(app);
            }
            Vec::new()
        },
        KeyCode::Esc => {
            cancel_move(app);
            Vec::new()
        },
        KeyCode::Enter => match app.confirm_choice {
            ConfirmChoice::Yes => confirm_move(app),
            ConfirmChoice::No => {
                cancel_move(app);
                Vec::new()
            },
        },
        _ => Vec::new(),
    }
}

} // verus!
