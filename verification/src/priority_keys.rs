//! Keys of the confirmation in front of a set-priority write that would
//! strip labels an inferred rank identified.
use vstd::prelude::*;

use crate::app::{eq_str, App};
use crate::input_keys::sent;
use crate::keys::{sel_id, status_is, with_issue, CommentRefresh, Effect, Key, KeyCode, Mutation};
use crate::mode::{ConfirmChoice, Mode};
use crate::normal::sel_repo;
use crate::popup_keys::cancelled;
use crate::text::owned;

verus! {

broadcast use vstd::string::group_string_axioms;

/// Yes on the priority confirmation: the label set captured when the
/// picker committed is written, unless the selection moved off the issue
/// it was captured for.
pub open spec fn priority_confirmed(a: App, b: App, fx: Seq<Effect>) -> bool {
    let a1 = App { mode: Mode::Normal, pending_priority: None, ..a };
    match a.pending_priority {
        None => b == (App { mode: Mode::Normal, ..a }) && fx.len() == 0,
        Some(p) => if sel_id(a) != Some(p.issue_id@) {
            &&& b == (App { status: b.status, ..a1 })
            &&& status_is(b, "selection changed \u{2014} priority not set"@)
            &&& fx.len() == 0
        } else {
            match sel_repo(a) {
                Some(r) => {
                    &&& sent(a1, b, fx, "priority updated"@, CommentRefresh::Skip)
                    &&& fx.len() == 1 && (fx[0] matches Effect::Mutate {
                        op: Mutation::SetLabels { repo, org, names },
                        ..
                    } && repo == r.repo && org == a.org && names == p.names)
                },
                None => b == a1 && fx.len() == 0,
            }
        },
    }
}

fn confirm_priority(app: &mut App) -> (fx: Vec<Effect>)
    ensures
        priority_confirmed(*old(app), *final(app), fx@),
{
    app.mode = Mode::Normal;
    let pending = match app.pending_priority.take() {
        Some(p) => p,
        None => return Vec::new(),
    };
    let still = match app.selected_issue() {
        Some(i) => eq_str(i.id.as_str(), pending.issue_id.as_str()),
        None => false,
    };
    if !still {
        app.status = Some(owned("selection changed \u{2014} priority not set"));
        return Vec::new();
    }
    let repo = match app.selected_repo() {
        Some(r) => r.repo.clone(),
        None => return Vec::new(),
    };
    let org = app.org.clone();
    let mut fx: Vec<Effect> = Vec::new();
    match with_issue(app, "priority updated", CommentRefresh::Skip, Mutation::SetLabels { repo, org, names: pending.names }) {
        Some(e) => fx.push(e),
        None => {},
    }
    fx
}

/// No on the priority confirmation: nothing is written.
pub open spec fn priority_cancelled(a: App, b: App) -> bool {
    cancelled(App { pending_priority: None, ..a }, b)
}

fn cancel_priority(app: &mut App)
    ensures
        priority_cancelled(*old(app), *final(app)),
{
    app.pending_priority = None;
    app.mode = Mode::Normal;
    app.status = Some(owned("cancelled"));
}

/// A key in the priority confirmation: arrows, Tab, `h` and `l` move the
/// focus, `y`/`n` answer directly, Enter answers with the focused button.
pub open spec fn confirm_priority_step(a: App, b: App, key: Key, fx: Seq<Effect>) -> bool {
    let flip = b == (App {
        confirm_choice: match a.confirm_choice {
            ConfirmChoice::Yes => ConfirmChoice::No,
            ConfirmChoice::No => ConfirmChoice::Yes,
        },
        ..a
    }) && fx.len() == 0;
    match key.code {
        KeyCode::Left | KeyCode::Right | KeyCode::Tab => flip,
        KeyCode::Char(c) => if c == 'h' || c == 'l' {
            flip
        } else if c == 'y' {
            priority_confirmed(a, b, fx)
        } else if c == 'n' {
            priority_cancelled(a, b) && fx.len() == 0
        } else {
            b == a && fx.len() == 0
        },
        KeyCode::Esc => priority_cancelled(a, b) && fx.len() == 0,
        KeyCode::Enter => match a.confirm_choice {
            ConfirmChoice::Yes => priority_confirmed(a, b, fx),
            ConfirmChoice::No => priority_cancelled(a, b) && fx.len() == 0,
        },
        _ => b == a && fx.len() == 0,
    }
}

pub fn handle_confirm_priority_key(app: &mut App, key: Key) -> (fx: Vec<Effect>)
    ensures
        confirm_priority_step(*old(app), *final(app), key, fx@),
{
    let flip = match key.code {
        KeyCode::Left | KeyCode::Right | KeyCode::Tab => true,
        KeyCode::Char(c) => c == 'h' || c == 'l',
        _ => false,
    };
    if flip {
        app.confirm_choice = match app.confirm_choice {
            ConfirmChoice::Yes => ConfirmChoice::No,
            ConfirmChoice::No => ConfirmChoice::Yes,
        };
        return Vec::new();
    }
    match key.code {
        KeyCode::Char(c) => {
            if c == 'y' {
                return confirm_priority(app);
            } else if c == 'n' {
                cancel_priority(app);
            }
            Vec::new()
        },
        KeyCode::Esc => {
            cancel_priority(app);
            Vec::new()
        },
        KeyCode::Enter => {
            if app.confirm_choice == ConfirmChoice::Yes {
                confirm_priority(app)
            } else {
                cancel_priority(app);
                Vec::new()
            }
        },
        _ => Vec::new(),
    }
}

} // verus!
