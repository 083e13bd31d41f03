//! Keys of the set-priority and edit-labels pickers.
use vstd::prelude::*;

use crate::app::{dash, eq_str, App};
use crate::filter_keys::{highlighted, picked_values, ticked_values};
use crate::filters::{non_priority_names, priority_label_set};
use crate::input_keys::sent;
use crate::keys::{
    opt_view, picker_common_key, picker_key_handled, picker_key_result, sel_id, status_is,
    with_issue, CommentRefresh, Effect, Key, KeyCode, Mutation,
};
use crate::mode::Mode;
use crate::normal::sel_repo;
use crate::picker::PickerState;
use crate::sorting::{is_name_sort, sort_names, views, RankBy};
use crate::text::owned;

verus! {

broadcast use vstd::string::group_string_axioms;

/// The picker closed, forgetting the issue it was opened for.
pub open spec fn pick_closed(a: App, b: App, labels: bool) -> bool {
    b == (App {
        mode: Mode::Normal,
        picker: if labels {
            PickerState { label_issue: None, ..a.picker }
        } else {
            PickerState { priority_issue: None, ..a.picker }
        },
        ..a
    })
}

/// Whether the picker was opened for the issue still selected.
pub open spec fn still_target(a: App, labels: bool) -> bool {
    sel_id(a) is Some && opt_view(if labels {
        a.picker.label_issue
    } else {
        a.picker.priority_issue
    }) == sel_id(a)
}

/// Committing a label set `names` for the selected issue: the picker closes;
/// the labels are written unless the selection moved off the issue the
/// picker was opened for.
pub open spec fn labels_committed(a: App, b: App, fx: Seq<Effect>, labels: bool, names: Seq<Seq<char>>, done: Seq<char>) -> bool {
    let c = App {
        mode: Mode::Normal,
        picker: if labels {
            PickerState { label_issue: None, ..a.picker }
        } else {
            PickerState { priority_issue: None, ..a.picker }
        },
        ..a
    };
    if !still_target(a, labels) {
        b == (App { status: b.status, ..c }) && status_is(
            b,
            if labels {
                "selection changed \u{2014} labels not set"@
            } else {
                "selection changed \u{2014} priority not set"@
            },
        ) && fx.len() == 0
    } else {
        match sel_repo(a) {
            Some(r) => {
                &&& sent(c, b, fx, done, CommentRefresh::Skip)
                &&& fx.len() == 1 && (fx[0] matches Effect::Mutate {
                    op: Mutation::SetLabels { repo, org, names: n },
                    ..
                } && repo == r.repo && org == a.org && views(n@) == names)
            },
            None => b == c && fx.len() == 0,
        }
    }
}

/// The label set a priority pick writes: the issue's other labels, then
/// the picked one (none for `—`).
pub open spec fn priority_names_for(a: App, pick: Seq<char>) -> Seq<Seq<char>> {
    let rest = non_priority_names(a.spec_selected_issue().unwrap().labels@);
    if pick == dash() {
        rest
    } else {
        rest.push(pick)
    }
}

/// A key in the set-priority picker.
pub open spec fn priority_set_step(a: App, b: App, key: Key, fx: Seq<Effect>) -> bool {
    if picker_key_handled(key, true) {
        picker_key_result(a.picker, b.picker, key, true) && b == (App { picker: b.picker, ..a }) && fx.len()
            == 0
    } else {
        match key.code {
            KeyCode::Esc => pick_closed(a, b, false) && fx.len() == 0,
            KeyCode::Enter => priority_entered(a, b, fx),
            _ => b == a && fx.len() == 0,
        }
    }
}

/// Whether the picker was opened for the selected issue.
fn targets_selected(app: &App, labels: bool) -> (r: bool)
    ensures
        r == still_target(*app, labels),
{
    let pending = if labels {
        &app.picker.label_issue
    } else {
        &app.picker.priority_issue
    };
    match (app.selected_issue(), pending) {
        (Some(i), Some(p)) => eq_str(p.as_str(), i.id.as_str()),
        _ => false,
    }
}

/// Write label set `names` to the selected issue after the picker closed.
fn commit_labels(app: &mut App, labels: bool, names: Vec<String>, done: &str) -> (fx: Vec<Effect>)
    requires
        old(app).spec_selected_issue() is Some,
    ensures
        match sel_repo(*old(app)) {
            Some(r) => {
                &&& sent(*old(app), *final(app), fx@, done@, CommentRefresh::Skip)
                &&& fx@.len() == 1 && (fx@[0] matches Effect::Mutate {
                    op: Mutation::SetLabels { repo, org, names: n },
                    ..
                } && repo == r.repo && org == old(app).org && n == names)
            },
            None => *final(app) == *old(app) && fx@.len() == 0,
        },
{
    let mut fx: Vec<Effect> = Vec::new();
    let repo = match app.selected_repo() {
        Some(r) => r.repo.clone(),
        None => return fx,
    };
    let org = app.org.clone();
    match with_issue(app, done, CommentRefresh::Skip, Mutation::SetLabels { repo, org, names }) {
        Some(e) => fx.push(e),
        None => {},
    }
    fx
}

/// The Enter branch of [`priority_set_step`].
pub open spec fn priority_entered(a: App, b: App, fx: Seq<Effect>) -> bool {
    match highlighted(a.picker) {
        None => fx.len() == 0 && if a.picker.options@.len() == 0 {
            pick_closed(a, b, false)
        } else {
            b == a
        },
        Some(orig) => labels_committed(
            a,
            b,
            fx,
            false,
            priority_names_for(a, a.picker.options@[orig as int]@),
            "priority updated"@,
        ),
    }
}

fn priority_enter(app: &mut App) -> (fx: Vec<Effect>)
    ensures
        priority_entered(*old(app), *final(app), fx@),
{
    let orig = match app.picker.selected_original() {
        Some(o) => o,
        None => {
            if app.picker.options.len() == 0 {
                app.picker.priority_issue = None;
                app.mode = Mode::Normal;
            }
            return Vec::new();
        },
    };
    let pick = app.picker.options[orig].clone();
    let still = targets_selected(app, false);
    app.picker.priority_issue = None;
    app.mode = Mode::Normal;
    if !still {
        app.status = Some(owned("selection changed \u{2014} priority not set"));
        return Vec::new();
    }
    proof {
        reveal_strlit("\u{2014}");
        assert("\u{2014}"@ =~= dash());
    }
    let names = match app.selected_issue() {
        Some(issue) => if eq_str(pick.as_str(), "\u{2014}") {
            priority_label_set(issue, None)
        } else {
            priority_label_set(issue, Some(pick.as_str()))
        },
        None => return Vec::new(),
    };
    let ghost nv = views(names@);
    let fx = commit_labels(app, false, names, "priority updated");
    assert(nv == priority_names_for(*old(app), old(app).picker.options@[orig as int]@));
    fx
}

pub fn handle_priority_set_key(app: &mut App, key: Key) -> (fx: Vec<Effect>)
    ensures
        priority_set_step(*old(app), *final(app), key, fx@),
{
    if picker_common_key(&mut app.picker, key, true) {
        return Vec::new();
    }
    assert(app.picker == old(app).picker);
    match key.code {
        KeyCode::Esc => {
            app.picker.priority_issue = None;
            app.mode = Mode::Normal;
            Vec::new()
        },
        KeyCode::Enter => priority_enter(app),
        _ => Vec::new(),
    }
}

/// The names the ticked rows of the label picker write: sorted.
pub open spec fn ticked_names(a: App, names: Seq<Seq<char>>) -> bool {
    is_name_sort(names, views(picked_values(a.picker.options@, a.picker.multi_selected@)), RankBy::Plain)
}

/// A key in the edit-labels picker: Space ticks a row, Enter writes the
/// ticked set.
pub open spec fn labels_set_step(a: App, b: App, key: Key, fx: Seq<Effect>) -> bool {
    if picker_key_handled(key, false) {
        picker_key_result(a.picker, b.picker, key, false) && b == (App { picker: b.picker, ..a }) && fx.len()
            == 0
    } else {
        match key.code {
            KeyCode::Esc => pick_closed(a, b, true) && fx.len() == 0,
            KeyCode::Char(' ') => fx.len() == 0 && match highlighted(a.picker) {
                Some(orig) => b == (App {
                    picker: PickerState { multi_selected: b.picker.multi_selected, ..a.picker },
                    ..a
                }) && b.picker.multi_selected@ == (if a.picker.multi_selected@.contains(orig) {
                    a.picker.multi_selected@.remove(orig)
                } else {
                    a.picker.multi_selected@.insert(orig)
                }),
                None => b == a,
            },
            KeyCode::Enter => exists|names: Seq<Seq<char>>|
                #[trigger] ticked_names(a, names) && labels_committed(a, b, fx, true, names, "labels updated"@),
            _ => b == a && fx.len() == 0,
        }
    }
}

fn labels_enter(app: &mut App) -> (fx: Vec<Effect>)
    ensures
        exists|names: Seq<Seq<char>>|
            #[trigger] ticked_names(*old(app), names) && labels_committed(
                *old(app),
                *final(app),
                fx@,
                true,
                names,
                "labels updated"@,
            ),
{
    let still = targets_selected(app, true);
    let names = sort_names(ticked_values(&app.picker.options, &app.picker.multi_selected), RankBy::Plain);
    let ghost nv = views(names@);
    app.picker.label_issue = None;
    app.mode = Mode::Normal;
    if !still {
        app.status = Some(owned("selection changed \u{2014} labels not set"));
        assert(ticked_names(*old(app), nv));
        return Vec::new();
    }
    let fx = commit_labels(app, true, names, "labels updated");
    assert(ticked_names(*old(app), nv) && labels_committed(*old(app), *app, fx@, true, nv, "labels updated"@));
    fx
}

pub fn handle_labels_set_key(app: &mut App, key: Key) -> (fx: Vec<Effect>)
    ensures
        labels_set_step(*old(app), *final(app), key, fx@),
{
    if picker_common_key(&mut app.picker, key, false) {
        return Vec::new();
    }
    assert(app.picker == old(app).picker);
    match key.code {
        KeyCode::Esc => {
            app.picker.label_issue = None;
            app.mode = Mode::Normal;
            Vec::new()
        },
        KeyCode::Char(' ') => {
            match app.picker.selected_original() {
                Some(orig) => app.picker.toggle_multi(orig),
                None => {},
            }
            Vec::new()
        },
        KeyCode::Enter => labels_enter(app),
        _ => Vec::new(),
    }
}

} // verus!
