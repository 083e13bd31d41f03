//! Keys of the new-issue form and of the pickers its choice fields open.
use vstd::prelude::*;

use crate::app::{dash, App};
use crate::editor_keys::{apply_body_editor_key, body_key_step, body_ok};
use crate::filter_keys::highlighted;
use crate::form::{IssueForm, ISSUE_FORM_CANCEL_ROW, ISSUE_FORM_CREATE_ROW};
use crate::keys::{
    apply_input_editor_key, input_edit, picker_common_key, picker_key_handled, picker_key_result,
    status_is, Effect, Key, KeyCode,
};
use crate::mode::Mode;
use crate::picker::{copy_set, PickerState};
use crate::sorting::views;
use crate::text::{decimal, owned, string_push_str, trim, u64_to_string};

verus! {

broadcast use vstd::string::group_string_axioms, vstd::std_specs::hash::group_hash_axioms;

pub open spec fn spec_next_field(idx: usize) -> usize {
    if idx >= ISSUE_FORM_CANCEL_ROW {
        0
    } else {
        (idx + 1) as usize
    }
}

pub open spec fn spec_prev_field(idx: usize) -> usize {
    if idx == 0 {
        ISSUE_FORM_CANCEL_ROW
    } else {
        (idx - 1) as usize
    }
}

/// Next row of the form, wrapping from Cancel to the title.
pub fn next_form_field(idx: usize) -> (r: usize)
    ensures
        r == spec_next_field(idx),
{
    if idx >= ISSUE_FORM_CANCEL_ROW {
        0
    } else {
        idx + 1
    }
}

/// Previous row of the form, wrapping from the title to Cancel.
pub fn prev_form_field(idx: usize) -> (r: usize)
    ensures
        r == spec_prev_field(idx),
{
    if idx == 0 {
        ISSUE_FORM_CANCEL_ROW
    } else {
        idx - 1
    }
}

/// The form with `f` in it.
pub open spec fn with_form(a: App, f: IssueForm) -> App {
    App { issue_form: Some(f), ..a }
}

/// The form dropped.
pub open spec fn form_cancelled(a: App, b: App) -> bool {
    b == (App { mode: Mode::Normal, issue_form: None, status: b.status, ..a }) && status_is(
        b,
        "issue creation cancelled"@,
    )
}

/// What Create does: nothing until the repo's options have landed, and
/// nothing without a title; otherwise the form closes and the issue is
/// created from the form's parameters.
pub open spec fn form_submitted(a: App, b: App, fx: Seq<Effect>) -> bool {
    let f = a.issue_form.unwrap();
    if f.options is None {
        b == (App { status: b.status, ..a }) && status_is(
            b,
            "still loading repo options \u{2014} try again in a moment"@,
        ) && fx.len() == 0
    } else if trim(f.title.buffer@).len() == 0 {
        b == (App { status: b.status, ..a }) && status_is(b, "a title is required"@) && fx.len() == 0
    } else {
        &&& b == (App { mode: Mode::Normal, issue_form: None, status: b.status, ..a })
        &&& status_is(b, "creating issue in "@ + f.repo@ + "\u{2026}"@)
        &&& fx.len() == 1
        &&& fx[0] matches Effect::CreateIssue { params, repo } && f.params_for(Some(params)) && repo == f.repo
    }
}

/// Create the issue the form describes, then close the form.
pub fn submit_issue_form(app: &mut App) -> (fx: Vec<Effect>)
    requires
        old(app).issue_form is Some,
    ensures
        form_submitted(*old(app), *final(app), fx@),
{
    let mut fx: Vec<Effect> = Vec::new();
    let (params, repo) = match &app.issue_form {
        Some(form) => {
            if form.options.is_none() {
                app.status = Some(owned("still loading repo options \u{2014} try again in a moment"));
                return fx;
            }
            match form.build_params() {
                Some(p) => (p, form.repo.clone()),
                None => {
                    app.status = Some(owned("a title is required"));
                    return fx;
                },
            }
        },
        None => return fx,
    };
    app.cancel_issue_form();
    let mut msg = owned("creating issue in ");
    string_push_str(&mut msg, repo.as_str());
    string_push_str(&mut msg, "\u{2026}");
    app.status = Some(msg);
    fx.push(Effect::CreateIssue { params, repo });
    fx
}

/// The status a created issue reports: "created #N in repo".
pub fn created_message(number: u64, repo: &str) -> (r: String)
    ensures
        r@ == "created #"@ + decimal(number as nat) + " in "@ + repo@,
{
    let mut s = owned("created #");
    let n = u64_to_string(number);
    string_push_str(&mut s, n.as_str());
    string_push_str(&mut s, " in ");
    string_push_str(&mut s, repo);
    s
}

/// Whether a key reaches the field editors: everything but Esc, Tab and
/// Shift+Tab, which only close the form or move between its rows.
pub open spec fn reaches_fields(key: Key) -> bool {
    !(key.code is Esc || key.code is Tab || key.code is BackTab)
}

/// Whether the form can take any key: the title's and the description's
/// cursors in range, and the stored choices below the largest position.
pub open spec fn form_ok(f: IssueForm) -> bool {
    &&& f.title.cursor <= f.title.buffer@.len()
    &&& f.title.buffer@.len() + 1 < usize::MAX
    &&& body_ok(f.body)
    &&& forall|i: usize| 4 <= i <= 7 ==> (#[trigger] f.spec_get_single(i)) != Some(usize::MAX)
}

/// Enter on a choice field opens its picker: several values for 2 and 3,
/// one (or `—`, none) for 4 to 7.
pub open spec fn choice_opened(a: App, b: App, f: IssueForm, idx: usize) -> bool {
    if idx == 2 || idx == 3 {
        &&& views(b.picker.options@) == f.spec_field_options(idx)
        &&& b.picker.multi_selected@ == (if idx == 2 {
            f.assignees@
        } else {
            f.labels@
        })
        &&& b.picker.idx == 0
        &&& b.picker.filter@.len() == 0
        &&& b.picker == (PickerState {
            options: b.picker.options,
            idx: 0,
            filter: b.picker.filter,
            multi_selected: b.picker.multi_selected,
            ..a.picker
        })
        &&& b == (App { picker: b.picker, mode: Mode::IssueFormMulti(idx), ..a })
    } else {
        &&& views(b.picker.options@) == seq![dash()] + f.spec_field_options(idx)
        &&& b.picker.idx == (match f.spec_get_single(idx) {
            Some(i) => i + 1,
            None => 0,
        })
        &&& b.picker.filter@.len() == 0
        &&& b.picker == (PickerState {
            options: b.picker.options,
            idx: b.picker.idx,
            filter: b.picker.filter,
            ..a.picker
        })
        &&& b == (App { picker: b.picker, mode: Mode::IssueFormSelect(idx), ..a })
    }
}

/// A key on the focused row of the form.
pub open spec fn field_key_step(a: App, b: App, f: IssueForm, key: Key, width: usize, fx: Seq<Effect>) -> bool {
    let idx = f.field_idx;
    let enter = key.code == KeyCode::Enter;
    let press = enter || key.code == KeyCode::Char(' ');
    if idx == 0 {
        fx.len() == 0 && if enter {
            b == with_form(a, IssueForm { field_idx: 1, ..f })
        } else {
            let e = input_edit(f.title.buffer@, f.title.cursor as int, key);
            &&& b.issue_form is Some
            &&& b == with_form(a, IssueForm { title: b.issue_form.unwrap().title, ..f })
            &&& b.issue_form.unwrap().title.buffer@ == e.0
            &&& b.issue_form.unwrap().title.cursor == e.1
        }
    } else if idx == 1 {
        &&& fx.len() == 0
        &&& b.issue_form is Some
        &&& b == with_form(a, IssueForm { body: b.issue_form.unwrap().body, ..f })
        &&& exists|handled: bool| #[trigger] body_key_step(f.body, b.issue_form.unwrap().body, key, width, handled)
    } else if 2 <= idx <= 7 {
        fx.len() == 0 && if enter {
            choice_opened(a, b, f, idx)
        } else {
            b == a
        }
    } else if idx == ISSUE_FORM_CREATE_ROW {
        if press {
            form_submitted(a, b, fx)
        } else {
            b == a && fx.len() == 0
        }
    } else {
        fx.len() == 0 && if press {
            form_cancelled(a, b)
        } else {
            b == a
        }
    }
}

/// A key in the new-issue form: Esc drops it, Tab and Shift+Tab move
/// between its rows, everything else goes to the focused row.
pub open spec fn form_key_step(a: App, b: App, key: Key, width: usize, fx: Seq<Effect>) -> bool {
    match a.issue_form {
        None => b == (App { mode: Mode::Normal, ..a }) && fx.len() == 0,
        Some(f) => match key.code {
            KeyCode::Esc => form_cancelled(a, b) && fx.len() == 0,
            KeyCode::Tab => b == with_form(a, IssueForm { field_idx: spec_next_field(f.field_idx), ..f })
                && fx.len() == 0,
            KeyCode::BackTab => b == with_form(a, IssueForm { field_idx: spec_prev_field(f.field_idx), ..f })
                && fx.len() == 0,
            _ => field_key_step(a, b, f, key, width, fx),
        },
    }
}

fn open_choice(app: &mut App, idx: usize)
    requires
        old(app).issue_form is Some,
        2 <= idx <= 7,
        form_ok(old(app).issue_form.unwrap()),
    ensures
        choice_opened(*old(app), *final(app), old(app).issue_form.unwrap(), idx),
{
    let (opts, multi, initial) = match &app.issue_form {
        Some(form) => {
            let opts = form.field_options(idx);
            if IssueForm::is_multi_field(idx) {
                (opts, Some(copy_set(form.multi_set(idx))), 0)
            } else {
                let mut all: Vec<String> = Vec::new();
                proof {
                    reveal_strlit("\u{2014}");
                    assert("\u{2014}"@ =~= dash());
                }
                all.push(owned("\u{2014}"));
                assert(views(all@) =~= seq![dash()] + views(opts@).take(0));
                let mut i: usize = 0;
                while i < opts.len()
                    invariant
                        i <= opts@.len(),
                        views(all@) == seq![dash()] + views(opts@).take(i as int),
                    decreases opts@.len() - i,
                {
                    let ghost before = all@;
                    all.push(opts[i].clone());
                    proof {
                        assert(views(opts@).take(i + 1) =~= views(opts@).take(i as int).push(opts@[i as int]@));
                        assert(all@.drop_last() =~= before);
                        assert(views(all@) =~= views(before).push(opts@[i as int]@));
                        assert(views(all@) =~= seq![dash()] + views(opts@).take(i + 1));
                    }
                    i += 1;
                }
                assert(views(opts@).take(i as int) =~= views(opts@));
                let initial = match form.get_single(idx) {
                    Some(i) => i + 1,
                    None => 0,
                };
                (all, None, initial)
            }
        },
        None => return,
    };
    match multi {
        Some(set) => {
            app.picker.multi_selected = set;
            app.picker.start(opts, 0);
            app.mode = Mode::IssueFormMulti(idx);
        },
        None => {
            app.picker.start(opts, initial);
            app.mode = Mode::IssueFormSelect(idx);
        },
    }
}

/// A key on the focused row.
#[verifier::rlimit(40)]
fn form_field_key(app: &mut App, key: Key, width: usize) -> (fx: Vec<Effect>)
    requires
        old(app).issue_form is Some,
        form_ok(old(app).issue_form.unwrap()),
    ensures
        field_key_step(*old(app), *final(app), old(app).issue_form.unwrap(), key, width, fx@),
{
    let idx = match &app.issue_form {
        Some(f) => f.field_idx,
        None => return Vec::new(),
    };
    let enter = match key.code {
        KeyCode::Enter => true,
        _ => false,
    };
    let press = match key.code {
        KeyCode::Enter => true,
        KeyCode::Char(c) => c == ' ',
        _ => false,
    };
    if idx == 0 {
        match &mut app.issue_form {
            Some(form) => {
                if enter {
                    form.field_idx = next_form_field(idx);
                } else {
                    apply_input_editor_key(&mut form.title, key);
                }
            },
            None => {},
        }
        Vec::new()
    } else if idx == 1 {
        match &mut app.issue_form {
            Some(form) => {
                let ghost before = form.body;
                let handled = apply_body_editor_key(&mut form.body, key, width);
                assert(body_key_step(before, form.body, key, width, handled));
            },
            None => {},
        }
        Vec::new()
    } else if 2 <= idx && idx <= 7 {
        if enter {
            open_choice(app, idx);
        }
        Vec::new()
    } else if idx == ISSUE_FORM_CREATE_ROW {
        if press {
            submit_issue_form(app)
        } else {
            Vec::new()
        }
    } else {
        if press {
            app.cancel_issue_form();
            app.status = Some(owned("issue creation cancelled"));
        }
        Vec::new()
    }
}

pub fn handle_issue_form_key(app: &mut App, key: Key, width: usize) -> (fx: Vec<Effect>)
    requires
        reaches_fields(key) ==> (old(app).issue_form matches Some(f) ==> form_ok(f)),
    ensures
        form_key_step(*old(app), *final(app), key, width, fx@),
{
    if app.issue_form.is_none() {
        app.mode = Mode::Normal;
        return Vec::new();
    }
    match key.code {
        KeyCode::Esc => {
            app.cancel_issue_form();
            app.status = Some(owned("issue creation cancelled"));
            Vec::new()
        },
        KeyCode::Tab => {
            match &mut app.issue_form {
                Some(form) => {
                    form.field_idx = next_form_field(form.field_idx);
                },
                None => {},
            }
            Vec::new()
        },
        KeyCode::BackTab => {
            match &mut app.issue_form {
                Some(form) => {
                    form.field_idx = prev_form_field(form.field_idx);
                },
                None => {},
            }
            Vec::new()
        },
        _ => form_field_key(app, key, width),
    }
}

/// A key in a form field's single-choice picker: Enter stores the pick
/// (`—`, the first row, clears it).
pub open spec fn form_select_step(a: App, b: App, key: Key, idx: usize) -> bool {
    if picker_key_handled(key, true) {
        picker_key_result(a.picker, b.picker, key, true) && b == (App { picker: b.picker, ..a })
    } else {
        match key.code {
            KeyCode::Esc => b == (App { mode: Mode::IssueForm, ..a }),
            KeyCode::Enter => match highlighted(a.picker) {
                Some(orig) => match a.issue_form {
                    Some(f) => {
                        let choice = if orig == 0 {
                            None
                        } else {
                            Some((orig - 1) as usize)
                        };
                        b == (App {
                            mode: Mode::IssueForm,
                            issue_form: Some(IssueForm {
                                issue_type: if idx == 4 { choice } else { f.issue_type },
                                priority: if idx == 5 { choice } else { f.priority },
                                project: if idx == 6 { choice } else { f.project },
                                milestone: if idx == 7 { choice } else { f.milestone },
                                ..f
                            }),
                            ..a
                        })
                    },
                    None => b == (App { mode: Mode::IssueForm, ..a }),
                },
                None => if a.picker.options@.len() == 0 {
                    b == (App { mode: Mode::IssueForm, ..a })
                } else {
                    b == a
                },
            },
            _ => b == a,
        }
    }
}

pub fn handle_form_select_key(app: &mut App, key: Key, idx: usize)
    ensures
        form_select_step(*old(app), *final(app), key, idx),
{
    if picker_common_key(&mut app.picker, key, true) {
        return;
    }
    assert(app.picker == old(app).picker);
    match key.code {
        KeyCode::Esc => {
            app.mode = Mode::IssueForm;
        },
        KeyCode::Enter => match app.picker.selected_original() {
            Some(orig) => {
                match &mut app.issue_form {
                    Some(form) => form.set_single(idx, orig.checked_sub(1)),
                    None => {},
                }
                app.mode = Mode::IssueForm;
            },
            None => {
                if app.picker.options.len() == 0 {
                    app.mode = Mode::IssueForm;
                }
            },
        },
        _ => {},
    }
}

/// A key in a form field's multi-choice picker: Space ticks, Enter stores
/// the ticked set.
pub open spec fn form_multi_step(a: App, b: App, key: Key, idx: usize) -> bool {
    if picker_key_handled(key, false) {
        picker_key_result(a.picker, b.picker, key, false) && b == (App { picker: b.picker, ..a })
    } else {
        match key.code {
            KeyCode::Esc => b == (App { mode: Mode::IssueForm, ..a }),
            KeyCode::Char(' ') => match highlighted(a.picker) {
                Some(orig) => b == (App {
                    picker: PickerState { multi_selected: b.picker.multi_selected, ..a.picker },
                    ..a
                }) && b.picker.multi_selected@ == (if a.picker.multi_selected@.contains(orig) {
                    a.picker.multi_selected@.remove(orig)
                } else {
                    a.picker.multi_selected@.insert(orig)
                }),
                None => b == a,
            },
            KeyCode::Enter => match a.issue_form {
                Some(f) => {
                    &&& b.issue_form is Some
                    &&& b == (App { mode: Mode::IssueForm, issue_form: b.issue_form, ..a })
                    &&& if idx == 2 {
                        b.issue_form.unwrap() == IssueForm { assignees: b.issue_form.unwrap().assignees, ..f }
                            && b.issue_form.unwrap().assignees@ == a.picker.multi_selected@
                    } else {
                        b.issue_form.unwrap() == IssueForm { labels: b.issue_form.unwrap().labels, ..f }
                            && b.issue_form.unwrap().labels@ == a.picker.multi_selected@
                    }
                },
                None => b == (App { mode: Mode::IssueForm, ..a }),
            },
            _ => b == a,
        }
    }
}

pub fn handle_form_multi_key(app: &mut App, key: Key, idx: usize)
    ensures
        form_multi_step(*old(app), *final(app), key, idx),
{
    if picker_common_key(&mut app.picker, key, false) {
        return;
    }
    assert(app.picker == old(app).picker);
    match key.code {
        KeyCode::Esc => {
            app.mode = Mode::IssueForm;
        },
        KeyCode::Char(c) => {
            if c == ' ' {
                match app.picker.selected_original() {
                    Some(orig) => app.picker.toggle_multi(orig),
                    None => {},
                }
            }
        },
        KeyCode::Enter => {
            let set = copy_set(&app.picker.multi_selected);
            match &mut app.issue_form {
                Some(form) => {
                    let slot = form.multi_set_mut(idx);
                    *slot = set;
                },
                None => {},
            }
            app.mode = Mode::IssueForm;
        },
        _ => {},
    }
}

} // verus!
