//! Which handler a key goes to: by the mode the interface is in, with `F1`
//! toggling help from anywhere but a harness session.
use vstd::prelude::*;

use crate::app::App;
use crate::editor_keys::{body_ok, edits_comment, comment_editor_step, handle_comment_editor_key};
use crate::filter_keys::{
    calendar_step, filter_menu_step, handle_calendar_key, handle_filter_menu_key, handle_select_field_key,
    handle_select_field_multi_key, multi_field_step, select_field_step,
};
use crate::form_keys::{
    form_key_step, form_multi_step, form_ok, reaches_fields, form_select_step, handle_form_multi_key, handle_form_select_key,
    handle_issue_form_key,
};
use crate::input_keys::{edits_input, handle_input_key, input_ok, input_step};
use crate::keys::{Effect, Key, KeyCode, KeyEnv, ViewMetrics};
use crate::mode::Mode;
use crate::move_keys::{confirm_move_step, handle_confirm_move_key, handle_move_picker_key, move_picker_step};
use crate::normal::{handle_normal_key, help_opened, normal_step, spans_fit};
use crate::priority_keys::{confirm_priority_step, handle_confirm_priority_key};
use crate::session_keys::{
    confirm_harness_step, handle_confirm_harness_key, handle_harness_key, handle_harness_picker_key,
    handle_session_picker_key, harness_key_step, harness_picker_step, session_picker_step,
};
use crate::pick_keys::{handle_labels_set_key, handle_priority_set_key, labels_set_step, priority_set_step};
use crate::popup_keys::{
    confirm_step, handle_confirm_key, handle_help_key, handle_pr_picker_key, handle_pr_summary_key,
    help_step, pr_picker_step, pr_summary_step, HelpView, PrView,
};

verus! {

/// What the drawn frame says, for the keys that depend on it: the detail
/// pane's metrics, the PR popup's and the help viewer's, and the widths the
/// comment editor and the form's description wrap at.
#[derive(Debug, Clone)]
pub struct Screen {
    pub detail: ViewMetrics,
    pub pr: PrView,
    pub help: HelpView,
    pub comment_wrap: usize,
    pub form_wrap: usize,
}

/// Whether the mode the key reaches can take it: the frame's metrics in
/// range, and the text the key would edit with its cursor in range.
pub open spec fn key_ready(a: App, key: Key, screen: Screen) -> bool {
    &&& spans_fit(screen.detail)
    &&& -32768 < screen.pr.page_rows
    &&& -32768 < screen.help.page_rows
    &&& (a.mode is Input && edits_input(key)) ==> input_ok(a)
    &&& (a.mode == Mode::CommentEditor && edits_comment(a, key)) ==> body_ok(a.editor.body)
    &&& (a.mode == Mode::IssueForm && reaches_fields(key)) ==> (a.issue_form matches Some(f) ==> form_ok(f))
}

/// One key, whatever the mode, with the work it asks for.
pub open spec fn key_step(a: App, b: App, key: Key, screen: Screen, env: KeyEnv, fx: Seq<Effect>) -> bool {
    if key.code == KeyCode::F(1) && a.mode != Mode::Harness {
        fx.len() == 0 && if a.mode is Help {
            b == (App { mode: a.help.return_to, ..a })
        } else {
            help_opened(a, b, a.context_topic_spec(env.readiness_shown))
        }
    } else {
        {
            match a.mode {
                Mode::Normal => normal_step(a, b, key, screen.detail, env, fx),
                Mode::Input(kind) => input_step(a, b, key, kind, fx),
                Mode::FilterMenu => filter_menu_step(a, b, key) && fx.len() == 0,
                Mode::SelectField(idx) => select_field_step(a, b, key, idx) && fx.len() == 0,
                Mode::SelectFieldMulti(idx) => multi_field_step(a, b, key, idx) && fx.len() == 0,
                Mode::Calendar(idx) => calendar_step(a, b, key, idx) && fx.len() == 0,
                Mode::ConfirmState => confirm_step(a, b, key, fx),
                Mode::IssueForm => form_key_step(a, b, key, screen.form_wrap, fx),
                Mode::IssueFormSelect(idx) => form_select_step(a, b, key, idx) && fx.len() == 0,
                Mode::IssueFormMulti(idx) => form_multi_step(a, b, key, idx) && fx.len() == 0,
                Mode::CommentEditor => comment_editor_step(a, b, key, screen.comment_wrap, fx),
                Mode::PrioritySet => priority_set_step(a, b, key, fx),
                Mode::LabelsSet => labels_set_step(a, b, key, fx),
                Mode::PrPicker => pr_picker_step(a, b, key, fx),
                Mode::PrSummary => pr_summary_step(a, b, key, screen.pr, fx),
                Mode::MovePicker => move_picker_step(a, b, key) && fx.len() == 0,
                Mode::ConfirmMove => confirm_move_step(a, b, key, fx),
                Mode::Help(_) => help_step(a, b, key, screen.help) && fx.len() == 0,
                Mode::Harness => harness_key_step(a, b, key, env, fx),
                Mode::HarnessPicker => harness_picker_step(a, b, key, env, fx),
                Mode::SessionPicker => session_picker_step(a, b, key) && fx.len() == 0,
                Mode::ConfirmHarness(what) => confirm_harness_step(a, b, key, what, env, fx),
                Mode::ConfirmPriority => confirm_priority_step(a, b, key, fx),
            }
        }
    }
}

/// Hand a key to the handler of the current mode.
#[verifier::rlimit(60)]
pub fn handle_key(app: &mut App, key: Key, screen: &Screen, env: &KeyEnv) -> (fx: Vec<Effect>)
    requires
        key_ready(*old(app), key, *screen),
    ensures
        key_step(*old(app), *final(app), key, *screen, *env, fx@),
{
    let is_f1 = match key.code {
        KeyCode::F(n) => n == 1,
        _ => false,
    };
    if is_f1 && app.mode != Mode::Harness {
        app.toggle_help(env.readiness_shown);
        return Vec::new();
    }
    match app.mode {
        Mode::Normal => handle_normal_key(app, key, &screen.detail, env),
        Mode::Input(kind) => handle_input_key(app, key, kind),
        Mode::FilterMenu => {
            handle_filter_menu_key(app, key);
            Vec::new()
        },
        Mode::SelectField(idx) => {
            handle_select_field_key(app, key, idx);
            Vec::new()
        },
        Mode::SelectFieldMulti(idx) => {
            handle_select_field_multi_key(app, key, idx);
            Vec::new()
        },
        Mode::Calendar(idx) => {
            handle_calendar_key(app, key, idx);
            Vec::new()
        },
        Mode::ConfirmState => handle_confirm_key(app, key),
        Mode::IssueForm => handle_issue_form_key(app, key, screen.form_wrap),
        Mode::IssueFormSelect(idx) => {
            handle_form_select_key(app, key, idx);
            Vec::new()
        },
        Mode::IssueFormMulti(idx) => {
            handle_form_multi_key(app, key, idx);
            Vec::new()
        },
        Mode::CommentEditor => handle_comment_editor_key(app, key, screen.comment_wrap),
        Mode::PrioritySet => handle_priority_set_key(app, key),
        Mode::LabelsSet => handle_labels_set_key(app, key),
        Mode::PrPicker => handle_pr_picker_key(app, key),
        Mode::PrSummary => handle_pr_summary_key(app, key, &screen.pr),
        Mode::MovePicker => {
            handle_move_picker_key(app, key);
            Vec::new()
        },
        Mode::ConfirmMove => handle_confirm_move_key(app, key),
        Mode::Help(_) => {
            handle_help_key(app, key, screen.help);
            Vec::new()
        },
        Mode::Harness => handle_harness_key(app, key, env),
        Mode::HarnessPicker => handle_harness_picker_key(app, key, env),
        Mode::SessionPicker => {
            handle_session_picker_key(app, key);
            Vec::new()
        },
        Mode::ConfirmHarness(what) => handle_confirm_harness_key(app, key, what, env),
        Mode::ConfirmPriority => handle_confirm_priority_key(app, key),
    }
}

} // verus!
