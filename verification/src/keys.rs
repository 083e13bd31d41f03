//! What each key does in each mode. A handler takes the state and a key and
//! returns the state to move to together with the work to hand the event
//! loop (fetches, mutations, opening a URL, copying text); the loop performs
//! that work and reports back through `AppEvent`s.
use vstd::prelude::*;

use crate::app::{clamp_index, eq_str, App};
use crate::text::owned;
use crate::editor::{at_most, word_left_pos, word_right_pos, InputState};
use crate::mode::{Focus, InputKind, Mode, SessionId};
use crate::picker::PickerState;
use crate::types::{Comment, IssueState, NewIssueParams, PrRef};

verus! {

broadcast use vstd::string::group_string_axioms;

/// Which key was pressed, as plain values.
#[derive(Debug, Clone, Copy, PartialEq, Eq, Structural)]
pub enum KeyCode {
    Char(char),
    Enter,
    Esc,
    Tab,
    BackTab,
    Backspace,
    Delete,
    Left,
    Right,
    Up,
    Down,
    Home,
    End,
    PageUp,
    PageDown,
    F(u8),
    Other,
}

/// A key press: the key and whether Control was held.
#[derive(Debug, Clone, Copy, PartialEq, Eq, Structural)]
pub struct Key {
    pub code: KeyCode,
    pub ctrl: bool,
}

/// Whether a finished mutation should refetch the open comment thread.
#[derive(Debug, Clone, Copy, PartialEq, Eq, Structural)]
pub enum CommentRefresh {
    Refetch,
    Skip,
}

/// A change to one issue, sent to the backend.
#[derive(Debug, Clone, PartialEq, Eq)]
pub enum Mutation {
    SetAssignees(Vec<String>),
    UpdateTitle(String),
    SetState(IssueState),
    AddComment(String),
    UpdateComment { comment_id: String, body: String },
    UpdateBody(String),
    SetLabels { repo: String, org: String, names: Vec<String> },
    /// Transfer the issue to repo `target` of `org`.
    MoveIssue { org: String, target: String },
}

/// Work a handler hands to the event loop.
#[derive(Debug, Clone, PartialEq, Eq)]
pub enum Effect {
    /// Fetch the org's issues (with closed ones when the app asks for them).
    FetchData,
    /// Fetch the comment thread of an issue.
    FetchComments(String),
    /// Fetch the new-issue form's options for a repo.
    FetchFormOptions { org: String, repo: String },
    /// Fetch a repo's labels for the set-priority picker.
    FetchPriorityOptions { org: String, repo: String, issue_id: String },
    /// Fetch a repo's labels for the edit-labels picker.
    FetchLabelOptions { org: String, repo: String, issue_id: String },
    /// Fetch a linked PR's summary.
    FetchPrSummary(PrRef),
    /// Apply a change to an issue; report `done` when it lands.
    Mutate { issue_id: String, op: Mutation, done: String, refresh: CommentRefresh },
    /// Create an issue in `repo`.
    CreateIssue { params: NewIssueParams, repo: String },
    /// Open a URL in the browser.
    OpenUrl(String),
    /// Put text on the clipboard.
    CopyText(String),
    /// Hand a key to the child of session `id`.
    SendKey { id: SessionId, key: Key },
    /// End session `id`'s child, if it still runs, and drop its terminal.
    EndSession(SessionId),
    /// Show session `id`'s frozen screen from `rows` back.
    ShowScrollback { id: SessionId, rows: usize },
    /// Open a terminal onto running session `id` where this process has none
    /// yet (a session adopted from an earlier run).
    OpenSession(SessionId),
    /// Start `harness` for the issue `issue_ref` names, in a workspace for
    /// `owner/repo`; the issue's number, URL and title fill the command's
    /// placeholders.
    StartSession {
        issue_ref: String,
        harness: String,
        owner: String,
        repo: String,
        number: u64,
        url: String,
        title: String,
    },
    /// End every session's child before quitting.
    EndAllSessions,
}

/// What the drawn frame says about the detail pane, measured by the drawing
/// code at the current terminal size: the viewport heights of the body and
/// comment regions, the body's content height for the selected issue, and
/// each comment card's top offset and height.
#[derive(Debug, Clone)]
pub struct ViewMetrics {
    pub body_view: u16,
    pub comments_view: u16,
    pub body_content: u16,
    pub comment_spans: Vec<(u16, u16)>,
}

/// Facts about the surroundings that some keys consult: whether the backend
/// can summarise pull requests, the PR links found on the open issue, and
/// whether the detail pane shows a readiness verdict.
#[derive(Debug, Clone)]
pub struct KeyEnv {
    pub supports_pr_summary: bool,
    pub pr_links: Vec<PrRef>,
    pub readiness_shown: bool,
    /// The harness a launch starts without asking, when one is configured.
    pub default_harness: Option<String>,
    /// The configured harnesses, in the order the picker offers them.
    pub harness_names: Vec<String>,
}

/// The id of an optional issue, as text.
pub open spec fn opt_view(o: Option<String>) -> Option<Seq<char>> {
    match o {
        Some(s) => Some(s@),
        None => None,
    }
}

/// The id of the issue under the selection.
pub open spec fn sel_id(a: App) -> Option<Seq<char>> {
    match a.spec_selected_issue() {
        Some(i) => Some(i.id@),
        None => None,
    }
}

/// Whether the status line reads `t`.
pub open spec fn status_is(a: App, t: Seq<char>) -> bool {
    a.status matches Some(s) && s@ == t
}

/// Whether `e` asks for the comment thread of issue `id`.
pub open spec fn is_fetch_comments(e: Effect, id: Seq<char>) -> bool {
    e matches Effect::FetchComments(s) && s@ == id
}

/// Whether `e` is the mutation `op` of issue `id`, reporting `done`.
pub open spec fn is_mutation(e: Effect, id: Seq<char>, op: Mutation, done: Seq<char>, refresh: CommentRefresh) -> bool {
    e matches Effect::Mutate { issue_id, op: o, done: d, refresh: rf } && issue_id@ == id && o == op
        && d@ == done && rf == refresh
}

/// The id of the selected issue.
pub fn selected_id(app: &App) -> (r: Option<String>)
    ensures
        opt_view(r) == sel_id(*app),
{
    match app.selected_issue() {
        Some(i) => Some(i.id.clone()),
        None => None,
    }
}

/// Whether two optional ids are the same.
pub fn same_id(a: &Option<String>, b: &Option<String>) -> (r: bool)
    ensures
        r == (opt_view(*a) == opt_view(*b)),
{
    match (a, b) {
        (Some(x), Some(y)) => eq_str(x.as_str(), y.as_str()),
        (None, None) => true,
        _ => false,
    }
}

/// Start mutation `op` on the selected issue: the status reads "working…"
/// and the mutation goes to the event loop. Nothing happens without a
/// selected issue.
pub fn with_issue(app: &mut App, done: &str, refresh: CommentRefresh, op: Mutation) -> (r: Option<Effect>)
    ensures
        match sel_id(*old(app)) {
            None => r.is_none() && *final(app) == *old(app),
            Some(id) => {
                &&& r matches Some(e) && is_mutation(e, id, op, done@, refresh)
                &&& status_is(*final(app), "working\u{2026}"@)
                &&& *final(app) == (App { status: final(app).status, ..*old(app) })
            },
        },
{
    let id = match app.selected_issue() {
        Some(i) => i.id.clone(),
        None => return None,
    };
    app.status = Some(owned("working\u{2026}"));
    Some(Effect::Mutate { issue_id: id, op, done: owned(done), refresh })
}

impl Key {
    pub open spec fn is_char(self, c: char) -> bool {
        self.code == KeyCode::Char(c)
    }
}

// ---------------------------------------------------------------------------
// Single-line editing.
// ---------------------------------------------------------------------------

/// The buffer and cursor an editing key leaves in a single-line input, and
/// whether the key was an editing key at all.
pub open spec fn input_edit(buf: Seq<char>, cur: int, key: Key) -> (Seq<char>, int, bool) {
    let n = buf.len() as int;
    match key.code {
        KeyCode::Backspace => if cur > 0 {
            (buf.remove(cur - 1), cur - 1, true)
        } else {
            (buf, 0, true)
        },
        KeyCode::Delete => (if cur < n {
            buf.remove(cur)
        } else {
            buf
        }, cur, true),
        KeyCode::Left => if key.ctrl {
            (buf, word_left_pos(buf, cur), true)
        } else {
            (buf, if cur > 0 {
                cur - 1
            } else {
                0
            }, true)
        },
        KeyCode::Right => if key.ctrl {
            (buf, word_right_pos(buf, cur), true)
        } else {
            (buf, at_most(cur + 1, n), true)
        },
        KeyCode::Home => (buf, 0, true),
        KeyCode::End => (buf, n, true),
        KeyCode::Char(c) => if key.ctrl {
            if c == 'a' {
                (buf, 0, true)
            } else if c == 'e' {
                (buf, n, true)
            } else if c == 'w' {
                let p = word_left_pos(buf, cur);
                (buf.subrange(0, p) + buf.subrange(cur, n), p, true)
            } else if c == 'u' {
                (buf.subrange(at_most(cur, n), n), 0, true)
            } else if c == 'k' {
                (buf.subrange(0, at_most(cur, n)), cur, true)
            } else if c == 'd' {
                (if cur < n {
                    buf.remove(cur)
                } else {
                    buf
                }, cur, true)
            } else {
                (buf, cur, false)
            }
        } else {
            (buf.insert(at_most(cur, n), c), cur + 1, true)
        },
        _ => (buf, cur, false),
    }
}

/// Readline-style editing keys shared by every single-line input; returns
/// whether the key was one.
pub fn apply_input_editor_key(input: &mut InputState, key: Key) -> (r: bool)
    requires
        old(input).cursor <= old(input).buffer@.len(),
        old(input).buffer@.len() + 1 < usize::MAX,
    ensures
        ({
            let e = input_edit(old(input).buffer@, old(input).cursor as int, key);
            &&& final(input).buffer@ == e.0
            &&& final(input).cursor == e.1
            &&& r == e.2
        }),
        final(input).cursor <= final(input).buffer@.len(),
        final(input).buffer@.len() <= old(input).buffer@.len() + 1,
{
    proof {
        crate::editor::lemma_back_bounds(old(input).buffer@, old(input).cursor as int);
        crate::editor::lemma_fwd_bounds(old(input).buffer@, old(input).cursor as int);
    }
    match key.code {
        KeyCode::Backspace => input.backspace(),
        KeyCode::Delete => input.delete_char(),
        KeyCode::Left => {
            if key.ctrl {
                input.word_left()
            } else {
                input.left()
            }
        },
        KeyCode::Right => {
            if key.ctrl {
                input.word_right()
            } else {
                input.right()
            }
        },
        KeyCode::Home => input.home(),
        KeyCode::End => input.end(),
        KeyCode::Char(c) => {
            if key.ctrl {
                if c == 'a' {
                    input.home()
                } else if c == 'e' {
                    input.end()
                } else if c == 'w' {
                    input.delete_word_back()
                } else if c == 'u' {
                    input.kill_to_start()
                } else if c == 'k' {
                    input.kill_to_end()
                } else if c == 'd' {
                    input.delete_char()
                } else {
                    return false;
                }
            } else {
                input.insert(c)
            }
        },
        _ => return false,
    }
    true
}

// ---------------------------------------------------------------------------
// Keys every option picker shares.
// ---------------------------------------------------------------------------

/// What a picker key does to the picker, and whether it was handled.
pub open spec fn picker_key_result(p: PickerState, q: PickerState, key: Key, space_filters: bool) -> bool {
    let visible = p.shown().len();
    match key.code {
        KeyCode::Down => q == (PickerState {
            idx: if visible > 0 {
                ((p.idx + 1) % (visible as int)) as usize
            } else {
                p.idx
            },
            ..p
        }),
        KeyCode::Up => q == (PickerState {
            idx: if visible > 0 {
                ((p.idx + visible - 1) % (visible as int)) as usize
            } else {
                p.idx
            },
            ..p
        }),
        KeyCode::Home => q == (PickerState { idx: 0, ..p }),
        KeyCode::End => q == (PickerState {
            idx: if visible > 0 {
                (visible - 1) as usize
            } else {
                0
            },
            ..p
        }),
        KeyCode::Backspace => {
            &&& q.filter@ == (if p.filter@.len() == 0 {
                p.filter@
            } else {
                p.filter@.drop_last()
            })
            &&& q.options == p.options
            &&& q.multi_selected == p.multi_selected
            &&& q.priority_issue == p.priority_issue
            &&& q.label_issue == p.label_issue
            &&& q.idx == clamp_index(p.idx as int, q.shown().len() as int)
        },
        KeyCode::Char(c) => if key.ctrl && c == 'u' {
            &&& q.filter@.len() == 0
            &&& q.options == p.options
            &&& q.multi_selected == p.multi_selected
            &&& q.priority_issue == p.priority_issue
            &&& q.label_issue == p.label_issue
            &&& q.idx == clamp_index(p.idx as int, q.shown().len() as int)
        } else if (c == ' ' && !space_filters) || key.ctrl {
            q == p
        } else {
            &&& q.filter@ == p.filter@.push(c)
            &&& q.idx == 0
            &&& q.options == p.options
            &&& q.multi_selected == p.multi_selected
            &&& q.priority_issue == p.priority_issue
            &&& q.label_issue == p.label_issue
        },
        _ => q == p,
    }
}

/// Whether a picker key is one of the shared ones.
pub open spec fn picker_key_handled(key: Key, space_filters: bool) -> bool {
    match key.code {
        KeyCode::Down | KeyCode::Up | KeyCode::Home | KeyCode::End | KeyCode::Backspace => true,
        KeyCode::Char(c) => (key.ctrl && c == 'u') || !(key.ctrl || (c == ' ' && !space_filters)),
        _ => false,
    }
}

/// Up/Down over the filtered view (wrapping), Home/End, and type-ahead
/// filter editing; Space is left to the caller unless `space_filters`.
pub fn picker_common_key(p: &mut PickerState, key: Key, space_filters: bool) -> (r: bool)
    ensures
        r == picker_key_handled(key, space_filters),
        picker_key_result(*old(p), *final(p), key, space_filters),
{
    let visible = p.filtered().len();
    match key.code {
        KeyCode::Down => {
            if visible > 0 {
                let i = p.idx % visible;
                p.idx = if i + 1 < visible {
                    i + 1
                } else {
                    0
                };
                assert(p.idx == (old(p).idx + 1) % (visible as int)) by {
                    vstd::arithmetic::div_mod::lemma_add_mod_noop_right(1, old(p).idx as int, visible as int);
                    if i + 1 < visible {
                        vstd::arithmetic::div_mod::lemma_small_mod((i + 1) as nat, visible as nat);
                    } else {
                        vstd::arithmetic::div_mod::lemma_mod_self_0(visible as int);
                    }
                }
            }
            true
        },
        KeyCode::Up => {
            if visible > 0 {
                let i = p.idx % visible;
                p.idx = if i == 0 {
                    visible - 1
                } else {
                    i - 1
                };
                assert(p.idx == (old(p).idx + visible - 1) % (visible as int)) by {
                    vstd::arithmetic::div_mod::lemma_add_mod_noop_right((visible - 1) as int, old(p).idx as int, visible as int);
                    if i == 0 {
                        vstd::arithmetic::div_mod::lemma_small_mod((visible - 1) as nat, visible as nat);
                    } else {
                        vstd::arithmetic::div_mod::lemma_mod_add_multiples_vanish((i - 1) as int, visible as int);
                        vstd::arithmetic::div_mod::lemma_small_mod((i - 1) as nat, visible as nat);
                    }
                }
            }
            true
        },
        KeyCode::Home => {
            p.idx = 0;
            true
        },
        KeyCode::End => {
            p.idx = if visible > 0 {
                visible - 1
            } else {
                0
            };
            true
        },
        KeyCode::Backspace => {
            p.filter_backspace();
            true
        },
        KeyCode::Char(c) => {
            if key.ctrl && c == 'u' {
                p.filter_clear();
                true
            } else if (c == ' ' && !space_filters) || key.ctrl {
                false
            } else {
                p.filter_push(c);
                true
            }
        },
        _ => false,
    }
}

} // verus!
