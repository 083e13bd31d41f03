//! Keys of the inline comment and description editor.
use vstd::prelude::*;

use crate::app::App;
use crate::editor::{at_most, word_left_pos, word_right_pos, BodyEditor, EditorState};
use crate::input_keys::sent;
use crate::keys::{status_is, with_issue, CommentRefresh, Effect, Key, KeyCode, Mutation};
use crate::mode::{CommentFocus, EditorTarget, Mode};
use crate::text::{owned, trim, trim_str};

verus! {

broadcast use vstd::string::group_string_axioms;

/// Whether the editor's current line can take any editing key.
pub open spec fn body_ok(e: BodyEditor) -> bool {
    e.wf() && e.cur().cursor <= e.cur().buffer@.len() && e.cur().cursor < usize::MAX
}

/// What an editing key does to the multi-line editor, and whether it was
/// one; `width` is the width the text wraps at, for Up/Down.
pub open spec fn body_key_step(o: BodyEditor, n: BodyEditor, key: Key, width: usize, handled: bool) -> bool {
    let c = o.cur();
    let len = c.buffer@.len() as int;
    let unhandled = !handled && n == o;
    match key.code {
        KeyCode::Enter => handled && n.newlined(&o),
        KeyCode::Backspace => handled && n.backspaced(&o),
        KeyCode::Delete => handled && n.deleted(&o),
        KeyCode::Left => handled && if key.ctrl {
            n.moved_to(&o, word_left_pos(c.buffer@, c.cursor as int))
        } else {
            n.moved_to(
                &o,
                if c.cursor > 0 {
                    c.cursor - 1
                } else {
                    0
                },
            )
        },
        KeyCode::Right => handled && if key.ctrl {
            n.moved_to(&o, word_right_pos(c.buffer@, c.cursor as int))
        } else {
            n.moved_to(&o, at_most(c.cursor + 1, len))
        },
        KeyCode::Up => handled && n.moved_visually(&o, width, -1),
        KeyCode::Down => handled && n.moved_visually(&o, width, 1),
        KeyCode::Home => handled && n.moved_to(&o, 0),
        KeyCode::End => handled && n.moved_to(&o, len),
        KeyCode::Char(ch) => if key.ctrl {
            if ch == 'a' {
                handled && n.moved_to(&o, 0)
            } else if ch == 'e' {
                handled && n.moved_to(&o, len)
            } else if ch == 'w' {
                let p = word_left_pos(c.buffer@, c.cursor as int);
                handled && n.edited_to(&o, c.buffer@.subrange(0, p) + c.buffer@.subrange(c.cursor as int, len), p)
            } else if ch == 'u' {
                handled && n.edited_to(&o, c.buffer@.subrange(at_most(c.cursor as int, len), len), 0)
            } else if ch == 'k' {
                handled && n.edited_to(&o, c.buffer@.subrange(0, at_most(c.cursor as int, len)), c.cursor as int)
            } else if ch == 'd' {
                handled && n.deleted(&o)
            } else {
                unhandled
            }
        } else {
            handled && n.typed(&o, ch)
        },
        _ => unhandled,
    }
}

/// Editing keys of the multi-line editor; returns whether the key was one.
pub fn apply_body_editor_key(body: &mut BodyEditor, key: Key, width: usize) -> (r: bool)
    requires
        body_ok(*old(body)),
    ensures
        body_key_step(*old(body), *final(body), key, width, r),
{
    match key.code {
        KeyCode::Enter => body.newline(),
        KeyCode::Backspace => body.backspace(),
        KeyCode::Delete => body.delete_char(),
        KeyCode::Left => {
            if key.ctrl {
                body.word_left()
            } else {
                body.left()
            }
        },
        KeyCode::Right => {
            if key.ctrl {
                body.word_right()
            } else {
                body.right()
            }
        },
        KeyCode::Up => body.up_visual(width),
        KeyCode::Down => body.down_visual(width),
        KeyCode::Home => body.home(),
        KeyCode::End => body.end(),
        KeyCode::Char(ch) => {
            if key.ctrl {
                if ch == 'a' {
                    body.home()
                } else if ch == 'e' {
                    body.end()
                } else if ch == 'w' {
                    body.delete_word_back()
                } else if ch == 'u' {
                    body.kill_to_start()
                } else if ch == 'k' {
                    body.kill_to_end()
                } else if ch == 'd' {
                    body.delete_char()
                } else {
                    return false;
                }
            } else {
                body.insert(ch)
            }
        },
        _ => return false,
    }
    true
}

pub open spec fn spec_next_focus(f: CommentFocus) -> CommentFocus {
    match f {
        CommentFocus::Editor => CommentFocus::Save,
        CommentFocus::Save => CommentFocus::Cancel,
        CommentFocus::Cancel => CommentFocus::Editor,
    }
}

pub open spec fn spec_prev_focus(f: CommentFocus) -> CommentFocus {
    match f {
        CommentFocus::Editor => CommentFocus::Cancel,
        CommentFocus::Save => CommentFocus::Editor,
        CommentFocus::Cancel => CommentFocus::Save,
    }
}

/// Tab: editor → Save → Cancel → editor.
pub fn next_comment_focus(focus: CommentFocus) -> (r: CommentFocus)
    ensures
        r == spec_next_focus(focus),
{
    match focus {
        CommentFocus::Editor => CommentFocus::Save,
        CommentFocus::Save => CommentFocus::Cancel,
        CommentFocus::Cancel => CommentFocus::Editor,
    }
}

/// Shift+Tab: the other way round.
pub fn prev_comment_focus(focus: CommentFocus) -> (r: CommentFocus)
    ensures
        r == spec_prev_focus(focus),
{
    match focus {
        CommentFocus::Editor => CommentFocus::Cancel,
        CommentFocus::Save => CommentFocus::Editor,
        CommentFocus::Cancel => CommentFocus::Save,
    }
}

/// A closed editor: empty, focus on the text, writing a new comment.
pub open spec fn editor_reset(e: EditorState) -> bool {
    &&& e.body.wf()
    &&& e.body.spec_text().len() == 0
    &&& e.focus == CommentFocus::Editor
    &&& e.target == EditorTarget::NewComment
}

/// Esc or Cancel: the draft is dropped.
pub open spec fn comment_cancelled(a: App, b: App) -> bool {
    &&& b == (App { editor: b.editor, mode: Mode::Normal, status: b.status, ..a })
    &&& editor_reset(b.editor)
    &&& status_is(b, "comment discarded"@)
}

pub fn cancel_comment(app: &mut App)
    ensures
        comment_cancelled(*old(app), *final(app)),
{
    app.editor = EditorState::new();
    app.mode = Mode::Normal;
    app.status = Some(owned("comment discarded"));
}

/// Save: the draft is written to its target (a new comment, an edited
/// comment, or the description). An empty comment is dropped; an empty
/// description is a valid edit.
pub open spec fn comment_submitted(a: App, b: App, fx: Seq<Effect>) -> bool {
    let text = a.editor.body.spec_text();
    let target = a.editor.target;
    let a1 = App { mode: Mode::Normal, editor: b.editor, ..a };
    &&& editor_reset(b.editor)
    &&& if trim(text).len() == 0 && !(target is EditBody) {
        b == (App { status: b.status, ..a1 }) && status_is(b, "empty \u{2014} discarded"@) && fx.len() == 0
    } else {
        match target {
            EditorTarget::NewComment => sent(a1, b, fx, "comment added"@, CommentRefresh::Refetch) && (fx.len()
                == 1 ==> (fx[0] matches Effect::Mutate { op: Mutation::AddComment(t), .. } && t@ == text)),
            EditorTarget::EditComment { comment_id } => sent(
                a1,
                b,
                fx,
                "comment updated"@,
                CommentRefresh::Refetch,
            ) && (fx.len() == 1 ==> (fx[0] matches Effect::Mutate {
                op: Mutation::UpdateComment { comment_id: id, body },
                ..
            } && id == comment_id && body@ == text)),
            EditorTarget::EditBody => sent(a1, b, fx, "description updated"@, CommentRefresh::Skip) && (fx.len()
                == 1 ==> (fx[0] matches Effect::Mutate { op: Mutation::UpdateBody(t), .. } && t@ == text)),
        }
    }
}

pub fn submit_comment(app: &mut App) -> (fx: Vec<Effect>)
    ensures
        comment_submitted(*old(app), *final(app), fx@),
{
    let (value, target) = app.editor.take();
    app.mode = Mode::Normal;
    let mut fx: Vec<Effect> = Vec::new();
    let is_body = match target {
        EditorTarget::EditBody => true,
        _ => false,
    };
    let t = trim_str(value.as_str());
    if t.as_str().is_empty() && !is_body {
        app.status = Some(owned("empty \u{2014} discarded"));
        return fx;
    }
    let sent = match target {
        EditorTarget::NewComment => with_issue(
            app,
            "comment added",
            CommentRefresh::Refetch,
            Mutation::AddComment(value),
        ),
        EditorTarget::EditComment { comment_id } => with_issue(
            app,
            "comment updated",
            CommentRefresh::Refetch,
            Mutation::UpdateComment { comment_id, body: value },
        ),
        EditorTarget::EditBody => with_issue(
            app,
            "description updated",
            CommentRefresh::Skip,
            Mutation::UpdateBody(value),
        ),
    };
    match sent {
        Some(e) => fx.push(e),
        None => {},
    }
    fx
}

/// A key in the inline editor: Esc cancels, Ctrl+S saves, Tab and
/// Shift+Tab move between the text, Save and Cancel, Enter or Space press
/// the focused button, and the text takes editing keys while it has focus.
pub open spec fn comment_editor_step(a: App, b: App, key: Key, width: usize, fx: Seq<Effect>) -> bool {
    let f = a.editor.focus;
    let press = key.code == KeyCode::Enter || key.code == KeyCode::Char(' ');
    if key.code == KeyCode::Esc {
        comment_cancelled(a, b) && fx.len() == 0
    } else if key.ctrl && key.code == KeyCode::Char('s') {
        comment_submitted(a, b, fx)
    } else if key.code == KeyCode::Tab {
        b == (App { editor: EditorState { focus: spec_next_focus(f), ..a.editor }, ..a }) && fx.len() == 0
    } else if key.code == KeyCode::BackTab {
        b == (App { editor: EditorState { focus: spec_prev_focus(f), ..a.editor }, ..a }) && fx.len() == 0
    } else if press && f == CommentFocus::Save {
        comment_submitted(a, b, fx)
    } else if press && f == CommentFocus::Cancel {
        comment_cancelled(a, b) && fx.len() == 0
    } else if f == CommentFocus::Editor {
        fx.len() == 0 && b == (App { editor: EditorState { body: b.editor.body, ..a.editor }, ..a })
            && exists|handled: bool| #[trigger] body_key_step(a.editor.body, b.editor.body, key, width, handled)
    } else {
        b == a && fx.len() == 0
    }
}

/// Whether a key reaches the comment text: with the editor focused, any key
/// but Esc, Tab, Shift+Tab and Ctrl+S.
pub open spec fn edits_comment(a: App, key: Key) -> bool {
    &&& a.editor.focus == CommentFocus::Editor
    &&& !(key.code is Esc || key.code is Tab || key.code is BackTab)
    &&& !(key.code == KeyCode::Char('s') && key.ctrl)
}

pub fn handle_comment_editor_key(app: &mut App, key: Key, width: usize) -> (fx: Vec<Effect>)
    requires
        edits_comment(*old(app), key) ==> body_ok(old(app).editor.body),
    ensures
        comment_editor_step(*old(app), *final(app), key, width, fx@),
{
    let press = match key.code {
        KeyCode::Enter => true,
        KeyCode::Char(c) => c == ' ',
        _ => false,
    };
    let save_key = match key.code {
        KeyCode::Char(c) => key.ctrl && c == 's',
        _ => false,
    };
    match key.code {
        KeyCode::Esc => {
            cancel_comment(app);
            return Vec::new();
        },
        KeyCode::Tab => {
            app.editor.focus = next_comment_focus(app.editor.focus);
            return Vec::new();
        },
        KeyCode::BackTab => {
            app.editor.focus = prev_comment_focus(app.editor.focus);
            return Vec::new();
        },
        _ => {},
    }
    if save_key {
        return submit_comment(app);
    }
    if press && app.editor.focus == CommentFocus::Save {
        return submit_comment(app);
    }
    if press && app.editor.focus == CommentFocus::Cancel {
        cancel_comment(app);
        return Vec::new();
    }
    if app.editor.focus == CommentFocus::Editor {
        let handled = apply_body_editor_key(&mut app.editor.body, key, width);
        assert(body_key_step(old(app).editor.body, app.editor.body, key, width, handled));
    }
    Vec::new()
}

} // verus!
