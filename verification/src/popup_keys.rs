//! Keys of the small popups: the close/reopen confirmation, the PR picker
//! and summary, and the help viewer.
use vstd::prelude::*;

use crate::app::App;
use crate::detail::clamp_int;
use crate::filter_keys::highlighted;
use crate::keys::{
    picker_common_key, picker_key_handled, picker_key_result, sel_id, status_is, with_issue,
    CommentRefresh, Effect, Key, KeyCode, Mutation,
};
use crate::help::{topic_at, topic_pos, HelpState};
use crate::input_keys::sent;
use crate::mode::{ConfirmChoice, Mode, PrTarget};
use crate::pr::PrState;
use crate::text::owned;
use crate::types::IssueState;

verus! {

broadcast use vstd::string::group_string_axioms;

/// Back to the list with the status reading "cancelled".
pub open spec fn cancelled(a: App, b: App) -> bool {
    b == (App { mode: Mode::Normal, status: b.status, ..a }) && status_is(b, "cancelled"@)
}

/// Close or reopen the selected issue, whichever it is not.
pub open spec fn state_toggled(a: App, b: App, fx: Seq<Effect>) -> bool {
    let a1 = App { mode: Mode::Normal, ..a };
    match a.spec_selected_issue() {
        None => b == a1 && fx.len() == 0,
        Some(i) => {
            let target = match i.state {
                IssueState::Open => IssueState::Closed,
                IssueState::Closed => IssueState::Open,
            };
            &&& sent(a1, b, fx, match target {
                IssueState::Closed => "issue closed"@,
                IssueState::Open => "issue reopened"@,
            }, CommentRefresh::Skip)
            &&& fx.len() == 1 && (fx[0] matches Effect::Mutate { op, .. } && op == Mutation::SetState(target))
        },
    }
}

/// `y` or Enter on Yes in the close/reopen confirmation.
pub fn confirm_toggle_state(app: &mut App) -> (fx: Vec<Effect>)
    ensures
        state_toggled(*old(app), *final(app), fx@),
{
    app.mode = Mode::Normal;
    let target = match app.selected_issue() {
        Some(i) => match i.state {
            IssueState::Open => IssueState::Closed,
            IssueState::Closed => IssueState::Open,
        },
        None => return Vec::new(),
    };
    let msg = match target {
        IssueState::Closed => "issue closed",
        IssueState::Open => "issue reopened",
    };
    let mut fx: Vec<Effect> = Vec::new();
    match with_issue(app, msg, CommentRefresh::Skip, Mutation::SetState(target)) {
        Some(e) => fx.push(e),
        None => {},
    }
    fx
}

/// A key in the close/reopen confirmation.
pub open spec fn confirm_step(a: App, b: App, key: Key, fx: Seq<Effect>) -> bool {
    let flip = b == (App {
        confirm_choice: match a.confirm_choice {
            ConfirmChoice::Yes => ConfirmChoice::No,
            ConfirmChoice::No => ConfirmChoice::Yes,
        },
        ..a
    }) && fx.len() == 0;
    match key.code {
        KeyCode::Left | KeyCode::Right | KeyCode::Tab => flip,
        KeyCode::Char(c) => if c == 'h' || c == 'l' {
            flip
        } else if c == 'y' {
            state_toggled(a, b, fx)
        } else if c == 'n' {
            cancelled(a, b) && fx.len() == 0
        } else {
            b == a && fx.len() == 0
        },
        KeyCode::Esc => cancelled(a, b) && fx.len() == 0,
        KeyCode::Enter => match a.confirm_choice {
            ConfirmChoice::Yes => state_toggled(a, b, fx),
            ConfirmChoice::No => cancelled(a, b) && fx.len() == 0,
        },
        _ => b == a && fx.len() == 0,
    }
}

fn cancel(app: &mut App)
    ensures
        cancelled(*old(app), *final(app)),
{
    app.mode = Mode::Normal;
    app.status = Some(owned("cancelled"));
}

pub fn handle_confirm_key(app: &mut App, key: Key) -> (fx: Vec<Effect>)
    ensures
        confirm_step(*old(app), *final(app), key, fx@),
{
    let flip = match key.code {
        KeyCode::Left | KeyCode::Right | KeyCode::Tab => true,
        KeyCode::Char(c) => c == 'h' || c == 'l',
        _ => false,
    };
    if flip {
        app.confirm_choice = match app.confirm_choice {
            ConfirmChoice::Yes => ConfirmChoice::No,
            ConfirmChoice::No => ConfirmChoice::Yes,
        };
        return Vec::new();
    }
    match key.code {
        KeyCode::Char(c) => {
            if c == 'y' {
                return confirm_toggle_state(app);
            } else if c == 'n' {
                cancel(app);
            }
            Vec::new()
        },
        KeyCode::Esc => {
            cancel(app);
            Vec::new()
        },
        KeyCode::Enter => match app.confirm_choice {
            ConfirmChoice::Yes => confirm_toggle_state(app),
            ConfirmChoice::No => {
                cancel(app);
                Vec::new()
            },
        },
        _ => Vec::new(),
    }
}

/// A key in the PR picker: Enter opens the highlighted link's summary.
pub open spec fn pr_picker_step(a: App, b: App, key: Key, fx: Seq<Effect>) -> bool {
    if picker_key_handled(key, true) {
        picker_key_result(a.picker, b.picker, key, true) && b == (App { picker: b.picker, ..a }) && fx.len()
            == 0
    } else {
        match key.code {
            KeyCode::Esc => picker_closed(a, b) && fx.len() == 0,
            KeyCode::Enter => match highlighted(a.picker) {
                Some(orig) => if orig < a.pr.links@.len() {
                    let pr = a.pr.links@[orig as int];
                    &&& b == (App { mode: Mode::PrSummary, pr: b.pr, ..a })
                    &&& b.pr.target == Some(pr)
                    &&& b.pr.summary.is_none()
                    &&& b.pr.links == a.pr.links
                    &&& fx.len() == 1 && (fx[0] matches Effect::FetchPrSummary(p) && p == pr)
                } else {
                    b == a && fx.len() == 0
                },
                None => fx.len() == 0 && if a.picker.options@.len() == 0 {
                    picker_closed(a, b)
                } else {
                    b == a
                },
            },
            _ => b == a && fx.len() == 0,
        }
    }
}

/// The PR picker closed, back to the detail pane.
pub open spec fn picker_closed(a: App, b: App) -> bool {
    b == (App { mode: Mode::Normal, pr: PrState { links: b.pr.links, ..a.pr }, ..a }) && b.pr.links@.len()
        == 0
}

pub fn handle_pr_picker_key(app: &mut App, key: Key) -> (fx: Vec<Effect>)
    ensures
        pr_picker_step(*old(app), *final(app), key, fx@),
{
    let mut fx: Vec<Effect> = Vec::new();
    if picker_common_key(&mut app.picker, key, true) {
        return fx;
    }
    assert(app.picker == old(app).picker);
    match key.code {
        KeyCode::Esc => app.close_pr_picker(),
        KeyCode::Enter => match app.picker.selected_original() {
            Some(orig) => {
                if orig < app.pr.links.len() {
                    let pr = app.pr.links[orig].duplicate();
                    app.open_pr_summary(pr.duplicate());
                    fx.push(Effect::FetchPrSummary(pr));
                }
            },
            None => {
                if app.picker.options.len() == 0 {
                    app.close_pr_picker();
                }
            },
        },
        _ => {},
    }
    fx
}

/// What the PR summary popup's drawn frame says: how far it can scroll, a
/// page's height, and its open-able rows.
#[derive(Debug, Clone)]
pub struct PrView {
    pub scroll_max: u16,
    pub page_rows: i16,
    pub targets: Vec<PrTarget>,
}

/// The popup's scroll set to `scroll`, nothing else changed.
pub open spec fn pr_scroll_at(a: App, b: App, scroll: int) -> bool {
    b == (App { pr: PrState { scroll: scroll as u16, ..a.pr }, ..a })
}

/// The popup's scroll moved by `delta`, inside the content.
pub open spec fn pr_scrolled(a: App, b: App, delta: int, view: PrView) -> bool {
    pr_scroll_at(a, b, clamp_int(a.pr.scroll + delta, 0, view.scroll_max as int))
}

/// Tab/Shift+Tab: the next open-able row, the scroll on it and inside the
/// content.
pub open spec fn pr_reselected(a: App, b: App, delta: int, view: PrView) -> bool {
    let n = view.targets@.len();
    if n == 0 {
        pr_scroll_at(
            a,
            b,
            if a.pr.scroll < view.scroll_max {
                a.pr.scroll as int
            } else {
                view.scroll_max as int
            },
        )
    } else {
        let sel = (a.pr.sel + delta) % (n as int);
        let line = view.targets@[sel].line;
        b == (App {
            pr: PrState {
                sel: sel as usize,
                scroll: if line < view.scroll_max {
                    line
                } else {
                    view.scroll_max
                },
                ..a.pr
            },
            ..a
        })
    }
}

/// A key in the PR summary popup.
pub open spec fn pr_summary_step(a: App, b: App, key: Key, view: PrView, fx: Seq<Effect>) -> bool {
    let closed = b == (App { mode: Mode::Normal, pr: b.pr, ..a }) && b.pr == (PrState {
        target: None,
        summary: None,
        scroll: 0,
        sel: 0,
        ..a.pr
    });
    let page = view.page_rows as int;
    let open_url = b == a && match view.targets@.len() > a.pr.sel {
        true => fx == seq![Effect::OpenUrl(view.targets@[a.pr.sel as int].url)],
        false => fx.len() == 0,
    };
    let none = b == a && fx.len() == 0;
    match key.code {
        KeyCode::Esc => closed && fx.len() == 0,
        KeyCode::Down => pr_scrolled(a, b, 1, view) && fx.len() == 0,
        KeyCode::Up => pr_scrolled(a, b, -1, view) && fx.len() == 0,
        KeyCode::PageDown => pr_scrolled(a, b, page, view) && fx.len() == 0,
        KeyCode::PageUp => pr_scrolled(a, b, -page, view) && fx.len() == 0,
        KeyCode::Home => pr_scroll_at(a, b, 0) && fx.len() == 0,
        KeyCode::End => pr_scroll_at(a, b, view.scroll_max as int) && fx.len() == 0,
        KeyCode::Tab => pr_reselected(a, b, 1, view) && fx.len() == 0,
        KeyCode::BackTab => pr_reselected(a, b, -1, view) && fx.len() == 0,
        KeyCode::Enter => open_url,
        KeyCode::Char(c) => if c == 'q' {
            closed && fx.len() == 0
        } else if c == 'j' {
            pr_scrolled(a, b, 1, view) && fx.len() == 0
        } else if c == 'k' {
            pr_scrolled(a, b, -1, view) && fx.len() == 0
        } else if c == 'g' {
            pr_scroll_at(a, b, 0) && fx.len() == 0
        } else if c == 'G' {
            pr_scroll_at(a, b, view.scroll_max as int) && fx.len() == 0
        } else if c == 'o' {
            open_url
        } else if c == 'r' {
            match a.pr.target {
                Some(t) => b == (App { pr: PrState { summary: None, scroll: 0, sel: 0, ..a.pr }, ..a })
                    && fx.len() == 1 && (fx[0] matches Effect::FetchPrSummary(p) && p == t),
                None => none,
            }
        } else {
            none
        },
        _ => none,
    }
}

#[verifier::rlimit(50)]
#[verifier::spinoff_prover]
pub fn handle_pr_summary_key(app: &mut App, key: Key, view: &PrView) -> (fx: Vec<Effect>)
    requires
        -32768 < view.page_rows,
    ensures
        pr_summary_step(*old(app), *final(app), key, *view, fx@),
{
    let mut fx: Vec<Effect> = Vec::new();
    let (close, down, up, home, end, open) = match key.code {
        KeyCode::Esc => (true, false, false, false, false, false),
        KeyCode::Down => (false, true, false, false, false, false),
        KeyCode::Up => (false, false, true, false, false, false),
        KeyCode::Home => (false, false, false, true, false, false),
        KeyCode::End => (false, false, false, false, true, false),
        KeyCode::Enter => (false, false, false, false, false, true),
        KeyCode::Char(c) => (c == 'q', c == 'j', c == 'k', c == 'g', c == 'G', c == 'o'),
        _ => (false, false, false, false, false, false),
    };
    if close {
        app.close_pr_summary();
    } else if down {
        app.pr.scroll_by(1, view.scroll_max);
    } else if up {
        app.pr.scroll_by(-1, view.scroll_max);
    } else if home {
        app.pr.scroll_to_top();
    } else if end {
        app.pr.scroll_to_bottom(view.scroll_max);
    } else if open {
        match app.pr.selected_url(view.targets.as_slice()) {
            Some(url) => fx.push(Effect::OpenUrl(url)),
            None => {},
        }
    } else {
        match key.code {
            KeyCode::PageDown => app.pr.scroll_by(view.page_rows, view.scroll_max),
            KeyCode::PageUp => app.pr.scroll_by(-view.page_rows, view.scroll_max),
            KeyCode::Tab => {
                app.pr.select(1, view.targets.as_slice());
                app.pr.clamp_scroll(view.scroll_max);
            },
            KeyCode::BackTab => {
                app.pr.select(-1, view.targets.as_slice());
                app.pr.clamp_scroll(view.scroll_max);
            },
            KeyCode::Char(c) => {
                if c == 'r' {
                    match &app.pr.target {
                        Some(t) => {
                            let pr = t.duplicate();
                            app.pr.refresh();
                            fx.push(Effect::FetchPrSummary(pr));
                        },
                        None => {},
                    }
                }
            },
            _ => {},
        }
    }
    fx
}

/// What the help viewer's drawn frame says: how far the page scrolls and a
/// page's height.
#[derive(Debug, Clone, Copy)]
pub struct HelpView {
    pub scroll_max: u16,
    pub page_rows: i16,
}

/// The help page scrolled to `scroll`.
pub open spec fn help_scroll_at(a: App, b: App, scroll: int) -> bool {
    b == (App { help: HelpState { scroll: scroll as u16, ..a.help }, ..a })
}

pub open spec fn help_scrolled(a: App, b: App, delta: int, view: HelpView) -> bool {
    help_scroll_at(a, b, clamp_int(a.help.scroll + delta, 0, view.scroll_max as int))
}

/// The next (`d = 1`) or previous page, from its top.
pub open spec fn help_switched(a: App, b: App, d: int) -> bool {
    if a.mode is Help {
        b == (App {
            mode: Mode::Help(topic_at((topic_pos(a.mode->Help_0) + d) % 5)),
            help: HelpState { scroll: 0, ..a.help },
            ..a
        })
    } else {
        b == a
    }
}

/// A key in the help viewer. Over a session the table closes on any key.
pub open spec fn help_step(a: App, b: App, key: Key, view: HelpView) -> bool {
    let closed = if a.mode is Help {
        b == (App { mode: a.help.return_to, ..a })
    } else {
        b == a
    };
    let page = view.page_rows as int;
    if a.help.return_to == Mode::Harness {
        closed
    } else {
        match key.code {
            KeyCode::Esc => closed,
            KeyCode::Right | KeyCode::Tab => help_switched(a, b, 1),
            KeyCode::Left | KeyCode::BackTab => help_switched(a, b, -1),
            KeyCode::Down => help_scrolled(a, b, 1, view),
            KeyCode::Up => help_scrolled(a, b, -1, view),
            KeyCode::PageDown => help_scrolled(a, b, page, view),
            KeyCode::PageUp => help_scrolled(a, b, -page, view),
            KeyCode::Home => help_scroll_at(a, b, 0),
            KeyCode::End => help_scroll_at(a, b, view.scroll_max as int),
            KeyCode::Char(c) => if c == 'q' || c == '?' {
                closed
            } else if c == 'l' {
                help_switched(a, b, 1)
            } else if c == 'h' {
                help_switched(a, b, -1)
            } else if c == 'j' {
                help_scrolled(a, b, 1, view)
            } else if c == 'k' {
                help_scrolled(a, b, -1, view)
            } else if c == 'g' {
                help_scroll_at(a, b, 0)
            } else if c == 'G' {
                help_scroll_at(a, b, view.scroll_max as int)
            } else {
                b == a
            },
            _ => b == a,
        }
    }
}

#[verifier::rlimit(40)]
#[verifier::spinoff_prover]
pub fn handle_help_key(app: &mut App, key: Key, view: HelpView)
    requires
        -32768 < view.page_rows,
    ensures
        help_step(*old(app), *final(app), key, view),
{
    if app.help_is_session() {
        app.close_help();
        return;
    }
    let (close, next, prev, down, up, home, end) = match key.code {
        KeyCode::Esc => (true, false, false, false, false, false, false),
        KeyCode::Right | KeyCode::Tab => (false, true, false, false, false, false, false),
        KeyCode::Left | KeyCode::BackTab => (false, false, true, false, false, false, false),
        KeyCode::Down => (false, false, false, true, false, false, false),
        KeyCode::Up => (false, false, false, false, true, false, false),
        KeyCode::Home => (false, false, false, false, false, true, false),
        KeyCode::End => (false, false, false, false, false, false, true),
        KeyCode::Char(c) => (
            c == 'q' || c == '?',
            c == 'l',
            c == 'h',
            c == 'j',
            c == 'k',
            c == 'g',
            c == 'G',
        ),
        _ => (false, false, false, false, false, false, false),
    };
    if close {
        app.close_help();
    } else if next {
        app.help_switch(1);
    } else if prev {
        app.help_switch(-1);
    } else if down {
        app.help.scroll_by(1, view.scroll_max);
    } else if up {
        app.help.scroll_by(-1, view.scroll_max);
    } else if home {
        app.help.scroll = 0;
    } else if end {
        app.help.scroll = view.scroll_max;
    } else {
        match key.code {
            KeyCode::PageDown => app.help.scroll_by(view.page_rows, view.scroll_max),
            KeyCode::PageUp => app.help.scroll_by(-view.page_rows, view.scroll_max),
            _ => {},
        }
    }
}

} // verus!
