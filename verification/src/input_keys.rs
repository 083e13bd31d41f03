//! Keys of the single-line input box, and what its submitted text does.
use vstd::prelude::*;

use crate::app::App;
use crate::events::split_csv;
use crate::filters::trimmed_nonempty;
use crate::keys::{
    apply_input_editor_key, input_edit, sel_id, selected_id, status_is, with_issue, CommentRefresh,
    Effect, Key, KeyCode, Mutation,
};
use crate::mode::{InputKind, Mode};
use crate::normal::{nav, navigated};
use crate::sorting::views;
use crate::text::{
    chars_of, eq_ic, eq_ignore_ascii_case, owned, parse_u64, split, string_of_range, string_push_str,
    trim, trim_start_char, trim_start_char_chars, trim_str, u64_parse,
};

verus! {

broadcast use vstd::string::group_string_axioms;

/// A mutation of the selected issue sent with message `done`: the status
/// reads "working…"; nothing happens without a selected issue.
pub open spec fn sent(a: App, b: App, fx: Seq<Effect>, done: Seq<char>, refresh: CommentRefresh) -> bool {
    match sel_id(a) {
        None => b == a && fx.len() == 0,
        Some(id) => {
            &&& b == (App { status: b.status, ..a })
            &&& status_is(b, "working\u{2026}"@)
            &&& fx.len() == 1
            &&& fx[0] matches Effect::Mutate { issue_id, done: d, refresh: rf, .. } && issue_id@ == id && d@
                == done && rf == refresh
        },
    }
}

/// The issue number a `#` jump text names: surrounding blanks and leading
/// `#`s dropped.
pub open spec fn goto_number(value: Seq<char>) -> Option<u64> {
    u64_parse(trim(trim_start_char(trim(value), '#')))
}

/// What submitting `value` from an input of `kind` does.
pub open spec fn submitted(a: App, b: App, kind: InputKind, value: Seq<char>, fx: Seq<Effect>) -> bool {
    match kind {
        InputKind::Search => b.filter_input_applied(a, kind, value) && fx.len() == 0,
        InputKind::FilterField(_) => fx.len() == 0 && exists|m: App|
            #[trigger] m.filter_input_applied(a, kind, value) && b == (App { mode: Mode::FilterMenu, ..m }),
        InputKind::Assignees => {
            &&& sent(a, b, fx, "assignees updated"@, CommentRefresh::Skip)
            &&& fx.len() == 1 ==> (fx[0] matches Effect::Mutate { op: Mutation::SetAssignees(l), .. } && views(l@)
                == trimmed_nonempty(split(value, ',')))
        },
        InputKind::Title => if trim(value).len() == 0 {
            b == (App { status: b.status, ..a }) && status_is(b, "empty title discarded"@) && fx.len() == 0
        } else {
            &&& sent(a, b, fx, "title updated"@, CommentRefresh::Skip)
            &&& fx.len() == 1 ==> (fx[0] matches Effect::Mutate { op: Mutation::UpdateTitle(t), .. } && t@
                == value)
        },
        InputKind::Org => {
            let org = trim(value);
            if org.len() == 0 || eq_ic(org, a.org@) {
                b == (App { status: b.status, ..a }) && status_is(b, "org unchanged"@) && fx.len() == 0
            } else {
                &&& b.org@ == org
                &&& b.org_switched(App { status: b.status, ..a }, b.org)
                &&& status_is(b, "switching to "@ + org + "\u{2026}"@)
                &&& fx == seq![Effect::FetchData]
            }
        },
        InputKind::GotoNumber => match goto_number(value) {
            Some(n) => exists|mid: App|
                #[trigger] mid.jumped_to_number(a, n) && navigated(mid, b, sel_id(a), fx),
            None => b == (App { status: b.status, ..a }) && status_is(b, "not an issue number"@) && fx.len()
                == 0,
        },
    }
}

/// The text of a `#` jump, trimmed and without its leading `#`s.
fn goto_text(value: &str) -> (r: String)
    ensures
        r@ == trim(trim_start_char(trim(value@), '#')),
{
    let t = trim_str(value);
    let v = chars_of(t.as_str());
    let k = trim_start_char_chars(v.as_slice(), '#');
    let rest = string_of_range(v.as_slice(), k, v.len());
    trim_str(rest.as_str())
}

/// Act on text submitted from an input of `kind`.
pub fn submit_input(app: &mut App, kind: InputKind, value: String) -> (fx: Vec<Effect>)
    ensures
        submitted(*old(app), *final(app), kind, value@, fx@),
{
    let mut fx: Vec<Effect> = Vec::new();
    match kind {
        InputKind::Search => {
            app.apply_filter_input(kind, value.as_str());
        },
        InputKind::FilterField(_) => {
            app.apply_filter_input(kind, value.as_str());
            let ghost m = *app;
            app.mode = Mode::FilterMenu;
            assert(m.filter_input_applied(*old(app), kind, value@));
        },
        InputKind::Assignees => {
            let logins = split_csv(value.as_str());
            match with_issue(app, "assignees updated", CommentRefresh::Skip, Mutation::SetAssignees(logins)) {
                Some(e) => fx.push(e),
                None => {},
            }
        },
        InputKind::Title => {
            let t = trim_str(value.as_str());
            if t.as_str().is_empty() {
                app.status = Some(owned("empty title discarded"));
            } else {
                match with_issue(app, "title updated", CommentRefresh::Skip, Mutation::UpdateTitle(value)) {
                    Some(e) => fx.push(e),
                    None => {},
                }
            }
        },
        InputKind::Org => {
            let org = trim_str(value.as_str());
            if org.as_str().is_empty() || eq_ignore_ascii_case(org.as_str(), app.org.as_str()) {
                app.status = Some(owned("org unchanged"));
            } else {
                let mut msg = owned("switching to ");
                string_push_str(&mut msg, org.as_str());
                string_push_str(&mut msg, "\u{2026}");
                app.status = Some(msg);
                let ghost a1 = *app;
                app.switch_org(org);
                fx.push(Effect::FetchData);
                assert(app.org_switched(a1, app.org));
            }
        },
        InputKind::GotoNumber => {
            let text = goto_text(value.as_str());
            match parse_u64(text.as_str()) {
                Some(number) => {
                    let prev = selected_id(app);
                    app.jump_to_number(number);
                    let ghost mid = *app;
                    fx = nav(app, prev);
                    assert(mid.jumped_to_number(*old(app), number) && navigated(mid, *app, sel_id(*old(app)), fx@));
                },
                None => {
                    app.status = Some(owned("not an issue number"));
                },
            }
        },
    }
    fx
}

/// Whether a key edits the input box's text (Esc leaves it, Enter submits
/// it).
pub open spec fn edits_input(key: Key) -> bool {
    !(key.code is Esc || key.code is Enter)
}

/// Whether the input box's cursor and length are in range.
pub open spec fn input_ok(a: App) -> bool {
    a.input.cursor <= a.input.buffer@.len() && a.input.buffer@.len() + 1 < usize::MAX
}

/// A key in the input box: Esc abandons it (back to the filter editor for a
/// filter field), Enter submits its text, editing keys edit.
pub open spec fn input_step(a: App, b: App, key: Key, kind: InputKind, fx: Seq<Effect>) -> bool {
    match key.code {
        KeyCode::Esc => fx.len() == 0 && b == (App {
            mode: if kind is FilterField {
                Mode::FilterMenu
            } else {
                Mode::Normal
            },
            ..a
        }),
        KeyCode::Enter => submitted(App { mode: Mode::Normal, ..a }, b, kind, a.input.buffer@, fx),
        _ => {
            let e = input_edit(a.input.buffer@, a.input.cursor as int, key);
            &&& fx.len() == 0
            &&& b == (App { input: b.input, ..a })
            &&& b.input.buffer@ == e.0
            &&& b.input.cursor == e.1
        },
    }
}

pub fn handle_input_key(app: &mut App, key: Key, kind: InputKind) -> (fx: Vec<Effect>)
    requires
        edits_input(key) ==> input_ok(*old(app)),
    ensures
        input_step(*old(app), *final(app), key, kind, fx@),
{
    match key.code {
        KeyCode::Esc => {
            app.mode = match kind {
                InputKind::FilterField(_) => Mode::FilterMenu,
                _ => Mode::Normal,
            };
            Vec::new()
        },
        KeyCode::Enter => {
            let value = app.input.buffer.clone();
            app.mode = Mode::Normal;
            submit_input(app, kind, value)
        },
        _ => {
            apply_input_editor_key(&mut app.input, key);
            Vec::new()
        },
    }
}

/// Text without `sep` splits into itself alone.
pub proof fn lemma_split_without_sep(s: Seq<char>, sep: char)
    requires
        !s.contains(sep),
    ensures
        split(s, sep) == seq![s],
    decreases s.len(),
{
    if s.len() > 0 {
        let t = s.drop_last();
        assert(!t.contains(sep)) by {
            if t.contains(sep) {
                let k = choose|k: int| 0 <= k < t.len() && t[k] == sep;
                assert(s[k] == sep);
            }
        }
        lemma_split_without_sep(t, sep);
        assert(s.last() != sep) by {
            assert(s[s.len() - 1] == s.last());
        }
        assert(s =~= t.push(s.last()));
        let p = split(t, sep);
        assert(p.last() == t);
        assert(split(s, sep) == p.update(p.len() - 1, p.last().push(s.last())));
        assert(seq![t].update(0, t.push(s.last())) =~= seq![s]);
    } else {
        assert(s =~= Seq::<char>::empty());
    }
}

/// Every login kept is non-blank.
pub proof fn lemma_kept_nonblank(ps: Seq<Seq<char>>)
    ensures
        forall|k: int| 0 <= k < trimmed_nonempty(ps).len() ==> (#[trigger] trimmed_nonempty(ps)[k]).len() > 0,
    decreases ps.len(),
{
    if ps.len() > 0 {
        lemma_kept_nonblank(ps.drop_last());
        let r = trimmed_nonempty(ps.drop_last());
        assert forall|k: int| 0 <= k < trimmed_nonempty(ps).len() implies (#[trigger] trimmed_nonempty(ps)[k]).len() > 0 by {
            if k < r.len() {
                assert(trimmed_nonempty(ps)[k] == r[k]);
            }
        }
    }
}

/// Submitting the assignees box on an issue sends exactly one change to
/// that issue: its assignees become the logins typed, that is the text cut
/// at every comma, each piece trimmed, blank pieces dropped, in the order
/// typed. Each login is non-blank, and text without a comma names the one
/// login it holds (none when it is blank).
pub proof fn law_assignees_are_the_typed_logins(a: App, b: App, value: Seq<char>, fx: Seq<Effect>)
    requires
        submitted(a, b, InputKind::Assignees, value, fx),
        sel_id(a) is Some,
    ensures
        fx.len() == 1,
        fx[0] matches Effect::Mutate { issue_id, op: Mutation::SetAssignees(l), .. } && {
            &&& issue_id@ == sel_id(a).unwrap()
            &&& views(l@) == trimmed_nonempty(split(value, ','))
            &&& forall|k: int| 0 <= k < l@.len() ==> (#[trigger] l@[k])@.len() > 0
            &&& !value.contains(',') ==> views(l@) == (if trim(value).len() > 0 {
                seq![trim(value)]
            } else {
                Seq::<Seq<char>>::empty()
            })
        },
{
    let ps = split(value, ',');
    lemma_kept_nonblank(ps);
    if let Effect::Mutate { op: Mutation::SetAssignees(l), .. } = fx[0] {
        assert forall|k: int| 0 <= k < l@.len() implies (#[trigger] l@[k])@.len() > 0 by {
            assert(views(l@)[k] == l@[k]@);
        }
        if !value.contains(',') {
            lemma_split_without_sep(value, ',');
            assert(ps == seq![value]);
            assert(ps.drop_last() =~= Seq::<Seq<char>>::empty());
            assert(trimmed_nonempty(ps.drop_last()) =~= Seq::<Seq<char>>::empty());
        }
    }
}

/// Submitting a non-blank title on an issue renames that issue to the text
/// exactly as typed; a blank one changes nothing and asks for nothing.
pub proof fn law_title_is_the_typed_text(a: App, b: App, value: Seq<char>, fx: Seq<Effect>)
    requires
        submitted(a, b, InputKind::Title, value, fx),
        sel_id(a) is Some,
    ensures
        trim(value).len() == 0 ==> fx.len() == 0 && b.issue_form == a.issue_form && b.repos == a.repos,
        trim(value).len() > 0 ==> fx.len() == 1 && (fx[0] matches Effect::Mutate {
            issue_id,
            op: Mutation::UpdateTitle(t),
            ..
        } && issue_id@ == sel_id(a).unwrap() && t@ == value),
{
}

} // verus!
