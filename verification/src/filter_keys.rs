//! Keys of the filter editor and of the pickers and calendar it opens.
use vstd::prelude::*;

use std::collections::HashSet;

use crate::app::{dash, filter_value_text, App};
use crate::dates::{date_ymd, day_of_ymd, day_shift, format_ymd, shift_day, ymd_day_num, ymd_of, ymd_text};
use crate::filters::{spec_parse_date, Filters};
use crate::keys::{picker_common_key, picker_key_handled, picker_key_result, Key, KeyCode};
use crate::mode::{InputKind, Mode, FILTER_FIELD_COUNT, FILTER_HIDE_EMPTY_IDX};
use crate::normal::input_opened;
use crate::picker::PickerState;
use crate::sorting::views;
use crate::text::{eq_ic, eq_ignore_ascii_case};

verus! {

broadcast use vstd::string::group_string_axioms, vstd::std_specs::hash::group_hash_axioms;

/// Whether `current` holds a value equal to `o` ignoring ASCII case.
pub open spec fn holds_ic(current: Seq<String>, o: Seq<char>) -> bool {
    exists|j: int| 0 <= j < current.len() && eq_ic(#[trigger] current[j]@, o)
}

/// The rows of `options` that the field's current values check.
pub open spec fn prechecked(options: Seq<String>, current: Seq<String>) -> Set<usize> {
    Set::new(|k: usize| k < options.len() && holds_ic(current, options[k as int]@))
}

/// The values a multi-select field holds (4: priority, 5: status).
pub open spec fn multi_values(a: App, idx: usize) -> Seq<String> {
    if idx == 4 {
        a.filters.priority@
    } else {
        a.filters.status@
    }
}

/// Position of the first option equal to `v`, else 0.
pub open spec fn exact_row(options: Seq<Seq<char>>, v: Seq<char>) -> int
    decreases options.len(),
{
    if options.len() == 0 {
        0
    } else if options[0] == v {
        0
    } else if exists|k: int| 1 <= k < options.len() && options[k] == v {
        1 + exact_row(options.drop_first(), v)
    } else {
        0
    }
}

/// A multi-select filter field's picker, its current values checked.
pub open spec fn multi_row_opened(a: App, b: App, idx: usize) -> bool {
    &&& a.multi_options(idx, views(b.picker.options@))
    &&& b.picker.multi_selected@ == prechecked(b.picker.options@, multi_values(a, idx))
    &&& b.picker.idx == 0
    &&& b.picker.filter@.len() == 0
    &&& b.picker == (PickerState {
        options: b.picker.options,
        idx: 0,
        filter: b.picker.filter,
        multi_selected: b.picker.multi_selected,
        ..a.picker
    })
    &&& b == (App { picker: b.picker, mode: Mode::SelectFieldMulti(idx), ..a })
}

/// A single-select filter field's picker, on its current value.
pub open spec fn select_row_opened(a: App, b: App, idx: usize) -> bool {
    &&& a.select_options(idx, views(b.picker.options@))
    &&& b.picker.idx == exact_row(views(b.picker.options@), filter_value_text(a.filters, idx))
    &&& b.picker.filter@.len() == 0
    &&& b.picker == (PickerState {
        options: b.picker.options,
        idx: b.picker.idx,
        filter: b.picker.filter,
        ..a.picker
    })
    &&& b == (App { picker: b.picker, mode: Mode::SelectField(idx), ..a })
}

/// The calendar on a date field's current date.
pub open spec fn calendar_opened(a: App, b: App, idx: usize) -> bool {
    &&& b == (App { calendar_cursor: b.calendar_cursor, mode: Mode::Calendar(idx), ..a })
    &&& spec_parse_date(filter_value_text(a.filters, idx)) matches Some(d) ==> b.calendar_cursor == d
}

/// Enter on filter row `idx`: flip the hide-empty toggle, or open the
/// field's picker, calendar or text input on its current value.
pub open spec fn filter_row_opened(a: App, b: App, idx: usize) -> bool {
    if idx == FILTER_HIDE_EMPTY_IDX {
        b.hide_empty_toggled(a)
    } else if idx == 4 || idx == 5 {
        multi_row_opened(a, b, idx)
    } else if 1 <= idx <= 3 {
        select_row_opened(a, b, idx)
    } else if 6 <= idx <= 11 {
        calendar_opened(a, b, idx)
    } else {
        input_opened(a, b, InputKind::FilterField(idx), filter_value_text(a.filters, idx))
    }
}

/// Every filter cleared (hide-empty back to its default), the rows rebuilt
/// and a lone group expanded.
pub open spec fn filters_cleared(a: App, b: App) -> bool {
    exists|m1: App, m2: App|
        #![trigger m2.rebuilt_from(App { filters: m1.filters, ..a }), b.expanded_from(m2)]
        (Filters { hide_empty: true, ..m1.filters }).is_default() && m1.filters.hide_empty
            == a.hide_empty_default && m2.rebuilt_from(App { filters: m1.filters, ..a })
            && b.expanded_from(m2)
}

/// One key in the filter editor.
pub open spec fn filter_menu_step(a: App, b: App, key: Key) -> bool {
    let n = FILTER_FIELD_COUNT as int;
    match key.code {
        KeyCode::Esc => b == (App { mode: Mode::Normal, ..a }),
        KeyCode::Down => b == (App { filter_menu_idx: ((a.filter_menu_idx + 1) % n) as usize, ..a }),
        KeyCode::Up => b == (App { filter_menu_idx: ((a.filter_menu_idx + n - 1) % n) as usize, ..a }),
        KeyCode::Enter => filter_row_opened(a, b, a.filter_menu_idx),
        KeyCode::Char(c) => if c == 'q' {
            b == (App { mode: Mode::Normal, ..a })
        } else if c == 'j' {
            b == (App { filter_menu_idx: ((a.filter_menu_idx + 1) % n) as usize, ..a })
        } else if c == 'k' {
            b == (App { filter_menu_idx: ((a.filter_menu_idx + n - 1) % n) as usize, ..a })
        } else if c == 'c' {
            filters_cleared(a, b)
        } else {
            b == a
        },
        _ => b == a,
    }
}

/// Rows of `options` holding one of `current`'s values.
fn checked_rows_of(options: &Vec<String>, current: &Vec<String>) -> (r: HashSet<usize>)
    ensures
        r@ == prechecked(options@, current@),
{
    let mut r: HashSet<usize> = HashSet::new();
    let mut i: usize = 0;
    while i < options.len()
        invariant
            i <= options@.len(),
            r@ == Set::new(|k: usize| k < i && holds_ic(current@, options@[k as int]@)),
        decreases options@.len() - i,
    {
        let mut hit = false;
        let mut j: usize = 0;
        while j < current.len()
            invariant
                j <= current@.len(),
                i < options@.len(),
                hit == exists|m: int| 0 <= m < j && eq_ic(#[trigger] current@[m]@, options@[i as int]@),
            decreases current@.len() - j,
        {
            if eq_ignore_ascii_case(current[j].as_str(), options[i].as_str()) {
                hit = true;
            }
            j += 1;
        }
        let ghost before = r@;
        if hit {
            r.insert(i);
        }
        proof {
            assert(r@ =~= Set::new(|k: usize| k < i + 1 && holds_ic(current@, options@[k as int]@)));
        }
        i += 1;
    }
    assert(r@ =~= prechecked(options@, current@));
    r
}

/// Position of the first option equal to `v`, else 0.
fn exact_position(options: &Vec<String>, v: &str) -> (r: usize)
    ensures
        r == exact_row(views(options@), v@),
{
    let ghost all = views(options@);
    let mut i: usize = 0;
    while i < options.len()
        invariant
            i <= options@.len(),
            all == views(options@),
            forall|k: int| 0 <= k < i ==> all[k] != v@,
        decreases options@.len() - i,
    {
        if crate::app::eq_str(options[i].as_str(), v) {
            proof {
                lemma_exact_row_first(all, v@, i as int);
            }
            return i;
        }
        i += 1;
    }
    proof {
        lemma_exact_row_none(all, v@);
    }
    0
}

proof fn lemma_exact_row_first(options: Seq<Seq<char>>, v: Seq<char>, i: int)
    requires
        0 <= i < options.len(),
        options[i] == v,
        forall|k: int| 0 <= k < i ==> options[k] != v,
    ensures
        exact_row(options, v) == i,
    decreases i,
{
    if i > 0 {
        assert(options.drop_first()[i - 1] == v);
        lemma_exact_row_first(options.drop_first(), v, i - 1);
    }
}

proof fn lemma_exact_row_none(options: Seq<Seq<char>>, v: Seq<char>)
    requires
        forall|k: int| 0 <= k < options.len() ==> options[k] != v,
    ensures
        exact_row(options, v) == 0,
{
}

fn open_multi_row(app: &mut App, idx: usize)
    requires
        idx == 4 || idx == 5,
    ensures
        multi_row_opened(*old(app), *final(app), idx),
{
    let options = app.compute_multi_options(idx);
    let checked = if idx == 4 {
        checked_rows_of(&options, &app.filters.priority)
    } else {
        checked_rows_of(&options, &app.filters.status)
    };
    app.picker.multi_selected = checked;
    app.picker.start(options, 0);
    app.mode = Mode::SelectFieldMulti(idx);
}

fn open_select_row(app: &mut App, idx: usize)
    ensures
        select_row_opened(*old(app), *final(app), idx),
{
    let options = app.compute_select_options(idx);
    let current = app.current_filter_value(idx);
    let initial = exact_position(&options, current.as_str());
    app.picker.start(options, initial);
    app.mode = Mode::SelectField(idx);
}

/// Enter on the highlighted filter row.
fn open_filter_row(app: &mut App)
    ensures
        filter_row_opened(*old(app), *final(app), old(app).filter_menu_idx),
{
    let idx = app.filter_menu_idx;
    if idx == FILTER_HIDE_EMPTY_IDX {
        app.toggle_hide_empty();
    } else if App::is_multi_select_field(idx) {
        open_multi_row(app, idx);
    } else if App::is_select_field(idx) {
        open_select_row(app, idx);
    } else if App::is_calendar_field(idx) {
        app.calendar_init(idx);
        app.mode = Mode::Calendar(idx);
    } else {
        let current = app.current_filter_value(idx);
        app.input.start(current.as_str());
        app.mode = Mode::Input(InputKind::FilterField(idx));
    }
}

fn clear_all_filters(app: &mut App)
    ensures
        filters_cleared(*old(app), *final(app)),
{
    app.clear_filters();
    let ghost m1 = *app;
    app.rebuild_rows();
    let ghost m2 = *app;
    app.expand_single_visible();
    assert(m2.rebuilt_from(App { filters: m1.filters, ..*old(app) }) && app.expanded_from(m2));
}

/// A key in the filter editor.
pub fn handle_filter_menu_key(app: &mut App, key: Key)
    ensures
        filter_menu_step(*old(app), *final(app), key),
{
    let down = match key.code {
        KeyCode::Down => true,
        KeyCode::Char(c) => c == 'j',
        _ => false,
    };
    let up = match key.code {
        KeyCode::Up => true,
        KeyCode::Char(c) => c == 'k',
        _ => false,
    };
    if down {
        app.filter_menu_idx = (app.filter_menu_idx % FILTER_FIELD_COUNT + 1) % FILTER_FIELD_COUNT;
        proof {
            vstd::arithmetic::div_mod::lemma_add_mod_noop_right(1, old(app).filter_menu_idx as int, 13);
        }
        return;
    }
    if up {
        app.filter_menu_idx = (app.filter_menu_idx % FILTER_FIELD_COUNT + FILTER_FIELD_COUNT - 1)
            % FILTER_FIELD_COUNT;
        proof {
            vstd::arithmetic::div_mod::lemma_add_mod_noop_right(12, old(app).filter_menu_idx as int, 13);
        }
        return;
    }
    match key.code {
        KeyCode::Esc => {
            app.mode = Mode::Normal;
        },
        KeyCode::Enter => {
            open_filter_row(app);
        },
        KeyCode::Char(c) => {
            if c == 'q' {
                app.mode = Mode::Normal;
            } else if c == 'c' {
                clear_all_filters(app);
            }
        },
        _ => {},
    }
}


/// The option under the highlight, as an index into the options.
pub open spec fn highlighted(p: PickerState) -> Option<usize> {
    if p.idx < p.shown().len() {
        Some(p.shown()[p.idx as int])
    } else {
        None
    }
}

/// The filter value a picked row stands for: `—` clears the filter.
pub open spec fn option_value(p: PickerState, orig: usize) -> Seq<char> {
    if p.options@[orig as int]@ == dash() {
        Seq::empty()
    } else {
        p.options@[orig as int]@
    }
}

/// A key in a single-select filter picker.
pub open spec fn select_field_step(a: App, b: App, key: Key, idx: usize) -> bool {
    if picker_key_handled(key, true) {
        picker_key_result(a.picker, b.picker, key, true) && b == (App { picker: b.picker, ..a })
    } else {
        match key.code {
            KeyCode::Esc => b == (App { mode: Mode::FilterMenu, ..a }),
            KeyCode::Enter => match highlighted(a.picker) {
                Some(orig) => exists|m: App|
                    #[trigger] m.filter_input_applied(a, InputKind::FilterField(idx), option_value(a.picker, orig))
                        && b == (App { mode: Mode::FilterMenu, ..m }),
                None => if a.picker.options@.len() == 0 {
                    b == (App { mode: Mode::FilterMenu, ..a })
                } else {
                    b == a
                },
            },
            _ => b == a,
        }
    }
}

pub fn handle_select_field_key(app: &mut App, key: Key, idx: usize)
    ensures
        select_field_step(*old(app), *final(app), key, idx),
{
    if picker_common_key(&mut app.picker, key, true) {
        return;
    }
    assert(app.picker == old(app).picker);
    match key.code {
        KeyCode::Esc => {
            app.mode = Mode::FilterMenu;
        },
        KeyCode::Enter => match app.picker.selected_original() {
            Some(orig) => {
                let raw = app.picker.options[orig].clone();
                proof {
                    reveal_strlit("\u{2014}");
                    assert("\u{2014}"@ =~= dash());
                }
                let value = if crate::app::eq_str(raw.as_str(), "\u{2014}") {
                    String::new()
                } else {
                    raw
                };
                assert(value@ == option_value(app.picker, orig));
                app.apply_filter_input(InputKind::FilterField(idx), value.as_str());
                let ghost m = *app;
                app.mode = Mode::FilterMenu;
                assert(m.filter_input_applied(
                    *old(app),
                    InputKind::FilterField(idx),
                    option_value(old(app).picker, orig),
                ));
            },
            None => {
                if app.picker.options.len() == 0 {
                    app.mode = Mode::FilterMenu;
                }
            },
        },
        _ => {},
    }
}

/// The values of the checked rows, in option order.
pub open spec fn picked_values(options: Seq<String>, checked: Set<usize>) -> Seq<String>
    decreases options.len(),
{
    if options.len() == 0 {
        Seq::empty()
    } else {
        let prev = picked_values(options.drop_last(), checked);
        if checked.contains((options.len() - 1) as usize) {
            prev.push(options.last())
        } else {
            prev
        }
    }
}

/// A key in a multi-select filter picker: Space ticks the highlighted row,
/// Enter commits the ticked values in option order.
pub open spec fn multi_field_step(a: App, b: App, key: Key, idx: usize) -> bool {
    if picker_key_handled(key, false) {
        picker_key_result(a.picker, b.picker, key, false) && b == (App { picker: b.picker, ..a })
    } else {
        match key.code {
            KeyCode::Esc => b == (App { mode: Mode::FilterMenu, ..a }),
            KeyCode::Char(' ') => match highlighted(a.picker) {
                Some(orig) => b == (App {
                    picker: PickerState { multi_selected: b.picker.multi_selected, ..a.picker },
                    ..a
                }) && b.picker.multi_selected@ == (if a.picker.multi_selected@.contains(orig) {
                    a.picker.multi_selected@.remove(orig)
                } else {
                    a.picker.multi_selected@.insert(orig)
                }),
                None => b == a,
            },
            KeyCode::Enter => exists|m: App, values: Vec<String>|
                #![trigger m.multi_filter_applied(a, idx, values)]
                values@ == picked_values(a.picker.options@, a.picker.multi_selected@)
                    && m.multi_filter_applied(a, idx, values) && b == (App { mode: Mode::FilterMenu, ..m }),
            _ => b == a,
        }
    }
}

/// The values of the ticked rows, in option order.
pub fn ticked_values(options: &Vec<String>, checked: &HashSet<usize>) -> (r: Vec<String>)
    ensures
        r@ == picked_values(options@, checked@),
{
    let mut out: Vec<String> = Vec::new();
    let mut i: usize = 0;
    while i < options.len()
        invariant
            i <= options@.len(),
            out@ == picked_values(options@.take(i as int), checked@),
        decreases options@.len() - i,
    {
        proof {
            assert(options@.take(i + 1).drop_last() =~= options@.take(i as int));
        }
        if checked.contains(&i) {
            out.push(options[i].clone());
        }
        i += 1;
    }
    assert(options@.take(i as int) =~= options@);
    out
}

pub fn handle_select_field_multi_key(app: &mut App, key: Key, idx: usize)
    ensures
        multi_field_step(*old(app), *final(app), key, idx),
{
    if picker_common_key(&mut app.picker, key, false) {
        return;
    }
    assert(app.picker == old(app).picker);
    match key.code {
        KeyCode::Esc => {
            app.mode = Mode::FilterMenu;
        },
        KeyCode::Char(' ') => match app.picker.selected_original() {
            Some(orig) => app.picker.toggle_multi(orig),
            None => {},
        },
        KeyCode::Enter => {
            let values = ticked_values(&app.picker.options, &app.picker.multi_selected);
            let ghost vs = values;
            app.apply_multi_filter(idx, values);
            let ghost m = *app;
            app.mode = Mode::FilterMenu;
            assert(vs@ == picked_values(old(app).picker.options@, old(app).picker.multi_selected@)
                && m.multi_filter_applied(*old(app), idx, vs));
        },
        _ => {},
    }
}


/// The day an optional move lands on, or `d` when there is none.
pub open spec fn or_keep(o: Option<i32>, d: i32) -> i32 {
    match o {
        Some(x) => x,
        None => d,
    }
}

/// The first day of `d`'s month.
pub open spec fn month_first(d: i32) -> Option<i32> {
    match date_ymd(d) {
        Some((y, m, _)) => ymd_day_num(y, m, 1),
        None => None,
    }
}

/// The first day of the month after `d`'s.
pub open spec fn next_month_first(d: i32) -> Option<i32> {
    match date_ymd(d) {
        Some((y, m, _)) => if m == 12 {
            ymd_day_num((y + 1) as i32, 1, 1)
        } else {
            ymd_day_num(y, (m + 1) as u32, 1)
        },
        None => None,
    }
}

/// The first day of the month before `d`'s.
pub open spec fn prev_month_first(d: i32) -> i32 {
    match month_first(d) {
        Some(f) => match day_shift(f, -1i32) {
            Some(p) => or_keep(month_first(p), f),
            None => f,
        },
        None => d,
    }
}

/// The last day of `d`'s month.
pub open spec fn month_last(d: i32) -> i32 {
    match next_month_first(d) {
        Some(n) => or_keep(day_shift(n, -1i32), n),
        None => d,
    }
}

/// The calendar cursor moved to `d`, nothing else changed.
pub open spec fn cursor_at(a: App, b: App, d: i32) -> bool {
    b == (App { calendar_cursor: d, ..a })
}

/// A key in the calendar of date field `idx`: days, weeks and months move
/// the cursor (staying put where the calendar ends), Enter sets the field.
pub open spec fn calendar_step(a: App, b: App, key: Key, idx: usize) -> bool {
    let c = a.calendar_cursor;
    match key.code {
        KeyCode::Esc => b == (App { mode: Mode::FilterMenu, ..a }),
        KeyCode::Char(ch) => if ch == 'q' {
            b == (App { mode: Mode::FilterMenu, ..a })
        } else {
            b == a
        },
        KeyCode::Left => cursor_at(a, b, or_keep(day_shift(c, -1i32), c)),
        KeyCode::Right => cursor_at(a, b, or_keep(day_shift(c, 1i32), c)),
        KeyCode::Up => cursor_at(a, b, or_keep(day_shift(c, -7i32), c)),
        KeyCode::Down => cursor_at(a, b, or_keep(day_shift(c, 7i32), c)),
        KeyCode::Home => cursor_at(a, b, or_keep(month_first(c), c)),
        KeyCode::End => cursor_at(a, b, month_last(c)),
        KeyCode::PageUp => cursor_at(a, b, prev_month_first(c)),
        KeyCode::PageDown => cursor_at(a, b, or_keep(next_month_first(c), c)),
        KeyCode::Enter => exists|m: App|
            #[trigger] m.filter_input_applied(a, InputKind::FilterField(idx), ymd_text(c)) && b == (App {
                mode: Mode::FilterMenu,
                ..m
            }),
        _ => b == a,
    }
}

fn shifted_or_same(d: i32, n: i32) -> (r: i32)
    ensures
        r == or_keep(day_shift(d, n), d),
{
    match shift_day(d, n) {
        Some(x) => x,
        None => d,
    }
}

fn first_of_month(d: i32) -> (r: Option<i32>)
    ensures
        r == month_first(d),
{
    match ymd_of(d) {
        Some((y, m, _)) => day_of_ymd(y, m, 1),
        None => None,
    }
}

fn first_of_next_month(d: i32) -> (r: Option<i32>)
    ensures
        r == next_month_first(d),
{
    match ymd_of(d) {
        Some((y, m, _)) => if m == 12 {
            day_of_ymd(y + 1, 1, 1)
        } else {
            day_of_ymd(y, m + 1, 1)
        },
        None => None,
    }
}

pub fn handle_calendar_key(app: &mut App, key: Key, idx: usize)
    ensures
        calendar_step(*old(app), *final(app), key, idx),
{
    let c = app.calendar_cursor;
    match key.code {
        KeyCode::Esc => {
            app.mode = Mode::FilterMenu;
        },
        KeyCode::Char(ch) => {
            if ch == 'q' {
                app.mode = Mode::FilterMenu;
            }
        },
        KeyCode::Left => {
            app.calendar_cursor = shifted_or_same(c, -1);
        },
        KeyCode::Right => {
            app.calendar_cursor = shifted_or_same(c, 1);
        },
        KeyCode::Up => {
            app.calendar_cursor = shifted_or_same(c, -7);
        },
        KeyCode::Down => {
            app.calendar_cursor = shifted_or_same(c, 7);
        },
        KeyCode::Home => {
            app.calendar_cursor = match first_of_month(c) {
                Some(f) => f,
                None => c,
            };
        },
        KeyCode::End => {
            app.calendar_cursor = match first_of_next_month(c) {
                Some(n) => shifted_or_same(n, -1),
                None => c,
            };
        },
        KeyCode::PageUp => {
            app.calendar_cursor = match first_of_month(c) {
                Some(f) => match shift_day(f, -1) {
                    Some(p) => match first_of_month(p) {
                        Some(x) => x,
                        None => f,
                    },
                    None => f,
                },
                None => c,
            };
        },
        KeyCode::PageDown => {
            app.calendar_cursor = match first_of_next_month(c) {
                Some(n) => n,
                None => c,
            };
        },
        KeyCode::Enter => {
            let value = format_ymd(c);
            app.apply_filter_input(InputKind::FilterField(idx), value.as_str());
            let ghost m = *app;
            app.mode = Mode::FilterMenu;
            assert(m.filter_input_applied(*old(app), InputKind::FilterField(idx), ymd_text(c)));
        },
        _ => {},
    }
}

} // verus!
