//! Calendar dates, through `chrono`.
//!
//! A date is a day number counted from 0001-01-01 = day 1 (what
//! `chrono::Datelike::num_days_from_ce` reports); a timestamp is seconds
//! since the Unix epoch, UTC.
use vstd::prelude::*;

use chrono::Datelike;

verus! {

/// What `chrono::NaiveDate::parse_from_str(s, "%Y-%m-%d")` yields for `s`,
/// as a day number; `None` where chrono rejects the text.
pub uninterp spec fn ymd_day(s: Seq<char>) -> Option<i32>;

/// `NaiveDate::parse_from_str` with the `YYYY-MM-DD` format. The result is a
/// function of the text alone, named `ymd_day`.
#[verifier::external_body]
pub(crate) fn parse_ymd(s: &str) -> (r: Option<i32>)
    ensures
        r == ymd_day(s@),
{
    chrono::NaiveDate::parse_from_str(s, "%Y-%m-%d").ok().map(|d| d.num_days_from_ce())
}

/// What `NaiveDate`'s `Display` writes for day `d` (`YYYY-MM-DD`), or the
/// empty string for a day number chrono cannot represent.
pub uninterp spec fn day_text(d: i32) -> Seq<char>;

/// `NaiveDate::from_num_days_from_ce_opt` then `to_string`; named `day_text`.
#[verifier::external_body]
pub(crate) fn format_day(d: i32) -> (r: String)
    ensures
        r@ == day_text(d),
{
    match chrono::NaiveDate::from_num_days_from_ce_opt(d) {
        Some(x) => x.to_string(),
        None => String::new(),
    }
}

/// What `NaiveDate::from_num_days_from_ce_opt(d)` then
/// `checked_add_signed(TimeDelta::days(n))` yields, as a day number.
pub uninterp spec fn day_shift(d: i32, n: i32) -> Option<i32>;

/// Day `d` moved by `n` days, through chrono: `None` where chrono has no
/// such date. A result is `n` days on, as chrono documents.
#[verifier::external_body]
pub(crate) fn shift_day(d: i32, n: i32) -> (r: Option<i32>)
    ensures
        r == day_shift(d, n),
        r matches Some(x) ==> x == d + n,
{
    match chrono::NaiveDate::from_num_days_from_ce_opt(d) {
        Some(x) => match x.checked_add_signed(chrono::TimeDelta::days(n as i64)) {
            Some(y) => Some(y.num_days_from_ce()),
            None => None,
        },
        None => None,
    }
}

/// The (year, month, day) chrono gives day number `d`.
pub uninterp spec fn date_ymd(d: i32) -> Option<(i32, u32, u32)>;

/// `NaiveDate::from_num_days_from_ce_opt(d)` read back as year, month and
/// day of month; months run 1 to 12 and days 1 to 31, and the year stays
/// inside chrono's range, as its documentation and source give.
#[verifier::external_body]
pub(crate) fn ymd_of(d: i32) -> (r: Option<(i32, u32, u32)>)
    ensures
        r == date_ymd(d),
        r matches Some((y, m, dd)) ==> -262144 < y < 262143 && 1 <= m <= 12 && 1 <= dd <= 31,
{
    match chrono::NaiveDate::from_num_days_from_ce_opt(d) {
        Some(x) => Some((x.year(), x.month(), x.day())),
        None => None,
    }
}

/// The day number chrono gives the date `y-m-dd`, if it is one.
pub uninterp spec fn ymd_day_num(y: i32, m: u32, dd: u32) -> Option<i32>;

/// `NaiveDate::from_ymd_opt(y, m, dd)` as a day number.
#[verifier::external_body]
pub(crate) fn day_of_ymd(y: i32, m: u32, dd: u32) -> (r: Option<i32>)
    ensures
        r == ymd_day_num(y, m, dd),
{
    match chrono::NaiveDate::from_ymd_opt(y, m, dd) {
        Some(x) => Some(x.num_days_from_ce()),
        None => None,
    }
}

/// What `NaiveDate::format("%Y-%m-%d")` writes for day `d`, or the empty
/// string for a day number chrono cannot represent.
pub uninterp spec fn ymd_text(d: i32) -> Seq<char>;

/// Day `d` written `YYYY-MM-DD` by chrono's formatter; named `ymd_text`.
#[verifier::external_body]
pub(crate) fn format_ymd(d: i32) -> (r: String)
    ensures
        r@ == ymd_text(d),
{
    match chrono::NaiveDate::from_num_days_from_ce_opt(d) {
        Some(x) => x.format("%Y-%m-%d").to_string(),
        None => String::new(),
    }
}

/// `chrono::Utc::now().date_naive()` as a day number. Depends on the clock:
/// nothing is claimed of it.
#[verifier::external_body]
pub(crate) fn today() -> i32 {
    chrono::Utc::now().date_naive().num_days_from_ce()
}

/// Day number of 1970-01-01.
pub open spec fn epoch_day() -> int {
    719163
}

/// The UTC calendar day a timestamp falls on (floor division, so instants
/// before 1970 land on the right day too).
pub open spec fn day_of(ts: int) -> int {
    ts / 86400 + epoch_day()
}

pub fn day_of_ts(ts: i64) -> (d: i64)
    ensures
        d == day_of(ts as int),
{
    let q = ts / 86400;
    let r = ts % 86400;
    let f = if r < 0 {
        q - 1
    } else {
        q
    };
    f + 719163
}

} // verus!
