//! The time, as the program writes it down.
//!
//! What time it is depends on the machine; the functions that use it take it as an
//! argument.

use vstd::prelude::*;
use chrono::Timelike;
use crate::number::{
    all_digits, four_places, is_digit, lemma_four_places, lemma_two_places, two_places,
};

verus! {

/// A minute of the local day, with the text that stands for it.
pub struct LocalMinute {
    pub hour: i32,
    pub minute: i32,
    pub stamp: String,
}

/// The form in which a minute is written.
pub const MINUTE_FORM: &'static str = "%Y-%m-%d %H:%M";

/// A year: in four places, or with its sign where it takes more or is before the first.
pub open spec fn year_text(year: int) -> Seq<char> {
    if 0 <= year <= 9999 {
        four_places(year as nat)
    } else if year < 0 {
        seq!['-'] + four_places((-year) as nat)
    } else {
        seq!['+'] + four_places(year as nat)
    }
}

/// A day: the year, the month and the day of the month, these two in two places each.
pub open spec fn date_text(year: int, month: int, day: int) -> Seq<char> {
    year_text(year) + seq!['-'] + two_places(month) + seq!['-'] + two_places(day)
}

/// A minute of a day, hour and minute in two places each.
pub open spec fn minute_text(hour: int, minute: int) -> Seq<char> {
    two_places(hour) + seq![':'] + two_places(minute)
}

/// The month is one of a year, and the day one of a month.
pub open spec fn is_day(month: int, day: int) -> bool {
    1 <= month <= 12 && 1 <= day <= 31
}

/// The hour is one of a day, and the minute one of an hour.
pub open spec fn is_minute(hour: int, minute: int) -> bool {
    0 <= hour < 24 && 0 <= minute < 60
}

/// The part of a second: nothing, or a point and three, six or nine digits.
pub open spec fn is_fraction(s: Seq<char>) -> bool {
    ||| s.len() == 0
    ||| {
        &&& s.len() == 4 || s.len() == 7 || s.len() == 10
        &&& s[0] == '.'
        &&& all_digits(s.skip(1))
    }
}

/// A time of UTC: day, minute, second and part of it, and the offset.
pub open spec fn time_text(
    date: Seq<char>,
    minute: Seq<char>,
    second: int,
    fraction: Seq<char>,
) -> Seq<char> {
    date + seq!['T'] + minute + seq![':'] + two_places(second) + fraction + "+00:00"@
}

/// The text is that of a time of UTC.
pub open spec fn is_utc_time(time: Seq<char>) -> bool {
    exists|
        year: int,
        month: int,
        day: int,
        hour: int,
        minute: int,
        second: int,
        fraction: Seq<char>,
    |
        {
            &&& is_day(month, day)
            &&& is_minute(hour, minute)
            &&& 0 <= second < 60
            &&& is_fraction(fraction)
            &&& time == #[trigger] time_text(
                date_text(year, month, day),
                minute_text(hour, minute),
                second,
                fraction,
            )
        }
}

/// `chrono::Utc::now` and `DateTime::to_rfc3339`: the present time as text, with as many
/// digits of the second as it takes, and the offset of UTC. Which time it is, is left
/// open.
#[verifier::external_body]
pub(crate) fn utc_now() -> (r: String)
    ensures
        is_utc_time(r@),
{
    chrono::Utc::now().to_rfc3339()
}

/// `chrono::Utc::now` and `DateTime::timestamp_millis`: the milliseconds since the
/// epoch, before which no time is given. How many they are, is left open.
#[verifier::external_body]
pub(crate) fn utc_millis() -> (r: i64)
    ensures
        r >= 0,
{
    chrono::Utc::now().timestamp_millis()
}

/// The text that stands for a minute of a day.
pub open spec fn minute_stamp(year: int, month: int, day: int, hour: int, minute: int) -> Seq<char> {
    date_text(year, month, day) + seq![' '] + minute_text(hour, minute)
}

/// The text stands for a minute of a day.
pub open spec fn is_minute_stamp(stamp: Seq<char>) -> bool {
    exists|year: int, month: int, day: int, hour: int, minute: int|
        is_day(month, day) && is_minute(hour, minute) && stamp == #[trigger] minute_stamp(
            year,
            month,
            day,
            hour,
            minute,
        )
}

/// `chrono::Utc::now` and `DateTime::format`: the present minute as text. The form
/// has to be one that chrono can write; this one writes the year in four places, or with
/// a sign where it takes more or is before the first, and the rest in two places each.
/// Which minute it is, is left open.
#[verifier::external_body]
pub(crate) fn utc_minute(form: &str) -> (r: String)
    requires
        form@ == MINUTE_FORM@,
    ensures
        is_minute_stamp(r@),
{
    chrono::Utc::now().format(form).to_string()
}

/// The hour and minute are those of a day, and the stamp stands for them on some day.
pub open spec fn is_local_minute(m: LocalMinute) -> bool {
    &&& is_minute(m.hour as int, m.minute as int)
    &&& exists|year: int, month: int, day: int|
        is_day(month, day) && m.stamp@ == #[trigger] minute_stamp(
            year,
            month,
            day,
            m.hour as int,
            m.minute as int,
        )
}

/// `chrono::Local::now` with `Timelike::hour`, `Timelike::minute` and
/// `DateTime::format`, all of one moment: hour and minute are in their ranges, and
/// the form writes the day and them as `utc_minute` says. Which moment it is, is left
/// open.
#[verifier::external_body]
pub(crate) fn local_now(form: &str) -> (r: LocalMinute)
    requires
        form@ == MINUTE_FORM@,
    ensures
        is_local_minute(r),
{
    let now = chrono::Local::now();
    LocalMinute {
        hour: now.hour() as i32,
        minute: now.minute() as i32,
        stamp: now.format(form).to_string(),
    }
}

/// The present minute of the local day.
pub fn local_minute() -> (r: LocalMinute)
    ensures
        is_local_minute(r),
{
    local_now(MINUTE_FORM)
}

/// Years that are written the same are the same.
proof fn lemma_year_text(a: int, b: int)
    requires
        year_text(a) == year_text(b),
    ensures
        a == b,
{
    let s = year_text(a);
    let m: nat = if a < 0 {
        (-a) as nat
    } else {
        a as nat
    };
    let n: nat = if b < 0 {
        (-b) as nat
    } else {
        b as nat
    };
    lemma_four_places(m);
    lemma_four_places(n);
    assert(is_digit(four_places(m)[0]));
    assert(is_digit(four_places(n)[0]));
    assert(s[0] == if 0 <= a <= 9999 {
        four_places(m)[0]
    } else if a < 0 {
        '-'
    } else {
        '+'
    });
    assert(s[0] == if 0 <= b <= 9999 {
        four_places(n)[0]
    } else if b < 0 {
        '-'
    } else {
        '+'
    });
    if !(0 <= a <= 9999) && !(0 <= b <= 9999) {
        assert(s.skip(1) =~= four_places(m));
        assert(s.skip(1) =~= four_places(n));
    }
}

/// Minutes of days that are written the same are the same.
pub proof fn law_stamps_are_told_apart(
    a: (int, int, int, int, int),
    b: (int, int, int, int, int),
)
    requires
        is_day(a.1, a.2),
        is_day(b.1, b.2),
        is_minute(a.3, a.4),
        is_minute(b.3, b.4),
        minute_stamp(a.0, a.1, a.2, a.3, a.4) == minute_stamp(b.0, b.1, b.2, b.3, b.4),
    ensures
        a == b,
{
    let s = minute_stamp(a.0, a.1, a.2, a.3, a.4);
    lemma_two_places(a.1);
    lemma_two_places(a.2);
    lemma_two_places(a.3);
    lemma_two_places(a.4);
    lemma_two_places(b.1);
    lemma_two_places(b.2);
    lemma_two_places(b.3);
    lemma_two_places(b.4);
    let n = s.len() - 12;
    assert(year_text(a.0).len() == n);
    assert(year_text(b.0).len() == n);
    assert(s.take(n) =~= year_text(a.0));
    assert(s.take(n) =~= year_text(b.0));
    lemma_year_text(a.0, b.0);
    assert(s.subrange(n + 1, n + 3) =~= two_places(a.1));
    assert(s.subrange(n + 1, n + 3) =~= two_places(b.1));
    assert(s.subrange(n + 4, n + 6) =~= two_places(a.2));
    assert(s.subrange(n + 4, n + 6) =~= two_places(b.2));
    assert(s.subrange(n + 7, n + 9) =~= two_places(a.3));
    assert(s.subrange(n + 7, n + 9) =~= two_places(b.3));
    assert(s.subrange(n + 10, n + 12) =~= two_places(a.4));
    assert(s.subrange(n + 10, n + 12) =~= two_places(b.4));
}

} // verus!
