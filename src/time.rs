//! Timestamps in local time, held as plain calendar fields.

use vstd::prelude::*;
use chrono::{Datelike, TimeZone, Timelike};
use crate::text::{decimal, push_decimal_padded, zero_padded};

verus! {

/// A point in time since the Unix epoch: whole seconds (negative before it)
/// and the nanoseconds past them.
#[derive(Clone, Copy, Debug, PartialEq, Eq, Structural)]
pub struct Timestamp {
    pub secs: i64,
    pub nanos: u32,
}

/// A date and time of day in the local time zone, with that zone's offset
/// from UTC in seconds.
#[derive(Clone, Copy, Debug, PartialEq, Eq, Structural)]
pub struct LocalTime {
    pub year: i32,
    pub month: u32,
    pub day: u32,
    pub hour: u32,
    pub minute: u32,
    pub second: u32,
    /// Nanoseconds past the second; from one billion on, a leap second.
    pub nanosecond: u32,
    pub offset_secs: i32,
}

impl LocalTime {
    /// Each field lies in its calendar range.
    pub open spec fn wf(self) -> bool {
        &&& 1 <= self.month <= 12
        &&& 1 <= self.day <= 31
        &&& self.hour < 24
        &&& self.minute < 60
        &&& self.second < 60
        &&& self.nanosecond < 2_000_000_000
        &&& -86_400 < self.offset_secs < 86_400
    }
}

/// Whether chrono can place `t` on its calendar: a day from -262143-01-01 to
/// +262142-12-31 UTC, nanoseconds below two billion, and from one billion on
/// (a leap second) only in the last second of a minute.
pub open spec fn representable(t: Timestamp) -> bool {
    &&& -8_334_601_228_800 <= t.secs <= 8_210_266_876_799
    &&& t.nanos < 2_000_000_000
    &&& t.nanos >= 1_000_000_000 ==> (t.secs as int) % 60 == 59
}

/// Relies on chrono's `Local::timestamp_opt`, which is `None` exactly where
/// `DateTime::from_timestamp` is, and on the `Datelike` / `Timelike` getters
/// of the `DateTime<Local>` it gives: the instant in the machine's time zone.
/// chrono falls back to UTC where it cannot read the zone, and panics where
/// the zone gives an offset of a day or more.
#[verifier::external_body]
pub(crate) fn local_time_of(t: Timestamp) -> (r: Option<LocalTime>)
    ensures
        r is Some <==> representable(t),
        r matches Some(lt) ==> lt.wf(),
{
    chrono::Local.timestamp_opt(t.secs, t.nanos).single().map(|d| LocalTime {
        year: d.year(),
        month: d.month(),
        day: d.day(),
        hour: d.hour(),
        minute: d.minute(),
        second: d.second(),
        nanosecond: d.nanosecond(),
        offset_secs: d.offset().local_minus_utc(),
    })
}

/// A year as four digits from 0 to 9999; otherwise with its sign and at
/// least four digits.
pub open spec fn year_text(y: int) -> Seq<char> {
    if 0 <= y <= 9999 {
        zero_padded(decimal(y as nat), 4)
    } else if y < 0 {
        seq!['-'] + zero_padded(decimal((-y) as nat), 4)
    } else {
        seq!['+'] + zero_padded(decimal(y as nat), 4)
    }
}

/// A field of two digits.
pub open spec fn two_digits(n: nat) -> Seq<char> {
    zero_padded(decimal(n), 2)
}

/// The date of `t` as year-month-day.
pub open spec fn date_text(t: LocalTime) -> Seq<char> {
    year_text(t.year as int) + seq!['-'] + two_digits(t.month as nat) + seq!['-']
        + two_digits(t.day as nat)
}

/// The time of day of `t` as hour:minute:second.
pub open spec fn clock_text(t: LocalTime) -> Seq<char> {
    two_digits(t.hour as nat) + seq![':'] + two_digits(t.minute as nat) + seq![':']
        + two_digits(t.second as nat)
}

/// `t` as year-month-day hour:minute:second.
pub open spec fn time_text(t: LocalTime) -> Seq<char> {
    date_text(t) + seq![' '] + clock_text(t)
}

fn push_year(s: &mut String, y: i32)
    ensures
        final(s)@ == old(s)@ + year_text(y as int),
{
    proof {
        reveal_strlit("-");
        reveal_strlit("+");
    }
    let y: i64 = y as i64;
    if 0 <= y && y <= 9999 {
        push_decimal_padded(s, y as u64, 4);
    } else if y < 0 {
        s.append("-");
        push_decimal_padded(s, (0 - y) as u64, 4);
    } else {
        s.append("+");
        push_decimal_padded(s, y as u64, 4);
    }
    assert(s@ =~= old(s)@ + year_text(y as int));
}

fn push_date(s: &mut String, t: &LocalTime)
    ensures
        final(s)@ == old(s)@ + date_text(*t),
{
    proof { reveal_strlit("-"); }
    push_year(s, t.year);
    s.append("-");
    push_decimal_padded(s, t.month as u64, 2);
    s.append("-");
    push_decimal_padded(s, t.day as u64, 2);
    assert(s@ =~= old(s)@ + date_text(*t));
}

fn push_clock(s: &mut String, t: &LocalTime)
    ensures
        final(s)@ == old(s)@ + clock_text(*t),
{
    proof { reveal_strlit(":"); }
    push_decimal_padded(s, t.hour as u64, 2);
    s.append(":");
    push_decimal_padded(s, t.minute as u64, 2);
    s.append(":");
    push_decimal_padded(s, t.second as u64, 2);
    assert(s@ =~= old(s)@ + clock_text(*t));
}

/// Appends `t` as year-month-day hour:minute:second to `s`.
pub fn push_time(s: &mut String, t: &LocalTime)
    ensures
        final(s)@ == old(s)@ + time_text(*t),
{
    proof { reveal_strlit(" "); }
    push_date(s, t);
    s.append(" ");
    push_clock(s, t);
    assert(s@ =~= old(s)@ + time_text(*t));
}

/// Formats `t` as year-month-day hour:minute:second.
pub fn format_time(t: &LocalTime) -> (r: String)
    ensures
        r@ == time_text(*t),
{
    let mut s = String::new();
    push_time(&mut s, t);
    assert(s@ =~= time_text(*t));
    s
}

} // verus!
