//! Record timestamps as the user sees them: local time, set off by how the
//! record lies to the start of the search.

use crate::style::{Highlighting, Style};
use vstd::prelude::*;
use vstd::string::*;

verus! {

/// Milliseconds in a day.
pub const MILLIS_PER_DAY: i64 = 86_400_000;

/// The timestamp of a record, in milliseconds since the epoch.
#[derive(Debug, Clone, Copy, PartialEq, Eq)]
pub enum Timestamp {
    NotAvailable,
    CreateTime(i64),
    LogAppendTime(i64),
}

/// The moment at which the search started: the whole milliseconds since the
/// epoch, what it has beyond them in nanoseconds, and the day of its date in
/// local time, counted from the epoch's date.
#[derive(Debug, Clone, Copy, PartialEq, Eq)]
pub struct StartDate {
    pub millis: i64,
    pub submilli_nanos: u32,
    pub local_day: i64,
}

/// How strongly a timestamp is set off.
#[derive(Debug, Clone, Copy, PartialEq, Eq)]
pub enum Emphasis {
    Bold,
    Plain,
    Dimmed,
}

/// The milliseconds that a timestamp holds.
pub open spec fn millis_of(timestamp: Timestamp) -> Option<i64> {
    match timestamp {
        Timestamp::NotAvailable => None,
        Timestamp::CreateTime(ms) => Some(ms),
        Timestamp::LogAppendTime(ms) => Some(ms),
    }
}

/// Holds when a record of the millisecond `ms` is at least one whole
/// millisecond younger than the start.
pub open spec fn after_start(ms: i64, start: StartDate) -> bool {
    if start.submilli_nanos == 0 {
        ms > start.millis
    } else {
        ms > start.millis + 1
    }
}

/// The day of the date, in universal time, of the millisecond `ms`, counted
/// from the epoch's date.
pub open spec fn day_of(ms: i64) -> int {
    ms as int / MILLIS_PER_DAY as int
}

/// The emphasis of a record's timestamp: bold after the start, plain on the
/// day of the start, dimmed before that.
pub open spec fn emphasis_of(ms: i64, start: StartDate) -> Emphasis {
    if after_start(ms, start) {
        Emphasis::Bold
    } else if start.local_day == day_of(ms) {
        Emphasis::Plain
    } else {
        Emphasis::Dimmed
    }
}

/// The day, counted from the epoch's date, on which the millisecond `ms` falls.
pub fn utc_day(ms: i64) -> (day: i64)
    ensures
        day == day_of(ms),
{
    if ms >= 0 {
        ms / MILLIS_PER_DAY
    } else {
        let back: i64 = -(ms + 1);
        let whole: i64 = back / MILLIS_PER_DAY;
        assert(ms as int / 86_400_000 == -(back as int / 86_400_000) - 1) by (nonlinear_arith)
            requires
                back == -(ms + 1),
                ms < 0,
        ;
        -whole - 1
    }
}

/// Decides how a record's timestamp is set off.
pub fn emphasis(ms: i64, start: &StartDate) -> (e: Emphasis)
    ensures
        e == emphasis_of(ms, *start),
{
    let after = if start.submilli_nanos == 0 {
        ms > start.millis
    } else {
        start.millis < i64::MAX && ms > start.millis + 1
    };
    if after {
        Emphasis::Bold
    } else if start.local_day == utc_day(ms) {
        Emphasis::Plain
    } else {
        Emphasis::Dimmed
    }
}

/// The style in which a palette writes an emphasis.
pub open spec fn emphasis_style(highlighting: Highlighting, e: Emphasis) -> Style {
    match e {
        Emphasis::Bold => highlighting.bold,
        Emphasis::Plain => highlighting.plain,
        Emphasis::Dimmed => highlighting.dimmed,
    }
}

/// Writes `text`, the local time of the millisecond `ms`, in the style of the
/// record's emphasis.
pub fn styled_timestamp(ms: i64, text: &str, start: &StartDate, highlighting: &Highlighting) -> (styled:
    String)
    ensures
        styled@ == emphasis_style(*highlighting, emphasis_of(ms, *start)).paint(text@),
{
    let mut styled = String::new();
    match emphasis(ms, start) {
        Emphasis::Bold => highlighting.bold.append_painted(&mut styled, text),
        Emphasis::Plain => highlighting.plain.append_painted(&mut styled, text),
        Emphasis::Dimmed => highlighting.dimmed.append_painted(&mut styled, text),
    }
    styled
}

/// Holds when the calendar of chrono has a moment for the millisecond `ms`.
pub uninterp spec fn calendar_reaches(ms: i64) -> bool;

/// Calls chrono's `DateTime::from_timestamp_millis`, and on the moment it
/// gives `with_timezone` for the zone of this machine, `format` and
/// `to_string`. The contract claims that there is a text exactly when chrono
/// has a moment for `ms`, which depends on `ms` alone. The text depends on
/// the zone, so nothing is claimed of it.
#[verifier::external_body]
fn local_time_text(ms: i64) -> (text: Option<String>)
    ensures
        text is Some <==> calendar_reaches(ms),
{
    match chrono::DateTime::from_timestamp_millis(ms) {
        Some(utc) => Some(
            utc.with_timezone(&chrono::Local).format("%Y-%m-%d %H:%M:%S%.3f").to_string(),
        ),
        None => None,
    }
}

/// Formats the time of the millisecond `ms` for display, if the calendar
/// reaches that far: the local time to the millisecond, in the style of the
/// record's emphasis.
pub fn format_timestamp_millis(ms: i64, start_date: &StartDate, highlighting: &Highlighting) -> (formatted:
    Option<String>)
    ensures
        formatted is Some <==> calendar_reaches(ms),
        formatted matches Some(styled) ==> exists|text: Seq<char>|
            styled@ == emphasis_style(*highlighting, emphasis_of(ms, *start_date)).paint(text),
{
    match local_time_text(ms) {
        Some(text) => Some(styled_timestamp(ms, text.as_str(), start_date, highlighting)),
        None => None,
    }
}

/// Format a record timestamp for display.
pub fn format_timestamp(timestamp: &Timestamp, start_date: &StartDate, highlighting: &Highlighting) -> (formatted:
    Option<String>)
    ensures
        formatted is Some <==> (millis_of(*timestamp) matches Some(ms) && calendar_reaches(ms)),
        formatted matches Some(styled) ==> exists|text: Seq<char>|
            styled@ == emphasis_style(
                *highlighting,
                emphasis_of(millis_of(*timestamp)->0, *start_date),
            ).paint(text),
{
    match timestamp {
        Timestamp::NotAvailable => None,
        Timestamp::CreateTime(ms) => format_timestamp_millis(*ms, start_date, highlighting),
        Timestamp::LogAppendTime(ms) => format_timestamp_millis(*ms, start_date, highlighting),
    }
}

} // verus!
