//! The as-of normaliser: a user's text is a point in time, a tag name, or nothing.
use crate::text::{decimal, int_decimal, int_text, push_char, push_decimal};
use chrono::{DateTime, Datelike, NaiveDate, NaiveDateTime, NaiveTime, Utc};
use vstd::prelude::*;

verus! {

/// The canonical rendering of a point in time that the service expects.
pub const ISO8601: &'static str = "%Y-%m-%dT%H:%M:%S%.fZ";

/// A full date and time without the trailing zone letter (taken as UTC).
pub const ISO8601_LOCAL: &'static str = "%Y-%m-%dT%H:%M:%S%.f";

/// A time of day, with optional fractional seconds.
pub const TIME_ONLY: &'static str = "%H:%M:%S%.f";

/// A calendar date.
pub const DATE_ONLY: &'static str = "%Y-%m-%d";

/// A US calendar date written with dashes.
pub const US_DATE_DASHES: &'static str = "%m-%d-%Y";

/// A US calendar date written with slashes.
pub const US_DATE_SLASHES: &'static str = "%m/%d/%Y";

/// The midnight suffix that turns a date into a point in time.
pub const MIDNIGHT: &'static str = "T00:00:00Z";

/// What chrono's RFC 2822 parser gives for a text, converted to UTC and rendered with
/// `ISO8601`.
pub uninterp spec fn rfc2822_iso(s: Seq<char>) -> Option<Seq<char>>;

/// What chrono's RFC 3339 parser gives for a text, converted to UTC and rendered with
/// `ISO8601`.
pub uninterp spec fn rfc3339_iso(s: Seq<char>) -> Option<Seq<char>>;

/// What chrono's `NaiveDateTime::parse_from_str` with a pattern, rendered with `ISO8601`,
/// gives for a text.
pub uninterp spec fn naive_datetime_iso(s: Seq<char>, fmt: Seq<char>) -> Option<Seq<char>>;

/// What chrono's `NaiveTime::parse_from_str` with a pattern, shown with its `Display`, gives.
pub uninterp spec fn naive_time_text(s: Seq<char>, fmt: Seq<char>) -> Option<Seq<char>>;

/// What chrono's `NaiveDate::parse_from_str` with a pattern, shown with its `Display`, gives.
pub uninterp spec fn naive_date_text(s: Seq<char>, fmt: Seq<char>) -> Option<Seq<char>>;

/// Relies on chrono's `DateTime::parse_from_rfc2822`; a parsed value is converted to UTC
/// (`DateTime::with_timezone`) and rendered with `ISO8601`.
#[verifier::external_body]
fn reformat_rfc2822(s: &str) -> (r: Option<String>)
    ensures
        r.deep_view() == rfc2822_iso(s@),
{
    match DateTime::parse_from_rfc2822(s) {
        Ok(d) => Some(d.with_timezone(&Utc).format(ISO8601).to_string()),
        Err(_) => None,
    }
}

/// Relies on chrono's `DateTime::parse_from_rfc3339`; a parsed value is converted to UTC
/// (`DateTime::with_timezone`) and rendered with `ISO8601`.
#[verifier::external_body]
fn reformat_rfc3339(s: &str) -> (r: Option<String>)
    ensures
        r.deep_view() == rfc3339_iso(s@),
{
    match DateTime::parse_from_rfc3339(s) {
        Ok(d) => Some(d.with_timezone(&Utc).format(ISO8601).to_string()),
        Err(_) => None,
    }
}

/// Relies on chrono's `NaiveDateTime::parse_from_str`; a parsed value is rendered with
/// `ISO8601`.
#[verifier::external_body]
fn reformat_naive_datetime(s: &str, fmt: &str) -> (r: Option<String>)
    ensures
        r.deep_view() == naive_datetime_iso(s@, fmt@),
{
    match NaiveDateTime::parse_from_str(s, fmt) {
        Ok(d) => Some(d.format(ISO8601).to_string()),
        Err(_) => None,
    }
}

/// Relies on chrono's `NaiveTime::parse_from_str`; a parsed value is shown with `Display`.
#[verifier::external_body]
fn reformat_naive_time(s: &str, fmt: &str) -> (r: Option<String>)
    ensures
        r.deep_view() == naive_time_text(s@, fmt@),
{
    match NaiveTime::parse_from_str(s, fmt) {
        Ok(t) => Some(t.to_string()),
        Err(_) => None,
    }
}

/// Relies on chrono's `NaiveDate::parse_from_str`; a parsed value is shown with `Display`.
#[verifier::external_body]
fn reformat_naive_date(s: &str, fmt: &str) -> (r: Option<String>)
    ensures
        r.deep_view() == naive_date_text(s@, fmt@),
{
    match NaiveDate::parse_from_str(s, fmt) {
        Ok(d) => Some(d.to_string()),
        Err(_) => None,
    }
}

/// A day of the calendar, as year, month (from 1) and day of the month (from 1).
#[derive(Clone, Copy, Debug, PartialEq, Eq, Structural)]
pub struct CalendarDay {
    pub year: i32,
    pub month: u32,
    pub day: u32,
}

impl CalendarDay {
    pub open spec fn valid(&self) -> bool {
        1 <= self.month <= 12 && 1 <= self.day <= 31
    }
}

/// Relies on chrono's `Utc::now` and its `Datelike` accessors: the month counts from 1 to 12
/// and the day of the month from 1 to 31.
#[verifier::external_body]
fn utc_today() -> (r: CalendarDay)
    ensures
        r.valid(),
{
    let now = Utc::now();
    CalendarDay { year: now.year(), month: now.month(), day: now.day() }
}

/// The value of `o`, or `s` where there is none.
pub open spec fn or_text(o: Option<Seq<char>>, s: Seq<char>) -> Seq<char> {
    match o {
        Some(x) => x,
        None => s,
    }
}

/// A time of day placed on `today`, as `year-month-dayTtimeZ` (numbers without padding).
pub open spec fn on_day(today: CalendarDay, time: Seq<char>) -> Seq<char> {
    int_decimal(today.year as int) + seq!['-'] + decimal(today.month as nat) + seq!['-']
        + decimal(today.day as nat) + seq!['T'] + time + seq!['Z']
}

/// A point in time assembled from parts, put in canonical form; kept as assembled should the
/// canonical parse refuse it.
pub open spec fn canonical_or_self(c: Seq<char>) -> Seq<char> {
    or_text(naive_datetime_iso(c, ISO8601@), c)
}

/// A date at midnight, in canonical form.
pub open spec fn date_at_midnight(d: Seq<char>) -> Seq<char> {
    canonical_or_self(d + MIDNIGHT@)
}

/// Whether a text is read as a point in time by one of the accepted formats.
pub open spec fn is_time_text(s: Seq<char>) -> bool {
    s.len() > 0 && (rfc2822_iso(s).is_some() || rfc3339_iso(s).is_some() || naive_datetime_iso(
        s,
        ISO8601@,
    ).is_some() || naive_datetime_iso(s, ISO8601_LOCAL@).is_some() || naive_time_text(
        s,
        TIME_ONLY@,
    ).is_some() || naive_date_text(s, DATE_ONLY@).is_some() || naive_date_text(
        s,
        US_DATE_DASHES@,
    ).is_some() || naive_date_text(s, US_DATE_SLASHES@).is_some())
}

/// The canonical UTC point in time for a text, trying the formats in order: RFC 2822 and
/// RFC 3339 (both converted from their offset to UTC),
/// ISO 8601 with and without the zone letter, a time of day (on `today`), a date, and the two
/// US dates. The empty text is no point in time.
pub open spec fn normalized(s: Seq<char>, today: CalendarDay) -> Option<Seq<char>> {
    if s.len() == 0 {
        None
    } else if rfc2822_iso(s).is_some() {
        rfc2822_iso(s)
    } else if rfc3339_iso(s).is_some() {
        rfc3339_iso(s)
    } else if naive_datetime_iso(s, ISO8601@).is_some() {
        naive_datetime_iso(s, ISO8601@)
    } else if naive_datetime_iso(s, ISO8601_LOCAL@).is_some() {
        naive_datetime_iso(s, ISO8601_LOCAL@)
    } else if naive_time_text(s, TIME_ONLY@).is_some() {
        Some(canonical_or_self(on_day(today, naive_time_text(s, TIME_ONLY@).unwrap())))
    } else if naive_date_text(s, DATE_ONLY@).is_some() {
        Some(date_at_midnight(naive_date_text(s, DATE_ONLY@).unwrap()))
    } else if naive_date_text(s, US_DATE_DASHES@).is_some() {
        Some(date_at_midnight(naive_date_text(s, US_DATE_DASHES@).unwrap()))
    } else if naive_date_text(s, US_DATE_SLASHES@).is_some() {
        Some(date_at_midnight(naive_date_text(s, US_DATE_SLASHES@).unwrap()))
    } else {
        None
    }
}

/// The tag that a text names: a non-empty text that is no point in time.
pub open spec fn tag_of(s: Seq<char>) -> Option<Seq<char>> {
    if s.len() > 0 && !is_time_text(s) {
        Some(s)
    } else {
        None
    }
}

fn canonical_from(c: String) -> (r: String)
    ensures
        r.deep_view() == canonical_or_self(c@),
{
    match reformat_naive_datetime(c.as_str(), ISO8601) {
        Some(t) => t,
        None => c,
    }
}

fn midnight_of(d: String) -> (r: String)
    ensures
        r.deep_view() == date_at_midnight(d@),
{
    let mut c = d;
    c.append(MIDNIGHT);
    canonical_from(c)
}

/// The canonical point in time for `input`, with `today` supplying the date of a time of day.
pub fn normalize_time_on(input: &str, today: CalendarDay) -> (r: Option<String>)
    ensures
        r.deep_view() == normalized(input@, today),
{
    if input.unicode_len() == 0 {
        return None;
    }
    if let Some(t) = reformat_rfc2822(input) {
        return Some(t);
    }
    if let Some(t) = reformat_rfc3339(input) {
        return Some(t);
    }
    if let Some(t) = reformat_naive_datetime(input, ISO8601) {
        return Some(t);
    }
    if let Some(t) = reformat_naive_datetime(input, ISO8601_LOCAL) {
        return Some(t);
    }
    if let Some(time) = reformat_naive_time(input, TIME_ONLY) {
        let mut c = int_text(today.year as i64);
        push_char(&mut c, '-');
        push_decimal(&mut c, today.month as u64);
        push_char(&mut c, '-');
        push_decimal(&mut c, today.day as u64);
        push_char(&mut c, 'T');
        c.append(time.as_str());
        push_char(&mut c, 'Z');
        assert(c@ =~= on_day(today, time@));
        return Some(canonical_from(c));
    }
    if let Some(d) = reformat_naive_date(input, DATE_ONLY) {
        return Some(midnight_of(d));
    }
    if let Some(d) = reformat_naive_date(input, US_DATE_DASHES) {
        return Some(midnight_of(d));
    }
    if let Some(d) = reformat_naive_date(input, US_DATE_SLASHES) {
        return Some(midnight_of(d));
    }
    None
}

/// Whether `input` is read as a point in time.
pub fn is_time(input: &str) -> (r: bool)
    ensures
        r == is_time_text(input@),
{
    if input.unicode_len() == 0 {
        return false;
    }
    reformat_rfc2822(input).is_some() || reformat_rfc3339(input).is_some()
        || reformat_naive_datetime(input, ISO8601).is_some() || reformat_naive_datetime(
        input,
        ISO8601_LOCAL,
    ).is_some() || reformat_naive_time(input, TIME_ONLY).is_some() || reformat_naive_date(
        input,
        DATE_ONLY,
    ).is_some() || reformat_naive_date(input, US_DATE_DASHES).is_some() || reformat_naive_date(
        input,
        US_DATE_SLASHES,
    ).is_some()
}

/// The canonical point in time for an optional as-of text, or `None` when there is no text,
/// the text is empty, or no accepted format reads it. A time of day is placed on the current
/// UTC date.
pub fn parse_datetime(input: Option<&str>) -> (r: Option<String>)
    ensures
        match input {
            None => r.is_none(),
            Some(s) => {
                &&& r.is_some() == is_time_text(s@)
                &&& exists|today: CalendarDay| today.valid() && r.deep_view() == normalized(s@, today)
            },
        },
{
    match input {
        None => None,
        Some(s) => {
            let today = utc_today();
            let r = normalize_time_on(s, today);
            assert(today.valid() && r.deep_view() == normalized(s@, today));
            r
        },
    }
}

/// The tag named by an optional as-of text: the text itself when it is not empty and no
/// accepted format reads it as a point in time.
pub fn parse_tag(input: Option<&str>) -> (r: Option<String>)
    ensures
        match input {
            None => r.is_none(),
            Some(s) => r.deep_view() == tag_of(s@),
        },
{
    match input {
        None => None,
        Some(s) => {
            if s.unicode_len() == 0 || is_time(s) {
                None
            } else {
                Some(String::from_str(s))
            }
        },
    }
}

/// Tag-vs-time exclusivity: a non-empty as-of text is read either as a point in time or as a
/// tag, never both and never neither; an empty text is neither, whatever the current date.
pub proof fn lemma_time_tag_exclusive(s: Seq<char>, today: CalendarDay)
    ensures
        s.len() == 0 ==> normalized(s, today).is_none() && tag_of(s).is_none(),
        s.len() > 0 ==> (normalized(s, today).is_some() != tag_of(s).is_some()),
        normalized(s, today).is_some() == is_time_text(s),
{
}

} // verus!
