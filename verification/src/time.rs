//! Time-zone arithmetic on UTC millisecond timestamps and calendar dates.
//!
//! Dates are chrono's proleptic Gregorian calendar. A `LocalDate` carries both its
//! day number (days since 1970-01-01) and its year, month and day, as chrono gives them.
use vstd::prelude::*;
use crate::text::{
    all_digits, chars_of, decimal, digits_value, lemma_digits_bound, lemma_parse_digits, lemma_zero_pad_digits,
    ten_pow, find_char, first_index, is_digit, lemma_avoids_join, lemma_digits_avoid,
    lemma_first_index_after, lemma_parse_zero_padded, lemma_split_single, lemma_split_then, lemma_strip_one,
    padded, parse_i32_chars, parse_i64_pieces, parse_integer, parse_u32_chars, parse_u64_chars, parsed_i64s,
    push_padded, slice_chars, split_chars, split_on, string_of, strip_trailing, strip_trailing_chars, views,
    zero_pad,
};
use chrono::{Datelike, Duration, NaiveDate};

verus! {

/// The first and last day numbers (days since 1970-01-01) of chrono's `NaiveDate`
/// range, -262143-01-01 and 262142-12-31.
pub const MIN_EPOCH_DAY: i64 = -96465292;

pub const MAX_EPOCH_DAY: i64 = 95026236;

/// The first and last years of chrono's `NaiveDate` range.
pub const MIN_YEAR: i32 = -262143;

pub const MAX_YEAR: i32 = 262142;

pub const MS_PER_SECOND: u64 = 1000;

pub const SECONDS_PER_DAY: i64 = 86400;

pub const SECONDS_PER_HOUR: i64 = 3600;

/// The (year, month, day) that chrono gives for the date `days` days after 1970-01-01.
pub uninterp spec fn civil_from_days(days: int) -> (int, int, int);

/// The number of days from 1970-01-01 to the date (year, month, day), where
/// chrono's `NaiveDate::from_ymd_opt` accepts that date; `None` where it refuses it.
pub uninterp spec fn days_from_civil(year: int, month: int, day: int) -> Option<int>;

/// The day of the week of the date `days` days after 1970-01-01, counted from
/// Monday (0) to Sunday (6): 1970-01-01 was a Thursday, and the days of the week
/// repeat every seven days.
pub open spec fn weekday_from_monday(days: int) -> int {
    (days + 3) % 7
}

pub open spec fn in_date_range(days: int) -> bool {
    MIN_EPOCH_DAY <= days <= MAX_EPOCH_DAY
}

/// A calendar date: its day number and its year, month and day of month.
#[derive(Clone, Copy, Debug, PartialEq, Eq, Structural)]
pub struct LocalDate {
    pub days: i64,
    pub year: i32,
    pub month: u32,
    pub day: u32,
}

impl LocalDate {
    /// The day number lies in chrono's range and the calendar fields are those
    /// chrono gives for it.
    pub open spec fn wf(self) -> bool {
        &&& in_date_range(self.days as int)
        &&& civil_from_days(self.days as int) == (self.year as int, self.month as int, self.day as int)
        &&& days_from_civil(self.year as int, self.month as int, self.day as int) == Some(self.days as int)
        &&& 1 <= self.month <= 12
        &&& 1 <= self.day <= 31
        &&& MIN_YEAR <= self.year <= MAX_YEAR
        &&& days_from_civil(self.year as int, self.month as int, 1) == Some(self.days - (self.day - 1))
        &&& (next_month_first(self.year as int, self.month as int) matches Some(g) ==> g > self.days)
    }
}

/// The day number of the first day of the month after (year, month).
pub open spec fn next_month_first(year: int, month: int) -> Option<int> {
    if month == 12 {
        days_from_civil(year + 1, 1, 1)
    } else {
        days_from_civil(year, month + 1, 1)
    }
}

/// chrono's `NaiveDate + Duration::days(days)` from 1970-01-01, read back as
/// year, month and day. The contract claims that the fields are a valid date of
/// chrono's range, that `NaiveDate::from_ymd_opt` of them gives the same day back,
/// that the first of that month lies `day - 1` days earlier, that the first of
/// the next month, where chrono has it, lies later, and that a day on or after
/// 1970-01-01 falls in 1970 or a later year.
#[verifier::external_body]
fn date_of_epoch_day(days: i64) -> (res: LocalDate)
    requires
        in_date_range(days as int),
    ensures
        res.days == days,
        (res.year as int, res.month as int, res.day as int) == civil_from_days(days as int),
        days_from_civil(res.year as int, res.month as int, res.day as int) == Some(days as int),
        1 <= res.month <= 12,
        1 <= res.day <= 31,
        MIN_YEAR <= res.year <= MAX_YEAR,
        days_from_civil(res.year as int, res.month as int, 1) == Some(days - (res.day - 1)),
        next_month_first(res.year as int, res.month as int) matches Some(g) ==> g > days,
        days >= 0 ==> res.year >= 1970,
{
    let d = NaiveDate::from_ymd_opt(1970, 1, 1).unwrap() + Duration::days(days);
    LocalDate { days, year: d.year(), month: d.month(), day: d.day() }
}

/// chrono's `NaiveDate::from_ymd_opt`, read back as the day number (the date minus
/// 1970-01-01 in days). The contract claims that an accepted date lies in chrono's
/// range and reads back as the same fields, and, as the source shows, that every
/// day 1 to 28 of every month of a year in range is accepted.
#[verifier::external_body]
fn epoch_day_of(year: i32, month: u32, day: u32) -> (res: Option<i64>)
    ensures
        match res {
            Some(n) => days_from_civil(year as int, month as int, day as int) == Some(n as int)
                && in_date_range(n as int)
                && 1 <= month <= 12 && 1 <= day <= 31 && MIN_YEAR <= year <= MAX_YEAR
                && civil_from_days(n as int) == (year as int, month as int, day as int),
            None => days_from_civil(year as int, month as int, day as int) is None,
        },
        (1 <= month <= 12 && 1 <= day <= 28 && MIN_YEAR <= year <= MAX_YEAR) ==> res is Some,
{
    let epoch = NaiveDate::from_ymd_opt(1970, 1, 1).unwrap();
    NaiveDate::from_ymd_opt(year, month, day).map(|d| (d - epoch).num_days())
}

/// The day of the week of the date `days` days after 1970-01-01, counted from Monday.
fn weekday_of_epoch_day(days: i64) -> (res: u32)
    requires
        in_date_range(days as int),
    ensures
        res as int == weekday_from_monday(days as int),
{
    let r: i64 = (days % 7 + 7 + 3) % 7;
    assert(r == (days + 3) % 7) by (nonlinear_arith)
        requires
            r == (days % 7 + 7 + 3) % 7,
            -96465292 <= days <= 95026236,
    ;
    r as u32
}

/// The date with the given day number.
pub fn date_from_days(days: i64) -> (res: LocalDate)
    requires
        in_date_range(days as int),
    ensures
        res.wf(),
        res.days == days,
{
    date_of_epoch_day(days)
}

/// The date `n` days after `date` (before it when `n` is negative), as chrono's
/// `date + Duration::days(n)`; `None` where chrono would leave its range.
pub fn add_days(date: &LocalDate, n: i64) -> (res: Option<LocalDate>)
    requires
        date.wf(),
    ensures
        match res {
            Some(d) => d.wf() && d.days == date.days + n,
            None => !in_date_range(date.days + n),
        },
{
    if n > MAX_EPOCH_DAY - date.days || n < MIN_EPOCH_DAY - date.days {
        None
    } else {
        Some(date_of_epoch_day(date.days + n))
    }
}

// ==================== time zone ====================

/// Seconds since the epoch, shifted by the time-zone offset.
pub open spec fn local_seconds(offset_hours: int, utc_ms: int) -> int {
    utc_ms / 1000 + offset_hours * 3600
}

/// The local day number of a UTC timestamp (floor division, so before 1970 too).
pub open spec fn local_day(offset_hours: int, utc_ms: int) -> int {
    local_seconds(offset_hours, utc_ms) / 86400
}

/// Seconds since local midnight.
pub open spec fn local_second_of_day(offset_hours: int, utc_ms: int) -> int {
    local_seconds(offset_hours, utc_ms) % 86400
}

/// A fixed offset from UTC in whole hours.
#[derive(Clone, Copy, Debug, PartialEq, Eq, Structural)]
pub struct TimezoneHelper {
    pub offset_hours: i32,
}

impl TimezoneHelper {
    pub fn new(offset_hours: i32) -> (res: Self)
        ensures
            res.offset_hours == offset_hours,
    {
        Self { offset_hours }
    }

    /// The offset written in `s` as Rust parses an `i32`; 8 where it does not parse.
    pub fn from_env_str(s: &str) -> (res: Self)
        ensures
            res.offset_hours == match crate::text::parse_integer(s@, true, i32::MIN as int, i32::MAX as int) {
                Some(v) => v,
                None => 8,
            },
    {
        let offset = match crate::text::parse_i32(s) {
            Some(v) => v,
            None => 8,
        };
        Self::new(offset)
    }

    fn local_seconds_exec(&self, utc_ms: u64) -> (res: i64)
        ensures
            res == local_seconds(self.offset_hours as int, utc_ms as int),
    {
        (utc_ms / 1000) as i64 + (self.offset_hours as i64) * 3600
    }

    /// The local day number of `utc_ms`, with no bound on the range.
    pub fn local_day_number(&self, utc_ms: u64) -> (res: i64)
        ensures
            res == local_day(self.offset_hours as int, utc_ms as int),
    {
        let total = self.local_seconds_exec(utc_ms);
        match total.checked_div_euclid(86400) {
            Some(d) => d,
            None => 0,
        }
    }

    /// The local date of a UTC millisecond timestamp.
    pub fn get_local_date(&self, utc_ms: u64) -> (res: LocalDate)
        requires
            in_date_range(local_day(self.offset_hours as int, utc_ms as int)),
        ensures
            res.wf(),
            res.days == local_day(self.offset_hours as int, utc_ms as int),
    {
        let days = self.local_day_number(utc_ms);
        date_of_epoch_day(days)
    }

    /// Today's local date, given the current time.
    pub fn get_today(&self, now_ms: u64) -> (res: LocalDate)
        requires
            in_date_range(local_day(self.offset_hours as int, now_ms as int)),
        ensures
            res.wf(),
            res.days == local_day(self.offset_hours as int, now_ms as int),
    {
        self.get_local_date(now_ms)
    }

    fn second_of_day(&self, utc_ms: u64) -> (res: i64)
        ensures
            res == local_second_of_day(self.offset_hours as int, utc_ms as int),
            0 <= res < 86400,
    {
        let total = self.local_seconds_exec(utc_ms);
        match total.checked_rem_euclid(86400) {
            Some(r) => r,
            None => 0,
        }
    }

    /// The local hour (0 to 23) of `utc_ms`.
    pub fn get_local_hour(&self, utc_ms: u64) -> (res: u32)
        ensures
            res as int == local_second_of_day(self.offset_hours as int, utc_ms as int) / 3600,
            res < 24,
    {
        let s = self.second_of_day(utc_ms);
        (s / 3600) as u32
    }

    /// The local minute (0 to 59) of `utc_ms`.
    pub fn get_local_minute(&self, utc_ms: u64) -> (res: u32)
        ensures
            res as int == (local_second_of_day(self.offset_hours as int, utc_ms as int) % 3600) / 60,
            res < 60,
    {
        let s = self.second_of_day(utc_ms);
        ((s % 3600) / 60) as u32
    }

    /// The local second (0 to 59) of `utc_ms`.
    pub fn get_local_second(&self, utc_ms: u64) -> (res: u32)
        ensures
            res as int == local_second_of_day(self.offset_hours as int, utc_ms as int) % 60,
            res < 60,
    {
        let s = self.second_of_day(utc_ms);
        (s % 60) as u32
    }

    /// The UTC timestamp of local midnight starting `date`, in milliseconds,
    /// converted to `u64` as Rust's `as` does (a date before the epoch wraps).
    pub fn local_date_to_utc_midnight_ms(&self, date: &LocalDate) -> (res: u64)
        requires
            date.wf(),
        ensures
            res == ((date.days * 86400 - self.offset_hours * 3600) * 1000) as u64,
    {
        let utc_seconds: i64 = date.days * 86400 - (self.offset_hours as i64) * 3600;
        (utc_seconds * 1000) as u64
    }
}

// ==================== text forms ====================

/// `YYYY-MM-DD`, as `format!("{:04}-{:02}-{:02}", year, month, day)` prints it.
pub open spec fn date_text(year: int, month: int, day: int) -> Seq<char> {
    padded(year, 4) + seq!['-'] + padded(month, 2) + seq!['-'] + padded(day, 2)
}

/// The three pieces of a `YYYY-MM-DD` text of a date with a year of 0 or later.
proof fn lemma_date_text_split(year: int, month: int, day: int)
    requires
        0 <= year,
        0 <= month,
        0 <= day,
    ensures
        split_on(date_text(year, month, day), '-') == seq![padded(year, 4), padded(month, 2), padded(day, 2)],
        !date_text(year, month, day).contains('T'),
{
    let y = padded(year, 4);
    let m = padded(month, 2);
    let d = padded(day, 2);
    lemma_parse_zero_padded(year as nat, 4, false, year, year);
    lemma_parse_zero_padded(month as nat, 2, false, month, month);
    lemma_parse_zero_padded(day as nat, 2, false, day, day);
    lemma_digits_avoid(y, '-');
    lemma_digits_avoid(m, '-');
    lemma_digits_avoid(d, '-');
    lemma_digits_avoid(y, 'T');
    lemma_digits_avoid(m, 'T');
    lemma_digits_avoid(d, 'T');
    lemma_split_single(y, '-');
    lemma_split_then(y, m, '-');
    lemma_split_then(y + seq!['-'] + m, d, '-');
    assert(date_text(year, month, day) =~= y + seq!['-'] + m + seq!['-'] + d);
    lemma_avoids_join(y, '-', m, 'T');
    lemma_avoids_join(y + seq!['-'] + m, '-', d, 'T');
}

/// The numbers of three zero-padded numerals that fit an `i64`.
proof fn lemma_parsed_three(a: int, wa: nat, b: int, wb: nat, c: int, wc: nat)
    requires
        0 <= a <= i64::MAX,
        0 <= b <= i64::MAX,
        0 <= c <= i64::MAX,
    ensures
        parsed_i64s(seq![padded(a, wa), padded(b, wb), padded(c, wc)]) == seq![a, b, c],
{
    lemma_parse_zero_padded(a as nat, wa, true, i64::MIN as int, i64::MAX as int);
    lemma_parse_zero_padded(b as nat, wb, true, i64::MIN as int, i64::MAX as int);
    lemma_parse_zero_padded(c as nat, wc, true, i64::MIN as int, i64::MAX as int);
    let p1 = seq![padded(a, wa)];
    let p2 = seq![padded(a, wa), padded(b, wb)];
    let p3 = seq![padded(a, wa), padded(b, wb), padded(c, wc)];
    assert(p1.drop_last() =~= Seq::<Seq<char>>::empty());
    assert(p1.last() == padded(a, wa));
    assert(parsed_i64s(Seq::<Seq<char>>::empty()) == Seq::<int>::empty());
    assert(parsed_i64s(p1) =~= seq![a]);
    assert(p2.drop_last() =~= p1);
    assert(p2.last() == padded(b, wb));
    assert(parsed_i64s(p2) =~= seq![a, b]);
    assert(p3.drop_last() =~= p2);
    assert(p3.last() == padded(c, wc));
    assert(parsed_i64s(p3) =~= seq![a, b, c]);
}

/// `parse_date` reads back the text of a date with a year of 0 or later.
proof fn lemma_date_text_parses(year: int, month: int, day: int)
    requires
        0 <= year <= i32::MAX,
        0 <= month <= u32::MAX,
        0 <= day <= u32::MAX,
    ensures
        parsed_date_day(date_text(year, month, day)) == days_from_civil(year, month, day),
{
    lemma_date_text_split(year, month, day);
    lemma_parse_zero_padded(year as nat, 4, true, i32::MIN as int, i32::MAX as int);
    lemma_parse_zero_padded(month as nat, 2, false, 0, u32::MAX as int);
    lemma_parse_zero_padded(day as nat, 2, false, 0, u32::MAX as int);
}

/// Formats a date as `YYYY-MM-DD`.
pub fn format_date(date: &LocalDate) -> (res: String)
    ensures
        res@ == date_text(date.year as int, date.month as int, date.day as int),
        date.wf() && date.year >= 0 ==> parsed_date_day(res@) == Some(date.days as int),
{
    proof {
        if date.wf() && date.year >= 0 {
            lemma_date_text_parses(date.year as int, date.month as int, date.day as int);
        }
    }
    let mut out: Vec<char> = Vec::new();
    push_padded(&mut out, date.year as i64, 4);
    out.push('-');
    push_padded(&mut out, date.month as i64, 2);
    out.push('-');
    push_padded(&mut out, date.day as i64, 2);
    assert(out@ =~= date_text(date.year as int, date.month as int, date.day as int));
    string_of(&out)
}

/// The day number that `parse_date` reads from `s`: three pieces between `-`,
/// an `i32` year and `u32` month and day in Rust's integer syntax, forming a
/// date that chrono accepts.
pub open spec fn parsed_date_day(s: Seq<char>) -> Option<int> {
    let parts = split_on(s, '-');
    if parts.len() != 3 {
        None
    } else {
        match (
            parse_integer(parts[0], true, i32::MIN as int, i32::MAX as int),
            parse_integer(parts[1], false, 0, u32::MAX as int),
            parse_integer(parts[2], false, 0, u32::MAX as int),
        ) {
            (Some(y), Some(m), Some(d)) => days_from_civil(y, m, d),
            _ => None,
        }
    }
}

/// The year, month and day that `parse_date` reads from `s`: three pieces between
/// `-`, an `i32` year and `u32` month and day in Rust's integer syntax.
pub open spec fn parsed_date_fields(s: Seq<char>) -> Option<(int, int, int)> {
    let parts = split_on(s, '-');
    if parts.len() != 3 {
        None
    } else {
        match (
            parse_integer(parts[0], true, i32::MIN as int, i32::MAX as int),
            parse_integer(parts[1], false, 0, u32::MAX as int),
            parse_integer(parts[2], false, 0, u32::MAX as int),
        ) {
            (Some(y), Some(m), Some(d)) => Some((y, m, d)),
            _ => None,
        }
    }
}

/// `s` has the shape `DDDD-DD-DD` (ten characters, ASCII digits but for the two `-`).
pub open spec fn canonical_date(s: Seq<char>) -> bool {
    &&& s.len() == 10
    &&& s[4] == '-'
    &&& s[7] == '-'
    &&& forall|i: int| 0 <= i < 10 && i != 4 && i != 7 ==> is_digit(#[trigger] s[i])
}

/// A text of the shape `DDDD-DD-DD` is the `YYYY-MM-DD` text of the numbers it spells.
proof fn lemma_canonical_date(s: Seq<char>)
    requires
        canonical_date(s),
    ensures
        parsed_date_fields(s) matches Some(f) && date_text(f.0, f.1, f.2) == s,
{
    let a = s.subrange(0, 4);
    let b = s.subrange(5, 7);
    let c = s.subrange(8, 10);
    assert(s =~= a + seq!['-'] + b + seq!['-'] + c);
    assert(all_digits(a)) by {
        assert forall|i: int| 0 <= i < a.len() implies is_digit(#[trigger] a[i]) by {
            assert(a[i] == s[i]);
        }
    }
    assert(all_digits(b)) by {
        assert forall|i: int| 0 <= i < b.len() implies is_digit(#[trigger] b[i]) by {
            assert(b[i] == s[i + 5]);
        }
    }
    assert(all_digits(c)) by {
        assert forall|i: int| 0 <= i < c.len() implies is_digit(#[trigger] c[i]) by {
            assert(c[i] == s[i + 8]);
        }
    }
    lemma_digits_bound(a);
    lemma_digits_bound(b);
    lemma_digits_bound(c);
    assert(ten_pow(4) == 10000) by {
        reveal_with_fuel(ten_pow, 5);
    }
    assert(ten_pow(2) == 100) by {
        reveal_with_fuel(ten_pow, 3);
    }
    lemma_parse_digits(a, true, i32::MIN as int, i32::MAX as int);
    lemma_parse_digits(b, false, 0, u32::MAX as int);
    lemma_parse_digits(c, false, 0, u32::MAX as int);
    lemma_digits_avoid(a, '-');
    lemma_digits_avoid(b, '-');
    lemma_digits_avoid(c, '-');
    lemma_split_single(a, '-');
    lemma_split_then(a, b, '-');
    lemma_split_then(a + seq!['-'] + b, c, '-');
    assert(split_on(s, '-') =~= seq![a, b, c]);
    lemma_zero_pad_digits(a);
    lemma_zero_pad_digits(b);
    lemma_zero_pad_digits(c);
    let y = digits_value(a) as int;
    let m = digits_value(b) as int;
    let d = digits_value(c) as int;
    assert(padded(y, 4) == a);
    assert(padded(m, 2) == b);
    assert(padded(d, 2) == c);
    assert(date_text(y, m, d) =~= s);
}

/// Parses `YYYY-MM-DD` into a date.
pub fn parse_date(s: &str) -> (res: Option<LocalDate>)
    ensures
        match res {
            Some(date) => date.wf() && parsed_date_day(s@) == Some(date.days as int)
                && parsed_date_fields(s@) == Some((date.year as int, date.month as int, date.day as int)),
            None => parsed_date_day(s@) is None,
        },
        // Formatting a date parsed from `DDDD-DD-DD` gives the text back.
        res matches Some(date) ==> (canonical_date(s@) ==> date_text(date.year as int, date.month as int, date.day as int)
            == s@),
{
    proof {
        if canonical_date(s@) {
            lemma_canonical_date(s@);
        }
    }
    let cs = chars_of(s);
    let parts = split_chars(&cs, '-');
    if parts.len() != 3 {
        return None;
    }
    assert(parts@[0]@ == split_on(s@, '-')[0]);
    assert(parts@[1]@ == split_on(s@, '-')[1]);
    assert(parts@[2]@ == split_on(s@, '-')[2]);
    let year = match parse_i32_chars(&parts[0]) {
        Some(v) => v,
        None => return None,
    };
    let month = match parse_u32_chars(&parts[1]) {
        Some(v) => v,
        None => return None,
    };
    let day = match parse_u32_chars(&parts[2]) {
        Some(v) => v,
        None => return None,
    };
    match epoch_day_of(year, month, day) {
        Some(n) => Some(date_of_epoch_day(n)),
        None => None,
    }
}

/// `YYYY-MM-DDTHH:MM:SS.mmmZ` of a UTC millisecond timestamp.
pub open spec fn iso_text(ms: int) -> Seq<char> {
    let secs = ms / 1000;
    let sid = secs % 86400;
    let ymd = civil_from_days(secs / 86400);
    date_text(ymd.0, ymd.1, ymd.2) + seq!['T'] + padded(sid / 3600, 2) + seq![':'] + padded(
        (sid % 3600) / 60,
        2,
    ) + seq![':'] + padded(sid % 60, 2) + seq!['.'] + padded(ms % 1000, 3) + seq!['Z']
}

/// The timestamps whose date chrono can represent.
pub open spec fn iso_representable(ms: int) -> bool {
    ms / 1000 / 86400 <= MAX_EPOCH_DAY
}

/// `HH:MM:SS` of the time of day of a timestamp.
spec fn clock_text(ms: int) -> Seq<char> {
    let sid = (ms / 1000) % 86400;
    padded(sid / 3600, 2) + seq![':'] + padded((sid % 3600) / 60, 2) + seq![':'] + padded(sid % 60, 2)
}

/// `HH:MM:SS.mmm` of the time of day of a timestamp.
spec fn time_text(ms: int) -> Seq<char> {
    clock_text(ms) + seq!['.'] + padded(ms % 1000, 3)
}

/// The time of day is digits, `:` and `.`; its last character is a digit.
proof fn lemma_time_text_shape(ms: int)
    requires
        0 <= ms,
    ensures
        !clock_text(ms).contains('.'),
        !clock_text(ms).contains('T'),
        !time_text(ms).contains('T'),
        time_text(ms).len() > 0,
        is_digit(time_text(ms).last()),
        parse_integer(padded(ms % 1000, 3), false, 0, u64::MAX as int) == Some(ms % 1000),
{
    let sid = (ms / 1000) % 86400;
    let hh = padded(sid / 3600, 2);
    let mm = padded((sid % 3600) / 60, 2);
    let ss = padded(sid % 60, 2);
    let ll = padded(ms % 1000, 3);
    lemma_parse_zero_padded((sid / 3600) as nat, 2, false, 0, sid / 3600);
    lemma_parse_zero_padded(((sid % 3600) / 60) as nat, 2, false, 0, (sid % 3600) / 60);
    lemma_parse_zero_padded((sid % 60) as nat, 2, false, 0, sid % 60);
    lemma_parse_zero_padded((ms % 1000) as nat, 3, false, 0, u64::MAX as int);
    lemma_digits_avoid(hh, '.');
    lemma_digits_avoid(mm, '.');
    lemma_digits_avoid(ss, '.');
    lemma_digits_avoid(hh, 'T');
    lemma_digits_avoid(mm, 'T');
    lemma_digits_avoid(ss, 'T');
    lemma_digits_avoid(ll, 'T');
    lemma_avoids_join(hh, ':', mm, '.');
    lemma_avoids_join(hh + seq![':'] + mm, ':', ss, '.');
    lemma_avoids_join(hh, ':', mm, 'T');
    lemma_avoids_join(hh + seq![':'] + mm, ':', ss, 'T');
    lemma_avoids_join(clock_text(ms), '.', ll, 'T');
    assert(time_text(ms).last() == ll[ll.len() - 1]);
}

/// The two pieces that `parse_iso_to_ms` finds in the text of a timestamp: the
/// date and the time of day.
proof fn lemma_iso_text_pieces(ms: int, year: int, month: int, day: int)
    requires
        0 <= ms,
        0 <= year,
        0 <= month,
        0 <= day,
        civil_from_days(ms / 1000 / 86400) == (year, month, day),
    ensures
        split_on(strip_trailing(iso_text(ms), 'Z'), 'T') == seq![date_text(year, month, day), time_text(ms)],
{
    let date = date_text(year, month, day);
    let body = date + seq!['T'] + time_text(ms);
    assert(iso_text(ms) =~= body.push('Z'));
    lemma_time_text_shape(ms);
    assert(body.last() == time_text(ms).last());
    lemma_strip_one(body, 'Z');
    lemma_date_text_split(year, month, day);
    lemma_split_single(date, 'T');
    lemma_split_then(date, time_text(ms), 'T');
    assert(split_on(body, 'T') =~= seq![date, time_text(ms)]);
}

/// The hours, minutes and seconds that the clock text gives.
proof fn lemma_clock_numbers(ms: int)
    requires
        0 <= ms,
    ensures
        parsed_i64s(split_on(clock_text(ms), ':')) == seq![
            ((ms / 1000) % 86400) / 3600,
            (((ms / 1000) % 86400) % 3600) / 60,
            ((ms / 1000) % 86400) % 60,
        ],
{
    let sid = (ms / 1000) % 86400;
    let hh = padded(sid / 3600, 2);
    let mm = padded((sid % 3600) / 60, 2);
    let ss = padded(sid % 60, 2);
    lemma_parse_zero_padded((sid / 3600) as nat, 2, false, 0, sid / 3600);
    lemma_parse_zero_padded(((sid % 3600) / 60) as nat, 2, false, 0, (sid % 3600) / 60);
    lemma_parse_zero_padded((sid % 60) as nat, 2, false, 0, sid % 60);
    lemma_digits_avoid(hh, ':');
    lemma_digits_avoid(mm, ':');
    lemma_digits_avoid(ss, ':');
    lemma_split_single(hh, ':');
    lemma_split_then(hh, mm, ':');
    lemma_split_then(hh + seq![':'] + mm, ss, ':');
    assert(clock_text(ms) == hh + seq![':'] + mm + seq![':'] + ss);
    assert(split_on(clock_text(ms), ':') =~= seq![hh, mm, ss]);
    lemma_parsed_three(sid / 3600, 2, (sid % 3600) / 60, 2, sid % 60, 2);
}

/// The sums of `parse_iso_to_ms` do not wrap for a timestamp in chrono's range.
proof fn lemma_iso_sums(ms: int)
    requires
        0 <= ms,
        ms / 1000 / 86400 <= MAX_EPOCH_DAY,
    ensures
        ({
            let secs = ms / 1000;
            let sid = secs % 86400;
            let total: i64 = ((secs / 86400) as i64).wrapping_mul(86400).wrapping_add(
                ((sid / 3600) as i64).wrapping_mul(3600),
            ).wrapping_add((((sid % 3600) / 60) as i64).wrapping_mul(60)).wrapping_add((sid % 60) as i64);
            (total as u64).wrapping_mul(1000).wrapping_add((ms % 1000) as u64) == ms
        }),
{
    let secs = ms / 1000;
    let sid = secs % 86400;
    let days = secs / 86400;
    let h = sid / 3600;
    let mi = (sid % 3600) / 60;
    let sec = sid % 60;
    let milli = ms % 1000;
    assert(sid == h * 3600 + mi * 60 + sec);
    assert(secs == days * 86400 + sid);
    assert(ms == secs * 1000 + milli);
    let a: i64 = (days as i64).wrapping_mul(86400);
    assert(a == days * 86400);
    let b: i64 = (h as i64).wrapping_mul(3600);
    assert(b == h * 3600);
    let c: i64 = (mi as i64).wrapping_mul(60);
    assert(c == mi * 60);
    let total: i64 = a.wrapping_add(b).wrapping_add(c).wrapping_add(sec as i64);
    assert(total == secs);
    let out: u64 = (total as u64).wrapping_mul(1000).wrapping_add(milli as u64);
    assert(out == ms);
}

/// The numbers of a timestamp's date and time of day give the timestamp back.
proof fn lemma_iso_fields(ms: int, year: int, month: int, day: int)
    requires
        0 <= ms,
        ms / 1000 / 86400 <= MAX_EPOCH_DAY,
        days_from_civil(year, month, day) == Some(ms / 1000 / 86400),
        0 <= year <= MAX_YEAR,
        1 <= month <= 12,
        1 <= day <= 31,
    ensures
        ({
            let sid = (ms / 1000) % 86400;
            iso_fields_ms(seq![year, month, day], seq![sid / 3600, (sid % 3600) / 60, sid % 60], (ms % 1000) as u64)
                == ms
        }),
{
    lemma_iso_sums(ms);
    let dp = seq![year, month, day];
    assert(dp[0] as i32 as int == year);
    assert(dp[1] as u32 as int == month);
    assert(dp[2] as u32 as int == day);
}

/// The date piece and the time piece of a timestamp's text give the timestamp back.
proof fn lemma_iso_parts(ms: int, year: int, month: int, day: int)
    requires
        0 <= ms,
        ms / 1000 / 86400 <= MAX_EPOCH_DAY,
        days_from_civil(year, month, day) == Some(ms / 1000 / 86400),
        0 <= year <= MAX_YEAR,
        1 <= month <= 12,
        1 <= day <= 31,
    ensures
        iso_parts_ms(date_text(year, month, day), time_text(ms)) == ms,
{
    let t = time_text(ms);
    lemma_time_text_shape(ms);
    lemma_first_index_after(clock_text(ms), padded(ms % 1000, 3), '.');
    assert(t.take(clock_text(ms).len() as int) =~= clock_text(ms));
    assert(t.skip(clock_text(ms).len() as int + 1) =~= padded(ms % 1000, 3));
    assert(iso_clock(t) == clock_text(ms));
    assert(iso_millis(t) == (ms % 1000) as u64);
    lemma_date_text_split(year, month, day);
    lemma_parsed_three(year, 4, month, 2, day, 2);
    lemma_clock_numbers(ms);
    lemma_iso_fields(ms, year, month, day);
}

/// What `parse_iso_to_ms` reads from the text of a timestamp on or after 1970.
proof fn lemma_iso_text_reads_back(ms: int, year: int, month: int, day: int)
    requires
        0 <= ms,
        ms / 1000 / 86400 <= MAX_EPOCH_DAY,
        civil_from_days(ms / 1000 / 86400) == (year, month, day),
        days_from_civil(year, month, day) == Some(ms / 1000 / 86400),
        0 <= year <= MAX_YEAR,
        1 <= month <= 12,
        1 <= day <= 31,
    ensures
        iso_ms(iso_text(ms)) == ms,
{
    lemma_iso_text_pieces(ms, year, month, day);
    lemma_iso_parts(ms, year, month, day);
}

/// Formats a UTC millisecond timestamp as an ISO-8601 string in UTC.
pub fn utc_ms_to_iso(utc_ms: u64) -> (res: String)
    requires
        iso_representable(utc_ms as int),
    ensures
        res@ == iso_text(utc_ms as int),
        // `parse_iso_to_ms` reads the timestamp back.
        iso_ms(res@) == utc_ms,
{
    let total_secs: i64 = (utc_ms / 1000) as i64;
    let millis: u64 = utc_ms % 1000;
    let days: i64 = total_secs / 86400;
    let secs_in_day: i64 = total_secs % 86400;
    let date = date_of_epoch_day(days);
    let mut out: Vec<char> = Vec::new();
    push_padded(&mut out, date.year as i64, 4);
    out.push('-');
    push_padded(&mut out, date.month as i64, 2);
    out.push('-');
    push_padded(&mut out, date.day as i64, 2);
    out.push('T');
    push_padded(&mut out, secs_in_day / 3600, 2);
    out.push(':');
    push_padded(&mut out, (secs_in_day % 3600) / 60, 2);
    out.push(':');
    push_padded(&mut out, secs_in_day % 60, 2);
    out.push('.');
    push_padded(&mut out, millis as i64, 3);
    out.push('Z');
    assert(out@ =~= iso_text(utc_ms as int));
    proof {
        lemma_iso_text_reads_back(utc_ms as int, date.year as int, date.month as int, date.day as int);
    }
    string_of(&out)
}

/// What `parse_iso_to_ms` reads from a timestamp string: trailing `Z`s dropped,
/// exactly two pieces around `T`; the date piece split on `-` and the time piece
/// (up to its first `.`) split on `:`, keeping the pieces that parse as `i64`, must
/// each give three numbers; the digits after the `.` are the milliseconds (0 where
/// they do not parse as `u64`). The year, month and day are cast to `i32`, `u32`,
/// `u32` as Rust's `as` does, and must form a date that chrono accepts. Seconds and
/// milliseconds are summed in `i64` and `u64` with wrap-around, as a release build
/// computes them. Anything else reads as 0.
pub open spec fn iso_ms(iso: Seq<char>) -> u64 {
    let parts = split_on(strip_trailing(iso, 'Z'), 'T');
    if parts.len() != 2 {
        0
    } else {
        iso_parts_ms(parts[0], parts[1])
    }
}

/// The milliseconds after the first `.` of the time piece (0 where there is none or
/// they do not parse).
pub open spec fn iso_millis(t: Seq<char>) -> u64 {
    match first_index(t, '.') {
        Some(k) => match parse_integer(t.skip(k + 1), false, 0, u64::MAX as int) {
            Some(v) => v as u64,
            None => 0,
        },
        None => 0,
    }
}

/// The time piece up to its first `.`.
pub open spec fn iso_clock(t: Seq<char>) -> Seq<char> {
    match first_index(t, '.') {
        Some(k) => t.take(k),
        None => t,
    }
}

/// `iso_ms` of the date piece and the time piece.
pub open spec fn iso_parts_ms(date_part: Seq<char>, t: Seq<char>) -> u64 {
    let dp = parsed_i64s(split_on(date_part, '-'));
    let tp = parsed_i64s(split_on(iso_clock(t), ':'));
    if dp.len() != 3 || tp.len() != 3 {
        0
    } else {
        iso_fields_ms(dp, tp, iso_millis(t))
    }
}

/// `iso_ms` of the date's and the clock's numbers and the milliseconds.
pub open spec fn iso_fields_ms(dp: Seq<int>, tp: Seq<int>, millis: u64) -> u64 {
    match days_from_civil(dp[0] as i32 as int, dp[1] as u32 as int, dp[2] as u32 as int) {
        Some(days) => {
            let total: i64 = (days as i64).wrapping_mul(86400).wrapping_add((tp[0] as i64).wrapping_mul(3600)).wrapping_add(
                (tp[1] as i64).wrapping_mul(60),
            ).wrapping_add(tp[2] as i64);
            (total as u64).wrapping_mul(1000).wrapping_add(millis)
        },
        None => 0,
    }
}

/// Reads a timestamp written as `YYYY-MM-DDTHH:MM:SS.mmmZ` back into UTC milliseconds;
/// 0 where it does not have that shape.
pub fn parse_iso_to_ms(iso: &str) -> (res: u64)
    ensures
        res == iso_ms(iso@),
{
    let cs = chars_of(iso);
    let stripped = strip_trailing_chars(&cs, 'Z');
    let parts = split_chars(&stripped, 'T');
    if parts.len() != 2 {
        return 0;
    }
    assert(parts@[0]@ == split_on(strip_trailing(iso@, 'Z'), 'T')[0]);
    assert(parts@[1]@ == split_on(strip_trailing(iso@, 'Z'), 'T')[1]);
    let date_pieces = split_chars(&parts[0], '-');
    let date_parts = parse_i64_pieces(&date_pieces);
    let time_str = &parts[1];
    let (time_main, millis) = match find_char(time_str, '.') {
        Some(dot) => {
            let ms_str = slice_chars(time_str, dot + 1, time_str.len());
            assert(ms_str@ =~= time_str@.skip(dot + 1));
            let ms: u64 = match parse_u64_chars(&ms_str) {
                Some(v) => v,
                None => 0,
            };
            let main = slice_chars(time_str, 0, dot);
            assert(main@ =~= time_str@.take(dot as int));
            (main, ms)
        },
        None => (slice_chars(time_str, 0, time_str.len()), 0u64),
    };
    assert(time_main@ =~= match first_index(time_str@, '.') {
        Some(k) => time_str@.take(k),
        None => time_str@,
    });
    let time_pieces = split_chars(&time_main, ':');
    let time_parts = parse_i64_pieces(&time_pieces);
    if date_parts.len() != 3 || time_parts.len() != 3 {
        assert(date_parts@.map_values(|v: i64| v as int).len() == date_parts.len());
        assert(time_parts@.map_values(|v: i64| v as int).len() == time_parts.len());
        return 0;
    }
    assert(date_parts@.map_values(|v: i64| v as int)[0] == date_parts@[0] as int);
    assert(date_parts@.map_values(|v: i64| v as int)[1] == date_parts@[1] as int);
    assert(date_parts@.map_values(|v: i64| v as int)[2] == date_parts@[2] as int);
    assert(time_parts@.map_values(|v: i64| v as int)[0] == time_parts@[0] as int);
    assert(time_parts@.map_values(|v: i64| v as int)[1] == time_parts@[1] as int);
    assert(time_parts@.map_values(|v: i64| v as int)[2] == time_parts@[2] as int);
    let year = date_parts[0];
    let month = date_parts[1];
    let day = date_parts[2];
    let hour = time_parts[0];
    let minute = time_parts[1];
    let second = time_parts[2];
    match epoch_day_of(year as i32, month as u32, day as u32) {
        Some(days) => {
            let total: i64 = days.wrapping_mul(86400).wrapping_add(hour.wrapping_mul(3600)).wrapping_add(
                minute.wrapping_mul(60),
            ).wrapping_add(second);
            (total as u64).wrapping_mul(1000).wrapping_add(millis)
        },
        None => 0,
    }
}

// ==================== ranges ====================

/// The date `n` days after `date`, where that stays in chrono's range.
fn shift_days(date: &LocalDate, n: i64) -> (res: LocalDate)
    requires
        date.wf(),
        in_date_range(date.days + n),
    ensures
        res.wf(),
        res.days == date.days + n,
{
    date_of_epoch_day(date.days + n)
}

/// The first and last day numbers of the week `week_offset` weeks from the current one
/// (Monday to Sunday); the current week ends today.
pub open spec fn week_bounds(offset_hours: int, week_offset: int, now_ms: int) -> (int, int) {
    let today = local_day(offset_hours, now_ms);
    let monday = today - weekday_from_monday(today) + 7 * week_offset;
    let sunday = monday + 6;
    (monday, if week_offset == 0 && sunday > today { today } else { sunday })
}

/// `get_week_range` stays within chrono's dates at every step.
pub open spec fn week_range_defined(offset_hours: int, week_offset: int, now_ms: int) -> bool {
    let today = local_day(offset_hours, now_ms);
    let monday = today - weekday_from_monday(today) + 7 * week_offset;
    &&& in_date_range(today)
    &&& in_date_range(today - weekday_from_monday(today))
    &&& in_date_range(monday)
    &&& in_date_range(monday + 6)
}

/// The week `week_offset` weeks from the current one, Monday to Sunday, in the
/// given time zone; the current week is cut off at today.
pub fn get_week_range(offset_hours: i32, week_offset: i32, now_ms: u64) -> (res: (LocalDate, LocalDate))
    requires
        week_range_defined(offset_hours as int, week_offset as int, now_ms as int),
    ensures
        res.0.wf(),
        res.1.wf(),
        (res.0.days as int, res.1.days as int) == week_bounds(offset_hours as int, week_offset as int, now_ms as int),
        res.0.days <= res.1.days,
        res.1.days - res.0.days <= 6,
        week_offset == 0 ==> res.1.days == local_day(offset_hours as int, now_ms as int),
        week_offset == 0 ==> res.0.days <= local_day(offset_hours as int, now_ms as int),
        // The week runs from a Monday to the Sunday after it (this week: to today).
        weekday_from_monday(res.0.days as int) == 0,
        week_offset != 0 ==> res.1.days - res.0.days == 6,
{
    let tz = TimezoneHelper::new(offset_hours);
    let today = tz.get_today(now_ms);
    let day_of_week = weekday_of_epoch_day(today.days);
    let this_monday = shift_days(&today, -(day_of_week as i64));
    let target_monday = shift_days(&this_monday, (week_offset as i64) * 7);
    let mut target_sunday = shift_days(&target_monday, 6);
    if week_offset == 0 && target_sunday.days > today.days {
        target_sunday = today;
    }
    (target_monday, target_sunday)
}

/// `get_week_range` where it is defined, `None` where it is not.
pub fn get_week_range_checked(offset_hours: i32, week_offset: i32, now_ms: u64) -> (res: Option<(LocalDate, LocalDate)>)
    ensures
        match res {
            Some(r) => week_range_defined(offset_hours as int, week_offset as int, now_ms as int)
                && r.0.wf() && r.1.wf()
                && (r.0.days as int, r.1.days as int) == week_bounds(offset_hours as int, week_offset as int, now_ms as int),
            None => !week_range_defined(offset_hours as int, week_offset as int, now_ms as int),
        },
{
    let tz = TimezoneHelper::new(offset_hours);
    let today = tz.local_day_number(now_ms);
    if today < MIN_EPOCH_DAY || today > MAX_EPOCH_DAY {
        return None;
    }
    let wd = weekday_of_epoch_day(today) as i64;
    let monday = today - wd + (week_offset as i64) * 7;
    if today - wd < MIN_EPOCH_DAY || monday < MIN_EPOCH_DAY || monday > MAX_EPOCH_DAY - 6 {
        return None;
    }
    Some(get_week_range(offset_hours, week_offset, now_ms))
}

/// The year and month `month_offset` months from the current local month.
pub open spec fn month_target(offset_hours: int, month_offset: int, now_ms: int) -> (int, int) {
    let ymd = civil_from_days(local_day(offset_hours, now_ms));
    let total = ymd.0 * 12 + ymd.1 - 1 + month_offset;
    (total / 12, total % 12 + 1)
}

/// The first and last day numbers of that month; the current month ends today.
pub open spec fn month_bounds(offset_hours: int, month_offset: int, now_ms: int) -> (int, int) {
    let (y, m) = month_target(offset_hours, month_offset, now_ms);
    let today = local_day(offset_hours, now_ms);
    let start = match days_from_civil(y, m, 1) {
        Some(n) => n,
        None => 0,
    };
    let end = match next_month_first(y, m) {
        Some(n) => n - 1,
        None => 0,
    };
    (start, if month_offset == 0 && end > today { today } else { end })
}

/// `get_month_range` neither overflows `i32` nor leaves chrono's dates.
pub open spec fn month_range_defined(offset_hours: int, month_offset: int, now_ms: int) -> bool {
    let today = local_day(offset_hours, now_ms);
    let ymd = civil_from_days(today);
    let total = ymd.0 * 12 + ymd.1 - 1 + month_offset;
    let (y, m) = month_target(offset_hours, month_offset, now_ms);
    &&& in_date_range(today)
    &&& i32::MIN <= total <= i32::MAX
    &&& MIN_YEAR <= y <= MAX_YEAR
    &&& (m == 12 ==> y + 1 <= MAX_YEAR)
    &&& next_month_first(y, m) matches Some(n) && n - 1 >= MIN_EPOCH_DAY
}

/// The month `month_offset` months from the current one, first to last day, in
/// the given time zone; the current month is cut off at today.
pub fn get_month_range(offset_hours: i32, month_offset: i32, now_ms: u64) -> (res: (LocalDate, LocalDate))
    requires
        month_range_defined(offset_hours as int, month_offset as int, now_ms as int),
    ensures
        res.0.wf(),
        res.1.wf(),
        (res.0.days as int, res.1.days as int) == month_bounds(offset_hours as int, month_offset as int, now_ms as int),
        (res.0.year as int, res.0.month as int) == month_target(offset_hours as int, month_offset as int, now_ms as int),
        res.0.day == 1,
        month_offset == 0 ==> res.1.days == local_day(offset_hours as int, now_ms as int),
        month_offset == 0 ==> res.0.days <= res.1.days,
{
    let tz = TimezoneHelper::new(offset_hours);
    let today = tz.get_today(now_ms);
    let total_months: i32 = today.year * 12 + today.month as i32 - 1 + month_offset;
    let target_year: i32 = match total_months.checked_div_euclid(12) {
        Some(v) => v,
        None => 0,
    };
    let target_month: u32 = match total_months.checked_rem_euclid(12) {
        Some(v) => (v + 1) as u32,
        None => 1,
    };
    let start_days = match epoch_day_of(target_year, target_month, 1) {
        Some(n) => n,
        None => 0,
    };
    let month_start = date_of_epoch_day(start_days);
    let next_days = if target_month == 12 {
        match epoch_day_of(target_year + 1, 1, 1) {
            Some(n) => n,
            None => 0,
        }
    } else {
        match epoch_day_of(target_year, target_month + 1, 1) {
            Some(n) => n,
            None => 0,
        }
    };
    let mut month_end = date_of_epoch_day(next_days - 1);
    if month_offset == 0 && month_end.days > today.days {
        month_end = today;
    }
    (month_start, month_end)
}

/// `get_month_range` where it is defined, `None` where it is not.
pub fn get_month_range_checked(offset_hours: i32, month_offset: i32, now_ms: u64) -> (res: Option<(LocalDate, LocalDate)>)
    ensures
        match res {
            Some(r) => month_range_defined(offset_hours as int, month_offset as int, now_ms as int)
                && r.0.wf() && r.1.wf()
                && (r.0.days as int, r.1.days as int) == month_bounds(offset_hours as int, month_offset as int, now_ms as int),
            None => !month_range_defined(offset_hours as int, month_offset as int, now_ms as int),
        },
{
    let tz = TimezoneHelper::new(offset_hours);
    let day = tz.local_day_number(now_ms);
    if day < MIN_EPOCH_DAY || day > MAX_EPOCH_DAY {
        return None;
    }
    let today = date_of_epoch_day(day);
    let total: i64 = (today.year as i64) * 12 + today.month as i64 - 1 + month_offset as i64;
    if total < i32::MIN as i64 || total > i32::MAX as i64 {
        return None;
    }
    let y: i64 = match total.checked_div_euclid(12) {
        Some(v) => v,
        None => 0,
    };
    let m: i64 = match total.checked_rem_euclid(12) {
        Some(v) => v + 1,
        None => 1,
    };
    if y < MIN_YEAR as i64 || y > MAX_YEAR as i64 || (m == 12 && y + 1 > MAX_YEAR as i64) {
        return None;
    }
    let next = if m == 12 {
        epoch_day_of((y + 1) as i32, 1, 1)
    } else {
        epoch_day_of(y as i32, (m + 1) as u32, 1)
    };
    match next {
        Some(n) => {
            if n - 1 < MIN_EPOCH_DAY {
                return None;
            }
        },
        None => return None,
    }
    Some(get_month_range(offset_hours, month_offset, now_ms))
}

/// Every date from `start` to `end`, both included, in order.
pub fn date_range_inclusive(start: &LocalDate, end: &LocalDate) -> (res: Vec<LocalDate>)
    requires
        start.wf(),
        end.wf(),
        start.days > end.days || end.days < MAX_EPOCH_DAY,
    ensures
        res.len() == if start.days <= end.days { end.days - start.days + 1 } else { 0 },
        forall|i: int| 0 <= i < res.len() ==> (#[trigger] res[i]).wf() && res[i].days == start.days + i,
{
    let mut dates: Vec<LocalDate> = Vec::new();
    let mut current = *start;
    while current.days <= end.days
        invariant
            current.wf(),
            start.wf(),
            end.wf(),
            start.days > end.days || end.days < MAX_EPOCH_DAY,
            start.days <= current.days <= if start.days <= end.days { end.days + 1 } else { start.days as int },
            dates.len() == current.days - start.days,
            forall|i: int| 0 <= i < dates.len() ==> (#[trigger] dates[i]).wf() && dates[i].days == start.days + i,
        decreases end.days + 1 - current.days,
    {
        dates.push(current);
        current = shift_days(&current, 1);
    }
    dates
}

// ==================== durations ====================

/// Hundredths of a minute between two timestamps, rounded half up; 0 when `end_ms`
/// is not after `start_ms`. (Minutes to two decimals, as whole hundredths.)
pub open spec fn centiminutes_between(start_ms: int, end_ms: int) -> int {
    if end_ms <= start_ms {
        0
    } else {
        (end_ms - start_ms + 300) / 600
    }
}

/// The time between two timestamps, counted in hundredths of a minute, is the
/// elapsed milliseconds over 600 rounded to the nearest whole (halves up), however
/// long the span: 600 times the result lies within 300 ms of the span. Nothing
/// is counted when the end is not after the start.
pub proof fn lemma_centiminutes_round(start_ms: int, end_ms: int)
    ensures
        start_ms < end_ms ==> (end_ms - start_ms) - 300 < 600 * centiminutes_between(start_ms, end_ms)
            <= (end_ms - start_ms) + 300,
        end_ms <= start_ms ==> centiminutes_between(start_ms, end_ms) == 0,
{
    if start_ms < end_ms {
        let d = end_ms - start_ms;
        let q = (d + 300) / 600;
        assert(600 * q <= d + 300 < 600 * q + 600) by (nonlinear_arith)
            requires
                q == (d + 300) / 600,
                d > 0,
        ;
    }
}

/// The minutes from `start_ms` to `end_ms` rounded to two decimals, counted in
/// hundredths of a minute.
pub fn calculate_precise_minutes(start_ms: u64, end_ms: u64) -> (res: u64)
    ensures
        res == centiminutes_between(start_ms as int, end_ms as int),
        start_ms < end_ms ==> (end_ms - start_ms) - 300 < 600 * res <= (end_ms - start_ms) + 300,
        end_ms <= start_ms ==> res == 0,
{
    proof {
        lemma_centiminutes_round(start_ms as int, end_ms as int);
    }
    if end_ms <= start_ms {
        return 0;
    }
    let diff_ms = end_ms - start_ms;
    diff_ms / 600 + if diff_ms % 600 >= 300 { 1 } else { 0 }
}

} // verus!
