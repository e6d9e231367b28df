use vstd::prelude::*;
use vstd::string::*;
use crate::text::{decimal, all_digits, is_digit, digit_value, digits_value, split_once_spec, split_once, eq_str};
use chrono::{Datelike, Timelike};

verus! {

/// The format a date is kept in: `%Y-%m-%dT%H:%M:%S`.
pub const FORMAT_SERIALIZE_DATE_TIME: &'static str = "%Y-%m-%dT%H:%M:%S";
/// A date and time with a space: `%Y-%m-%d %H:%M:%S`.
pub const FORMAT_SERIALIZE_DATE_TIME_WS: &'static str = "%Y-%m-%d %H:%M:%S";
/// A date with dots: `%d.%m.%Y`.
pub const FORMAT_DOT_DATE: &'static str = "%d.%m.%Y";
/// A date with dashes: `%d-%m-%Y`.
pub const FORMAT_DASH_DATE: &'static str = "%d-%m-%Y";

/// A date and time by its fields: year, month, day, hour, minute, second, and nanosecond (from
/// one billion up in a leap second, as chrono keeps it).
pub type DateParts = (i32, u32, u32, u32, u32, u32, u32);

/// A date and time written `%d-%m-%YT%H:%M:%S`.
pub const FORMAT_DASH_DATE_TIME: &'static str = "%d-%m-%YT%H:%M:%S";

pub open spec fn is_leap_year(y: int) -> bool {
    y % 4 == 0 && (y % 100 != 0 || y % 400 == 0)
}

pub open spec fn days_in_month(y: int, m: int) -> int {
    if m == 2 {
        if is_leap_year(y) {
            29
        } else {
            28
        }
    } else if m == 4 || m == 6 || m == 9 || m == 11 {
        30
    } else {
        31
    }
}

/// A day of the proleptic Gregorian calendar, within the years a date can have.
pub open spec fn valid_date(y: i32, m: u32, d: u32) -> bool {
    &&& -262143 <= y <= 262142
    &&& 1 <= m <= 12
    &&& 1 <= d <= days_in_month(y as int, m as int)
}

/// A day and a time of day; a leap second is the second 59 with a nanosecond from one billion.
pub open spec fn valid_parts(p: DateParts) -> bool {
    &&& valid_date(p.0, p.1, p.2)
    &&& p.3 < 24 && p.4 < 60 && p.5 < 60
    &&& p.6 < 2_000_000_000
    &&& (p.6 >= 1_000_000_000 ==> p.5 == 59)
}

/// The formats this library writes dates in.
pub open spec fn known_format(f: Seq<char>) -> bool {
    f == FORMAT_SERIALIZE_DATE_TIME@ || f == FORMAT_SERIALIZE_DATE_TIME_WS@ || f == FORMAT_DOT_DATE@
        || f == FORMAT_DASH_DATE@ || f == FORMAT_DASH_DATE_TIME@
}

/// A number below 100 in two digits, with a leading zero.
pub open spec fn two_digits(n: nat) -> Seq<char> {
    if n < 10 {
        seq!['0'] + decimal(n)
    } else {
        decimal(n)
    }
}

/// A number in at least four digits, with leading zeros.
pub open spec fn four_digits(n: nat) -> Seq<char> {
    if n < 10 {
        seq!['0', '0', '0'] + decimal(n)
    } else if n < 100 {
        seq!['0', '0'] + decimal(n)
    } else if n < 1000 {
        seq!['0'] + decimal(n)
    } else {
        decimal(n)
    }
}

/// A year as `%Y` writes it: four digits from 0 to 9999, else a sign and at least four digits.
pub open spec fn year_text(y: int) -> Seq<char> {
    if 0 <= y <= 9999 {
        four_digits(y as nat)
    } else if y > 9999 {
        seq!['+'] + decimal(y as nat)
    } else {
        seq!['-'] + four_digits((-y) as nat)
    }
}

/// The second as `%S` writes it: 60 in a leap second.
pub open spec fn second_text(p: DateParts) -> Seq<char> {
    two_digits((p.5 + p.6 / 1_000_000_000) as nat)
}

/// What chrono writes for a date and time in one of the known formats.
pub open spec fn format_spec(p: DateParts, fmt: Seq<char>) -> Seq<char> {
    let date_ymd = year_text(p.0 as int) + seq!['-'] + two_digits(p.1 as nat) + seq!['-'] + two_digits(
        p.2 as nat,
    );
    let time = two_digits(p.3 as nat) + seq![':'] + two_digits(p.4 as nat) + seq![':'] + second_text(
        p,
    );
    if fmt == FORMAT_SERIALIZE_DATE_TIME@ {
        date_ymd + seq!['T'] + time
    } else if fmt == FORMAT_SERIALIZE_DATE_TIME_WS@ {
        date_ymd + seq![' '] + time
    } else if fmt == FORMAT_DASH_DATE_TIME@ {
        two_digits(p.2 as nat) + seq!['-'] + two_digits(p.1 as nat) + seq!['-'] + year_text(p.0 as int)
            + seq!['T'] + time
    } else if fmt == FORMAT_DOT_DATE@ {
        two_digits(p.2 as nat) + seq!['.'] + two_digits(p.1 as nat) + seq!['.'] + year_text(p.0 as int)
    } else {
        two_digits(p.2 as nat) + seq!['-'] + two_digits(p.1 as nat) + seq!['-'] + year_text(p.0 as int)
    }
}

/// What `chrono::NaiveDateTime::parse_from_str` reads from a text in a format.
pub uninterp spec fn chrono_parse_datetime(s: Seq<char>, fmt: Seq<char>) -> Option<DateParts>;

/// What `chrono::NaiveDate::parse_from_str` reads from a text in a format.
pub uninterp spec fn chrono_parse_date(s: Seq<char>, fmt: Seq<char>) -> Option<(i32, u32, u32)>;

/// The Unix timestamp chrono gives a date and time taken as UTC (`and_utc().timestamp()`).
pub uninterp spec fn chrono_timestamp(p: DateParts) -> i64;

/// Calls `chrono::NaiveDateTime::parse_from_str`. Its result is the one named by
/// `chrono_parse_datetime`; a date and time it reads is a day of the calendar and a time of day
/// (a leap second kept as the second 59 with its nanosecond from one billion). Which texts it
/// accepts is left to chrono.
#[verifier::external_body]
fn parse_datetime(s: &str, fmt: &str) -> (r: Option<DateParts>)
    ensures
        r == chrono_parse_datetime(s@, fmt@),
        r matches Some(p) ==> valid_parts(p),
{
    chrono::NaiveDateTime::parse_from_str(s, fmt).ok().map(
        |d| (d.year(), d.month(), d.day(), d.hour(), d.minute(), d.second(), d.nanosecond()),
    )
}

/// Calls `chrono::NaiveDate::parse_from_str`. Its result is the one named by `chrono_parse_date`;
/// a date it reads is a day of the calendar. Which texts it accepts is left to chrono.
#[verifier::external_body]
fn parse_date(s: &str, fmt: &str) -> (r: Option<(i32, u32, u32)>)
    ensures
        r == chrono_parse_date(s@, fmt@),
        r matches Some(p) ==> valid_date(p.0, p.1, p.2),
{
    chrono::NaiveDate::parse_from_str(s, fmt).ok().map(|d| (d.year(), d.month(), d.day()))
}

/// Calls `chrono::NaiveDate::from_ymd_opt`: it makes a date exactly of a day of the calendar
/// within chrono's years (-262143 to 262142).
#[verifier::external_body]
fn ymd_valid(y: i32, m: u32, d: u32) -> (r: bool)
    ensures
        r == valid_date(y, m, d),
{
    chrono::NaiveDate::from_ymd_opt(y, m, d).is_some()
}

/// Calls `chrono::NaiveDateTime::format` on the date and time of the fields (made with
/// `NaiveDate::from_ymd_opt` and `and_hms_nano_opt`, which accept them). For the known formats
/// chrono writes each field zero-padded to two digits, the year to four digits (with a sign
/// outside 0 to 9999), and the second of a leap second as 60.
#[verifier::external_body]
fn format_datetime(p: DateParts, fmt: &str) -> (r: String)
    requires
        valid_parts(p),
        known_format(fmt@),
    ensures
        r@ == format_spec(p, fmt@),
{
    chrono::NaiveDate::from_ymd_opt(p.0, p.1, p.2).unwrap().and_hms_nano_opt(p.3, p.4, p.5, p.6).unwrap().format(
        fmt,
    ).to_string()
}

/// Calls `chrono::NaiveDateTime::and_utc` and `DateTime::timestamp` on the date and time of the
/// fields (made as in `format_datetime`). The result is the one named by `chrono_timestamp`; the
/// dates chrono holds lie within about 8.3 * 10^12 seconds of the epoch.
#[verifier::external_body]
fn timestamp_of(p: DateParts) -> (t: i64)
    requires
        valid_parts(p),
    ensures
        t == chrono_timestamp(p),
        -TIMESTAMP_BOUND <= t <= TIMESTAMP_BOUND,
{
    chrono::NaiveDate::from_ymd_opt(p.0, p.1, p.2).unwrap().and_hms_nano_opt(p.3, p.4, p.5, p.6).unwrap().and_utc().timestamp()
}

/// Calls `std::time::SystemTime::elapsed` on `UNIX_EPOCH`: the seconds and the nanoseconds
/// (below one billion) since the epoch, or `None` when the clock reads before it. Nothing is
/// claimed of which moment it is.
#[verifier::external_body]
fn unix_time_now() -> (r: Option<(u64, u32)>)
    ensures
        r matches Some(t) ==> t.1 < 1_000_000_000,
{
    match std::time::UNIX_EPOCH.elapsed() {
        Ok(d) => Some((d.as_secs(), d.subsec_nanos())),
        Err(_) => None,
    }
}

/// Moments whose local time this library reads lie within this many seconds of the epoch: a day
/// and more inside the dates chrono holds (from -8334601315200 to 8210266876799), so that no
/// offset of a time zone takes the local date out of them.
pub const LOCAL_TIME_BOUND: i64 = 8_000_000_000_000;

/// Calls `chrono::DateTime::from_timestamp` (which gives a date and time for every moment in the
/// bound and nanosecond below one billion) and `with_timezone(&chrono::Local)`: the local date
/// and time of the moment, by its fields. The local date is within a day of the UTC date, so it
/// is a day of the calendar, and the nanosecond stays below one billion. Nothing is claimed of
/// the offset, which the system's time-zone data gives. chrono's lookup of that offset
/// (`offset/local/unix.rs`, "unable to select local time type", and the unwrap in
/// `offset/local/mod.rs`) fails only for zone data that gives an offset of a whole day or more;
/// that depends on the system's zone files, not on the arguments, and is not ruled out here.
#[verifier::external_body]
fn local_parts(secs: i64, nanos: u32) -> (r: DateParts)
    requires
        -LOCAL_TIME_BOUND <= secs <= LOCAL_TIME_BOUND,
        nanos < 1_000_000_000,
    ensures
        valid_parts(r),
        r.6 < 1_000_000_000,
{
    let v = chrono::DateTime::from_timestamp(secs, nanos).unwrap().with_timezone(&chrono::Local);
    (v.year(), v.month(), v.day(), v.hour(), v.minute(), v.second(), v.nanosecond())
}

/// The month a Russian month name in the genitive (as in "26 октября 2020 г.") stands for.
pub open spec fn month_of_name(m: Seq<char>) -> Option<u32> {
    if m == "января"@ {
        Some(1)
    } else if m == "февраля"@ {
        Some(2)
    } else if m == "марта"@ {
        Some(3)
    } else if m == "апреля"@ {
        Some(4)
    } else if m == "мая"@ {
        Some(5)
    } else if m == "июня"@ {
        Some(6)
    } else if m == "июля"@ {
        Some(7)
    } else if m == "августа"@ {
        Some(8)
    } else if m == "сентября"@ {
        Some(9)
    } else if m == "октября"@ {
        Some(10)
    } else if m == "ноября"@ {
        Some(11)
    } else if m == "декабря"@ {
        Some(12)
    } else {
        None
    }
}

/// The number written by one to `max` decimal digits.
pub open spec fn short_number(s: Seq<char>, max: nat) -> Option<nat> {
    if 1 <= s.len() <= max && all_digits(s) {
        Some(digits_value(s))
    } else {
        None
    }
}

/// A year text without the closing ` г.` when it has one.
pub open spec fn strip_year_mark(s: Seq<char>) -> Seq<char> {
    if s.len() >= 3 && s.subrange(s.len() - 3, s.len() as int) == " г."@ {
        s.subrange(0, s.len() - 3)
    } else {
        s
    }
}

/// The day written `dd mmmm yyyy`: one or two digits of the day, the month's name, four digits of
/// the year (optionally followed by ` г.`), separated by single spaces; year, month and day.
pub open spec fn written_date_spec(s: Seq<char>) -> Option<(i32, u32, u32)> {
    match split_once_spec(s, " "@) {
        Some((d, rest)) => match split_once_spec(rest, " "@) {
            Some((m, y)) => match (short_number(d, 2), month_of_name(m), short_number(
                strip_year_mark(y),
                4,
            ), y.len() == 4 || strip_year_mark(y) != y) {
                (Some(dd), Some(mm), Some(yy), true) => Some((yy as i32, mm, dd as u32)),
                _ => None,
            },
            None => None,
        },
        None => None,
    }
}

/// The date and time a text stands for, in the first of the formats that reads it:
/// `%Y-%m-%dT%H:%M:%S`, `%Y-%m-%d %H:%M:%S`, `%d.%m.%Y` (at midnight), `%d-%m-%YT%H:%M:%S`, or
/// `dd mmmm yyyy` (at midnight, when it is a day of the calendar).
pub open spec fn parse_parts_spec(s: Seq<char>) -> Option<DateParts> {
    if let Some(p) = chrono_parse_datetime(s, FORMAT_SERIALIZE_DATE_TIME@) {
        Some(p)
    } else if let Some(p) = chrono_parse_datetime(s, FORMAT_SERIALIZE_DATE_TIME_WS@) {
        Some(p)
    } else if let Some(d) = chrono_parse_date(s, FORMAT_DOT_DATE@) {
        Some((d.0, d.1, d.2, 0, 0, 0, 0))
    } else if let Some(p) = chrono_parse_datetime(s, FORMAT_DASH_DATE_TIME@) {
        Some(p)
    } else if let Some(d) = written_date_spec(s) {
        if valid_date(d.0, d.1, d.2) {
            Some((d.0, d.1, d.2, 0, 0, 0, 0))
        } else {
            None
        }
    } else {
        None
    }
}

/// Whether a text is all decimal digits, one to `max` of them; their value.
fn short_number_of(s: &str, max: usize) -> (r: Option<u32>)
    requires
        max <= 4,
    ensures
        match short_number(s@, max as nat) {
            Some(n) => n < 10000 && r == Some(n as u32),
            None => r is None,
        },
{
    let n = s.unicode_len();
    if n == 0 || n > max {
        return None;
    }
    proof {
        lemma_pow10_small();
        assert(s@.take(0) =~= Seq::<char>::empty());
    }
    let mut v: u32 = 0;
    let mut i: usize = 0;
    while i < n
        invariant
            n == s@.len(),
            1 <= n <= 4,
            i <= n,
            all_digits(s@.take(i as int)),
            v == digits_value(s@.take(i as int)),
            v < pow10(i as nat),
        decreases n - i,
    {
        let c = s.get_char(i);
        if !('0' <= c && c <= '9') {
            proof {
                assert(!is_digit(s@[i as int]));
            }
            return None;
        }
        proof {
            assert(s@.take((i + 1) as int).drop_last() =~= s@.take(i as int));
            assert(s@.take((i + 1) as int).last() == c);
            assert forall|k: int| 0 <= k < i + 1 implies is_digit(#[trigger] s@.take((i + 1) as int)[k]) by {
                if k < i {
                    assert(s@.take((i + 1) as int)[k] == s@.take(i as int)[k]);
                }
            }
            lemma_digits_below(s@.take((i + 1) as int));
            lemma_pow10_small();
        }
        let d = (c as u32) - ('0' as u32);
        v = v * 10 + d;
        i = i + 1;
    }
    proof {
        assert(s@.take(n as int) =~= s@);
        assert(pow10(n as nat) <= 10000) by {
            lemma_pow10_small();
        }
    }
    Some(v)
}

/// `n` digits write a number below `10^n`.
proof fn lemma_digits_below(d: Seq<char>)
    requires
        all_digits(d),
    ensures
        digits_value(d) < pow10(d.len()),
    decreases d.len(),
{
    if d.len() > 0 {
        let e = d.drop_last();
        assert(all_digits(e)) by {
            assert forall|k: int| 0 <= k < e.len() implies is_digit(#[trigger] e[k]) by {
                assert(e[k] == d[k]);
            }
        }
        lemma_digits_below(e);
        assert(is_digit(d[d.len() - 1]));
        let a = digits_value(e);
        let b = digit_value(d.last());
        let q = pow10(e.len());
        assert(b < 10);
        assert(a * 10 + b < 10 * q) by (nonlinear_arith)
            requires
                a < q,
                b < 10,
        ;
    }
}

proof fn lemma_pow10_small()
    ensures
        pow10(0) == 1,
        pow10(1) == 10,
        pow10(2) == 100,
        pow10(3) == 1000,
        pow10(4) == 10000,
{
    reveal_with_fuel(pow10, 5);
}

spec fn pow10(n: nat) -> nat
    decreases n,
{
    if n == 0 {
        1
    } else {
        10 * pow10((n - 1) as nat)
    }
}

/// The month a Russian month name in the genitive stands for.
fn month_number(m: &str) -> (r: Option<u32>)
    ensures
        r == month_of_name(m@),
{
    if eq_str(m, "января") {
        Some(1)
    } else if eq_str(m, "февраля") {
        Some(2)
    } else if eq_str(m, "марта") {
        Some(3)
    } else if eq_str(m, "апреля") {
        Some(4)
    } else if eq_str(m, "мая") {
        Some(5)
    } else if eq_str(m, "июня") {
        Some(6)
    } else if eq_str(m, "июля") {
        Some(7)
    } else if eq_str(m, "августа") {
        Some(8)
    } else if eq_str(m, "сентября") {
        Some(9)
    } else if eq_str(m, "октября") {
        Some(10)
    } else if eq_str(m, "ноября") {
        Some(11)
    } else if eq_str(m, "декабря") {
        Some(12)
    } else {
        None
    }
}

/// Reads a day written `dd mmmm yyyy`.
pub fn written_date(s: &str) -> (r: Option<(i32, u32, u32)>)
    ensures
        r == written_date_spec(s@),
{
    proof {
        reveal_strlit(" ");
        reveal_strlit(" г.");
    }
    let (d, rest) = match split_once(s, " ") {
        Some(x) => x,
        None => return None,
    };
    let (m, y) = match split_once(rest.as_str(), " ") {
        Some(x) => x,
        None => return None,
    };
    let yl = y.unicode_len();
    let marked = yl >= 3 && eq_str(y.substring_char(yl - 3, yl), " г.");
    let year_text = if marked {
        y.substring_char(0, yl - 3)
    } else {
        y.as_str()
    };
    proof {
        assert(year_text@ == strip_year_mark(y@));
        if marked {
            assert(strip_year_mark(y@).len() == y@.len() - 3);
        }
    }
    let dd = short_number_of(d.as_str(), 2);
    let mm = month_number(m.as_str());
    let yy = short_number_of(year_text, 4);
    let shaped = yl == 4 || marked;
    proof {
        assert(shaped == (y@.len() == 4 || strip_year_mark(y@) != y@));
    }
    match (dd, mm, yy, shaped) {
        (Some(dd), Some(mm), Some(yy), true) => Some((yy as i32, mm, dd)),
        _ => None,
    }
}

/// How a date is written.
#[derive(Debug, Clone, Copy, PartialEq, Eq, Structural)]
pub enum DateFormat {
    /// the format the date is kept in: `%Y-%m-%dT%H:%M:%S`, or `%d-%m-%YT%H:%M:%S` for a date
    /// read in that form
    Serialize,
    /// `%d-%m-%Y`
    OnlyDate,
    /// `%d.%m.%Y`
    DotDate,
}

/// A date and time, kept as text in the `%Y-%m-%dT%H:%M:%S` format (or in `%d-%m-%YT%H:%M:%S`
/// when it was read in that form).
#[derive(Debug, Clone)]
pub struct Date {
    pub val: String,
}

/// The kept text of a date read from `s`: `s` itself when it is written `%Y-%m-%dT%H:%M:%S` or
/// `%d-%m-%YT%H:%M:%S`; else the date and time it stands for, written `%Y-%m-%dT%H:%M:%S`; none
/// when `s` is in none of the formats read.
pub open spec fn parse_spec(s: Seq<char>) -> Option<Seq<char>> {
    match parse_parts_spec(s) {
        Some(p) => if chrono_parse_datetime(s, FORMAT_SERIALIZE_DATE_TIME@) is Some
            || chrono_parse_datetime(s, FORMAT_DASH_DATE_TIME@) is Some {
            Some(s)
        } else {
            Some(format_spec(p, FORMAT_SERIALIZE_DATE_TIME@))
        },
        None => None,
    }
}

/// The date and time a text stands for, in the first of the formats that reads it:
/// `%Y-%m-%dT%H:%M:%S`, `%Y-%m-%d %H:%M:%S`, `%d.%m.%Y` (at midnight), `%d-%m-%YT%H:%M:%S`, or
/// `dd mmmm yyyy` with a Russian month name (at midnight).
pub fn parse_parts(date: &str) -> (r: Option<DateParts>)
    ensures
        r == parse_parts_spec(date@),
        r matches Some(p) ==> valid_parts(p),
{
    if let Some(p) = parse_datetime(date, FORMAT_SERIALIZE_DATE_TIME) {
        Some(p)
    } else if let Some(p) = parse_datetime(date, FORMAT_SERIALIZE_DATE_TIME_WS) {
        Some(p)
    } else if let Some(d) = parse_date(date, FORMAT_DOT_DATE) {
        Some((d.0, d.1, d.2, 0, 0, 0, 0))
    } else if let Some(p) = parse_datetime(date, FORMAT_DASH_DATE_TIME) {
        Some(p)
    } else if let Some(d) = written_date(date) {
        if ymd_valid(d.0, d.1, d.2) {
            Some((d.0, d.1, d.2, 0, 0, 0, 0))
        } else {
            None
        }
    } else {
        None
    }
}

/// The local date and time now, or `None` when the clock reads before the epoch (where chrono's
/// `Local::now` panics) or beyond the dates whose local time is read.
pub fn now_parts() -> (r: Option<DateParts>)
    ensures
        r matches Some(p) ==> valid_parts(p),
{
    match unix_time_now() {
        Some((secs, nanos)) => {
            if secs > LOCAL_TIME_BOUND as u64 {
                None
            } else {
                Some(local_parts(secs as i64, nanos))
            }
        },
        None => None,
    }
}

impl Date {
    /// The format the kept text is written in: `%Y-%m-%dT%H:%M:%S`, or `%d-%m-%YT%H:%M:%S` for a
    /// date kept as it was read in that form.
    pub open spec fn kept_format(&self) -> Seq<char> {
        if chrono_parse_datetime(self.val@, FORMAT_SERIALIZE_DATE_TIME@) is Some {
            FORMAT_SERIALIZE_DATE_TIME@
        } else {
            FORMAT_DASH_DATE_TIME@
        }
    }

    /// The date and time the kept text stands for, when it is in one of the kept formats.
    pub open spec fn parts(&self) -> Option<DateParts> {
        chrono_parse_datetime(self.val@, self.kept_format())
    }

    /// The format a date is written in: `Serialize` writes it in the format it is kept in.
    pub open spec fn format_of(&self, f: DateFormat) -> Seq<char> {
        match f {
            DateFormat::Serialize => self.kept_format(),
            DateFormat::OnlyDate => FORMAT_DASH_DATE@,
            DateFormat::DotDate => FORMAT_DOT_DATE@,
        }
    }

    /// Reads the kept text.
    fn kept_parts(&self) -> (r: (Option<DateParts>, bool))
        ensures
            r.0 == self.parts(),
            r.1 == (chrono_parse_datetime(self.val@, FORMAT_SERIALIZE_DATE_TIME@) is Some),
            r.0 matches Some(p) ==> valid_parts(p),
    {
        match parse_datetime(self.val.as_str(), FORMAT_SERIALIZE_DATE_TIME) {
            Some(p) => (Some(p), true),
            None => (parse_datetime(self.val.as_str(), FORMAT_DASH_DATE_TIME), false),
        }
    }

    /// Reads a date written as `%Y-%m-%dT%H:%M:%S`, `%Y-%m-%d %H:%M:%S`, `%d.%m.%Y`,
    /// `%d-%m-%YT%H:%M:%S` or `dd mmmm yyyy`.
    pub fn parse(date: &str) -> (r: Result<Box<Date>, ()>)
        ensures
            match parse_spec(date@) {
                Some(v) => r matches Ok(d) && d.val@ == v,
                None => r is Err,
            },
    {
        match parse_parts(date) {
            Some(p) => {
                if parse_datetime(date, FORMAT_SERIALIZE_DATE_TIME).is_some() || parse_datetime(
                    date,
                    FORMAT_DASH_DATE_TIME,
                ).is_some() {
                    Ok(Box::new(Date { val: String::from_str(date) }))
                } else {
                    Ok(Box::new(Date { val: format_datetime(p, FORMAT_SERIALIZE_DATE_TIME) }))
                }
            },
            None => Err(()),
        }
    }

    /// The current local date and time; `None` when the clock reads before the epoch or beyond
    /// the dates chrono holds.
    pub fn now() -> (r: Option<Box<Date>>)
        ensures
            r matches Some(d) ==> exists|p: DateParts|
                valid_parts(p) && d.val@ == format_spec(p, FORMAT_SERIALIZE_DATE_TIME@),
    {
        match now_parts() {
            Some(p) => Some(Box::new(Date { val: format_datetime(p, FORMAT_SERIALIZE_DATE_TIME) })),
            None => None,
        }
    }

    /// Midnight of a day, when the day is one of the calendar.
    pub fn new(year: i32, month: u32, day: u32) -> (r: Option<Box<Date>>)
        ensures
            valid_date(year, month, day) <==> r is Some,
            r matches Some(d) ==> d.val@ == format_spec(
                (year, month, day, 0, 0, 0, 0),
                FORMAT_SERIALIZE_DATE_TIME@,
            ),
    {
        if ymd_valid(year, month, day) {
            Some(Box::new(Date { val: format_datetime((year, month, day, 0, 0, 0, 0), FORMAT_SERIALIZE_DATE_TIME) }))
        } else {
            None
        }
    }

    /// Writes the date in a format.
    pub fn write(&self, format: DateFormat) -> (s: String)
        requires
            self.parts() is Some,
        ensures
            s@ == format_spec(self.parts()->0, self.format_of(format)),
    {
        let (p, year_first) = self.kept_parts();
        let p = p.unwrap();
        match format {
            DateFormat::Serialize => if year_first {
                format_datetime(p, FORMAT_SERIALIZE_DATE_TIME)
            } else {
                format_datetime(p, FORMAT_DASH_DATE_TIME)
            },
            DateFormat::OnlyDate => format_datetime(p, FORMAT_DASH_DATE),
            DateFormat::DotDate => format_datetime(p, FORMAT_DOT_DATE),
        }
    }

    /// Writes the date in a format when its kept text is in the kept format; `None` when it is
    /// not (as when the text was set by hand).
    pub fn try_write(&self, format: DateFormat) -> (s: Option<String>)
        ensures
            match self.parts() {
                Some(p) => s matches Some(t) && t@ == format_spec(p, self.format_of(format)),
                None => s is None,
            },
    {
        match self.kept_parts().0 {
            Some(_) => Some(self.write(format)),
            None => None,
        }
    }

    /// The date as it is shown: with dots.
    pub fn to_string(&self) -> (s: String)
        requires
            self.parts() is Some,
        ensures
            s@ == format_spec(self.parts()->0, FORMAT_DOT_DATE@),
    {
        self.write(DateFormat::DotDate)
    }
}

/// The length of a period and what remains of it.
#[derive(Debug, Clone, Copy)]
pub struct DaysProgress {
    /// days between the start and the end date
    pub days: i64,
    /// days left from today
    pub days_left: i64,
    /// the remaining days in percent, for a progress bar (0-100)
    pub progress: i64,
}

impl Default for DaysProgress {
    fn default() -> (r: Self)
        ensures
            r.days == 0,
            r.days_left == 0,
            r.progress == 100,
    {
        DaysProgress { days: 0, days_left: 0, progress: 100 }
    }
}

/// Seconds in a day.
pub const ONE_DAY: i64 = 86400;

/// Timestamps of the dates a date can have are far within this bound.
pub const TIMESTAMP_BOUND: i64 = 10_000_000_000_000;

/// The number of days that a period from one timestamp to a later one touches: its whole days,
/// plus the day it ends in; zero when it does not go forward.
pub open spec fn days_between_spec(from_ts: int, to_ts: int) -> int {
    if to_ts - from_ts > 0 {
        (to_ts - from_ts) / (ONE_DAY as int) + 1
    } else {
        0
    }
}

/// The same date and time at 23:59 (second and nanosecond kept).
pub open spec fn at_end_of_day(p: DateParts) -> DateParts {
    (p.0, p.1, p.2, 23, 59, p.5, p.6)
}

impl DaysProgress {
    /// The number of days that a period from one timestamp to a later one touches: its whole
    /// days, plus the day it ends in; zero when it does not go forward.
    pub fn days_between(from_ts: i64, to_ts: i64) -> (r: i64)
        requires
            -TIMESTAMP_BOUND <= from_ts <= TIMESTAMP_BOUND,
            -TIMESTAMP_BOUND <= to_ts <= TIMESTAMP_BOUND,
        ensures
            r == days_between_spec(from_ts as int, to_ts as int),
    {
        let diff = to_ts - from_ts;
        if diff > 0 {
            diff / ONE_DAY + 1
        } else {
            0
        }
    }

    /// The days of the period from the date `start` to the date `end` (the days it touches), and
    /// the days left from `now` to the end day at 23:59; `None` when either date does not read.
    pub fn day_counts(start: &str, end: &str, now: DateParts) -> (r: Option<(i64, i64)>)
        requires
            valid_parts(now),
        ensures
            r is None <==> (parse_parts_spec(start@) is None || parse_parts_spec(end@) is None),
            r matches Some((d, l)) ==> {
                let ps = parse_parts_spec(start@).unwrap();
                let pe = parse_parts_spec(end@).unwrap();
                &&& d == days_between_spec(chrono_timestamp(ps) as int, chrono_timestamp(pe) as int)
                &&& l == days_between_spec(
                    chrono_timestamp(now) as int,
                    chrono_timestamp(at_end_of_day(pe)) as int,
                )
            },
    {
        let ps = match parse_parts(start) {
            Some(p) => p,
            None => return None,
        };
        let pe = match parse_parts(end) {
            Some(p) => p,
            None => return None,
        };
        let days = Self::days_between(timestamp_of(ps), timestamp_of(pe));
        let end_day = (pe.0, pe.1, pe.2, 23, 59, pe.5, pe.6);
        let left = Self::days_between(timestamp_of(now), timestamp_of(end_day));
        Some((days, left))
    }
}

} // verus!
