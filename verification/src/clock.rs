use vstd::prelude::*;
use vstd::string::StringExecFns;

verus! {

/// A point in time in UTC, held as its calendar fields.
#[derive(Debug, Clone, Copy, PartialEq, Eq, Structural)]
pub struct Timestamp {
    year: i32,
    month: u8,
    day: u8,
    hour: u8,
    minute: u8,
    second: u8,
    nanosecond: u32,
}

/// The calendar fields of a timestamp.
pub struct TimestampView {
    pub year: int,
    pub month: int,
    pub day: int,
    pub hour: int,
    pub minute: int,
    pub second: int,
    pub nanosecond: int,
}

impl View for Timestamp {
    type V = TimestampView;

    closed spec fn view(&self) -> TimestampView {
        TimestampView {
            year: self.year as int,
            month: self.month as int,
            day: self.day as int,
            hour: self.hour as int,
            minute: self.minute as int,
            second: self.second as int,
            nanosecond: self.nanosecond as int,
        }
    }
}

/// Whether `year` is a leap year of the proleptic Gregorian calendar.
pub open spec fn is_leap_year(year: int) -> bool {
    year % 4 == 0 && (year % 100 != 0 || year % 400 == 0)
}

/// The number of days in a month (1 to 12) of a year.
pub open spec fn days_in_month(year: int, month: int) -> int {
    if month == 2 {
        if is_leap_year(year) {
            29
        } else {
            28
        }
    } else if month == 4 || month == 6 || month == 9 || month == 11 {
        30
    } else {
        31
    }
}

/// The fields name a real date and time of day, with a year that the `time`
/// crate represents (-9999 to 9999).
pub open spec fn valid_time(v: TimestampView) -> bool {
    &&& -9999 <= v.year <= 9999
    &&& 1 <= v.month <= 12
    &&& 1 <= v.day <= days_in_month(v.year, v.month)
    &&& 0 <= v.hour < 24
    &&& 0 <= v.minute < 60
    &&& 0 <= v.second < 60
    &&& 0 <= v.nanosecond < 1_000_000_000
}

impl Timestamp {
    /// The type's invariant: the fields name a real date and time.
    #[verifier::type_invariant]
    pub open spec fn valid(self) -> bool {
        valid_time(self@)
    }

    /// The timestamp with these fields, or `None` when they name no real
    /// date and time.
    pub fn new(year: i32, month: u8, day: u8, hour: u8, minute: u8, second: u8, nanosecond: u32)
        -> (r: Option<Timestamp>)
        ensures
            match r {
                Some(t) => t@ == (TimestampView {
                    year: year as int,
                    month: month as int,
                    day: day as int,
                    hour: hour as int,
                    minute: minute as int,
                    second: second as int,
                    nanosecond: nanosecond as int,
                }),
                None => !valid_time(
                    TimestampView {
                        year: year as int,
                        month: month as int,
                        day: day as int,
                        hour: hour as int,
                        minute: minute as int,
                        second: second as int,
                        nanosecond: nanosecond as int,
                    },
                ),
            },
    {
        if year < -9999 || year > 9999 || month < 1 || month > 12 || day < 1 || day > month_length(
            year,
            month,
        ) || hour >= 24 || minute >= 60 || second >= 60 || nanosecond >= 1_000_000_000 {
            return None;
        }
        Some(Timestamp { year, month, day, hour, minute, second, nanosecond })
    }

    /// 1970-01-01 00:00:00 UTC.
    pub fn unix_epoch() -> (r: Timestamp)
        ensures
            r@ == (TimestampView {
                year: 1970,
                month: 1,
                day: 1,
                hour: 0,
                minute: 0,
                second: 0,
                nanosecond: 0,
            }),
    {
        Timestamp { year: 1970, month: 1, day: 1, hour: 0, minute: 0, second: 0, nanosecond: 0 }
    }

    /// The year.
    pub fn year(&self) -> (r: i32)
        ensures
            r == self@.year,
    {
        self.year
    }

    /// The month, from 1 to 12.
    pub fn month(&self) -> (r: u8)
        ensures
            r == self@.month,
    {
        self.month
    }

    /// The day of the month, from 1.
    pub fn day(&self) -> (r: u8)
        ensures
            r == self@.day,
    {
        self.day
    }

    /// The hour, from 0 to 23.
    pub fn hour(&self) -> (r: u8)
        ensures
            r == self@.hour,
    {
        self.hour
    }

    /// The minute, from 0 to 59.
    pub fn minute(&self) -> (r: u8)
        ensures
            r == self@.minute,
    {
        self.minute
    }

    /// The second, from 0 to 59.
    pub fn second(&self) -> (r: u8)
        ensures
            r == self@.second,
    {
        self.second
    }

    /// The nanoseconds within the second.
    pub fn nanosecond(&self) -> (r: u32)
        ensures
            r == self@.nanosecond,
    {
        self.nanosecond
    }
}

/// The number of days in a month (1 to 12) of a year.
fn month_length(year: i32, month: u8) -> (r: u8)
    requires
        -9999 <= year <= 9999,
        1 <= month <= 12,
    ensures
        r == days_in_month(year as int, month as int),
{
    if month == 2 {
        let a: u32 = if year < 0 {
            (-year) as u32
        } else {
            year as u32
        };
        assert(year % 4 == 0 <==> a % 4 == 0) by (nonlinear_arith)
            requires
                a == if year < 0 { -year } else { year as int },
        {}
        assert(year % 100 == 0 <==> a % 100 == 0) by (nonlinear_arith)
            requires
                a == if year < 0 { -year } else { year as int },
        {}
        assert(year % 400 == 0 <==> a % 400 == 0) by (nonlinear_arith)
            requires
                a == if year < 0 { -year } else { year as int },
        {}
        if a % 4 == 0 && (a % 100 != 0 || a % 400 == 0) {
            29
        } else {
            28
        }
    } else if month == 4 || month == 6 || month == 9 || month == 11 {
        30
    } else {
        31
    }
}

/// The decimal digit of `d` (0 to 9).
pub open spec fn digit(d: int) -> char {
    ('0' as int + d) as char
}

/// `n` (0 to 99) in two digits, padded with zeros.
pub open spec fn two_digits(n: int) -> Seq<char> {
    seq![digit(n / 10), digit(n % 10)]
}

/// `n` (0 to 9999) in four digits, padded with zeros.
pub open spec fn four_digits(n: int) -> Seq<char> {
    seq![digit(n / 1000), digit((n / 100) % 10), digit((n / 10) % 10), digit(n % 10)]
}

/// A year as `[year]` lays it out: four digits, led by `-` when negative.
pub open spec fn year_text(year: int) -> Seq<char> {
    if year < 0 {
        seq!['-'] + four_digits(-year)
    } else {
        four_digits(year)
    }
}

/// `YYYY-MM-DD HH:MM:SS`: the timestamp at the start of a rendered line.
pub open spec fn line_stamp_text(v: TimestampView) -> Seq<char> {
    year_text(v.year) + seq!['-'] + two_digits(v.month) + seq!['-'] + two_digits(v.day) + seq![' ']
        + two_digits(v.hour) + seq![':'] + two_digits(v.minute) + seq![':'] + two_digits(v.second)
}

/// `YYYY-MM-DD_HH-MM-SS`: the timestamp in the name of a session file.
pub open spec fn file_stamp_text(v: TimestampView) -> Seq<char> {
    year_text(v.year) + seq!['-'] + two_digits(v.month) + seq!['-'] + two_digits(v.day) + seq!['_']
        + two_digits(v.hour) + seq!['-'] + two_digits(v.minute) + seq!['-'] + two_digits(v.second)
}

/// Layout of the timestamp at the start of a rendered line.
pub const LINE_TIMESTAMP_PATTERN: &'static str = "[year]-[month]-[day] [hour]:[minute]:[second]";

/// Layout of the timestamp in the name of a session file.
pub const FILE_TIMESTAMP_PATTERN: &'static str = "[year]-[month]-[day]_[hour]-[minute]-[second]";

/// The text `OffsetDateTime::format` gives for the UTC time with these
/// fields under the version-1 format description `pattern`, or `None` when
/// the pattern is refused or the time cannot be laid out by it. Formatting
/// reads nothing but the time and the description.
pub uninterp spec fn formatted_utc_time(
    year: int,
    month: int,
    day: int,
    hour: int,
    minute: int,
    second: int,
    nanosecond: int,
    pattern: Seq<char>,
) -> Option<Seq<char>>;

/// The view of an optional text.
pub open spec fn optional_text(t: Option<String>) -> Option<Seq<char>> {
    match t {
        Some(s) => Some(s@),
        None => None,
    }
}

/// Calls `OffsetDateTime::format` on the UTC time with the fields of `ts`,
/// with the description that `time::format_description::parse_owned::<1>`
/// reads from `pattern` (the syntax of the `format_description!` macro). The
/// parse and the construction of the date and time only convert the
/// arguments into the form `format` takes.
///
/// The contract names the result, and states it for the two patterns of this
/// library: each of `[year]`, `[month]`, `[day]`, `[hour]`, `[minute]` and
/// `[second]` is written with its default modifiers (zero padding, the year
/// in four digits led by `-` when negative), and the other characters are
/// copied. What other patterns give is not stated.
#[verifier::external_body]
fn format_utc_time(ts: &Timestamp, pattern: &str) -> (r: Option<String>)
    requires
        valid_time(ts@),
    ensures
        optional_text(r) == formatted_utc_time(
            ts@.year,
            ts@.month,
            ts@.day,
            ts@.hour,
            ts@.minute,
            ts@.second,
            ts@.nanosecond,
            pattern@,
        ),
        pattern@ == LINE_TIMESTAMP_PATTERN@ ==> optional_text(r) == Some(line_stamp_text(ts@)),
        pattern@ == FILE_TIMESTAMP_PATTERN@ ==> optional_text(r) == Some(file_stamp_text(ts@)),
{
    let items = time::format_description::parse_owned::<1>(pattern).ok()?;
    let month = time::Month::try_from(ts.month).ok()?;
    let date = time::Date::from_calendar_date(ts.year, month, ts.day).ok()?;
    let time = time::Time::from_hms_nano(ts.hour, ts.minute, ts.second, ts.nanosecond).ok()?;
    time::PrimitiveDateTime::new(date, time).assume_utc().format(&items).ok()
}

/// The text of `ts` laid out by `pattern`, or `None` when the pattern is not a
/// valid format description or cannot be applied to `ts`.
pub fn timestamp_text(ts: &Timestamp, pattern: &str) -> (r: Option<String>)
    ensures
        optional_text(r) == formatted_utc_time(
            ts@.year,
            ts@.month,
            ts@.day,
            ts@.hour,
            ts@.minute,
            ts@.second,
            ts@.nanosecond,
            pattern@,
        ),
        pattern@ == LINE_TIMESTAMP_PATTERN@ ==> optional_text(r) == Some(line_stamp_text(ts@)),
        pattern@ == FILE_TIMESTAMP_PATTERN@ ==> optional_text(r) == Some(file_stamp_text(ts@)),
{
    proof {
        use_type_invariant(ts);
    }
    format_utc_time(ts, pattern)
}

/// The timestamp of a rendered line: `YYYY-MM-DD HH:MM:SS`.
pub fn line_timestamp(ts: &Timestamp) -> (r: String)
    ensures
        r@ == line_stamp_text(ts@),
{
    match timestamp_text(ts, LINE_TIMESTAMP_PATTERN) {
        Some(text) => text,
        None => vstd::pervasive::unreached(),
    }
}

/// The timestamp of a session file name: `YYYY-MM-DD_HH-MM-SS`.
pub fn file_timestamp(ts: &Timestamp) -> (r: String)
    ensures
        r@ == file_stamp_text(ts@),
{
    match timestamp_text(ts, FILE_TIMESTAMP_PATTERN) {
        Some(text) => text,
        None => vstd::pervasive::unreached(),
    }
}

} // verus!
