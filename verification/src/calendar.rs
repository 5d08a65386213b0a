//! Calendar dates and date-times as chrono holds them, with what the
//! tools read off them: validity, and the text that `to_string` gives.
use vstd::prelude::*;
use chrono::Datelike;
use chrono::Timelike;
use crate::decimal::{digit_char, zero_padded};

verus! {

#[verifier::external_type_specification]
#[verifier::external_body]
pub struct ExNaiveDate(chrono::NaiveDate);

#[verifier::external_type_specification]
#[verifier::external_body]
pub struct ExNaiveDateTime(chrono::NaiveDateTime);

/// Proleptic Gregorian leap years (year 0 is a leap year).
pub open spec fn is_leap_year(y: int) -> bool {
    y % 4 == 0 && (y % 100 != 0 || y % 400 == 0)
}

pub open spec fn days_in_month(y: int, m: int) -> int {
    if m == 2 {
        if is_leap_year(y) {
            29
        } else {
            28
        }
    } else if m == 4 || m == 6 || m == 9 || m == 11 {
        30
    } else {
        31
    }
}

/// A calendar day that chrono can hold: years -262143 to 262142.
pub open spec fn valid_date(y: int, m: int, d: int) -> bool {
    &&& -262143 <= y <= 262142
    &&& 1 <= m <= 12
    &&& 1 <= d <= days_in_month(y, m)
}

/// A time of day as chrono holds it: `frac` counts nanoseconds and reaches
/// past one second only during a leap second, which is shown as second 60.
pub open spec fn valid_time(h: int, mi: int, s: int, frac: int) -> bool {
    &&& 0 <= h < 24
    &&& 0 <= mi < 60
    &&& 0 <= s < 60
    &&& 0 <= frac < 2_000_000_000
    &&& frac >= 1_000_000_000 ==> s == 59
}

/// A valid calendar day, as a triple.
pub open spec fn valid_ymd(d: (int, int, int)) -> bool {
    valid_date(d.0, d.1, d.2)
}

/// A valid day and time of day, as a tuple of seven.
pub open spec fn valid_fields(t: (int, int, int, int, int, int, int)) -> bool {
    valid_date(t.0, t.1, t.2) && valid_time(t.3, t.4, t.5, t.6)
}

/// Two decimal digits of `n` in `0..100`.
pub open spec fn two_digits(n: int) -> Seq<char> {
    seq![digit_char(n / 10), digit_char(n % 10)]
}

/// The year as chrono writes it: four digits in `0..=9999`, else a sign
/// and at least four digits.
pub open spec fn year_text(y: int) -> Seq<char> {
    if 0 <= y <= 9999 {
        two_digits(y / 100) + two_digits(y % 100)
    } else if y < 0 {
        seq!['-'] + zero_padded((-y) as nat, 4)
    } else {
        seq!['+'] + zero_padded(y as nat, 4)
    }
}

/// `YYYY-MM-DD`.
pub open spec fn date_text(y: int, m: int, d: int) -> Seq<char> {
    year_text(y) + seq!['-'] + two_digits(m) + seq!['-'] + two_digits(d)
}

/// The fraction of a second: nothing when it is zero, else a dot and three,
/// six or nine digits, the fewest that show it exactly.
pub open spec fn fraction_text(nano: int) -> Seq<char> {
    if nano == 0 {
        Seq::empty()
    } else if nano % 1_000_000 == 0 {
        seq!['.'] + zero_padded((nano / 1_000_000) as nat, 3)
    } else if nano % 1_000 == 0 {
        seq!['.'] + zero_padded((nano / 1_000) as nat, 6)
    } else {
        seq!['.'] + zero_padded(nano as nat, 9)
    }
}

/// `HH:MM:SS` and the fraction, a leap second shown as second 60.
pub open spec fn time_text(h: int, mi: int, s: int, frac: int) -> Seq<char> {
    let sec = if frac >= 1_000_000_000 {
        s + 1
    } else {
        s
    };
    let nano = if frac >= 1_000_000_000 {
        frac - 1_000_000_000
    } else {
        frac
    };
    two_digits(h) + seq![':'] + two_digits(mi) + seq![':'] + two_digits(sec) + fraction_text(nano)
}

/// The text of a date and time: `YYYY-MM-DD HH:MM:SS[.fff]`.
pub open spec fn datetime_text(t: (int, int, int, int, int, int, int)) -> Seq<char> {
    date_text(t.0, t.1, t.2) + seq![' '] + time_text(t.3, t.4, t.5, t.6)
}

/// A calendar day.
pub struct Date {
    value: chrono::NaiveDate,
    year: i32,
    month: u32,
    day: u32,
}

impl Date {
    /// Year, month and day.
    pub closed spec fn ymd(self) -> (int, int, int) {
        (self.year as int, self.month as int, self.day as int)
    }

    #[verifier::type_invariant]
    spec fn wf(self) -> bool {
        valid_date(self.year as int, self.month as int, self.day as int)
    }
}

/// A calendar day with a time of day.
pub struct DateTime {
    value: chrono::NaiveDateTime,
    year: i32,
    month: u32,
    day: u32,
    hour: u32,
    minute: u32,
    second: u32,
    frac: u32,
}

impl DateTime {
    /// Year, month, day, hour, minute, second and nanoseconds.
    pub closed spec fn fields(self) -> (int, int, int, int, int, int, int) {
        (
            self.year as int,
            self.month as int,
            self.day as int,
            self.hour as int,
            self.minute as int,
            self.second as int,
            self.frac as int,
        )
    }

    #[verifier::type_invariant]
    spec fn wf(self) -> bool {
        &&& valid_date(self.year as int, self.month as int, self.day as int)
        &&& valid_time(self.hour as int, self.minute as int, self.second as int, self.frac as int)
    }
}

/// What `chrono::NaiveDate::parse_from_str(s, fmt)` finds: year, month and
/// day, or nothing where the text does not match the format.
pub uninterp spec fn parsed_date(s: Seq<char>, fmt: Seq<char>) -> Option<(int, int, int)>;

/// What `chrono::NaiveDateTime::parse_from_str(s, fmt)` finds: year, month,
/// day, hour, minute, second and nanoseconds, or nothing where the text does
/// not match the format.
pub uninterp spec fn parsed_datetime(s: Seq<char>, fmt: Seq<char>) -> Option<
    (int, int, int, int, int, int, int),
>;

/// Calls `chrono::NaiveDate::from_ymd_opt`, which gives a date exactly when
/// the year is within chrono's range, the month is 1 to 12 and the day
/// exists in that month of that (proleptic Gregorian) year.
#[verifier::external_body]
pub(crate) fn date_from_ymd(year: i32, month: u32, day: u32) -> (r: Option<Date>)
    ensures
        r is Some <==> valid_date(year as int, month as int, day as int),
        r matches Some(d) ==> d.ymd() == (year as int, month as int, day as int),
{
    match chrono::NaiveDate::from_ymd_opt(year, month, day) {
        Some(value) => Some(Date { value, year, month, day }),
        None => None,
    }
}

/// Calls `chrono::NaiveDate::parse_from_str`. The result is named by
/// `parsed_date`; what chrono accepts for a format is not restated here.
/// Every date chrono gives is a valid calendar day in its range.
#[verifier::external_body]
pub(crate) fn date_parse_from_str(s: &str, fmt: &str) -> (r: Option<Date>)
    ensures
        r is Some <==> parsed_date(s@, fmt@) is Some,
        r matches Some(d) ==> valid_ymd(d.ymd()) && parsed_date(s@, fmt@) == Some(d.ymd()),
{
    match chrono::NaiveDate::parse_from_str(s, fmt) {
        Ok(value) => Some(Date { value, year: value.year(), month: value.month(), day: value.day() }),
        Err(_) => None,
    }
}

/// Calls `chrono::NaiveDate::and_hms_opt`, which gives the date at that
/// time exactly when hour, minute and second are below 24, 60 and 60.
#[verifier::external_body]
pub(crate) fn date_and_hms(date: &Date, hour: u32, min: u32, sec: u32) -> (r: Option<DateTime>)
    ensures
        r is Some <==> (hour < 24 && min < 60 && sec < 60),
        r matches Some(t) ==> t.fields() == (
            date.ymd().0,
            date.ymd().1,
            date.ymd().2,
            hour as int,
            min as int,
            sec as int,
            0int,
        ),
{
    match date.value.and_hms_opt(hour, min, sec) {
        Some(value) => {
            let (year, month, day) = (date.year, date.month, date.day);
            Some(DateTime { value, year, month, day, hour, minute: min, second: sec, frac: 0 })
        },
        None => None,
    }
}

/// Calls `chrono::NaiveDateTime::parse_from_str`. The result is named by
/// `parsed_datetime`; what chrono accepts for a format is not restated
/// here. Every date-time chrono gives holds a valid day and time of day.
#[verifier::external_body]
pub(crate) fn datetime_parse_from_str(s: &str, fmt: &str) -> (r: Option<DateTime>)
    ensures
        r is Some <==> parsed_datetime(s@, fmt@) is Some,
        r matches Some(t) ==> valid_fields(t.fields()) && parsed_datetime(s@, fmt@) == Some(t.fields()),
{
    match chrono::NaiveDateTime::parse_from_str(s, fmt) {
        Ok(v) => {
            let (year, month, day) = (v.year(), v.month(), v.day());
            let (hour, minute, second, frac) = (v.hour(), v.minute(), v.second(), v.nanosecond());
            Some(DateTime { value: v, year, month, day, hour, minute, second, frac })
        },
        Err(_) => None,
    }
}

/// Calls `to_string` on a `chrono::NaiveDateTime`, whose `Display` writes
/// the date, a space and the time as `datetime_text` states.
#[verifier::external_body]
pub(crate) fn datetime_to_string(t: &DateTime) -> (r: String)
    ensures
        r@ == datetime_text(t.fields()),
{
    t.value.to_string()
}

/// The text of `date` at `hour` o'clock sharp.
pub fn hour_stamp(date: &Date, hour: u32) -> (r: String)
    requires
        hour < 24,
    ensures
        r@ == datetime_text((date.ymd().0, date.ymd().1, date.ymd().2, hour as int, 0, 0, 0)),
{
    let t = date_and_hms(date, hour, 0, 0).unwrap();
    datetime_to_string(&t)
}

/// The texts of the 24 full hours of `date`, from `00:00:00` to `23:00:00`.
pub fn hourly_stamps(date: &Date) -> (r: Vec<String>)
    ensures
        r.len() == 24,
        forall|h: int|
            0 <= h < 24 ==> #[trigger] r[h]@ == datetime_text(
                (date.ymd().0, date.ymd().1, date.ymd().2, h, 0, 0, 0),
            ),
{
    let mut out: Vec<String> = Vec::new();
    let mut h: u32 = 0;
    while h < 24
        invariant
            h <= 24,
            out.len() == h,
            forall|k: int|
                0 <= k < h ==> #[trigger] out[k]@ == datetime_text(
                    (date.ymd().0, date.ymd().1, date.ymd().2, k, 0, 0, 0),
                ),
        decreases 24 - h,
    {
        out.push(hour_stamp(date, h));
        h += 1;
    }
    out
}

/// Law: on one day, two different full hours have different texts, so the
/// hourly rows of a day never share a timestamp key.
pub proof fn lemma_hour_stamps_distinct(y: int, m: int, d: int, h1: int, h2: int)
    requires
        valid_date(y, m, d),
        0 <= h1 < 24,
        0 <= h2 < 24,
        h1 != h2,
    ensures
        datetime_text((y, m, d, h1, 0, 0, 0)) != datetime_text((y, m, d, h2, 0, 0, 0)),
{
    let p = date_text(y, m, d) + seq![' '];
    let t1 = datetime_text((y, m, d, h1, 0, 0, 0));
    let t2 = datetime_text((y, m, d, h2, 0, 0, 0));
    assert(t1 =~= p + two_digits(h1) + seq![':'] + two_digits(0) + seq![':'] + two_digits(0));
    assert(t2 =~= p + two_digits(h2) + seq![':'] + two_digits(0) + seq![':'] + two_digits(0));
    assert(t1[p.len() as int] == digit_char(h1 / 10));
    assert(t2[p.len() as int] == digit_char(h2 / 10));
    assert(t1[p.len() as int + 1] == digit_char(h1 % 10));
    assert(t2[p.len() as int + 1] == digit_char(h2 % 10));
    assert((h1 / 10 + 48) as char as int == h1 / 10 + 48);
    assert((h2 / 10 + 48) as char as int == h2 / 10 + 48);
    assert((h1 % 10 + 48) as char as int == h1 % 10 + 48);
    assert((h2 % 10 + 48) as char as int == h2 % 10 + 48);
    assert(h1 / 10 != h2 / 10 || h1 % 10 != h2 % 10);
}

} // verus!
