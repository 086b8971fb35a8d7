//! The clock's texts: the time of day, the am/pm suffix, the year, and the
//! day with the month's abbreviation. The local time itself is chrono's.
use chrono::{Datelike, Timelike};
use vstd::prelude::*;

verus! {

/// Whether hours run to 23 or to 12.
#[derive(Clone, Copy, Debug, PartialEq, Eq, Structural)]
pub enum HourFormat {
    H24,
    H12,
}

/// Which fields the time of day shows.
#[derive(Clone, Copy, Debug, PartialEq, Eq, Structural)]
pub enum TimeFormat {
    HhMmSs,
    HhMm,
    MmSs,
    IsoTime,
}

impl HourFormat {
    /// The other hour format.
    pub fn toggled(self) -> (r: HourFormat)
        ensures
            r == (if self == HourFormat::H24 {
                HourFormat::H12
            } else {
                HourFormat::H24
            }),
    {
        match self {
            HourFormat::H24 => HourFormat::H12,
            HourFormat::H12 => HourFormat::H24,
        }
    }
}

impl TimeFormat {
    /// The next format in the cycle HhMmSs, HhMm, MmSs, IsoTime, HhMmSs.
    pub fn next(self) -> (r: TimeFormat)
        ensures
            r == match self {
                TimeFormat::HhMmSs => TimeFormat::HhMm,
                TimeFormat::HhMm => TimeFormat::MmSs,
                TimeFormat::MmSs => TimeFormat::IsoTime,
                TimeFormat::IsoTime => TimeFormat::HhMmSs,
            },
    {
        match self {
            TimeFormat::HhMmSs => TimeFormat::HhMm,
            TimeFormat::HhMm => TimeFormat::MmSs,
            TimeFormat::MmSs => TimeFormat::IsoTime,
            TimeFormat::IsoTime => TimeFormat::HhMmSs,
        }
    }
}

/// A local date and time, field by field.
#[derive(Clone, Copy, Debug, PartialEq, Eq, Structural)]
pub struct LocalTime {
    pub year: i32,
    pub month: u32,
    pub day: u32,
    pub hour: u32,
    pub minute: u32,
    pub second: u32,
}

impl LocalTime {
    /// Every field lies in its calendar range.
    pub open spec fn wf(self) -> bool {
        &&& 1 <= self.month <= 12
        &&& 1 <= self.day <= 31
        &&& self.hour < 24
        &&& self.minute < 60
        &&& self.second < 60
    }
}

/// Relies on `chrono::Local::now` and the `Datelike` / `Timelike` getters of
/// the result, whose documented ranges are: month 1 to 12, day 1 to 31,
/// hour 0 to 23, minute and second 0 to 59.
#[verifier::external_body]
fn local_now() -> (r: LocalTime)
    ensures
        r.wf(),
{
    let now = chrono::Local::now();
    LocalTime {
        year: now.year(),
        month: now.month(),
        day: now.day(),
        hour: now.hour(),
        minute: now.minute(),
        second: now.second(),
    }
}

/// The decimal digit for `d`.
pub open spec fn digit(d: nat) -> char {
    if d == 0 {
        '0'
    } else if d == 1 {
        '1'
    } else if d == 2 {
        '2'
    } else if d == 3 {
        '3'
    } else if d == 4 {
        '4'
    } else if d == 5 {
        '5'
    } else if d == 6 {
        '6'
    } else if d == 7 {
        '7'
    } else if d == 8 {
        '8'
    } else {
        '9'
    }
}

/// The decimal numeral of `n`, without leading zeros.
pub open spec fn decimal(n: nat) -> Seq<char>
    decreases n,
{
    if n < 10 {
        seq![digit(n)]
    } else {
        decimal(n / 10).push(digit(n % 10))
    }
}

/// `n` written with two digits.
pub open spec fn two_digit(n: nat) -> Seq<char> {
    seq![digit(n / 10), digit(n % 10)]
}

/// The hour that the clock shows: on a 12-hour dial, 0 and 12 both read 12.
pub open spec fn shown_hour(hour: nat, format: HourFormat) -> nat {
    match format {
        HourFormat::H24 => hour,
        HourFormat::H12 => if hour % 12 == 0 {
            12
        } else {
            hour % 12
        },
    }
}

/// The time of day as the clock writes it.
pub open spec fn clock_text_of(
    hour: nat,
    minute: nat,
    second: nat,
    hour_format: HourFormat,
    time_format: TimeFormat,
) -> Seq<char> {
    let h = two_digit(shown_hour(hour, hour_format));
    match time_format {
        TimeFormat::HhMm => h + seq![':'] + two_digit(minute),
        TimeFormat::MmSs => two_digit(minute) + seq![':'] + two_digit(second),
        _ => h + seq![':'] + two_digit(minute) + seq![':'] + two_digit(second),
    }
}

/// The three-letter name of a month; 12 and anything out of range read DEC.
pub open spec fn month_abbrev(month: nat) -> Seq<char> {
    if month == 1 {
        "JAN"@
    } else if month == 2 {
        "FEB"@
    } else if month == 3 {
        "MAR"@
    } else if month == 4 {
        "APR"@
    } else if month == 5 {
        "MAY"@
    } else if month == 6 {
        "JUN"@
    } else if month == 7 {
        "JUL"@
    } else if month == 8 {
        "AUG"@
    } else if month == 9 {
        "SEP"@
    } else if month == 10 {
        "OCT"@
    } else if month == 11 {
        "NOV"@
    } else {
        "DEC"@
    }
}

/// The year as a signed decimal numeral.
pub open spec fn year_text_of(year: int) -> Seq<char> {
    if year < 0 {
        seq!['-'] + decimal((-year) as nat)
    } else {
        decimal(year as nat)
    }
}

/// The suffix that a 12-hour clock shows after the time.
pub open spec fn meridiem_of(hour: nat, format: HourFormat) -> Option<Seq<char>> {
    match format {
        HourFormat::H24 => None,
        HourFormat::H12 => Some(if hour >= 12 { "PM"@ } else { "AM"@ }),
    }
}

fn digit_text(d: u32) -> (r: String)
    requires
        d < 10,
    ensures
        r@ == seq![digit(d as nat)],
{
    let s = if d == 0 {
        "0"
    } else if d == 1 {
        "1"
    } else if d == 2 {
        "2"
    } else if d == 3 {
        "3"
    } else if d == 4 {
        "4"
    } else if d == 5 {
        "5"
    } else if d == 6 {
        "6"
    } else if d == 7 {
        "7"
    } else if d == 8 {
        "8"
    } else {
        "9"
    };
    proof {
        reveal_strlit("0");
        reveal_strlit("1");
        reveal_strlit("2");
        reveal_strlit("3");
        reveal_strlit("4");
        reveal_strlit("5");
        reveal_strlit("6");
        reveal_strlit("7");
        reveal_strlit("8");
        reveal_strlit("9");
    }
    assert(s@ =~= seq![digit(d as nat)]);
    String::from_str(s)
}

/// The decimal numeral of `n`.
pub fn decimal_text(n: u32) -> (r: String)
    ensures
        r@ == decimal(n as nat),
    decreases n,
{
    if n < 10 {
        digit_text(n)
    } else {
        let mut s = decimal_text(n / 10);
        let last = digit_text(n % 10);
        s.append(last.as_str());
        assert(s@ =~= decimal(n as nat));
        s
    }
}

/// `n` written with two digits.
pub fn two_digit_text(n: u32) -> (r: String)
    requires
        n < 100,
    ensures
        r@ == two_digit(n as nat),
{
    let mut s = digit_text(n / 10);
    let low = digit_text(n % 10);
    s.append(low.as_str());
    assert(s@ =~= two_digit(n as nat));
    s
}

/// The hour that the clock shows.
pub fn shown_hour_value(hour: u32, format: HourFormat) -> (r: u32)
    ensures
        r == shown_hour(hour as nat, format),
{
    match format {
        HourFormat::H24 => hour,
        HourFormat::H12 => if hour % 12 == 0 {
            12
        } else {
            hour % 12
        },
    }
}

/// The time of day as the clock writes it.
pub fn clock_text(hour: u32, minute: u32, second: u32, hour_format: HourFormat, time_format: TimeFormat) -> (r: String)
    requires
        hour < 24,
        minute < 60,
        second < 60,
    ensures
        r@ == clock_text_of(hour as nat, minute as nat, second as nat, hour_format, time_format),
{
    let h = two_digit_text(shown_hour_value(hour, hour_format));
    let m = two_digit_text(minute);
    let s = two_digit_text(second);
    let colon = ":";
    proof {
        reveal_strlit(":");
    }
    match time_format {
        TimeFormat::HhMm => {
            let mut out = h;
            out.append(colon);
            out.append(m.as_str());
            out
        },
        TimeFormat::MmSs => {
            let mut out = m;
            out.append(colon);
            out.append(s.as_str());
            out
        },
        _ => {
            let mut out = h;
            out.append(colon);
            out.append(m.as_str());
            out.append(colon);
            out.append(s.as_str());
            out
        },
    }
}

/// The suffix that a 12-hour clock shows after the time.
pub fn meridiem(hour: u32, format: HourFormat) -> (r: Option<String>)
    ensures
        r.deep_view() == meridiem_of(hour as nat, format),
{
    match format {
        HourFormat::H24 => None,
        HourFormat::H12 => Some(String::from_str(if hour >= 12 { "PM" } else { "AM" })),
    }
}

/// The year as a signed decimal numeral.
pub fn year_text(year: i32) -> (r: String)
    ensures
        r@ == year_text_of(year as int),
{
    if year < 0 {
        let magnitude: u32 = (-(year as i64)) as u32;
        let mut s = String::from_str("-");
        proof {
            reveal_strlit("-");
        }
        let digits = decimal_text(magnitude);
        s.append(digits.as_str());
        s
    } else {
        decimal_text(year as u32)
    }
}

/// The day, with two digits, followed by the month's abbreviation.
pub fn day_month_text(day: u32, month: u32) -> (r: String)
    requires
        day < 100,
    ensures
        r@ == two_digit(day as nat) + month_abbrev(month as nat),
{
    let mut s = two_digit_text(day);
    let name = if month == 1 {
        "JAN"
    } else if month == 2 {
        "FEB"
    } else if month == 3 {
        "MAR"
    } else if month == 4 {
        "APR"
    } else if month == 5 {
        "MAY"
    } else if month == 6 {
        "JUN"
    } else if month == 7 {
        "JUL"
    } else if month == 8 {
        "AUG"
    } else if month == 9 {
        "SEP"
    } else if month == 10 {
        "OCT"
    } else if month == 11 {
        "NOV"
    } else {
        "DEC"
    };
    s.append(name);
    s
}

/// The current local time of day as the clock writes it.
pub fn format_time(hour_format: HourFormat, time_format: TimeFormat) -> (r: String)
    ensures
        exists|t: LocalTime|
            t.wf() && r@ == clock_text_of(
                t.hour as nat,
                t.minute as nat,
                t.second as nat,
                hour_format,
                time_format,
            ),
{
    let now = local_now();
    clock_text(now.hour, now.minute, now.second, hour_format, time_format)
}

/// The suffix for the current local hour: none on a 24-hour clock.
pub fn am_pm_suffix(hour_format: HourFormat) -> (r: Option<String>)
    ensures
        exists|t: LocalTime| t.wf() && r.deep_view() == meridiem_of(t.hour as nat, hour_format),
        hour_format == HourFormat::H24 ==> r is None,
{
    let now = local_now();
    meridiem(now.hour, hour_format)
}

/// The current local year.
pub fn format_year() -> (r: String)
    ensures
        exists|t: LocalTime| t.wf() && r@ == year_text_of(t.year as int),
{
    let now = local_now();
    year_text(now.year)
}

/// The current local day and month, as in `07MAR`.
pub fn format_day_month() -> (r: String)
    ensures
        exists|t: LocalTime| t.wf() && r@ == two_digit(t.day as nat) + month_abbrev(t.month as nat),
{
    let now = local_now();
    day_month_text(now.day, now.month)
}

} // verus!
