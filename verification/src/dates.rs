//! Calendar dates as plain values.
//!
//! The schedule sources hand out due dates; the registry formats them as
//! `YYYY-MM-DD`.  A date is modelled by its year, month and day so that
//! validity, ordering and formatting are all stated directly.

use vstd::prelude::*;

use crate::text::{four_digits, push_four_digits, push_two_digits, two_digits};

verus! {

/// A calendar date in the proleptic Gregorian calendar.
#[derive(Clone, Copy, PartialEq, Eq, Structural, Debug)]
pub struct Date {
    pub year: u32,
    pub month: u32,
    pub day: u32,
}

/// Whether `year` is a leap year.
pub open spec fn spec_is_leap_year(year: int) -> bool {
    (year % 4 == 0 && year % 100 != 0) || year % 400 == 0
}

/// Number of days of month `month` in year `year`.
pub open spec fn spec_days_in_month(year: int, month: int) -> int {
    if month == 2 {
        if spec_is_leap_year(year) {
            29
        } else {
            28
        }
    } else if month == 4 || month == 6 || month == 9 || month == 11 {
        30
    } else {
        31
    }
}

impl Date {
    /// A proper calendar date whose year fits the `YYYY` rendering.
    pub open spec fn wf(self) -> bool {
        &&& 1 <= self.year <= 9999
        &&& 1 <= self.month <= 12
        &&& 1 <= self.day <= spec_days_in_month(self.year as int, self.month as int)
    }

    /// Chronological order, stated on the fields.
    pub open spec fn spec_le(self, other: Date) -> bool {
        if self.year != other.year {
            self.year < other.year
        } else if self.month != other.month {
            self.month < other.month
        } else {
            self.day <= other.day
        }
    }

    pub open spec fn spec_lt(self, other: Date) -> bool {
        self.spec_le(other) && self != other
    }

    /// Builds a date after checking calendar validity.
    pub fn new(year: u32, month: u32, day: u32) -> (r: Option<Date>)
        ensures
            r is Some <==> (Date { year, month, day }).wf(),
            r is Some ==> r->Some_0 == (Date { year, month, day }),
    {
        let candidate = Date { year, month, day };
        if candidate.is_wf() {
            Some(candidate)
        } else {
            None
        }
    }

    /// Runtime check matching [`Date::wf`].
    pub fn is_wf(&self) -> (r: bool)
        ensures
            r == self.wf(),
    {
        1 <= self.year && self.year <= 9999 && 1 <= self.month && self.month <= 12
            && 1 <= self.day && self.day <= days_in_month(self.year, self.month)
    }

    /// Chronological comparison: `self` on or before `other`.
    pub fn le(&self, other: &Date) -> (r: bool)
        ensures
            r == self.spec_le(*other),
    {
        if self.year != other.year {
            self.year < other.year
        } else if self.month != other.month {
            self.month < other.month
        } else {
            self.day <= other.day
        }
    }

    /// Strict chronological comparison.
    pub fn lt(&self, other: &Date) -> (r: bool)
        ensures
            r == self.spec_lt(*other),
    {
        self.le(other) && !(self.year == other.year && self.month == other.month
            && self.day == other.day)
    }
}

/// Runtime counterpart of [`spec_days_in_month`].
pub fn days_in_month(year: u32, month: u32) -> (r: u32)
    ensures
        r == spec_days_in_month(year as int, month as int),
{
    if month == 2 {
        if (year % 4 == 0 && year % 100 != 0) || year % 400 == 0 {
            29
        } else {
            28
        }
    } else if month == 4 || month == 6 || month == 9 || month == 11 {
        30
    } else {
        31
    }
}

/// A date rendered as `YYYY-MM-DD`, zero padded.
pub open spec fn spec_format_ymd(d: Date) -> Seq<char> {
    four_digits(d.year as int) + seq!['-'] + two_digits(d.month as int) + seq!['-'] + two_digits(
        d.day as int,
    )
}

impl Date {
    /// Renders the date as `YYYY-MM-DD`, the form the state payload carries.
    pub fn format_ymd(&self) -> (r: String)
        requires
            self.wf(),
        ensures
            r@ == spec_format_ymd(*self),
    {
        let mut out = String::new();
        push_four_digits(&mut out, self.year);
        out.push('-');
        push_two_digits(&mut out, self.month);
        out.push('-');
        push_two_digits(&mut out, self.day);
        assert(out@ =~= spec_format_ymd(*self));
        out
    }
}

/// The year a bare day/month pair resolves to: next year when the pair,
/// read in the current year, has already passed (day strictly before today's
/// day and month not after the current month), else the current year.  A pair
/// equal to today's day and month stays in the current year.
pub open spec fn spec_inferred_year(day: int, month: int, today: Date) -> int {
    if day < today.day && month <= today.month {
        today.year + 1
    } else {
        today.year as int
    }
}

/// Resolves a bare day/month pair against a given current date.  `None` when
/// the resolved triple is no proper calendar date (a day past the end of the
/// month, or a year outside the `YYYY` range).
pub fn infer_date(day: u32, month: u32, today: &Date) -> (r: Option<Date>)
    requires
        today.wf(),
    ensures
        ({
            let candidate = Date {
                year: spec_inferred_year(day as int, month as int, *today) as u32,
                month,
                day,
            };
            &&& r is Some <==> candidate.wf()
            &&& r is Some ==> r->Some_0 == candidate
        }),
{
    let year: u32 = if day < today.day && month <= today.month {
        today.year + 1
    } else {
        today.year
    };
    Date::new(year, month, day)
}

/// Whether `c` is a decimal digit.
pub open spec fn spec_is_digit(c: char) -> bool {
    '0' <= c && c <= '9'
}

/// The value of a decimal digit character.
pub open spec fn spec_digit_val(c: char) -> int {
    c as int - 48
}

/// Parses the legacy schedule source's `DD/MM` rendering of a day/month
/// pair: exactly two digits, a slash, and two digits.
pub fn parse_day_month(s: &str) -> (r: Option<(u32, u32)>)
    ensures
        r is Some <==> (s@.len() == 5 && spec_is_digit(s@[0]) && spec_is_digit(s@[1]) && s@[2]
            == '/' && spec_is_digit(s@[3]) && spec_is_digit(s@[4])),
        r is Some ==> r->Some_0.0 == 10 * spec_digit_val(s@[0]) + spec_digit_val(s@[1]),
        r is Some ==> r->Some_0.1 == 10 * spec_digit_val(s@[3]) + spec_digit_val(s@[4]),
{
    if s.unicode_len() != 5 {
        return None;
    }
    let d0 = s.get_char(0);
    let d1 = s.get_char(1);
    let sep = s.get_char(2);
    let m0 = s.get_char(3);
    let m1 = s.get_char(4);
    if !('0' <= d0 && d0 <= '9' && '0' <= d1 && d1 <= '9' && sep == '/' && '0' <= m0 && m0 <= '9'
        && '0' <= m1 && m1 <= '9') {
        return None;
    }
    let day: u32 = 10 * (d0 as u32 - 48) + (d1 as u32 - 48);
    let month: u32 = 10 * (m0 as u32 - 48) + (m1 as u32 - 48);
    Some((day, month))
}

/// Relies on `chrono::Local::now` and the `chrono::Datelike` accessors: the
/// current civil date in the local time zone; chrono documents the month as
/// ranging over 1 to 12 and the day over 1 to 31.
#[verifier::external_body]
fn local_today_ymd() -> (r: (i64, u32, u32))
    ensures
        1 <= r.1 <= 12,
        1 <= r.2 <= 31,
{
    let now = chrono::Local::now().date_naive();
    (
        chrono::Datelike::year(&now) as i64,
        chrono::Datelike::month(&now),
        chrono::Datelike::day(&now),
    )
}

/// Resolves a bare day/month pair from the legacy schedule source against
/// today's date.  Whatever the clock returns, a `Some` result is a proper
/// calendar date carrying the given day and month, with the year inferred
/// from some well-formed current date.
pub fn resolve_day_month(day: u32, month: u32) -> (r: Option<Date>)
    ensures
        r is Some ==> r->Some_0.wf(),
        r is Some ==> r->Some_0.day == day && r->Some_0.month == month,
        r is Some ==> exists|today: Date|
            today.wf() && r->Some_0.year == spec_inferred_year(day as int, month as int, today),
{
    let (y, m, d) = local_today_ymd();
    if y < 1 || y > 9999 {
        return None;
    }
    match Date::new(y as u32, m, d) {
        Some(today) => infer_date(day, month, &today),
        None => None,
    }
}

/// Law: date inference keeps a pair equal to today's day and month in the
/// current year; a pair strictly before today's day whose month is not after
/// the current month rolls to the next year; every other pair stays in the
/// current year.
pub proof fn lemma_year_inference(day: int, month: int, today: Date)
    requires
        today.wf(),
        1 <= month <= 12,
        1 <= day <= 31,
    ensures
        day == today.day && month == today.month ==> spec_inferred_year(day, month, today)
            == today.year,
        day < today.day && month <= today.month ==> spec_inferred_year(day, month, today)
            == today.year + 1,
        !(day < today.day && month <= today.month) ==> spec_inferred_year(day, month, today)
            == today.year,
{
}

/// The order is total: of two well-formed dates one is on or before the other,
/// and mutual `spec_le` means equality.
pub proof fn lemma_date_order_total(a: Date, b: Date)
    ensures
        a.spec_le(b) || b.spec_le(a),
        a.spec_le(b) && b.spec_le(a) ==> a == b,
{
}

} // verus!
