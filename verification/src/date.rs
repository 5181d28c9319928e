//! Calendar dates: the day a document is made on.

use vstd::prelude::*;
use vstd::string::*;
use chrono::Datelike;
use crate::text::{decimal_digits, push_decimal, push_zero_padded, zero_padded};

verus! {

/// A day of the calendar.
#[derive(Clone, Copy, Debug, PartialEq, Eq, Structural)]
pub struct CalendarDate {
    pub year: i32,
    pub month: u32,
    pub day: u32,
}

/// The day, in universal time, on which the given second since the start of
/// 1970 falls, where the calendar reaches that far.
pub uninterp spec fn calendar_date_of(seconds: i64) -> Option<CalendarDate>;

/// `chrono::DateTime::from_timestamp` gives the moment that lies the given
/// number of seconds after the start of 1970, universal time, or nothing
/// where that is beyond its calendar; `year`, `month` and `day` of
/// `chrono::Datelike` read the date of that moment, the month from 1 to 12
/// and the day from 1 to 31.
#[verifier::external_body]
fn utc_date(seconds: i64) -> (r: Option<CalendarDate>)
    ensures
        r == calendar_date_of(seconds),
        r matches Some(date) ==> 1 <= date.month <= 12 && 1 <= date.day <= 31,
{
    chrono::DateTime::from_timestamp(seconds, 0).map(
        |t| CalendarDate { year: t.year(), month: t.month(), day: t.day() },
    )
}

/// The numeral of `n`, with a minus sign where it is negative.
pub open spec fn signed_digits(n: int) -> Seq<char> {
    if n < 0 {
        seq!['-'] + decimal_digits((-n) as nat)
    } else {
        decimal_digits(n as nat)
    }
}

/// Day, month and the last two digits of the year, two digits each.
pub open spec fn stamp_text(date: CalendarDate) -> Seq<char> {
    zero_padded(decimal_digits(date.day as nat), 2) + zero_padded(
        decimal_digits(date.month as nat),
        2,
    ) + zero_padded(decimal_digits((date.year as int % 100) as nat), 2)
}

impl CalendarDate {
    /// The day, in universal time, of the given second since the start of
    /// 1970.
    pub fn from_timestamp(seconds: i64) -> (r: Option<CalendarDate>)
        ensures
            r == calendar_date_of(seconds),
            r matches Some(date) ==> 1 <= date.month <= 12 && 1 <= date.day <= 31,
    {
        utc_date(seconds)
    }

    /// Appends day, month and the last two digits of the year, two digits
    /// each, as file names carry them.
    pub fn push_stamp(&self, buf: &mut String)
        ensures
            final(buf)@ == old(buf)@ + stamp_text(*self),
    {
        let ghost before = buf@;
        push_zero_padded(buf, self.day as u128, 2);
        push_zero_padded(buf, self.month as u128, 2);
        let year = self.year as i64;
        let short: i64 = if year >= 0 {
            year % 100
        } else {
            (100 - (-year) % 100) % 100
        };
        assert(short == self.year as int % 100);
        push_zero_padded(buf, short as u128, 2);
        assert(buf@ =~= before + stamp_text(*self));
    }

    /// Appends the numeral of the year.
    pub fn push_year(&self, buf: &mut String)
        ensures
            final(buf)@ == old(buf)@ + signed_digits(self.year as int),
    {
        let ghost before = buf@;
        let year = self.year as i64;
        if year < 0 {
            buf.push('-');
            push_decimal(buf, (-year) as u128);
            assert(buf@ =~= before + (seq!['-'] + decimal_digits((-year) as nat)));
        } else {
            push_decimal(buf, year as u128);
        }
    }
}

} // verus!
