//! A plain calendar date-time: the value a block timestamp resolves to, and
//! the single place where its two renderings (nanosecond-precision display,
//! digit-only key anchors) are defined.

use vstd::prelude::*;
use vstd::string::StringExecFns;

use crate::digits::{
    append_padded, dec_digits, lemma_pow10_8, pow10,
};

verus! {

/// Gregorian leap-year rule.
pub open spec fn is_leap_year(y: int) -> bool {
    y % 4 == 0 && (y % 100 != 0 || y % 400 == 0)
}

/// Number of days in month `m` of year `y`.
pub open spec fn days_in_month_spec(y: int, m: int) -> int {
    if m == 2 {
        if is_leap_year(y) {
            29
        } else {
            28
        }
    } else if m == 4 || m == 6 || m == 9 || m == 11 {
        30
    } else {
        31
    }
}

/// The days of month `m` of year `y`, as the calendar has them.
pub fn days_in_month(y: u32, m: u32) -> (r: u32)
    requires
        1 <= m <= 12,
    ensures
        r as int == days_in_month_spec(y as int, m as int),
{
    if m == 2 {
        if y % 4 == 0 && (y % 100 != 0 || y % 400 == 0) {
            29
        } else {
            28
        }
    } else if m == 4 || m == 6 || m == 9 || m == 11 {
        30
    } else {
        31
    }
}

/// A calendar instant at nanosecond precision. Years are limited to the four
/// digits that bucket-key anchors can carry.
#[derive(Clone, Copy, PartialEq, Eq, Structural, Debug)]
pub struct DateTime {
    pub year: u32,
    pub month: u32,
    pub day: u32,
    pub hour: u32,
    pub minute: u32,
    pub second: u32,
    pub nanos: u32,
}

impl DateTime {
    /// The instant names a real calendar date and time of day.
    pub open spec fn wf(self) -> bool {
        &&& self.year <= 9999
        &&& 1 <= self.month <= 12
        &&& 1 <= self.day <= days_in_month_spec(self.year as int, self.month as int)
        &&& self.hour <= 23
        &&& self.minute <= 59
        &&& self.second <= 59
        &&& self.nanos <= 999_999_999
    }

    /// Builds an instant from its parts, rejecting impossible dates and times.
    pub fn new(year: u32, month: u32, day: u32, hour: u32, minute: u32, second: u32, nanos: u32)
        -> (r: Option<DateTime>)
        ensures
            match r {
                Some(dt) => dt.wf() && dt == (DateTime { year, month, day, hour, minute, second, nanos }),
                None => !(DateTime { year, month, day, hour, minute, second, nanos }).wf(),
            },
    {
        if year <= 9999 && 1 <= month && month <= 12 && 1 <= day && day <= days_in_month(
            year,
            month,
        ) && hour <= 23 && minute <= 59 && second <= 59 && nanos <= 999_999_999 {
            Some(DateTime { year, month, day, hour, minute, second, nanos })
        } else {
            None
        }
    }
}

/// The instant with the given calendar fields.
pub open spec fn dt_at(y: int, m: int, d: int, h: int, mi: int, s: int, ns: int) -> DateTime {
    DateTime {
        year: y as u32,
        month: m as u32,
        day: d as u32,
        hour: h as u32,
        minute: mi as u32,
        second: s as u32,
        nanos: ns as u32,
    }
}

/// The inclusive first instant of the given calendar day.
pub open spec fn midnight_of(y: int, m: int, d: int) -> DateTime {
    dt_at(y, m, d, 0, 0, 0, 0)
}

/// The last instant of the given calendar day at millisecond precision: what
/// a stored key can still express.
pub open spec fn day_end_millis(y: int, m: int, d: int) -> DateTime {
    dt_at(y, m, d, 23, 59, 59, 999_000_000)
}

/// Sub-second suffix of the display rendering: empty for a whole second, else
/// a dot and exactly as many digit groups of three as are needed.
pub open spec fn frac_chars(nanos: nat) -> Seq<char> {
    if nanos == 0 {
        Seq::empty()
    } else if nanos % 1_000_000 == 0 {
        seq!['.'] + dec_digits(nanos / 1_000_000, 3)
    } else if nanos % 1_000 == 0 {
        seq!['.'] + dec_digits(nanos / 1_000, 6)
    } else {
        seq!['.'] + dec_digits(nanos, 9)
    }
}

/// The display rendering `YYYY-MM-DD HH:MM:SS` with the sub-second suffix.
pub open spec fn datetime_chars(dt: DateTime) -> Seq<char> {
    dec_digits(dt.year as nat, 4) + seq!['-'] + dec_digits(dt.month as nat, 2) + seq!['-']
        + dec_digits(dt.day as nat, 2) + seq![' '] + dec_digits(dt.hour as nat, 2) + seq![':']
        + dec_digits(dt.minute as nat, 2) + seq![':'] + dec_digits(dt.second as nat, 2)
        + frac_chars(dt.nanos as nat)
}

impl DateTime {
    /// Renders the instant for display and for changelog values.
    pub fn as_string(&self) -> (r: String)
        requires
            self.wf(),
        ensures
            r@ == datetime_chars(*self),
    {
        proof {
            lemma_pow10_8();
            reveal_strlit("-");
            reveal_strlit(" ");
            reveal_strlit(":");
            reveal_strlit(".");
        }
        let mut s = String::new();
        append_padded(&mut s, self.year, 4);
        s.append("-");
        append_padded(&mut s, self.month, 2);
        s.append("-");
        append_padded(&mut s, self.day, 2);
        s.append(" ");
        append_padded(&mut s, self.hour, 2);
        s.append(":");
        append_padded(&mut s, self.minute, 2);
        s.append(":");
        append_padded(&mut s, self.second, 2);
        if self.nanos != 0 {
            s.append(".");
            if self.nanos % 1_000_000 == 0 {
                append_padded(&mut s, self.nanos / 1_000_000, 3);
            } else if self.nanos % 1_000 == 0 {
                append_padded(&mut s, self.nanos / 1_000, 6);
            } else {
                append_padded(&mut s, self.nanos, 9);
            }
        }
        proof {
            assert("-"@ =~= seq!['-']);
            assert(" "@ =~= seq![' ']);
            assert(":"@ =~= seq![':']);
            assert("."@ =~= seq!['.']);
            assert(self.nanos % 1_000_000 == 0 ==> (self.nanos / 1_000_000) < 1000);
            assert(self.nanos % 1_000 == 0 ==> (self.nanos / 1_000) < 1000000);
            assert(s@ =~= datetime_chars(*self));
        }
        s
    }
}

} // verus!
