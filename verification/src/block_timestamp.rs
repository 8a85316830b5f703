//! Time-bucket keys: a block timestamp maps to four deterministic string keys
//! (start and end of its day and of its month), and every such key parses back
//! to the one boundary instant it denotes.

use vstd::prelude::*;
use vstd::string::{StrSliceExecFns, StringExecFns};

use chrono::{Datelike, Timelike};

use crate::block::Block;
use crate::datetime::{
    DateTime, datetime_chars, day_end_millis, days_in_month, days_in_month_spec, midnight_of,
};
use crate::digits::{
    all_digits, append_padded, dec_digits, has_prefix, lemma_dec_digits, lemma_num_of_bound,
    lemma_pow10_8, num_of, parse_digits,
};
use crate::error::Error;

verus! {

/// A block timestamp: the calendar instant a raw block's header denotes, and
/// the value every bucket key round-trips through.
#[derive(Clone, Copy, PartialEq, Eq, Structural, Debug)]
pub struct BlockTimestamp(pub DateTime);

/// The start-of-day key for the given calendar date.
pub open spec fn day_first_key_chars(y: nat, m: nat, d: nat) -> Seq<char> {
    "day:first:"@ + dec_digits(y, 4) + dec_digits(m, 2) + dec_digits(d, 2)
}

/// The end-of-day key for the given calendar date.
pub open spec fn day_last_key_chars(y: nat, m: nat, d: nat) -> Seq<char> {
    "day:last:"@ + dec_digits(y, 4) + dec_digits(m, 2) + dec_digits(d, 2)
}

/// The start-of-month key for the given calendar month.
pub open spec fn month_first_key_chars(y: nat, m: nat) -> Seq<char> {
    "month:first:"@ + dec_digits(y, 4) + dec_digits(m, 2)
}

/// The end-of-month key for the given calendar month.
pub open spec fn month_last_key_chars(y: nat, m: nat) -> Seq<char> {
    "month:last:"@ + dec_digits(y, 4) + dec_digits(m, 2)
}

/// Decodes the `YYYYMMDD` anchor at `off` and resolves the day boundary:
/// midnight for the first edge, 23:59:59.999 for the last.
pub open spec fn day_anchor_instant(s: Seq<char>, off: int, first: bool) -> Option<DateTime> {
    let ys = s.subrange(off, off + 4);
    let ms = s.subrange(off + 4, off + 6);
    let ds = s.subrange(off + 6, off + 8);
    if all_digits(ys) && all_digits(ms) && all_digits(ds) {
        let y = num_of(ys);
        let m = num_of(ms);
        let d = num_of(ds);
        if 1 <= m <= 12 && 1 <= d <= days_in_month_spec(y, m) {
            if first {
                Some(midnight_of(y, m, d))
            } else {
                Some(day_end_millis(y, m, d))
            }
        } else {
            None
        }
    } else {
        None
    }
}

/// Decodes the `YYYYMM` anchor at `off` and resolves the month boundary:
/// midnight of the 1st, or 23:59:59.999 of the month's last day.
pub open spec fn month_anchor_instant(s: Seq<char>, off: int, first: bool) -> Option<DateTime> {
    let ys = s.subrange(off, off + 4);
    let ms = s.subrange(off + 4, off + 6);
    if all_digits(ys) && all_digits(ms) {
        let y = num_of(ys);
        let m = num_of(ms);
        if 1 <= m <= 12 {
            if first {
                Some(midnight_of(y, m, 1))
            } else {
                Some(day_end_millis(y, m, days_in_month_spec(y, m)))
            }
        } else {
            None
        }
    } else {
        None
    }
}

/// The instant a bucket key denotes, or `None` for every string that is not a
/// well-formed key.
pub open spec fn parse_key_spec(s: Seq<char>) -> Option<DateTime> {
    if s.len() == 18 && s.subrange(0, 10) == "day:first:"@ {
        day_anchor_instant(s, 10, true)
    } else if s.len() == 17 && s.subrange(0, 9) == "day:last:"@ {
        day_anchor_instant(s, 9, false)
    } else if s.len() == 18 && s.subrange(0, 12) == "month:first:"@ {
        month_anchor_instant(s, 12, true)
    } else if s.len() == 17 && s.subrange(0, 11) == "month:last:"@ {
        month_anchor_instant(s, 11, false)
    } else {
        None
    }
}

impl BlockTimestamp {
    /// The instant is a real calendar date and time.
    pub open spec fn wf(self) -> bool {
        self.0.wf()
    }

    /// Parses a bucket key back into the boundary instant it denotes, or
    /// reports the key as invalid; no malformed key is coerced to a date.
    pub fn try_from_key(key: &str) -> (r: Result<BlockTimestamp, Error>)
        ensures
            match r {
                Ok(bt) => bt.wf() && parse_key_spec(key@) == Some(bt.0),
                Err(e) => e == Error::InvalidKey && parse_key_spec(key@) is None,
            },
    {
        proof {
            reveal_strlit("day:first:");
            reveal_strlit("day:last:");
            reveal_strlit("month:first:");
            reveal_strlit("month:last:");
            lemma_pow10_8();
        }
        let n = key.unicode_len();
        if has_prefix(key, "day:first:") {
            if n != 18 {
                proof {
                    lemma_not_other_shapes(key@, 0);
                }
                return Err(Error::InvalidKey);
            }
            Self::day_anchor(key, 10, true)
        } else if has_prefix(key, "day:last:") {
            if n != 17 {
                proof {
                    lemma_not_other_shapes(key@, 1);
                }
                return Err(Error::InvalidKey);
            }
            Self::day_anchor(key, 9, false)
        } else if has_prefix(key, "month:first:") {
            if n != 18 {
                proof {
                    lemma_not_other_shapes(key@, 2);
                }
                return Err(Error::InvalidKey);
            }
            Self::month_anchor(key, 12, true)
        } else if has_prefix(key, "month:last:") {
            if n != 17 {
                return Err(Error::InvalidKey);
            }
            Self::month_anchor(key, 11, false)
        } else {
            Err(Error::InvalidKey)
        }
    }

    /// Decodes a `YYYYMMDD` anchor once the key's shape fixed the granularity
    /// as a day and the boundary edge.
    fn day_anchor(key: &str, off: usize, first: bool) -> (r: Result<BlockTimestamp, Error>)
        requires
            off <= 12,
            off + 8 == key@.len(),
            parse_key_spec(key@) == day_anchor_instant(key@, off as int, first),
        ensures
            match r {
                Ok(bt) => bt.wf() && parse_key_spec(key@) == Some(bt.0),
                Err(e) => e == Error::InvalidKey && parse_key_spec(key@) is None,
            },
    {
        proof {
            lemma_pow10_8();
        }
        let y = match parse_digits(key, off, off + 4) {
            Some(v) => v,
            None => {
                return Err(Error::InvalidKey);
            },
        };
        let m = match parse_digits(key, off + 4, off + 6) {
            Some(v) => v,
            None => {
                return Err(Error::InvalidKey);
            },
        };
        let d = match parse_digits(key, off + 6, off + 8) {
            Some(v) => v,
            None => {
                return Err(Error::InvalidKey);
            },
        };
        proof {
            lemma_num_of_bound(key@.subrange(off as int, off as int + 4));
            lemma_num_of_bound(key@.subrange(off as int + 4, off as int + 6));
            lemma_num_of_bound(key@.subrange(off as int + 6, off as int + 8));
        }
        if m < 1 || m > 12 || d < 1 || d > days_in_month(y, m) {
            return Err(Error::InvalidKey);
        }
        if first {
            Ok(BlockTimestamp(
                DateTime { year: y, month: m, day: d, hour: 0, minute: 0, second: 0, nanos: 0 },
            ))
        } else {
            Ok(BlockTimestamp(
                DateTime {
                    year: y,
                    month: m,
                    day: d,
                    hour: 23,
                    minute: 59,
                    second: 59,
                    nanos: 999_000_000,
                },
            ))
        }
    }

    /// Decodes a `YYYYMM` anchor once the key's shape fixed the granularity
    /// as a month and the boundary edge.
    fn month_anchor(key: &str, off: usize, first: bool) -> (r: Result<BlockTimestamp, Error>)
        requires
            off <= 12,
            off + 6 == key@.len(),
            parse_key_spec(key@) == month_anchor_instant(key@, off as int, first),
        ensures
            match r {
                Ok(bt) => bt.wf() && parse_key_spec(key@) == Some(bt.0),
                Err(e) => e == Error::InvalidKey && parse_key_spec(key@) is None,
            },
    {
        proof {
            lemma_pow10_8();
        }
        let y = match parse_digits(key, off, off + 4) {
            Some(v) => v,
            None => {
                return Err(Error::InvalidKey);
            },
        };
        let m = match parse_digits(key, off + 4, off + 6) {
            Some(v) => v,
            None => {
                return Err(Error::InvalidKey);
            },
        };
        proof {
            lemma_num_of_bound(key@.subrange(off as int, off as int + 4));
            lemma_num_of_bound(key@.subrange(off as int + 4, off as int + 6));
        }
        if m < 1 || m > 12 {
            return Err(Error::InvalidKey);
        }
        if first {
            Ok(BlockTimestamp(
                DateTime { year: y, month: m, day: 1, hour: 0, minute: 0, second: 0, nanos: 0 },
            ))
        } else {
            let d = days_in_month(y, m);
            Ok(BlockTimestamp(
                DateTime {
                    year: y,
                    month: m,
                    day: d,
                    hour: 23,
                    minute: 59,
                    second: 59,
                    nanos: 999_000_000,
                },
            ))
        }
    }

    /// Parses a bucket key that is known to be valid.
    pub fn from_key(key: &str) -> (r: BlockTimestamp)
        requires
            parse_key_spec(key@) is Some,
        ensures
            parse_key_spec(key@) == Some(r.0),
            r.wf(),
    {
        match Self::try_from_key(key) {
            Ok(bt) => bt,
            Err(_) => {
                proof {
                    assert(false);
                }
                vstd::pervasive::unreached()
            },
        }
    }
}

/// The proleptic Gregorian UTC calendar fields (year, month, day, hour,
/// minute, second) of an epoch instant, as chrono resolves them.
pub uninterp spec fn civil_of_epoch(seconds: int) -> (int, int, int, int, int, int);

/// Relies on chrono::DateTime::from_timestamp: within its supported range
/// (about 262,000 years around the epoch, so in particular all of years 0
/// through 9999) it returns the proleptic Gregorian UTC date and time of day,
/// a real calendar date, as a function of the seconds alone; outside that
/// range it returns None.
#[verifier::external_body]
fn epoch_to_civil(seconds: i64) -> (r: Option<(i32, u32, u32, u32, u32, u32)>)
    ensures
        r matches Some(c) ==> {
            let f = civil_of_epoch(seconds as int);
            &&& c.0 as int == f.0
            &&& c.1 as int == f.1
            &&& c.2 as int == f.2
            &&& c.3 as int == f.3
            &&& c.4 as int == f.4
            &&& c.5 as int == f.5
        },
        r matches Some(c) ==> 1 <= c.1 <= 12 && 1 <= c.2 as int <= days_in_month_spec(
            c.0 as int,
            c.1 as int,
        ) && c.3 < 24 && c.4 < 60 && c.5 < 60,
        0 <= seconds <= 253402300799 ==> r is Some,
{
    match chrono::DateTime::from_timestamp(seconds, 0) {
        None => None,
        Some(utc) => {
            let d = utc.naive_utc();
            Some((d.year(), d.month(), d.day(), d.hour(), d.minute(), d.second()))
        },
    }
}

/// An epoch timestamp that resolves to a calendar date this stage can key:
/// in-range nanoseconds, in chrono's supported range of seconds, and a year
/// the four-digit key anchors can carry.
pub open spec fn epoch_in_key_range(t: crate::block::Timestamp) -> bool {
    &&& 0 <= t.nanos <= 999_999_999
    &&& 0 <= t.seconds <= 253402300799
    &&& {
        let f = civil_of_epoch(t.seconds as int);
        0 <= f.0 <= 9999
    }
}

impl BlockTimestamp {
    /// Resolves a raw block's header timestamp. The header and its timestamp
    /// are protocol preconditions: their absence is reported, not defaulted.
    pub fn from_block(blk: &Block) -> (r: Result<BlockTimestamp, Error>)
        ensures
            (blk@.header matches Some(h) && h.timestamp matches Some(t) && epoch_in_key_range(t))
                ==> r is Ok,
            (r == Err::<BlockTimestamp, Error>(Error::MissingField)) <==> (blk@.header is None || (
            blk@.header matches Some(h) && h.timestamp is None)),
            r matches Err(e) ==> e == Error::MissingField || e == Error::InvalidTimestamp,
            r matches Ok(bt) ==> blk@.header matches Some(h) && h.timestamp matches Some(ts)
                && bt.wf() && 0 <= ts.nanos <= 999_999_999 && bt.0.nanos == ts.nanos as u32 && {
                let f = civil_of_epoch(ts.seconds as int);
                &&& bt.0.year as int == f.0
                &&& bt.0.month as int == f.1
                &&& bt.0.day as int == f.2
                &&& bt.0.hour as int == f.3
                &&& bt.0.minute as int == f.4
                &&& bt.0.second as int == f.5
            },
    {
        let header = match &blk.header {
            Some(h) => h,
            None => {
                return Err(Error::MissingField);
            },
        };
        let ts = match &header.timestamp {
            Some(t) => *t,
            None => {
                return Err(Error::MissingField);
            },
        };
        if ts.nanos < 0 || ts.nanos > 999_999_999 {
            return Err(Error::InvalidTimestamp);
        }
        match epoch_to_civil(ts.seconds) {
            None => Err(Error::InvalidTimestamp),
            Some((y, mo, d, h, mi, se)) => {
                if y < 0 || y > 9999 {
                    Err(Error::InvalidTimestamp)
                } else {
                    Ok(BlockTimestamp(
                        DateTime {
                            year: y as u32,
                            month: mo,
                            day: d,
                            hour: h,
                            minute: mi,
                            second: se,
                            nanos: ts.nanos as u32,
                        },
                    ))
                }
            },
        }
    }

    /// The first instant of the timestamp's calendar day.
    pub fn start_of_day(&self) -> (r: DateTime)
        requires
            self.wf(),
        ensures
            r == midnight_of(self.0.year as int, self.0.month as int, self.0.day as int),
            r.wf(),
    {
        DateTime {
            year: self.0.year,
            month: self.0.month,
            day: self.0.day,
            hour: 0,
            minute: 0,
            second: 0,
            nanos: 0,
        }
    }

    /// The start-of-day bucket key for the timestamp's calendar day.
    pub fn start_of_day_key(&self) -> (r: String)
        requires
            self.wf(),
        ensures
            r@ == day_first_key_chars(self.0.year as nat, self.0.month as nat, self.0.day as nat),
    {
        proof {
            lemma_pow10_8();
        }
        let mut s = String::from_str("day:first:");
        append_padded(&mut s, self.0.year, 4);
        append_padded(&mut s, self.0.month, 2);
        append_padded(&mut s, self.0.day, 2);
        proof {
            assert(s@ =~= day_first_key_chars(
                self.0.year as nat,
                self.0.month as nat,
                self.0.day as nat,
            ));
        }
        s
    }

    /// The last instant of the timestamp's calendar day, at the nanosecond
    /// precision a live instant carries.
    pub fn end_of_day(&self) -> (r: DateTime)
        requires
            self.wf(),
        ensures
            r == (DateTime {
                year: self.0.year,
                month: self.0.month,
                day: self.0.day,
                hour: 23,
                minute: 59,
                second: 59,
                nanos: 999_999_999,
            }),
            r.wf(),
    {
        DateTime {
            year: self.0.year,
            month: self.0.month,
            day: self.0.day,
            hour: 23,
            minute: 59,
            second: 59,
            nanos: 999_999_999,
        }
    }

    /// The end-of-day bucket key for the timestamp's calendar day.
    pub fn end_of_day_key(&self) -> (r: String)
        requires
            self.wf(),
        ensures
            r@ == day_last_key_chars(self.0.year as nat, self.0.month as nat, self.0.day as nat),
    {
        proof {
            lemma_pow10_8();
        }
        let mut s = String::from_str("day:last:");
        append_padded(&mut s, self.0.year, 4);
        append_padded(&mut s, self.0.month, 2);
        append_padded(&mut s, self.0.day, 2);
        proof {
            assert(s@ =~= day_last_key_chars(
                self.0.year as nat,
                self.0.month as nat,
                self.0.day as nat,
            ));
        }
        s
    }

    /// The first instant of the timestamp's calendar month.
    pub fn start_of_month(&self) -> (r: DateTime)
        requires
            self.wf(),
        ensures
            r == midnight_of(self.0.year as int, self.0.month as int, 1),
            r.wf(),
    {
        DateTime {
            year: self.0.year,
            month: self.0.month,
            day: 1,
            hour: 0,
            minute: 0,
            second: 0,
            nanos: 0,
        }
    }

    /// The start-of-month bucket key for the timestamp's calendar month.
    pub fn start_of_month_key(&self) -> (r: String)
        requires
            self.wf(),
        ensures
            r@ == month_first_key_chars(self.0.year as nat, self.0.month as nat),
    {
        proof {
            lemma_pow10_8();
        }
        let mut s = String::from_str("month:first:");
        append_padded(&mut s, self.0.year, 4);
        append_padded(&mut s, self.0.month, 2);
        proof {
            assert(s@ =~= month_first_key_chars(self.0.year as nat, self.0.month as nat));
        }
        s
    }

    /// The last instant of the timestamp's calendar month: one nanosecond
    /// before the first instant of the next month, which lands on the month's
    /// last day whatever its length, leap Februaries included.
    pub fn end_of_month(&self) -> (r: DateTime)
        requires
            self.wf(),
        ensures
            r == (DateTime {
                year: self.0.year,
                month: self.0.month,
                day: days_in_month_spec(self.0.year as int, self.0.month as int) as u32,
                hour: 23,
                minute: 59,
                second: 59,
                nanos: 999_999_999,
            }),
            r.wf(),
    {
        let d = days_in_month(self.0.year, self.0.month);
        DateTime {
            year: self.0.year,
            month: self.0.month,
            day: d,
            hour: 23,
            minute: 59,
            second: 59,
            nanos: 999_999_999,
        }
    }

    /// The end-of-month bucket key for the timestamp's calendar month.
    pub fn end_of_month_key(&self) -> (r: String)
        requires
            self.wf(),
        ensures
            r@ == month_last_key_chars(self.0.year as nat, self.0.month as nat),
    {
        proof {
            lemma_pow10_8();
        }
        let mut s = String::from_str("month:last:");
        append_padded(&mut s, self.0.year, 4);
        append_padded(&mut s, self.0.month, 2);
        proof {
            assert(s@ =~= month_last_key_chars(self.0.year as nat, self.0.month as nat));
        }
        s
    }

    /// Renders the instant, as changelog values carry it.
    pub fn as_string(&self) -> (r: String)
        requires
            self.wf(),
        ensures
            r@ == datetime_chars(self.0),
    {
        self.0.as_string()
    }
}

/// Round trip through a day key: for any instant, the start-of-day key parses
/// back to the same calendar date at 00:00:00.000, and the end-of-day key to
/// that date at 23:59:59.999 — millisecond precision, deliberately coarser
/// than the nanosecond end-of-day instant itself.
pub proof fn lemma_day_key_round_trip(dt: DateTime)
    requires
        dt.wf(),
    ensures
        parse_key_spec(day_first_key_chars(dt.year as nat, dt.month as nat, dt.day as nat))
            == Some(midnight_of(dt.year as int, dt.month as int, dt.day as int)),
        parse_key_spec(day_last_key_chars(dt.year as nat, dt.month as nat, dt.day as nat)) == Some(
            day_end_millis(dt.year as int, dt.month as int, dt.day as int),
        ),
{
    reveal_strlit("day:first:");
    reveal_strlit("day:last:");
    lemma_pow10_8();
    lemma_dec_digits(dt.year as nat, 4);
    lemma_dec_digits(dt.month as nat, 2);
    lemma_dec_digits(dt.day as nat, 2);
    let sf = day_first_key_chars(dt.year as nat, dt.month as nat, dt.day as nat);
    assert(sf.len() == 18);
    assert(sf.subrange(0, 10) =~= "day:first:"@);
    assert(sf.subrange(10, 14) =~= dec_digits(dt.year as nat, 4));
    assert(sf.subrange(14, 16) =~= dec_digits(dt.month as nat, 2));
    assert(sf.subrange(16, 18) =~= dec_digits(dt.day as nat, 2));
    let sl = day_last_key_chars(dt.year as nat, dt.month as nat, dt.day as nat);
    assert(sl.len() == 17);
    assert(sl.subrange(0, 9) =~= "day:last:"@);
    assert(sl.subrange(9, 13) =~= dec_digits(dt.year as nat, 4));
    assert(sl.subrange(13, 15) =~= dec_digits(dt.month as nat, 2));
    assert(sl.subrange(15, 17) =~= dec_digits(dt.day as nat, 2));
}

/// Round trip through a month key: for any instant, the start-of-month key
/// parses back to day 1 of the same month at 00:00:00, and the end-of-month
/// key to the month's last calendar day at 23:59:59.999 — for every month
/// length, February in leap and non-leap years and December included.
pub proof fn lemma_month_key_round_trip(dt: DateTime)
    requires
        dt.wf(),
    ensures
        parse_key_spec(month_first_key_chars(dt.year as nat, dt.month as nat)) == Some(
            midnight_of(dt.year as int, dt.month as int, 1),
        ),
        parse_key_spec(month_last_key_chars(dt.year as nat, dt.month as nat)) == Some(
            day_end_millis(
                dt.year as int,
                dt.month as int,
                days_in_month_spec(dt.year as int, dt.month as int),
            ),
        ),
{
    reveal_strlit("day:first:");
    reveal_strlit("day:last:");
    reveal_strlit("month:first:");
    reveal_strlit("month:last:");
    lemma_pow10_8();
    lemma_dec_digits(dt.year as nat, 4);
    lemma_dec_digits(dt.month as nat, 2);
    let sf = month_first_key_chars(dt.year as nat, dt.month as nat);
    assert(sf.len() == 18);
    assert(sf.subrange(0, 12) =~= "month:first:"@);
    assert(sf.subrange(12, 16) =~= dec_digits(dt.year as nat, 4));
    assert(sf.subrange(16, 18) =~= dec_digits(dt.month as nat, 2));
    assert(sf[0] == 'm');
    assert(!(sf.subrange(0, 10) == "day:first:"@)) by {
        if sf.subrange(0, 10) == "day:first:"@ {
            assert(sf.subrange(0, 10)[0] == sf[0]);
        }
    }
    let sl = month_last_key_chars(dt.year as nat, dt.month as nat);
    assert(sl.len() == 17);
    assert(sl.subrange(0, 11) =~= "month:last:"@);
    assert(sl.subrange(11, 15) =~= dec_digits(dt.year as nat, 4));
    assert(sl.subrange(15, 17) =~= dec_digits(dt.month as nat, 2));
    assert(sl[0] == 'm');
    assert(!(sl.subrange(0, 9) == "day:last:"@)) by {
        if sl.subrange(0, 9) == "day:last:"@ {
            assert(sl.subrange(0, 9)[0] == sl[0]);
        }
    }
}

/// A string whose head matches one key shape matches no later one: the shapes
/// disagree on a fixed letter. `shape` is the index of the matched shape in
/// the order `parse_key_spec` tries them.
proof fn lemma_not_other_shapes(s: Seq<char>, shape: int)
    requires
        shape == 0 ==> 10 <= s.len() && s.subrange(0, 10) == "day:first:"@,
        shape == 1 ==> 9 <= s.len() && s.subrange(0, 9) == "day:last:"@,
        shape == 2 ==> 12 <= s.len() && s.subrange(0, 12) == "month:first:"@,
        0 <= shape <= 2,
    ensures
        shape == 0 ==> !(s.len() == 17 && s.subrange(0, 9) == "day:last:"@) && !(s.len() == 18
            && s.subrange(0, 12) == "month:first:"@) && !(s.len() == 17 && s.subrange(0, 11)
            == "month:last:"@),
        shape == 1 ==> !(s.len() == 18 && s.subrange(0, 12) == "month:first:"@) && !(s.len() == 17
            && s.subrange(0, 11) == "month:last:"@),
        shape == 2 ==> !(s.len() == 17 && s.subrange(0, 11) == "month:last:"@),
{
    reveal_strlit("day:first:");
    reveal_strlit("day:last:");
    reveal_strlit("month:first:");
    reveal_strlit("month:last:");
    if shape == 0 {
        assert(s.subrange(0, 10)[0] == s[0]);
        assert(s.subrange(0, 10)[4] == s[4]);
        if s.len() == 17 && s.subrange(0, 9) == "day:last:"@ {
            assert(s.subrange(0, 9)[4] == s[4]);
            assert(false);
        }
        if s.len() == 18 && s.subrange(0, 12) == "month:first:"@ {
            assert(s.subrange(0, 12)[0] == s[0]);
            assert(false);
        }
        if s.len() == 17 && s.subrange(0, 11) == "month:last:"@ {
            assert(s.subrange(0, 11)[0] == s[0]);
            assert(false);
        }
    }
    if shape == 1 {
        assert(s.subrange(0, 9)[0] == s[0]);
        if s.len() == 18 && s.subrange(0, 12) == "month:first:"@ {
            assert(s.subrange(0, 12)[0] == s[0]);
            assert(false);
        }
        if s.len() == 17 && s.subrange(0, 11) == "month:last:"@ {
            assert(s.subrange(0, 11)[0] == s[0]);
            assert(false);
        }
    }
    if shape == 2 {
        assert(s.subrange(0, 12)[6] == s[6]);
        if s.len() == 17 && s.subrange(0, 11) == "month:last:"@ {
            assert(s.subrange(0, 11)[6] == s[6]);
            assert(false);
        }
    }
}

} // verus!
