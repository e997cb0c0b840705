//! Calendar dates as day numbers.
//!
//! A [`Date`] holds the number of days since 1970-01-01 in the proleptic
//! Gregorian calendar. Conversion from and to year/month/day uses the
//! standard civil-calendar algorithms, stated here as spec functions that
//! the executable code is proved to match. The supported range covers the
//! years 0 through 9999 with slack on both sides.

use vstd::prelude::*;
use crate::text::{dec_pad, push_dec_pad};

verus! {

/// The date written `YYYY-MM-DD`, zero-padded.
pub open spec fn date_seq(days: int) -> Seq<char> {
    let t = civil_from_days(days);
    dec_pad(t.0 as nat, 4) + seq!['-'] + dec_pad(t.1 as nat, 2) + seq!['-'] + dec_pad(t.2 as nat, 2)
}

/// Smallest day number a [`Date`] may hold: 0000-01-01.
pub const DAY_MIN: i64 = -719528;

/// Largest day number a [`Date`] may hold.
pub const DAY_MAX: i64 = 2932956;

/// A calendar date, stored as days since 1970-01-01.
#[derive(Clone, Copy, Debug, PartialEq, Eq, Structural)]
pub struct Date {
    pub days: i64,
}

/// True of a year/month/day triple that names a real day of the
/// proleptic Gregorian calendar within the supported year range.
pub open spec fn valid_ymd(y: int, m: int, d: int) -> bool {
    &&& 0 <= y <= 9999
    &&& 1 <= m <= 12
    &&& 1 <= d <= days_in_month(y, m)
}

/// True of leap years of the proleptic Gregorian calendar.
pub open spec fn is_leap_year(y: int) -> bool {
    y % 4 == 0 && (y % 100 != 0 || y % 400 == 0)
}

/// Number of days in the given month.
pub open spec fn days_in_month(y: int, m: int) -> int {
    if m == 2 {
        if is_leap_year(y) {
            29
        } else {
            28
        }
    } else if m == 4 || m == 6 || m == 9 || m == 11 {
        30
    } else {
        31
    }
}

/// Day number of the given calendar day: days since 1970-01-01.
pub open spec fn days_from_civil(y: int, m: int, d: int) -> int {
    let ys = if m <= 2 { y - 1 } else { y };
    let era = (ys + 400) / 400 - 1;
    let yoe = ys - era * 400;
    let mp = if m > 2 { m - 3 } else { m + 9 };
    let doy = (153 * mp + 2) / 5 + d - 1;
    let doe = yoe * 365 + yoe / 4 - yoe / 100 + doy;
    era * 146097 + doe - 719468
}

/// Calendar day of the given day number, as (year, month, day).
pub open spec fn civil_from_days(days: int) -> (int, int, int) {
    let z = days + 719468;
    let era = (z + 146097) / 146097 - 1;
    let doe = z - era * 146097;
    let yoe = (doe - doe / 1460 + doe / 36524 - doe / 146096) / 365;
    let doy = doe - (365 * yoe + yoe / 4 - yoe / 100);
    let mp = (5 * doy + 2) / 153;
    let d = doy - (153 * mp + 2) / 5 + 1;
    let m = if mp < 10 { mp + 3 } else { mp - 9 };
    let y = if m <= 2 { yoe + era * 400 + 1 } else { yoe + era * 400 };
    (y, m, d)
}

impl Date {
    /// The day number lies in the supported range.
    pub open spec fn wf(self) -> bool {
        DAY_MIN <= self.days <= DAY_MAX
    }

    /// Builds the date of the given year, month and day; `None` exactly on
    /// triples that name no real calendar day in the supported range.
    pub fn from_ymd(y: i64, m: i64, d: i64) -> (r: Option<Date>)
        ensures
            r is Some <==> valid_ymd(y as int, m as int, d as int),
            r is Some ==> {
                &&& r->Some_0.days == days_from_civil(y as int, m as int, d as int)
                &&& r->Some_0.wf()
            },
    {
        if !(0 <= y && y <= 9999 && 1 <= m && m <= 12 && 1 <= d) {
            return None;
        }
        let leap: bool = y % 4 == 0 && (y % 100 != 0 || y % 400 == 0);
        let dim: i64 = if m == 2 {
            if leap {
                29
            } else {
                28
            }
        } else if m == 4 || m == 6 || m == 9 || m == 11 {
            30
        } else {
            31
        };
        if d > dim {
            return None;
        }
        let ys: i64 = if m <= 2 { y - 1 } else { y };
        let era: i64 = (ys + 400) / 400 - 1;
        let yoe: i64 = ys - era * 400;
        let mp: i64 = if m > 2 { m - 3 } else { m + 9 };
        let doy: i64 = (153 * mp + 2) / 5 + d - 1;
        let doe: i64 = yoe * 365 + yoe / 4 - yoe / 100 + doy;
        let days: i64 = era * 146097 + doe - 719468;
        Some(Date { days })
    }

    /// Builds the date of the given day number; `None` exactly outside the
    /// supported range.
    pub fn from_day(days: i64) -> (r: Option<Date>)
        ensures
            r is Some <==> DAY_MIN <= days <= DAY_MAX,
            r is Some ==> r->Some_0 == (Date { days }) && r->Some_0.wf(),
    {
        if DAY_MIN <= days && days <= DAY_MAX {
            Some(Date { days })
        } else {
            None
        }
    }

    /// Year, month and day of this date.
    #[verifier::rlimit(50)]
    pub fn to_ymd(&self) -> (r: (i64, i64, i64))
        requires
            self.wf(),
        ensures
            (r.0 as int, r.1 as int, r.2 as int) == civil_from_days(self.days as int),
            0 <= r.0 <= 10000,
            1 <= r.1 <= 12,
            1 <= r.2 <= 31,
    {
        let z: i64 = self.days + 719468;
        assert(-60 <= z <= 3652424);
        let era: i64 = (z + 146097) / 146097 - 1;
        assert(-1 <= era <= 25);
        assert(era * 146097 <= z < era * 146097 + 146097);
        let doe: i64 = z - era * 146097;
        assert(0 <= doe <= 146096);
        let yoe: i64 = (doe - doe / 1460 + doe / 36524 - doe / 146096) / 365;
        assert(0 <= yoe <= 399);
        let doy: i64 = doe - (365 * yoe + yoe / 4 - yoe / 100);
        assert(0 <= doy <= 365);
        let mp: i64 = (5 * doy + 2) / 153;
        assert(0 <= mp <= 11);
        let d: i64 = doy - (153 * mp + 2) / 5 + 1;
        assert(1 <= d <= 31);
        let m: i64 = if mp < 10 { mp + 3 } else { mp - 9 };
        let y: i64 = if m <= 2 { yoe + era * 400 + 1 } else { yoe + era * 400 };
        assert(0 <= y <= 10000);
        (y, m, d)
    }

    /// The date written `YYYY-MM-DD`.
    pub fn to_string(&self) -> (r: String)
        requires
            self.wf(),
        ensures
            r@ == date_seq(self.days as int),
    {
        let (y, m, d) = self.to_ymd();
        let mut out = String::new();
        push_dec_pad(&mut out, y as u64, 4);
        out.push('-');
        push_dec_pad(&mut out, m as u64, 2);
        out.push('-');
        push_dec_pad(&mut out, d as u64, 2);
        proof {
            assert(out@ =~= date_seq(self.days as int));
        }
        out
    }
}

} // verus!
