use vstd::arithmetic::div_mod::{
    lemma_basic_div, lemma_div_is_ordered, lemma_div_multiples_vanish,
    lemma_fundamental_div_mod, lemma_fundamental_div_mod_converse,
};
use vstd::prelude::*;

verus! {

/// A calendar date with a time of day, in the proleptic Gregorian calendar.
/// Supported years run from -9999 to 9999; a conversion that falls outside
/// returns nothing rather than a wrong date.
#[derive(Debug, Clone, Copy, PartialEq, Eq, Structural)]
pub struct Datetime {
    pub year: i64,
    pub month: u8,
    pub day: u8,
    pub hour: u8,
    pub minute: u8,
    pub second: u8,
}

/// Whether `y` is a leap year in the Gregorian calendar.
pub open spec fn spec_is_leap(y: int) -> bool {
    y % 4 == 0 && (y % 100 != 0 || y % 400 == 0)
}

/// The number of days in year `y`.
pub open spec fn spec_days_in_year(y: int) -> int {
    if spec_is_leap(y) {
        366
    } else {
        365
    }
}

/// The number of days in month `m` of year `y` (months count from 1).
pub open spec fn spec_days_in_month(y: int, m: int) -> int {
    if m == 2 {
        if spec_is_leap(y) {
            29
        } else {
            28
        }
    } else if m == 4 || m == 6 || m == 9 || m == 11 {
        30
    } else {
        31
    }
}

/// The number of days of year `y` that lie before month `m`.
pub open spec fn spec_days_before_month(y: int, m: int) -> int
    decreases m,
{
    if m <= 1 {
        0
    } else {
        spec_days_before_month(y, m - 1) + spec_days_in_month(y, m - 1)
    }
}

/// Walks whole years forward from January 1st of year `y`: the year that day
/// `days` (counted from that date, nonnegative) falls in, with the remaining
/// day offset into it.
pub open spec fn spec_year_forward(y: int, days: int) -> (int, int)
    decreases days,
{
    if days < spec_days_in_year(y) {
        (y, days)
    } else {
        spec_year_forward(y + 1, days - spec_days_in_year(y))
    }
}

/// Walks whole years backward from January 1st of year `y`: the year that
/// day `days` (negative) falls in, with the nonnegative day offset into it.
pub open spec fn spec_year_backward(y: int, days: int) -> (int, int)
    decreases -days,
{
    if days >= 0 {
        (y, days)
    } else {
        let up = days + spec_days_in_year(y - 1);
        if up >= 0 {
            (y - 1, up)
        } else {
            spec_year_backward(y - 1, up)
        }
    }
}

/// The year and day-of-year that day `days` falls in, where day 0 is
/// January 1st of year `y`.
pub open spec fn spec_year_walk(y: int, days: int) -> (int, int) {
    if days >= 0 {
        spec_year_forward(y, days)
    } else {
        spec_year_backward(y, days)
    }
}

/// Walks whole months forward from month `m` of year `y`: the month that day
/// offset `d` falls in, with the remaining day offset into it.
pub open spec fn spec_month_walk(y: int, m: int, d: int) -> (int, int)
    decreases 12 - m,
{
    if m >= 12 || d < spec_days_in_month(y, m) {
        (m, d)
    } else {
        spec_month_walk(y, m + 1, d - spec_days_in_month(y, m))
    }
}

/// The calendar date and time of day `shifted` seconds after the epoch
/// (1970-01-01T00:00:00), or nothing if the year falls outside the supported
/// range.
pub open spec fn spec_datetime_at(shifted: int) -> Option<Datetime> {
    let days = shifted / 86400;
    let secs = shifted % 86400;
    let yw = spec_year_walk(1970, days);
    if yw.0 < -9999 || yw.0 > 9999 {
        None
    } else {
        let mw = spec_month_walk(yw.0, 1, yw.1);
        Some(
            Datetime {
                year: yw.0 as i64,
                month: mw.0 as u8,
                day: (mw.1 + 1) as u8,
                hour: (secs / 3600) as u8,
                minute: ((secs % 3600) / 60) as u8,
                second: (secs % 60) as u8,
            },
        )
    }
}

/// The calendar date (with the time of day zeroed) of the instant `ts + offset`
/// seconds after the epoch.
pub open spec fn spec_date_at(ts: int, offset: int) -> Option<Datetime> {
    match spec_datetime_at(ts + offset) {
        Some(dt) => Some(Datetime { hour: 0, minute: 0, second: 0, ..dt }),
        None => None,
    }
}

/// The days before month 13 are exactly the days of the year.
proof fn lemma_months_sum(y: int)
    ensures
        spec_days_before_month(y, 13) == spec_days_in_year(y),
{
    reveal_with_fuel(spec_days_before_month, 13);
}

/// Walking forward never moves the year down.
proof fn lemma_forward_year_ge(y: int, days: int)
    requires
        days >= 0,
    ensures
        spec_year_forward(y, days).0 >= y,
        days >= spec_days_in_year(y) ==> spec_year_forward(y, days).0 >= y + 1,
    decreases days,
{
    if days >= spec_days_in_year(y) {
        lemma_forward_year_ge(y + 1, days - spec_days_in_year(y));
    }
}

/// Walking backward always moves the year down.
proof fn lemma_backward_year_le(y: int, days: int)
    requires
        days < 0,
    ensures
        spec_year_backward(y, days).0 <= y - 1,
    decreases -days,
{
    let up = days + spec_days_in_year(y - 1);
    if up < 0 {
        lemma_backward_year_le(y - 1, up);
    }
}

/// Every day of the forward walk advances the year by at least a day's worth:
/// the resulting year is at least `y + days / 366`.
proof fn lemma_forward_div_bound(y: int, days: int)
    requires
        days >= 0,
    ensures
        spec_year_forward(y, days).0 >= y + days / 366,
    decreases days,
{
    let diy = spec_days_in_year(y);
    if days < diy {
        lemma_basic_div(days, 366);
    } else {
        lemma_forward_div_bound(y + 1, days - diy);
        // (days - diy) / 366 >= (days - 366) / 366 == days / 366 - 1
        lemma_fundamental_div_mod(days, 366);
        lemma_fundamental_div_mod_converse(days - 366, 366, days / 366 - 1, days % 366);
        lemma_div_is_ordered(days - 366, days - diy, 366);
    }
}

/// The backward walk moves the year down by at least a day's worth: the
/// resulting year is at most `y + days / 366 + 1`.
proof fn lemma_backward_div_bound(y: int, days: int)
    requires
        days < 0,
    ensures
        spec_year_backward(y, days).0 <= y + days / 366 + 1,
    decreases -days,
{
    let up = days + spec_days_in_year(y - 1);
    if up >= 0 {
        // days >= -366, so days / 366 >= -1
        lemma_div_multiples_vanish(-1, 366);
        lemma_div_is_ordered(-366, days, 366);
    } else {
        lemma_backward_div_bound(y - 1, up);
        // up / 366 <= (days + 366) / 366 == days / 366 + 1
        lemma_fundamental_div_mod(days, 366);
        lemma_fundamental_div_mod_converse(days + 366, 366, days / 366 + 1, days % 366);
        lemma_div_is_ordered(up, days + 366, 366);
    }
}

/// Far enough after the epoch, the year exceeds the supported range.
proof fn lemma_datetime_none_high(shifted: int)
    requires
        shifted >= 253927872000,
    ensures
        spec_datetime_at(shifted) is None,
{
    let days = shifted / 86400;
    lemma_div_multiples_vanish(2938980, 86400);
    lemma_div_is_ordered((2938980 * 86400) as int, shifted, 86400);
    assert(days >= 2938980);
    lemma_div_multiples_vanish(8030, 366);
    lemma_div_is_ordered((8030 * 366) as int, days, 366);
    assert(days / 366 >= 8030);
    lemma_forward_div_bound(1970, days);
}

/// Far enough before the epoch, the year falls below the supported range.
proof fn lemma_datetime_none_low(shifted: int)
    requires
        shifted <= -378624153600,
    ensures
        spec_datetime_at(shifted) is None,
{
    let days = shifted / 86400;
    lemma_div_multiples_vanish(-4381992, 86400);
    lemma_div_is_ordered(shifted, (-4381992) * 86400, 86400);
    assert(days <= -4381992);
    lemma_div_multiples_vanish(-11972, 366);
    lemma_div_is_ordered(days, (-11972) * 366, 366);
    assert(days / 366 <= -11972);
    if days >= 0 {
    } else {
        lemma_backward_div_bound(1970, days);
    }
}

/// The number of days in year `y`, for years near the supported range.
pub fn days_in_year(y: i64) -> (r: i64)
    requires
        -20000 <= y <= 20000,
    ensures
        r as int == spec_days_in_year(y as int),
{
    if is_leap(y) {
        366
    } else {
        365
    }
}

/// Whether `y` is a leap year.
pub fn is_leap(y: i64) -> (r: bool)
    requires
        -20000 <= y <= 20000,
    ensures
        r == spec_is_leap(y as int),
{
    let z: u64 = (y + 40000) as u64;
    proof {
        vstd::arithmetic::div_mod::lemma_mod_add_multiples_vanish(y as int, 4);
        vstd::arithmetic::div_mod::lemma_mod_add_multiples_vanish(y + 30000, 4);
        vstd::arithmetic::div_mod::lemma_mod_add_multiples_vanish(y + 20000, 4);
        vstd::arithmetic::div_mod::lemma_mod_add_multiples_vanish(y + 10000, 4);
        vstd::arithmetic::div_mod::lemma_mod_add_multiples_vanish(y as int, 100);
        vstd::arithmetic::div_mod::lemma_mod_add_multiples_vanish(y + 30000, 100);
        vstd::arithmetic::div_mod::lemma_mod_add_multiples_vanish(y + 20000, 100);
        vstd::arithmetic::div_mod::lemma_mod_add_multiples_vanish(y + 10000, 100);
        vstd::arithmetic::div_mod::lemma_mod_add_multiples_vanish(y as int, 400);
        vstd::arithmetic::div_mod::lemma_mod_add_multiples_vanish(y + 30000, 400);
        vstd::arithmetic::div_mod::lemma_mod_add_multiples_vanish(y + 20000, 400);
        vstd::arithmetic::div_mod::lemma_mod_add_multiples_vanish(y + 10000, 400);
    }
    z % 4 == 0 && (z % 100 != 0 || z % 400 == 0)
}

/// The number of days in month `m` of year `y`.
pub fn days_in_month(y: i64, m: i64) -> (r: i64)
    requires
        -20000 <= y <= 20000,
    ensures
        r as int == spec_days_in_month(y as int, m as int),
{
    if m == 2 {
        if is_leap(y) {
            29
        } else {
            28
        }
    } else if m == 4 || m == 6 || m == 9 || m == 11 {
        30
    } else {
        31
    }
}

/// The calendar date and time `shifted` seconds after the epoch, or nothing
/// if the year falls outside -9999 to 9999.
pub fn datetime_at(shifted: i64) -> (r: Option<Datetime>)
    ensures
        r == spec_datetime_at(shifted as int),
{
    // Split into whole days and the second of the day, rounding the day
    // toward minus infinity.
    let (days, secs): (i64, i64) = if shifted >= 0 {
        let u: u64 = shifted as u64;
        ((u / 86400) as i64, (u % 86400) as i64)
    } else {
        let neg: u64 = (-(shifted + 1)) as u64;
        let a: u64 = neg / 86400;
        let b: u64 = neg % 86400;
        (-(a as i64) - 1, 86399 - (b as i64))
    };
    proof {
        lemma_fundamental_div_mod_converse(shifted as int, 86400, days as int, secs as int);
    }
    let ghost days0 = days as int;

    let mut y: i64 = 1970;
    let mut d: i64 = days;
    while d < 0 && y > -9999
        invariant
            -9999 <= y <= 1970,
            days0 <= d <= 106751991167302,
            days0 >= -106751991167302,
            spec_year_walk(y as int, d as int) == spec_year_walk(1970, days0),
        decreases y + 9999,
    {
        let ghost dold = d as int;
        let ghost yold = y as int;
        y = y - 1;
        d = d + days_in_year(y);
        proof {
            assert(spec_year_backward(yold, dold) == spec_year_walk(y as int, d as int));
        }
    }
    if d < 0 {
        proof {
            lemma_backward_year_le(y as int, d as int);
        }
        return None;
    }
    loop
        invariant_except_break
            -9999 <= y <= 9999,
            0 <= d <= 106751991167302,
            spec_year_walk(y as int, d as int) == spec_year_walk(1970, days0),
        ensures
            -9999 <= y <= 9999,
            0 <= d,
            spec_year_walk(y as int, d as int) == spec_year_walk(1970, days0),
            d < spec_days_in_year(y as int) || y == 9999,
        decreases 9999 - y,
    {
        let diy = days_in_year(y);
        if d < diy || y >= 9999 {
            break;
        }
        d = d - diy;
        y = y + 1;
    }
    if d >= days_in_year(y) {
        proof {
            lemma_forward_year_ge(y as int, d as int);
        }
        return None;
    }
    // Here the walk has landed: day `d` of year `y`.
    proof {
        assert(spec_year_walk(1970, days0) == (y as int, d as int));
    }
    let ghost doy = d as int;

    let mut m: i64 = 1;
    loop
        invariant_except_break
            1 <= m <= 12,
            0 <= d,
            doy < spec_days_in_year(y as int),
            -9999 <= y <= 9999,
            d + spec_days_before_month(y as int, m as int) == doy,
            spec_month_walk(y as int, 1, doy) == spec_month_walk(y as int, m as int, d as int),
        ensures
            1 <= m <= 12,
            0 <= d < spec_days_in_month(y as int, m as int),
            spec_month_walk(y as int, 1, doy) == (m as int, d as int),
        decreases 12 - m,
    {
        let dim = days_in_month(y, m);
        if d < dim {
            break;
        }
        if m >= 12 {
            proof {
                lemma_months_sum(y as int);
                reveal_with_fuel(spec_days_before_month, 13);
                assert(false);
            }
        }
        d = d - dim;
        m = m + 1;
    }

    let s: u64 = secs as u64;
    let hour: u64 = s / 3600;
    let minute: u64 = (s % 3600) / 60;
    let second: u64 = s % 60;
    Some(
        Datetime {
            year: y,
            month: m as u8,
            day: (d + 1) as u8,
            hour: hour as u8,
            minute: minute as u8,
            second: second as u8,
        },
    )
}

/// The calendar date and time of the instant `ts + offset_secs`, or nothing
/// if the year falls outside the supported range.
pub fn convert_datetime(ts: i64, offset_secs: i32) -> (r: Option<Datetime>)
    ensures
        r == spec_datetime_at(ts + offset_secs),
{
    let off: i64 = offset_secs as i64;
    if off >= 0 && ts > i64::MAX - off {
        proof {
            lemma_datetime_none_high(ts + offset_secs);
        }
        return None;
    }
    if off < 0 && ts < i64::MIN - off {
        proof {
            lemma_datetime_none_low(ts + offset_secs);
        }
        return None;
    }
    datetime_at(ts + off)
}

} // verus!
