//! Proleptic Gregorian calendar arithmetic on Unix-epoch day counts.
use vstd::arithmetic::div_mod::{
    lemma_fundamental_div_mod, lemma_fundamental_div_mod_converse, lemma_mod_bound,
};
use vstd::prelude::*;

verus! {

/// Gregorian leap-year rule.
pub open spec fn is_leap_year(y: int) -> bool {
    y % 4 == 0 && (y % 100 != 0 || y % 400 == 0)
}

/// Number of days in month `m` (1 = January) of year `y`.
pub open spec fn days_in_month(y: int, m: int) -> int {
    if m == 2 {
        if is_leap_year(y) { 29 } else { 28 }
    } else if m == 4 || m == 6 || m == 9 || m == 11 {
        30
    } else {
        31
    }
}

/// Days in year `y` before the first day of month `m`.
pub open spec fn days_before_month(y: int, m: int) -> int {
    let base: int = if m == 1 { 0 }
        else if m == 2 { 31 }
        else if m == 3 { 59 }
        else if m == 4 { 90 }
        else if m == 5 { 120 }
        else if m == 6 { 151 }
        else if m == 7 { 181 }
        else if m == 8 { 212 }
        else if m == 9 { 243 }
        else if m == 10 { 273 }
        else if m == 11 { 304 }
        else { 334 };
    if m > 2 && is_leap_year(y) { base + 1 } else { base }
}

/// Number of leap years among the years `1..=n` (counted with floor
/// division, so it is also meaningful for `n <= 0`).
pub open spec fn leaps_through(n: int) -> int {
    n / 4 - n / 100 + n / 400
}

/// Days from 1970-01-01 to January 1st of year `y` (negative before 1970).
pub open spec fn days_before_year(y: int) -> int {
    365 * (y - 1970) + leaps_through(y - 1) - leaps_through(1969)
}

/// Days from 1970-01-01 to the date `y-m-d`.
pub open spec fn days_from_civil(y: int, m: int, d: int) -> int {
    days_before_year(y) + days_before_month(y, m) + d - 1
}

/// `y-m-d` names a real day of the Gregorian calendar.
pub open spec fn is_valid_date(y: int, m: int, d: int) -> bool {
    1 <= m <= 12 && 1 <= d <= days_in_month(y, m)
}

/// Floor-divided era (400-year block starting on 0000-03-01) of a day count.
pub open spec fn era_of_days(days: int) -> int {
    (days + 719468) / 146097
}

/// Day counts whose year fits the `i32` year of [`civil_from_days`].
pub open spec fn civil_days_in_range(days: int) -> bool {
    &&& days + 719468 <= i64::MAX
    &&& i64::MIN <= days
    &&& i32::MIN <= era_of_days(days) * 400
    &&& era_of_days(days) * 400 + 400 <= i32::MAX
}

proof fn lemma_div_shift(q: int, k: int, r: int)
    requires
        k > 0,
        r >= 0,
    ensures
        (q * k + r) / k == q + r / k,
        (q * k + r) % k == r % k,
{
    lemma_fundamental_div_mod(r, k);
    lemma_mod_bound(r, k);
    let rq = r / k;
    let rr = r % k;
    assert(q * k + r == (q + rq) * k + rr) by (nonlinear_arith)
        requires r == k * rq + rr;
    lemma_fundamental_div_mod_converse(q * k + r, k, q + rq, rr);
}

/// `n / k` steps up by one exactly at multiples of `k`.
proof fn lemma_div_step(n: int, k: int)
    requires
        k > 0,
    ensures
        n / k - (n - 1) / k == (if n % k == 0 { 1int } else { 0int }),
{
    lemma_fundamental_div_mod(n - 1, k);
    lemma_mod_bound(n - 1, k);
    let q = (n - 1) / k;
    let r = (n - 1) % k;
    assert(n - 1 == q * k + r) by (nonlinear_arith)
        requires n - 1 == k * q + r;
    if r + 1 < k {
        lemma_fundamental_div_mod_converse(n, k, q, r + 1);
    } else {
        assert(n == (q + 1) * k + 0) by (nonlinear_arith)
            requires n - 1 == q * k + r, r + 1 == k;
        lemma_fundamental_div_mod_converse(n, k, q + 1, 0);
    }
}

proof fn lemma_divisible_chain(n: int)
    ensures
        n % 400 == 0 ==> n % 100 == 0,
        n % 100 == 0 ==> n % 4 == 0,
{
    if n % 400 == 0 {
        lemma_fundamental_div_mod(n, 400);
        lemma_fundamental_div_mod_converse(n, 100, 4 * (n / 400), 0);
    }
    if n % 100 == 0 {
        lemma_fundamental_div_mod(n, 100);
        lemma_fundamental_div_mod_converse(n, 4, 25 * (n / 100), 0);
    }
}

/// The leap-year count grows by one exactly at leap years.
proof fn lemma_leaps_step(n: int)
    ensures
        leaps_through(n) - leaps_through(n - 1) == (if is_leap_year(n) { 1int } else { 0int }),
{
    lemma_div_step(n, 4);
    lemma_div_step(n, 100);
    lemma_div_step(n, 400);
    lemma_divisible_chain(n);
}

/// Leap years counted through `400 * e + t` for a year `t` inside an era.
proof fn lemma_leaps_in_era(e: int, t: int)
    requires
        0 <= t <= 399,
    ensures
        leaps_through(400 * e + t) == 97 * e + t / 4 - t / 100,
        is_leap_year(400 * e + t) == is_leap_year(t),
{
    lemma_div_shift(100 * e, 4, t);
    lemma_div_shift(4 * e, 100, t);
    lemma_div_shift(e, 400, t);
    assert(400 * e + t == (100 * e) * 4 + t);
    assert(400 * e + t == (4 * e) * 100 + t);
    assert(400 * e + t == e * 400 + t);
}

/// Year of era and its bounds, for every day of a 400-year era.
proof fn lemma_year_of_era(doe: u32)
    requires
        doe < 146097,
    ensures
        ({
            let yoe = (doe - doe / 1460 + doe / 36524 - doe / 146096) / 365;
            &&& yoe <= 399
            &&& 365 * yoe + yoe / 4 - yoe / 100 <= doe
            &&& doe - (365 * yoe + yoe / 4 - yoe / 100) < 365 + (if (yoe + 1) % 4 == 0 && ((yoe
                + 1) % 100 != 0 || (yoe + 1) % 400 == 0) {
                1u32
            } else {
                0u32
            })
        }),
{
    assert(doe < 146097 ==> ({
        let yoe = (doe - doe / 1460 + doe / 36524 - doe / 146096) / 365;
        &&& yoe <= 399
        &&& 365 * yoe + yoe / 4 - yoe / 100 <= doe
        &&& doe - (365 * yoe + yoe / 4 - yoe / 100) < 365 + (if (yoe + 1) % 4 == 0 && ((yoe + 1)
            % 100 != 0 || (yoe + 1) % 400 == 0) {
            1u32
        } else {
            0u32
        })
    })) by (bit_vector);
}

/// Month of a March-based year and the day inside it.
proof fn lemma_month_of_year(doy: u32)
    requires
        doy <= 365,
    ensures
        ({
            let mp = (5 * doy + 2) / 153;
            let before = (153 * mp + 2) / 5;
            &&& mp <= 11
            &&& before <= doy
            &&& before == (if mp == 0 { 0u32 } else if mp == 1 { 31u32 } else if mp == 2 { 61u32 }
                else if mp == 3 { 92u32 } else if mp == 4 { 122u32 } else if mp == 5 { 153u32 }
                else if mp == 6 { 184u32 } else if mp == 7 { 214u32 } else if mp == 8 { 245u32 }
                else if mp == 9 { 275u32 } else if mp == 10 { 306u32 } else { 337u32 })
            &&& doy - before < (if mp == 1 || mp == 3 || mp == 6 || mp == 8 { 30u32 }
                else if mp == 11 { 29u32 } else { 31u32 })
        }),
{
    assert(doy <= 365 ==> ({
        let mp = (5 * doy + 2) / 153;
        let before = (153 * mp + 2) / 5;
        &&& mp <= 11
        &&& before <= doy
        &&& before == (if mp == 0 { 0u32 } else if mp == 1 { 31u32 } else if mp == 2 { 61u32 }
            else if mp == 3 { 92u32 } else if mp == 4 { 122u32 } else if mp == 5 { 153u32 }
            else if mp == 6 { 184u32 } else if mp == 7 { 214u32 } else if mp == 8 { 245u32 }
            else if mp == 9 { 275u32 } else if mp == 10 { 306u32 } else { 337u32 })
        &&& doy - before < (if mp == 1 || mp == 3 || mp == 6 || mp == 8 { 30u32 }
            else if mp == 11 { 29u32 } else { 31u32 })
    })) by (bit_vector);
}

/// Assembles the era, year-of-era and month facts into the calendar date.
proof fn lemma_civil_link(e: int, doe: int, t: int, doy: int, mp: int, before: int)
    requires
        0 <= t <= 399,
        doe == 365 * t + t / 4 - t / 100 + doy,
        0 <= doy,
        doy < 365 + (if (t + 1) % 4 == 0 && ((t + 1) % 100 != 0 || (t + 1) % 400 == 0) {
            1int
        } else {
            0int
        }),
        0 <= mp <= 11,
        before <= doy,
        before == (if mp == 0 { 0int } else if mp == 1 { 31int } else if mp == 2 { 61int }
            else if mp == 3 { 92int } else if mp == 4 { 122int } else if mp == 5 { 153int }
            else if mp == 6 { 184int } else if mp == 7 { 214int } else if mp == 8 { 245int }
            else if mp == 9 { 275int } else if mp == 10 { 306int } else { 337int }),
        doy - before < (if mp == 1 || mp == 3 || mp == 6 || mp == 8 { 30int }
            else if mp == 11 { 29int } else { 31int }),
    ensures
        ({
            let m = if mp < 10 { mp + 3 } else { mp - 9 };
            let y = if m <= 2 { 400 * e + t + 1 } else { 400 * e + t };
            let d = doy - before + 1;
            &&& is_valid_date(y, m, d)
            &&& days_from_civil(y, m, d) == 146097 * e + doe - 719468
        }),
{
    let m = if mp < 10 { mp + 3 } else { mp - 9 };
    let y = if m <= 2 { 400 * e + t + 1 } else { 400 * e + t };
    lemma_leaps_in_era(e, t);
    assert(leaps_through(1969) == 477);
    if m > 2 {
        lemma_leaps_step(400 * e + t);
        assert(days_before_month(y, m) == before + 59 + (if is_leap_year(y) { 1int } else { 0int }));
    } else {
        if t < 399 {
            lemma_leaps_in_era(e, t + 1);
        } else {
            lemma_leaps_in_era(e + 1, 0);
            assert(400 * e + t + 1 == 400 * (e + 1) + 0);
        }
        assert(days_before_month(y, m) == before - 306);
    }
}

/// Converts a Unix-epoch day count to a Gregorian `(year, month, day)`.
pub fn civil_from_days(days: i64) -> (r: (i32, u32, u32))
    requires
        civil_days_in_range(days as int),
    ensures
        is_valid_date(r.0 as int, r.1 as int, r.2 as int),
        days_from_civil(r.0 as int, r.1 as int, r.2 as int) == days,
{
    let z: i64 = days + 719468;
    let era: i64;
    let doe: u32;
    if z >= 0 {
        let zu: u64 = z as u64;
        era = (zu / 146097) as i64;
        doe = (zu % 146097) as u32;
    } else {
        let nz: u64 = (-(z + 1)) as u64;
        let q: u64 = nz / 146097;
        let rem: u64 = nz % 146097;
        era = -(q as i64) - 1;
        doe = (146096 - rem) as u32;
    }
    assert(z == 146097 * era + doe && 0 <= doe < 146097) by {
        if z < 0 {
            lemma_fundamental_div_mod(-(z + 1), 146097);
        } else {
            lemma_fundamental_div_mod(z as int, 146097);
        }
    }
    assert(era == era_of_days(days as int)) by {
        lemma_fundamental_div_mod_converse(z as int, 146097, era as int, doe as int);
    }
    proof {
        lemma_year_of_era(doe);
    }
    let yoe: u32 = (doe - doe / 1460 + doe / 36524 - doe / 146096) / 365;
    let start: u32 = 365 * yoe + yoe / 4 - yoe / 100;
    let doy: u32 = doe - start;
    proof {
        lemma_month_of_year(doy);
    }
    let mp: u32 = (5 * doy + 2) / 153;
    let before: u32 = (153 * mp + 2) / 5;
    let d: u32 = doy - before + 1;
    let m: u32 = if mp < 10 { mp + 3 } else { mp - 9 };
    let base: i64 = era * 400 + yoe as i64;
    let y: i64 = if m <= 2 { base + 1 } else { base };
    proof {
        lemma_civil_link(era as int, doe as int, yoe as int, doy as int, mp as int, before as int);
    }
    (y as i32, m, d)
}

/// A valid date falls inside its own year.
proof fn lemma_date_in_year(y: int, m: int, d: int)
    requires
        is_valid_date(y, m, d),
    ensures
        days_before_year(y) <= days_from_civil(y, m, d) < days_before_year(y + 1),
{
    lemma_leaps_step(y);
}

/// January 1st moves at least 365 days per year.
proof fn lemma_year_start_monotone(a: int, b: int)
    requires
        a <= b,
    ensures
        days_before_year(a) + 365 * (b - a) <= days_before_year(b),
    decreases b - a,
{
    if a < b {
        lemma_year_start_monotone(a, b - 1);
        lemma_leaps_step(b - 1);
    }
}

/// Day counts at or after the epoch belong to years from 1970 on.
pub proof fn lemma_nonnegative_days_year(y: int, m: int, d: int)
    requires
        is_valid_date(y, m, d),
        days_from_civil(y, m, d) >= 0,
    ensures
        y >= 1970,
{
    lemma_date_in_year(y, m, d);
    if y < 1970 {
        lemma_year_start_monotone(y + 1, 1970);
    }
}

/// Distinct calendar dates have distinct day counts: the date that
/// [`civil_from_days`] returns for a day count is the only valid one.
pub proof fn lemma_days_from_civil_injective(y1: int, m1: int, d1: int, y2: int, m2: int, d2: int)
    requires
        is_valid_date(y1, m1, d1),
        is_valid_date(y2, m2, d2),
        days_from_civil(y1, m1, d1) == days_from_civil(y2, m2, d2),
    ensures
        y1 == y2,
        m1 == m2,
        d1 == d2,
{
    lemma_date_in_year(y1, m1, d1);
    lemma_date_in_year(y2, m2, d2);
    if y1 < y2 {
        lemma_year_start_monotone(y1 + 1, y2);
    } else if y2 < y1 {
        lemma_year_start_monotone(y2 + 1, y1);
    }
    assert(y1 == y2);
}

} // verus!
