//! Calendar arithmetic: the proleptic Gregorian calendar, counted in days
//! from 1970-01-01.
use vstd::prelude::*;
use vstd::arithmetic::div_mod::lemma_fundamental_div_mod_converse;

verus! {

/// Whether `y` is a leap year of the proleptic Gregorian calendar.
pub open spec fn is_leap_year(y: int) -> bool {
    (y % 4 == 0 && y % 100 != 0) || y % 400 == 0
}

/// The number of leap years among the years `1..=y` (for `y >= 0`).
pub open spec fn leap_years_through(y: int) -> int {
    y / 4 - y / 100 + y / 400
}

/// The number of days of month `m` (1-based) of year `y`.
pub open spec fn days_in_month(y: int, m: int) -> int {
    if m == 2 {
        if is_leap_year(y) { 29 } else { 28 }
    } else if m == 4 || m == 6 || m == 9 || m == 11 {
        30
    } else {
        31
    }
}

/// The number of days of the months `1..m` of year `y`.
pub open spec fn days_before_month(y: int, m: int) -> int
    decreases m,
{
    if m <= 1 { 0 } else { days_before_month(y, m - 1) + days_in_month(y, m - 1) }
}

/// The number of days from 1970-01-01 to the first of January of year `y`.
pub open spec fn days_before_year(y: int) -> int {
    365 * (y - 1970) + leap_years_through(y - 1) - leap_years_through(1969)
}

/// The number of days from 1970-01-01 to the date `y-m-d`.
pub open spec fn days_since_epoch(y: int, m: int, d: int) -> int {
    days_before_year(y) + days_before_month(y, m) + d - 1
}

/// Whether `(y, m, d)` names a day of the calendar.
pub open spec fn is_valid_date(y: int, m: int, d: int) -> bool {
    1 <= m <= 12 && 1 <= d <= days_in_month(y, m)
}

proof fn lemma_year_of_era(doe: u64)
    by (bit_vector)
    requires
        doe < 146097,
    ensures
        ({
            let yoe = (doe - doe / 1460 + doe / 36524 - doe / 146096) / 365;
            let start = 365 * yoe + yoe / 4 - yoe / 100;
            &&& yoe < 400
            &&& start <= doe
            &&& doe - start < 365 + (if (yoe + 1) % 4 == 0 && ((yoe + 1) % 100 != 0 || yoe == 399) {
                1u64
            } else {
                0u64
            })
        }),
{
}

proof fn lemma_month_of_year(doy: u64)
    by (bit_vector)
    requires
        doy < 366,
    ensures
        ({
            let mp = (5 * doy + 2) / 153;
            &&& mp < 12
            &&& (153 * mp + 2) / 5 <= doy
            &&& doy < (153 * (mp + 1) + 2) / 5
        }),
{
}

/// Days of the months March..(March + mp - 1), for a year counted from March.
spec fn march_offset(mp: int) -> int {
    if mp == 0 { 0 }
    else if mp == 1 { 31 }
    else if mp == 2 { 61 }
    else if mp == 3 { 92 }
    else if mp == 4 { 122 }
    else if mp == 5 { 153 }
    else if mp == 6 { 184 }
    else if mp == 7 { 214 }
    else if mp == 8 { 245 }
    else if mp == 9 { 275 }
    else if mp == 10 { 306 }
    else if mp == 11 { 337 }
    else { 367 }
}

proof fn lemma_march_offset(mp: u64)
    requires
        mp <= 12,
    ensures
        (153 * mp + 2) / 5 == march_offset(mp as int),
{
    if mp == 0 {} else if mp == 1 {} else if mp == 2 {} else if mp == 3 {} else if mp == 4 {}
    else if mp == 5 {} else if mp == 6 {} else if mp == 7 {} else if mp == 8 {} else if mp == 9 {}
    else if mp == 10 {} else if mp == 11 {} else {}
}

proof fn lemma_days_before_month_table(y: int, m: int)
    requires
        1 <= m <= 12,
    ensures
        days_before_month(y, m) == (if m <= 2 {
            if m == 1 { 0 } else { 31 }
        } else {
            march_offset(m - 3) + 59 + (if is_leap_year(y) { 1int } else { 0 })
        }),
{
    reveal_with_fuel(days_before_month, 13);
}

proof fn lemma_leap_step(y: int)
    requires
        y >= 1,
    ensures
        leap_years_through(y) == leap_years_through(y - 1) + (if is_leap_year(y) { 1int } else { 0 }),
{
    let x = y - 1;
    lemma_step_div(x, 4);
    lemma_step_div(x, 100);
    lemma_step_div(x, 400);
}

proof fn lemma_step_div(x: int, d: int)
    requires
        x >= 0,
        d > 1,
    ensures
        (x + 1) / d == x / d + (if (x + 1) % d == 0 { 1int } else { 0 }),
{
    let q = x / d;
    let r = x % d;
    assert(x == q * d + r) by {
        vstd::arithmetic::div_mod::lemma_fundamental_div_mod(x, d);
        vstd::arithmetic::mul::lemma_mul_is_commutative(d, q);
    }
    assert(0 <= r < d) by {
        vstd::arithmetic::div_mod::lemma_mod_bound(x, d);
    }
    if r + 1 == d {
        assert(x + 1 == (q + 1) * d + 0) by (nonlinear_arith)
            requires x == q * d + r, r + 1 == d;
        lemma_fundamental_div_mod_converse(x + 1, d, q + 1, 0);
    } else {
        assert(x + 1 == q * d + (r + 1));
        lemma_fundamental_div_mod_converse(x + 1, d, q, r + 1);
    }
}

proof fn lemma_era_split(e: int, r: int, d: int, k: int)
    requires
        e >= 0,
        0 <= r < 400,
        d > 0,
        k >= 0,
        400 == k * d,
    ensures
        (400 * e + r) / d == k * e + r / d,
        (400 * e + r) % d == r % d,
{
    vstd::arithmetic::div_mod::lemma_fundamental_div_mod(r, d);
    vstd::arithmetic::div_mod::lemma_mod_bound(r, d);
    let q = r / d;
    let s = r % d;
    assert(400 * e + r == (k * e + q) * d + s) by (nonlinear_arith)
        requires r == d * q + s, 400 == k * d;
    lemma_fundamental_div_mod_converse(400 * e + r, d, k * e + q, s);
}

proof fn lemma_leap_era(e: int, r: int)
    requires
        e >= 0,
        0 <= r < 400,
    ensures
        leap_years_through(400 * e + r) == 97 * e + leap_years_through(r),
        is_leap_year(400 * e + r) == is_leap_year(r),
{
    lemma_era_split(e, r, 4, 100);
    lemma_era_split(e, r, 100, 4);
    lemma_era_split(e, r, 400, 1);
}

/// The calendar day after `(y, m, d)`.
pub open spec fn next_day(y: int, m: int, d: int) -> (int, int, int) {
    if d < days_in_month(y, m) {
        (y, m, d + 1)
    } else if m < 12 {
        (y, m + 1, 1)
    } else {
        (y + 1, 1, 1)
    }
}

/// A year has 365 days, and one more in a leap year.
proof fn lemma_year_length(y: int)
    requires
        y >= 1,
    ensures
        days_before_year(y + 1) == days_before_year(y) + 365 + (if is_leap_year(y) { 1int } else { 0 }),
{
    lemma_leap_step(y);
}

/// Later years start later.
proof fn lemma_years_ordered(a: int, b: int)
    requires
        1 <= a <= b,
    ensures
        days_before_year(a) <= days_before_year(b),
    decreases b - a,
{
    if a < b {
        lemma_years_ordered(a, b - 1);
        lemma_year_length(b - 1);
    }
}

/// Later months of a year start after the earlier ones have ended.
proof fn lemma_months_ordered(y: int, m1: int, m2: int)
    requires
        1 <= m1 < m2,
    ensures
        days_before_month(y, m1) + days_in_month(y, m1) <= days_before_month(y, m2),
    decreases m2 - m1,
{
    if m1 + 1 < m2 {
        lemma_months_ordered(y, m1, m2 - 1);
        assert(days_in_month(y, m2 - 1) >= 28);
    }
}

/// The days of a date of year `y` fall within that year.
proof fn lemma_within_year(y: int, m: int, d: int)
    requires
        is_valid_date(y, m, d),
        y >= 1,
    ensures
        days_before_year(y) <= days_since_epoch(y, m, d) < days_before_year(y + 1),
{
    lemma_year_length(y);
    lemma_days_before_month_table(y, m);
    lemma_days_before_month_table(y, 12);
    if m < 12 {
        lemma_months_ordered(y, m, 12);
    }
}

/// Two dates with the same count of days are the same date.
pub proof fn lemma_days_since_epoch_injective(y1: int, m1: int, d1: int, y2: int, m2: int, d2: int)
    requires
        is_valid_date(y1, m1, d1),
        is_valid_date(y2, m2, d2),
        y1 >= 1,
        y2 >= 1,
        days_since_epoch(y1, m1, d1) == days_since_epoch(y2, m2, d2),
    ensures
        y1 == y2 && m1 == m2 && d1 == d2,
{
    lemma_within_year(y1, m1, d1);
    lemma_within_year(y2, m2, d2);
    if y1 < y2 {
        lemma_years_ordered(y1 + 1, y2);
    } else if y2 < y1 {
        lemma_years_ordered(y2 + 1, y1);
    } else if m1 < m2 {
        lemma_months_ordered(y1, m1, m2);
    } else if m2 < m1 {
        lemma_months_ordered(y1, m2, m1);
    }
}

/// The day after a date is the next calendar day: it is a date, it counts
/// one day more, and it is the only date that does.
pub proof fn lemma_day_after(y: int, m: int, d: int, y2: int, m2: int, d2: int)
    requires
        is_valid_date(y, m, d),
        is_valid_date(y2, m2, d2),
        y >= 1,
        y2 >= 1,
        days_since_epoch(y2, m2, d2) == days_since_epoch(y, m, d) + 1,
    ensures
        is_valid_date(next_day(y, m, d).0, next_day(y, m, d).1, next_day(y, m, d).2),
        days_since_epoch(next_day(y, m, d).0, next_day(y, m, d).1, next_day(y, m, d).2)
            == days_since_epoch(y, m, d) + 1,
        (y2, m2, d2) == next_day(y, m, d),
{
    let n = next_day(y, m, d);
    if d < days_in_month(y, m) {
    } else if m < 12 {
        assert(days_before_month(y, m + 1) == days_before_month(y, m) + days_in_month(y, m));
    } else {
        lemma_year_length(y);
        lemma_days_before_month_table(y, 12);
        assert(days_before_month(y + 1, 1) == 0);
    }
    lemma_days_since_epoch_injective(n.0, n.1, n.2, y2, m2, d2);
}

/// A date of year 1 or later that counts no days before 1970-01-01 is in
/// 1970 or later.
proof fn lemma_epoch_year(y: int, m: int, d: int)
    requires
        is_valid_date(y, m, d),
        y >= 1,
        days_since_epoch(y, m, d) >= 0,
    ensures
        y >= 1970,
{
    if y < 1970 {
        lemma_within_year(y, m, d);
        lemma_years_ordered(y + 1, 1970);
    }
}

/// Converts a count of days since 1970-01-01 to `(year, month, day)`.
#[verifier::rlimit(40)]
pub fn days_to_ymd(z: u64) -> (r: (u64, u64, u64))
    requires
        z <= u64::MAX - 719468,
    ensures
        is_valid_date(r.0 as int, r.1 as int, r.2 as int),
        days_since_epoch(r.0 as int, r.1 as int, r.2 as int) == z as int,
        r.0 >= 1970,
{
    let z = z + 719468;
    let era = z / 146097;
    let doe = z % 146097;
    let yoe = (doe - doe / 1460 + doe / 36524 - doe / 146096) / 365;
    proof {
        lemma_year_of_era(doe);
    }
    let doy = doe - (365 * yoe + yoe / 4 - yoe / 100);
    let mp = (5 * doy + 2) / 153;
    proof {
        lemma_month_of_year(doy);
        lemma_march_offset(mp);
        lemma_march_offset((mp + 1) as u64);
    }
    let d = doy - (153 * mp + 2) / 5 + 1;
    let m = if mp < 10 { mp + 3 } else { mp - 9 };
    let y = yoe + era * 400 + if m <= 2 { 1 } else { 0 };
    proof {
        let ei = era as int;
        let yi = yoe as int;
        let big_y = 400 * ei + yi;
        assert(z == 146097 * ei + doe) by {
            vstd::arithmetic::div_mod::lemma_fundamental_div_mod(z as int, 146097);
        }
        lemma_leap_era(ei, yi);
        if yi + 1 < 400 {
            lemma_leap_era(ei, yi + 1);
        } else {
            lemma_leap_era(ei + 1, 0);
        }
        assert(leap_years_through(yi) == yi / 4 - yi / 100);
        // March-based year `big_y` starts this many days after 0000-03-01.
        assert(365 * big_y + leap_years_through(big_y) == 146097 * ei + 365 * yi + yi / 4 - yi / 100);
        lemma_leap_step(big_y + 1);
        if big_y >= 1 {
            lemma_leap_step(big_y);
        }
        lemma_days_before_month_table(y as int, m as int);
        if yi + 1 == 400 {
            assert(is_leap_year(yi + 1));
        }
        assert(is_leap_year(big_y + 1) == (((yoe + 1) % 4 == 0 && ((yoe + 1) % 100 != 0 || yoe == 399))));
    }
    proof {
        assert(era >= 4) by {
            vstd::arithmetic::div_mod::lemma_div_is_ordered(584388, z as int, 146097);
        }
        lemma_epoch_year(y as int, m as int, d as int);
    }
    (y, m, d)
}

} // verus!
