//! The proleptic Gregorian calendar, counted in days from 1970-01-01, and the
//! facts that let a day count be split into a date by whole 400-year eras.

use vstd::prelude::*;

verus! {

/// Divisible by 4, and by 400 where divisible by 100.
pub open spec fn is_leap_year(y: int) -> bool {
    y % 4 == 0 && (y % 100 != 0 || y % 400 == 0)
}

/// The length of month `m` (1 to 12) of year `y`.
pub open spec fn days_in_month(y: int, m: int) -> int {
    if m == 2 {
        if is_leap_year(y) { 29 } else { 28 }
    } else if m == 4 || m == 6 || m == 9 || m == 11 {
        30
    } else {
        31
    }
}

/// The days of the months of year `y` before month `m` (1 to 12).
pub open spec fn days_before_month(y: int, m: int) -> int {
    let common: int = if m == 1 { 0 }
        else if m == 2 { 31 }
        else if m == 3 { 59 }
        else if m == 4 { 90 }
        else if m == 5 { 120 }
        else if m == 6 { 151 }
        else if m == 7 { 181 }
        else if m == 8 { 212 }
        else if m == 9 { 243 }
        else if m == 10 { 273 }
        else if m == 11 { 304 }
        else { 334 };
    if m > 2 && is_leap_year(y) { common + 1 } else { common }
}

/// The leap years among 1 to `y`.
pub open spec fn leap_years_through(y: int) -> int {
    y / 4 - y / 100 + y / 400
}

/// Days from 1970-01-01 to 1 January of year `y`.
pub open spec fn days_before_year(y: int) -> int {
    365 * (y - 1970) + leap_years_through(y - 1) - leap_years_through(1969)
}

/// The day number of a date: days from 1970-01-01 to `y`-`m`-`d`.
pub open spec fn days_from_civil(y: int, m: int, d: int) -> int {
    days_before_year(y) + days_before_month(y, m) + d - 1
}

/// A month of the year and a day of that month.
pub open spec fn is_valid_date(y: int, m: int, d: int) -> bool {
    1 <= m <= 12 && 1 <= d <= days_in_month(y, m)
}

/// The date, as (year, month, day), whose day number is `n`.
pub open spec fn civil_date(n: int) -> (int, int, int) {
    choose|y: int, m: int, d: int| is_valid_date(y, m, d) && days_from_civil(y, m, d) == n
}

/// Days from 0000-03-01 to `y`-03-01: the lengths of the March-based years
/// before `y`, each 29 February counted in the year it ends.
spec fn days_to_march(y: int) -> int {
    365 * y + y / 4 - y / 100 + y / 400
}

/// Within one 400-year era, the year of day `doe` (counted from the era's
/// first 1 March) is the one the era arithmetic computes.
#[verifier::spinoff_prover]
#[verifier::rlimit(50)]
proof fn lemma_year_of_era(doe: int)
    requires
        0 <= doe < 146_097,
    ensures
        ({
            let yoe = (doe - doe / 1460 + doe / 36524 - doe / 146_096) / 365;
            &&& 0 <= yoe < 400
            &&& days_to_march(yoe) <= doe < days_to_march(yoe + 1)
        }),
{
}

/// Whole eras shift the March-based day count by 146097 days each.
proof fn lemma_days_to_march_eras(era: int, k: int)
    requires
        0 <= era,
        0 <= k <= 400,
    ensures
        days_to_march(400 * era + k) == 146_097 * era + days_to_march(k),
{
    assert((400 * era + k) / 4 == 100 * era + k / 4);
    assert((400 * era + k) / 100 == 4 * era + k / 100);
    assert((400 * era + k) / 400 == era + k / 400);
}

/// One more year adds 365 days, and one more for a leap year.
proof fn lemma_leap_step(y: int)
    ensures
        leap_years_through(y) - leap_years_through(y - 1) == (if is_leap_year(y) { 1int } else { 0int }),
        days_to_march(y) - days_to_march(y - 1) == 365 + (if is_leap_year(y) { 1int } else { 0int }),
        days_before_year(y + 1) - days_before_year(y) == 365 + (if is_leap_year(y) { 1int } else { 0int }),
{
    assert(y / 4 - (y - 1) / 4 == (if y % 4 == 0 { 1int } else { 0int }));
    assert(y / 100 - (y - 1) / 100 == (if y % 100 == 0 { 1int } else { 0int }));
    assert(y / 400 - (y - 1) / 400 == (if y % 400 == 0 { 1int } else { 0int }));
    assert(y % 400 == 0 ==> y % 100 == 0);
    assert(y % 100 == 0 ==> y % 4 == 0);
}

/// A date of year `y` falls within that year's days.
proof fn lemma_date_within_year(y: int, m: int, d: int)
    requires
        is_valid_date(y, m, d),
    ensures
        days_before_year(y) <= days_from_civil(y, m, d) < days_before_year(y + 1),
{
    lemma_leap_step(y);
}

/// Later years start later.
proof fn lemma_years_ordered(y1: int, y2: int)
    requires
        y1 < y2,
    ensures
        days_before_year(y1 + 1) <= days_before_year(y2),
    decreases y2 - y1,
{
    if y1 + 1 < y2 {
        lemma_years_ordered(y1 + 1, y2);
        lemma_leap_step(y1 + 1);
    }
}

/// Two dates with the same day number are the same date.
pub proof fn lemma_date_unique(y1: int, m1: int, d1: int, y2: int, m2: int, d2: int)
    requires
        is_valid_date(y1, m1, d1),
        is_valid_date(y2, m2, d2),
        days_from_civil(y1, m1, d1) == days_from_civil(y2, m2, d2),
    ensures
        y1 == y2 && m1 == m2 && d1 == d2,
{
    lemma_date_within_year(y1, m1, d1);
    lemma_date_within_year(y2, m2, d2);
    if y1 < y2 {
        lemma_years_ordered(y1, y2);
    } else if y2 < y1 {
        lemma_years_ordered(y2, y1);
    } else {
        lemma_month_unique(y1, m1, d1, m2, d2);
    }
}

/// Within one year, two dates with the same offset are the same date.
proof fn lemma_month_unique(y: int, m1: int, d1: int, m2: int, d2: int)
    requires
        is_valid_date(y, m1, d1),
        is_valid_date(y, m2, d2),
        days_before_month(y, m1) + d1 == days_before_month(y, m2) + d2,
    ensures
        m1 == m2 && d1 == d2,
{
}

/// The era arithmetic on day number `n` gives the date whose day number is
/// `n`: `z` counts days from 0000-03-01, `era` whole 400-year eras, `yoe`
/// and `doy` the year of the era and day of that March-based year, `mp` its
/// month counted from March.
pub proof fn lemma_civil_date_by_eras(
    n: int,
    era: int,
    doe: int,
    yoe: int,
    doy: int,
    mp: int,
    d: int,
    m: int,
    y: int,
)
    requires
        n >= 0,
        era == (n + 719_468) / 146_097,
        doe == n + 719_468 - era * 146_097,
        yoe == (doe - doe / 1460 + doe / 36524 - doe / 146_096) / 365,
        doy == doe - (365 * yoe + yoe / 4 - yoe / 100),
        mp == (5 * doy + 2) / 153,
        d == doy - (153 * mp + 2) / 5 + 1,
        m == (if mp < 10 { mp + 3 } else { mp - 9 }),
        y == yoe + era * 400 + (if m <= 2 { 1int } else { 0int }),
    ensures
        civil_date(n) == (y, m, d),
        is_valid_date(y, m, d),
        days_from_civil(y, m, d) == n,
{
    lemma_year_of_era(doe);
    let ym = 400 * era + yoe;
    lemma_days_to_march_eras(era, yoe);
    lemma_days_to_march_eras(era, yoe + 1);
    assert(days_to_march(yoe) == 365 * yoe + yoe / 4 - yoe / 100);
    // n + 719468 == days_to_march(ym) + doy, with doy within the year ym.
    assert(n + 719_468 == days_to_march(ym) + doy);
    lemma_leap_step(ym + 1);
    lemma_leap_step(ym);
    assert(0 <= doy < 365 + (if is_leap_year(ym + 1) { 1int } else { 0int }));
    lemma_month_of_year(doy, mp, d);
    // days_before_year(Y) == days_to_march(Y - 1) + 306 - 719468
    assert(days_before_year(ym) == days_to_march(ym - 1) + 306 - 719_468);
    assert(days_before_year(ym + 1) == days_to_march(ym) + 306 - 719_468);
    assert(is_valid_date(y, m, d));
    assert(days_from_civil(y, m, d) == n);
    let c = civil_date(n);
    lemma_date_unique(c.0, c.1, c.2, y, m, d);
}

/// The month counted from March, and the day of that month, of day `doy` of a
/// March-based year.
proof fn lemma_month_of_year(doy: int, mp: int, d: int)
    requires
        0 <= doy <= 365,
        mp == (5 * doy + 2) / 153,
        d == doy - (153 * mp + 2) / 5 + 1,
    ensures
        0 <= mp <= 11,
        1 <= d,
        mp < 11 ==> d <= (153 * (mp + 1) + 2) / 5 - (153 * mp + 2) / 5,
        mp == 11 ==> d == doy - 336,
        (153 * mp + 2) / 5 == (if mp == 0 { 0int }
            else if mp == 1 { 31int }
            else if mp == 2 { 61int }
            else if mp == 3 { 92int }
            else if mp == 4 { 122int }
            else if mp == 5 { 153int }
            else if mp == 6 { 184int }
            else if mp == 7 { 214int }
            else if mp == 8 { 245int }
            else if mp == 9 { 275int }
            else if mp == 10 { 306int }
            else { 337int }),
{
    assert(0 <= mp <= 11);
    assert((153 * mp + 2) / 5 <= doy < (153 * (mp + 1) + 2) / 5) by (nonlinear_arith)
        requires
            0 <= doy <= 365,
            mp == (5 * doy + 2) / 153,
    ;
}

} // verus!
