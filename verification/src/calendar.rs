//! Proleptic Gregorian calendar arithmetic on UNIX day numbers.

use vstd::prelude::*;

verus! {

/// Days from 1970-01-01 to January 1st of year `y` of the proleptic Gregorian
/// calendar (negative for years before 1970).
pub open spec fn days_before_year(y: int) -> int {
    let p = y - 1;
    365 * p + p / 4 - p / 100 + p / 400 - 719162
}

/// `y` is the year that contains day number `day` (days since 1970-01-01).
pub open spec fn year_holds_day(y: int, day: int) -> bool {
    days_before_year(y) <= day < days_before_year(y + 1)
}

/// The calendar year containing day number `day`.
pub open spec fn year_of_day(day: int) -> int {
    choose|y: int| year_holds_day(y, day)
}

/// Day number (days since 1970-01-01, rounded towards negative infinity) of a
/// UNIX timestamp in seconds.
pub open spec fn unix_day(secs: int) -> int {
    secs / 86400
}

/// Day counts at year boundaries, counted from 0000-03-01 with the
/// year starting in March: `march_year_start(y)` is the offset of March 1st
/// of year `y`.
pub open spec fn march_year_start(y: int) -> int {
    365 * y + y / 4 - y / 100 + y / 400
}

proof fn lemma_div_is(a: int, b: int, q: int)
    requires
        b > 0,
        q * b <= a < q * b + b,
    ensures
        a / b == q,
{
    assert(a / b == q) by (nonlinear_arith)
        requires
            b > 0,
            q * b <= a < q * b + b,
    {
        let d = a / b;
        let r = a % b;
        assert(a == d * b + r);
        assert(0 <= r < b);
        if d < q {
            assert(d * b + b <= q * b);
        }
        if d > q {
            assert(q * b + b <= d * b);
        }
    }
}

proof fn lemma_div_bounds(a: int, b: int)
    requires
        b > 0,
    ensures
        (a / b) * b <= a < (a / b) * b + b,
{
    assert((a / b) * b <= a < (a / b) * b + b) by (nonlinear_arith)
        requires
            b > 0,
    {
        assert(a == (a / b) * b + a % b);
    }
}

/// Consecutive March-based year starts are 365 or 366 days apart.
proof fn lemma_march_year_step(y: int)
    ensures
        365 <= march_year_start(y + 1) - march_year_start(y) <= 366,
{
    lemma_div_bounds(y, 4);
    lemma_div_bounds(y + 1, 4);
    lemma_div_bounds(y, 100);
    lemma_div_bounds(y + 1, 100);
    lemma_div_bounds(y, 400);
    lemma_div_bounds(y + 1, 400);
    let a = (y + 1) / 4 - y / 4;
    let b = (y + 1) / 100 - y / 100;
    let c = (y + 1) / 400 - y / 400;
    assert(0 <= a <= 1);
    assert(0 <= b <= 1);
    assert(0 <= c <= 1);
    // A century step without a four-year step is impossible, and a
    // 400-year step comes with a century step.
    if b == 1 && a == 0 {
        assert((y + 1) % 100 == 0) by {
            lemma_div_bounds(y + 1, 100);
        }
        assert(false) by (nonlinear_arith)
            requires
                (y + 1) / 100 == y / 100 + 1,
                (y + 1) / 4 == y / 4,
                (y + 1) / 100 * 100 <= y + 1,
                y < (y / 100) * 100 + 100,
                (y / 100) * 100 <= y,
                (y / 4) * 4 <= y,
                y + 1 < ((y + 1) / 4) * 4 + 4,
        {
        }
    }
    if c == 1 && b == 0 {
        assert(false) by (nonlinear_arith)
            requires
                (y + 1) / 400 == y / 400 + 1,
                (y + 1) / 100 == y / 100,
                (y + 1) / 400 * 400 <= y + 1,
                y < (y / 400) * 400 + 400,
                (y / 100) * 100 <= y,
                y + 1 < ((y + 1) / 100) * 100 + 100,
        {
        }
    }
}

/// `days_before_year` grows by 365 or 366 from one year to the next.
pub proof fn lemma_year_length(y: int)
    ensures
        365 <= days_before_year(y + 1) - days_before_year(y) <= 366,
{
    lemma_march_year_step(y - 1);
    assert(days_before_year(y) == march_year_start(y - 1) - 719162);
    assert(days_before_year(y + 1) == march_year_start(y) - 719162);
}

/// `days_before_year` is strictly increasing.
pub proof fn lemma_days_before_year_increasing(y1: int, y2: int)
    requires
        y1 < y2,
    ensures
        days_before_year(y1) < days_before_year(y2),
    decreases y2 - y1,
{
    lemma_year_length(y1);
    if y1 + 1 < y2 {
        lemma_days_before_year_increasing(y1 + 1, y2);
    }
}

/// Each day lies in exactly one year: any year that holds `day` is the one
/// that `year_of_day` names.
pub proof fn lemma_year_of_day_unique(y: int, day: int)
    requires
        year_holds_day(y, day),
    ensures
        year_of_day(day) == y,
        year_holds_day(year_of_day(day), day),
{
    let z = year_of_day(day);
    assert(year_holds_day(z, day));
    if z < y {
        assert(days_before_year(z + 1) <= days_before_year(y)) by {
            if z + 1 < y {
                lemma_days_before_year_increasing(z + 1, y);
            }
        }
    } else if z > y {
        assert(days_before_year(y + 1) <= days_before_year(z)) by {
            if y + 1 < z {
                lemma_days_before_year_increasing(y + 1, z);
            }
        }
    }
}

/// Shifting by whole multiples of the divisor.
proof fn lemma_div_shift(m: int, x: int, b: int)
    requires
        b > 0,
    ensures
        (m * b + x) / b == m + x / b,
{
    lemma_div_bounds(x, b);
    assert((m + x / b) * b <= m * b + x < (m + x / b) * b + b) by (nonlinear_arith)
        requires
            (x / b) * b <= x < (x / b) * b + b,
    {
    }
    lemma_div_is(m * b + x, b, m + x / b);
}

/// Within one 400-year era (day offset `doe` in `0..146097` from March 1st of
/// the era's first year), the year-of-era formula lands on the March-based
/// year that holds `doe`.
proof fn lemma_year_of_era(doe: int)
    requires
        0 <= doe <= 146096,
    ensures
        ({
            let yoe = (doe - doe / 1460 + doe / 36524 - doe / 146096) / 365;
            &&& 0 <= yoe <= 399
            &&& march_year_start(yoe) <= doe < march_year_start(yoe + 1)
            &&& march_year_start(yoe) == 365 * yoe + yoe / 4 - yoe / 100
        }),
{
    let yoe = (doe - doe / 1460 + doe / 36524 - doe / 146096) / 365;
    if doe == 146096 {
        lemma_div_is(doe, 1460, 100);
        lemma_div_is(doe, 36524, 4);
        lemma_div_is(doe, 146096, 1);
        lemma_div_is(145999, 365, 399);
        assert(yoe == 399);
        lemma_div_is(399, 4, 99);
        lemma_div_is(399, 100, 3);
        lemma_div_is(399, 400, 0);
        lemma_div_is(400, 4, 100);
        lemma_div_is(400, 100, 4);
        lemma_div_is(400, 400, 1);
    } else {
        lemma_div_bounds(doe, 36524);
        let c = doe / 36524;
        assert(0 <= c <= 3);
        let r = doe - 36524 * c;
        assert(0 <= r <= 36523);
        lemma_div_bounds(r, 1461);
        let k = r / 1461;
        let j = r - 1461 * k;
        assert(0 <= k <= 24);
        assert(0 <= j <= 1460);
        assert(k == 24 ==> j <= 1459);
        lemma_div_is(doe, 146096, 0);
        let e: int = if 24 * c + k + j >= 1460 { 1 } else { 0 };
        lemma_div_is(doe, 1460, 25 * c + k + e);
        assert(doe - doe / 1460 + doe / 36524 - doe / 146096 == 36500 * c + 1460 * k + j - e);
        let t: int = if j >= 1095 { 3 } else if j >= 730 { 2 } else if j >= 365 { 1 } else { 0 };
        assert(e == 1 ==> j >= 1364);
        assert(j == 1460 ==> e == 1);
        assert(365 * t <= j - e < 365 * t + 365);
        lemma_div_is(36500 * c + 1460 * k + j - e, 365, 100 * c + 4 * k + t);
        assert(yoe == 100 * c + 4 * k + t);
        lemma_div_is(yoe, 4, 25 * c + k);
        lemma_div_is(yoe, 100, c);
        lemma_div_is(yoe, 400, 0);
        assert(march_year_start(yoe) == 36524 * c + 1461 * k + 365 * t);
        let n = yoe + 1;
        if t < 3 {
            lemma_div_is(n, 4, 25 * c + k);
            lemma_div_is(n, 100, c);
            lemma_div_is(n, 400, 0);
        } else if k < 24 {
            lemma_div_is(n, 4, 25 * c + k + 1);
            lemma_div_is(n, 100, c);
            lemma_div_is(n, 400, 0);
        } else {
            lemma_div_is(n, 4, 25 * c + 25);
            lemma_div_is(n, 100, c + 1);
            if c < 3 {
                lemma_div_is(n, 400, 0);
            } else {
                lemma_div_is(n, 400, 1);
            }
        }
    }
}

/// March-based year starts of year `400 * era + yoe`.
proof fn lemma_march_year_start_era(era: int, yoe: int)
    requires
        0 <= yoe <= 400,
    ensures
        march_year_start(400 * era + yoe) == 146097 * era + march_year_start(yoe),
{
    lemma_div_shift(100 * era, yoe, 4);
    lemma_div_shift(4 * era, yoe, 100);
    lemma_div_shift(era, yoe, 400);
    assert(400 * era + yoe == (100 * era) * 4 + yoe);
    assert(400 * era + yoe == (4 * era) * 100 + yoe);
    assert(400 * era + yoe == era * 400 + yoe);
}

/// Every day lies in some year: the year of era, day of year and month
/// shift of the civil-from-days computation name it.
pub proof fn lemma_year_exists(day: int)
    ensures
        year_holds_day(year_of_day(day), day),
{
    let z = day + 719468;
    lemma_div_bounds(z, 146097);
    let era = z / 146097;
    let doe = z - era * 146097;
    lemma_year_of_era(doe);
    let yoe = (doe - doe / 1460 + doe / 36524 - doe / 146096) / 365;
    let ym = yoe + era * 400;
    lemma_march_year_start_era(era, yoe);
    lemma_march_year_start_era(era, yoe + 1);
    assert(400 * era + yoe == ym);
    assert(400 * era + (yoe + 1) == ym + 1);
    assert(march_year_start(ym) <= z < march_year_start(ym + 1));
    let doy = z - march_year_start(ym);
    lemma_march_year_step(ym - 1);
    lemma_march_year_step(ym);
    let y = if doy >= 306 { ym + 1 } else { ym };
    assert(days_before_year(y) == march_year_start(y - 1) - 719162);
    assert(days_before_year(y + 1) == march_year_start(y) - 719162);
    assert(year_holds_day(y, day));
    lemma_year_of_day_unique(y, day);
}

/// Later instants never fall in an earlier year.
pub proof fn lemma_civil_year_monotonic(secs1: int, secs2: int)
    requires
        secs1 <= secs2,
    ensures
        unix_day(secs1) <= unix_day(secs2),
        year_of_day(unix_day(secs1)) <= year_of_day(unix_day(secs2)),
{
    lemma_div_bounds(secs1, 86400);
    lemma_div_bounds(secs2, 86400);
    let d1 = unix_day(secs1);
    let d2 = unix_day(secs2);
    assert(d1 <= d2) by (nonlinear_arith)
        requires
            d1 * 86400 <= secs1,
            secs1 <= secs2,
            secs2 < d2 * 86400 + 86400,
    {
    }
    lemma_year_exists(d1);
    lemma_year_exists(d2);
    let y1 = year_of_day(d1);
    let y2 = year_of_day(d2);
    if y1 > y2 {
        if y2 + 1 < y1 {
            lemma_days_before_year_increasing(y2 + 1, y1);
        }
    }
}

/// Day number of a UNIX timestamp (days since 1970-01-01, rounding towards
/// negative infinity).
fn day_of_unix(secs: i64) -> (d: i64)
    ensures
        d == unix_day(secs as int),
{
    proof {
        lemma_div_bounds(secs as int, 86400);
    }
    if secs >= 0 {
        secs / 86400
    } else {
        let n = -(secs + 1);
        proof {
            lemma_div_bounds(n as int, 86400);
            lemma_div_is(secs as int, 86400, -(n as int / 86400) - 1);
        }
        -(n / 86400) - 1
    }
}

/// Gregorian (proleptic) year for a UNIX timestamp in seconds (UTC).
///
/// The year is truncated to `i32` the way an `as` cast does; every timestamp
/// of the years `i32::MIN..=i32::MAX` gets its exact year.
pub fn civil_year_from_unix(secs: i64) -> (year: i32)
    ensures
        year_holds_day(year_of_day(unix_day(secs as int)), unix_day(secs as int)),
        year == #[verifier::truncate] (year_of_day(unix_day(secs as int)) as i32),
        i32::MIN <= year_of_day(unix_day(secs as int)) <= i32::MAX ==> year as int == year_of_day(
            unix_day(secs as int),
        ),
{
    let days = day_of_unix(secs);
    proof {
        lemma_div_bounds(secs as int, 86400);
        assert(-106751991167301 <= days <= 106751991167300) by (nonlinear_arith)
            requires
                days * 86400 <= secs < days * 86400 + 86400,
                i64::MIN <= secs <= i64::MAX,
        {
        }
    }
    let z = days + 719_468;
    let era = if z >= 0 { z } else { z - 146_096 } / 146_097;
    proof {
        lemma_div_bounds(z as int, 146097);
        if z < 0 {
            let w = -(z - 146096);
            lemma_div_bounds(w as int, 146097);
            lemma_div_is(z as int, 146097, -(w / 146097));
        }
        assert(era == z as int / 146097);
        assert(-800000000 <= era <= 800000000) by (nonlinear_arith)
            requires
                era * 146097 <= z < era * 146097 + 146097,
                -106751991167301 + 719468 <= z <= 106751991167300 + 719468,
        {
        }
    }
    let doe = z - era * 146_097;
    assert(0 <= doe <= 146096);
    let yoe = (doe - doe / 1460 + doe / 36_524 - doe / 146_096) / 365;
    proof {
        lemma_year_of_era(doe as int);
    }
    let doy = doe - (365 * yoe + yoe / 4 - yoe / 100);
    let mp = (5 * doy + 2) / 153;
    let m = if mp < 10 { mp + 3 } else { mp - 9 };
    let y = yoe + era * 400 + if m <= 2 { 1i64 } else { 0i64 };
    proof {
        let ym = yoe + era * 400;
        lemma_march_year_start_era(era as int, yoe as int);
        lemma_march_year_start_era(era as int, yoe + 1);
        assert(400 * era + yoe == ym);
        assert(400 * era + (yoe + 1) == ym + 1);
        assert(march_year_start(ym) <= z < march_year_start(ym + 1));
        assert(doy == z - march_year_start(ym));
        assert(0 <= doy <= 365) by {
            lemma_march_year_step(ym);
        }
        lemma_div_bounds(5 * doy + 2, 153);
        assert((m <= 2) == (doy >= 306));
        lemma_march_year_step(ym - 1);
        lemma_march_year_step(ym);
        assert(days_before_year(y as int) == march_year_start(y - 1) - 719162);
        assert(days_before_year(y + 1) == march_year_start(y as int) - 719162);
        assert(year_holds_day(y as int, days as int));
        lemma_year_of_day_unique(y as int, days as int);
    }
    #[verifier::truncate] (y as i32)
}

} // verus!
