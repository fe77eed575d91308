//! Copyright year label shared across the web surfaces.

use vstd::prelude::*;

use crate::calendar::{
    civil_year_from_unix, lemma_year_exists, unix_day, year_holds_day, year_of_day,
};
use crate::text::{decimal_digits, has_prefix, push_char, push_decimal};

verus! {

/// First year the site was published; the lower bound of the displayed copyright range.
pub const COPYRIGHT_START_YEAR: i32 = 2026;

/// The en dash that separates the two years of a copyright range.
pub const YEAR_RANGE_DASH: char = '\u{2013}';

/// Year shown for a clock reading: the UTC year of `secs` seconds after the
/// epoch (taken as an `i64` the way an `as` cast does), or the start year
/// when the clock predates the epoch (`None`).
pub open spec fn year_of_clock(secs: Option<u64>) -> i32 {
    match secs {
        Some(s) => (#[verifier::truncate] (year_of_day(unix_day((#[verifier::truncate] (s as i64)) as int)) as i32)),
        None => COPYRIGHT_START_YEAR,
    }
}

/// Copyright label for the current year `current`: the start year alone, or
/// `start–current` once `current` is past the start year.
pub open spec fn copyright_label_text(current: i32) -> Seq<char> {
    if current > COPYRIGHT_START_YEAR {
        decimal_digits(COPYRIGHT_START_YEAR as nat) + seq![YEAR_RANGE_DASH] + decimal_digits(
            current as nat,
        )
    } else {
        decimal_digits(COPYRIGHT_START_YEAR as nat)
    }
}

/// Seconds since the UNIX epoch on the system clock, or `None` when the clock
/// reads earlier than the epoch: a call of `SystemTime::now` and
/// `SystemTime::duration_since(UNIX_EPOCH)`. Nothing is stated of the value,
/// which is whatever the clock reads.
#[verifier::external_body]
fn clock_secs_since_epoch() -> Option<u64> {
    match std::time::SystemTime::now().duration_since(std::time::UNIX_EPOCH) {
        Ok(d) => Some(d.as_secs()),
        Err(_) => None,
    }
}

/// Year for a clock reading (see [`year_of_clock`]).
pub fn year_from_clock(secs: Option<u64>) -> (year: i32)
    ensures
        year == year_of_clock(secs),
{
    match secs {
        Some(s) => civil_year_from_unix(#[verifier::truncate] (s as i64)),
        None => COPYRIGHT_START_YEAR,
    }
}

/// Reads the system clock once and gives the reading with the year it falls
/// in: `None` when the clock predates the epoch, and then the start year.
pub fn read_clock_year() -> (r: (Option<u64>, i32))
    ensures
        r.1 == year_of_clock(r.0),
        r.0 matches Some(s) ==> year_holds_day(r.1 as int, unix_day(s as int)) || !(i32::MIN
            <= year_of_day(unix_day(s as int)) <= i32::MAX),
{
    let secs = clock_secs_since_epoch();
    let year = year_from_clock(secs);
    proof {
        if let Some(s) = secs {
            lemma_year_exists(unix_day(s as int));
        }
    }
    (secs, year)
}

/// Current UTC year, falling back to the start year if the system clock predates the epoch.
pub fn current_year() -> (year: i32)
    ensures
        exists|secs: Option<u64>| year == year_of_clock(secs),
{
    let (_, year) = read_clock_year();
    year
}

/// Copyright label for the given current year: a single year, or
/// `start–current` once the year rolls over.
pub fn copyright_label(current: i32) -> (label: String)
    ensures
        label@ == copyright_label_text(current),
{
    let mut label = String::new();
    push_decimal(&mut label, COPYRIGHT_START_YEAR as u64);
    if current > COPYRIGHT_START_YEAR {
        push_char(&mut label, YEAR_RANGE_DASH);
        push_decimal(&mut label, current as u64);
    }
    label
}

/// Copyright year label: a single year, or `start–current` once the year rolls over.
pub fn copyright_years() -> (label: String)
    ensures
        exists|secs: Option<u64>| label@ == copyright_label_text(year_of_clock(secs)),
{
    let current = current_year();
    copyright_label(current)
}

/// Every copyright label starts with the start year, and it names a range
/// (holds the en dash) exactly when the current year is past the start year.
pub proof fn lemma_label_starts_with_start_year(current: i32)
    ensures
        has_prefix(copyright_label_text(current), decimal_digits(COPYRIGHT_START_YEAR as nat)),
        copyright_label_text(current).contains(YEAR_RANGE_DASH) <==> current > COPYRIGHT_START_YEAR,
{
    let start = decimal_digits(COPYRIGHT_START_YEAR as nat);
    reveal_with_fuel(decimal_digits, 5);
    assert(start =~= seq!['2', '0', '2', '6']);
    let label = copyright_label_text(current);
    assert(label.take(start.len() as int) =~= start);
    if current > COPYRIGHT_START_YEAR {
        assert(label[4] == YEAR_RANGE_DASH);
    } else {
        if label.contains(YEAR_RANGE_DASH) {
            let i = choose|i: int| 0 <= i < label.len() && label[i] == YEAR_RANGE_DASH;
            assert(label[i] == start[i]);
        }
    }
}

} // verus!
