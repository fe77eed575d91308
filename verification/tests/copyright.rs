use sigma_theme::calendar::civil_year_from_unix;
use sigma_theme::copyright::{copyright_label, year_from_clock};
use sigma_theme::{copyright_years, current_year, COPYRIGHT_START_YEAR};

#[test]
fn civil_year_from_unix_known_dates() {
    assert_eq!(civil_year_from_unix(0), 1970);
    assert_eq!(civil_year_from_unix(1_577_836_800), 2020);
    assert_eq!(civil_year_from_unix(1_609_459_199), 2020);
    assert_eq!(civil_year_from_unix(1_609_459_200), 2021);
}

#[test]
fn current_year_is_at_least_start_year() {
    assert!(current_year() >= COPYRIGHT_START_YEAR);
}

#[test]
fn copyright_years_formats_single_year_or_range() {
    let label = copyright_years();
    assert!(label.starts_with(&COPYRIGHT_START_YEAR.to_string()));
    if current_year() > COPYRIGHT_START_YEAR {
        assert!(label.contains('\u{2013}'));
    } else {
        assert_eq!(label, COPYRIGHT_START_YEAR.to_string());
    }
}

#[test]
fn civil_year_before_the_epoch_and_at_leap_days() {
    assert_eq!(civil_year_from_unix(-1), 1969);
    assert_eq!(civil_year_from_unix(-31_536_000), 1969);
    assert_eq!(civil_year_from_unix(-31_536_001), 1968);
    // 2000-02-29 and 2000-12-31 23:59:59 (leap century year).
    assert_eq!(civil_year_from_unix(951_782_400), 2000);
    assert_eq!(civil_year_from_unix(978_307_199), 2000);
    assert_eq!(civil_year_from_unix(978_307_200), 2001);
    // 0000-01-01 and 1600-03-01.
    assert_eq!(civil_year_from_unix(-62_167_219_200), 0);
    assert_eq!(civil_year_from_unix(-62_167_219_201), -1);
    assert_eq!(civil_year_from_unix(-11_670_912_000), 1600);
}

#[test]
fn civil_year_at_the_extremes_is_truncated_like_a_cast() {
    // i64::MAX seconds is in year 292277026596.
    assert_eq!(civil_year_from_unix(i64::MAX), 292_277_026_596i64 as i32);
    assert_eq!(civil_year_from_unix(i64::MIN), -292_277_022_657i64 as i32);
}

#[test]
fn year_from_clock_falls_back_before_the_epoch() {
    assert_eq!(year_from_clock(None), COPYRIGHT_START_YEAR);
    assert_eq!(year_from_clock(Some(1_609_459_200)), 2021);
}

#[test]
fn copyright_label_is_a_year_or_a_range() {
    assert_eq!(copyright_label(2026), "2026");
    assert_eq!(copyright_label(2020), "2026");
    assert_eq!(copyright_label(2031), "2026\u{2013}2031");
    assert_eq!(copyright_label(10_000), "2026\u{2013}10000");
}

#[test]
fn civil_year_never_decreases() {
    let samples = [
        i64::MIN, -62_167_219_201, -1, 0, 951_782_400, 978_307_199, 978_307_200,
        1_609_459_200, 4_102_444_800, 60_000_000_000_000_000,
    ];
    for w in samples.windows(2) {
        assert!(civil_year_from_unix(w[0]) <= civil_year_from_unix(w[1]), "{w:?}");
    }
}
