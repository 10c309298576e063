use mtime_tools::calendar::{MAX_YEAR, MIN_YEAR};
use mtime_tools::{Month, Timestamp};

fn month_at(secs: i64, nanos: u32) -> Option<(i32, u32)> {
    Month::of(&Timestamp { secs, nanos }).map(|m| (m.year, m.month))
}

#[test]
fn the_month_of_a_point_in_time() {
    assert_eq!(month_at(0, 0), Some((1970, 1)));
    assert_eq!(month_at(-1, 999_999_999), Some((1969, 12)));
    assert_eq!(month_at(1_709_251_199, 999_999_999), Some((2024, 2)));
    assert_eq!(month_at(1_709_251_200, 0), Some((2024, 3)));
    assert_eq!(month_at(1_710_504_000, 0), Some((2024, 3)));
    assert_eq!(month_at(1_711_929_599, 0), Some((2024, 3)));
    assert_eq!(month_at(1_711_929_600, 0), Some((2024, 4)));
    assert_eq!(month_at(951_782_400, 0), Some((2000, 2)));
    assert_eq!(month_at(951_868_800, 0), Some((2000, 3)));
    assert_eq!(month_at(-62_167_219_200, 0), Some((0, 1)));
    assert_eq!(month_at(-62_167_219_201, 0), Some((-1, 12)));
}

#[test]
fn no_month_outside_the_calendar() {
    assert_eq!(month_at(i64::MAX, 0), None);
    assert_eq!(month_at(i64::MIN, 0), None);
    assert_eq!(month_at(10_000_000_000_000, 0), None);
    assert_eq!(month_at(0, 2_000_000_000), None);
    assert_eq!(month_at(0, 1_000_000_000), None);
}

#[test]
fn the_months_at_the_ends_of_the_calendar() {
    assert_eq!(month_at(8_210_266_876_799, 0), Some((262_142, 12)));
    assert_eq!(month_at(8_210_266_876_800, 0), None);
    assert_eq!(month_at(-8_334_601_228_800, 0), Some((-262_143, 1)));
    assert_eq!(month_at(-8_334_601_228_801, 0), None);
}

#[test]
fn year_and_month_name_a_month_within_bounds() {
    assert!(Month::checked(None).is_none());
    assert_eq!(Month::checked(Some((2024, 3))), Some(Month { year: 2024, month: 3 }));
    assert_eq!(Month::checked(Some((2024, 0))), None);
    assert_eq!(Month::checked(Some((2024, 13))), None);
    assert_eq!(Month::checked(Some((MAX_YEAR, 12))), Some(Month { year: MAX_YEAR, month: 12 }));
    assert_eq!(Month::checked(Some((MAX_YEAR + 1, 1))), None);
    assert_eq!(Month::checked(Some((MIN_YEAR, 1))), Some(Month { year: MIN_YEAR, month: 1 }));
    assert_eq!(Month::checked(Some((MIN_YEAR - 1, 12))), None);
    assert!(Month { year: 2024, month: 12 }.is_valid());
    assert!(!Month { year: 2024, month: 13 }.is_valid());
    assert!(!Month { year: i32::MAX, month: 1 }.is_valid());
}

#[test]
fn earlier_months_come_first() {
    let march = Month { year: 2024, month: 3 };
    let april = Month { year: 2024, month: 4 };
    let december_before = Month { year: 2023, month: 12 };
    assert!(march.is_before(&april));
    assert!(!april.is_before(&march));
    assert!(!march.is_before(&march));
    assert!(december_before.is_before(&march));
    assert!(!march.is_before(&december_before));
    assert!(Month { year: -1, month: 12 }.is_before(&Month { year: 0, month: 1 }));
}

#[test]
fn the_first_day_as_a_date() {
    let label = |year: i32, month: u32| Month { year, month }.label();
    assert_eq!(label(2024, 3), Some("2024-03-01".to_string()));
    assert_eq!(label(2024, 12), Some("2024-12-01".to_string()));
    assert_eq!(label(1, 1), Some("0001-01-01".to_string()));
    assert_eq!(label(0, 1), Some("0000-01-01".to_string()));
    assert_eq!(label(987, 6), Some("0987-06-01".to_string()));
    assert_eq!(label(9999, 12), Some("9999-12-01".to_string()));
    assert_eq!(label(10_000, 1), Some("+10000-01-01".to_string()));
    assert_eq!(label(-1, 10), Some("-0001-10-01".to_string()));
    assert_eq!(label(-12_345, 2), Some("-12345-02-01".to_string()));
    assert_eq!(label(MAX_YEAR, 12), Some("+262142-12-01".to_string()));
    assert_eq!(label(MIN_YEAR, 1), Some("-262143-01-01".to_string()));
}

#[test]
fn no_date_for_what_is_no_month() {
    let label = |year: i32, month: u32| Month { year, month }.label();
    assert_eq!(label(2024, 0), None);
    assert_eq!(label(2024, 13), None);
    assert_eq!(label(MAX_YEAR + 1, 1), None);
    assert_eq!(label(MIN_YEAR - 1, 12), None);
    assert_eq!(label(i32::MAX, 1), None);
    assert_eq!(label(i32::MIN, 1), None);
    assert_eq!(label(2024, u32::MAX), None);
}
