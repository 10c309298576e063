use mtime_tools::decimal::{push_decimal, to_decimal};
use mtime_tools::{report_line, Entry, EntryKind, Month, MonthlySizes, Timestamp, Visit};

const MARCH_2024: i64 = 1_709_251_200;
const DAY: i64 = 86_400;

fn file_at(secs: i64, size: u64) -> Entry {
    Entry {
        path: Some(format!("/data/{}-{}", secs, size)),
        kind: EntryKind::File { modified: Some(Timestamp { secs, nanos: 0 }), size },
    }
}

fn month(year: i32, month: u32) -> Month {
    Month { year, month }
}

#[test]
fn two_files_of_one_month_make_one_line() {
    let mut sizes = MonthlySizes::new();
    let visits =
        sizes.visit_all(&vec![file_at(MARCH_2024 + 3 * DAY, 100), file_at(MARCH_2024 + 20 * DAY, 200)]);
    assert_eq!(visits, vec![Visit::Counted, Visit::Counted]);
    assert_eq!(sizes.report(), vec!["2024-03-01: 300 bytes".to_string()]);
}

#[test]
fn each_month_has_the_sum_of_its_files() {
    let mut sizes = MonthlySizes::new();
    let listing = vec![
        file_at(MARCH_2024 + 5 * DAY, 7),
        file_at(MARCH_2024 - 70 * DAY, 1_000),
        file_at(MARCH_2024 - 1, 30),
        file_at(MARCH_2024, 11),
        file_at(MARCH_2024 - 80 * DAY, 2_000),
        file_at(MARCH_2024 + 30 * DAY + 23 * 3_600, 4),
        file_at(MARCH_2024 + 31 * DAY, 500),
    ];
    assert_eq!(sizes.visit_all(&listing), vec![Visit::Counted; 7]);
    assert_eq!(sizes.total(month(2023, 12)), Some(3_000));
    assert_eq!(sizes.total(month(2024, 1)), None);
    assert_eq!(sizes.total(month(2024, 2)), Some(30));
    assert_eq!(sizes.total(month(2024, 3)), Some(22));
    assert_eq!(sizes.total(month(2024, 4)), Some(500));
    assert_eq!(
        sizes.rows(),
        vec![
            (month(2023, 12), 3_000),
            (month(2024, 2), 30),
            (month(2024, 3), 22),
            (month(2024, 4), 500)
        ]
    );
    assert_eq!(
        sizes.report(),
        vec![
            "2023-12-01: 3000 bytes".to_string(),
            "2024-02-01: 30 bytes".to_string(),
            "2024-03-01: 22 bytes".to_string(),
            "2024-04-01: 500 bytes".to_string(),
        ]
    );
}

#[test]
fn nothing_counted_nothing_reported() {
    let sizes = MonthlySizes::new();
    assert_eq!(sizes.rows(), Vec::<(Month, u64)>::new());
    assert_eq!(sizes.report(), Vec::<String>::new());
    assert_eq!(sizes.total(month(2024, 3)), None);
}

#[test]
fn an_empty_file_still_gives_its_month_a_line() {
    let mut sizes = MonthlySizes::new();
    assert_eq!(sizes.visit(&file_at(MARCH_2024, 0)), Visit::Counted);
    assert_eq!(sizes.total(month(2024, 3)), Some(0));
    assert_eq!(sizes.report(), vec!["2024-03-01: 0 bytes".to_string()]);
}

#[test]
fn only_regular_files_with_a_known_month_count() {
    let mut sizes = MonthlySizes::new();
    let directory = Entry { path: Some("/data/sub".to_string()), kind: EntryKind::Directory };
    let link = Entry { path: None, kind: EntryKind::Other };
    let unreadable = Entry { path: None, kind: EntryKind::Unreadable };
    let timeless = Entry { path: None, kind: EntryKind::File { modified: None, size: 5 } };
    let beyond = file_at(i64::MAX, 5);
    assert_eq!(sizes.visit(&directory), Visit::Descend);
    assert_eq!(sizes.visit(&link), Visit::Skipped);
    assert_eq!(sizes.visit(&unreadable), Visit::Skipped);
    assert_eq!(sizes.visit(&timeless), Visit::Skipped);
    assert_eq!(sizes.visit(&beyond), Visit::Skipped);
    assert_eq!(sizes.rows(), Vec::<(Month, u64)>::new());
}

#[test]
fn a_total_that_would_not_fit_is_left_as_it_is() {
    let mut sizes = MonthlySizes::new();
    assert!(sizes.record(month(2024, 3), u64::MAX - 1));
    assert!(sizes.record(month(2024, 3), 1));
    assert!(!sizes.record(month(2024, 3), 1));
    assert_eq!(sizes.total(month(2024, 3)), Some(u64::MAX));
    assert!(sizes.record(month(2024, 3), 0));
    assert!(sizes.record(month(2024, 4), u64::MAX));
    assert_eq!(sizes.visit(&file_at(MARCH_2024, 1)), Visit::Full);
    assert_eq!(sizes.visit(&file_at(MARCH_2024, 0)), Visit::Counted);
    assert_eq!(sizes.total(month(2024, 3)), Some(u64::MAX));
    assert_eq!(
        sizes.report(),
        vec![
            "2024-03-01: 18446744073709551615 bytes".to_string(),
            "2024-04-01: 18446744073709551615 bytes".to_string(),
        ]
    );
}

#[test]
fn what_is_no_month_has_no_total() {
    let mut sizes = MonthlySizes::new();
    assert!(!sizes.record(month(2024, 0), 1));
    assert!(!sizes.record(month(2024, 13), 1));
    assert!(!sizes.record(month(i32::MAX, 1), 1));
    assert_eq!(sizes.total(month(2024, 13)), None);
    assert_eq!(sizes.rows(), Vec::<(Month, u64)>::new());
}

#[test]
fn rows_come_in_order_of_time_whatever_the_order_of_counting() {
    let months = [
        month(2024, 3),
        month(-1, 12),
        month(1999, 12),
        month(2024, 1),
        month(0, 1),
        month(2000, 1),
        month(262_142, 12),
        month(-262_143, 1),
        month(2024, 2),
        month(10_000, 6),
    ];
    let mut sizes = MonthlySizes::new();
    for (i, m) in months.iter().enumerate() {
        assert!(sizes.record(*m, i as u64 + 1));
    }
    for (i, m) in months.iter().enumerate() {
        assert!(sizes.record(*m, 10 * (i as u64 + 1)));
    }
    assert_eq!(
        sizes.rows(),
        vec![
            (month(-262_143, 1), 88),
            (month(-1, 12), 22),
            (month(0, 1), 55),
            (month(1999, 12), 33),
            (month(2000, 1), 66),
            (month(2024, 1), 44),
            (month(2024, 2), 99),
            (month(2024, 3), 11),
            (month(10_000, 6), 110),
            (month(262_142, 12), 77),
        ]
    );
    let report = sizes.report();
    assert_eq!(report.len(), 10);
    assert_eq!(report[0], "-262143-01-01: 88 bytes");
    assert_eq!(report[1], "-0001-12-01: 22 bytes");
    assert_eq!(report[2], "0000-01-01: 55 bytes");
    assert_eq!(report[8], "+10000-06-01: 110 bytes");
    assert_eq!(report[9], "+262142-12-01: 77 bytes");
}

#[test]
fn many_months_stay_sorted() {
    let mut sizes = MonthlySizes::new();
    let mut expected = Vec::new();
    for year in 1990..2030 {
        for m in 1..=12u32 {
            expected.push((month(year, m), (year as u64) * 100 + m as u64));
        }
    }
    let mut order: Vec<usize> = (0..expected.len()).collect();
    order.sort_by_key(|i| (i * 7919) % 480);
    for i in order {
        assert!(sizes.record(expected[i].0, expected[i].1));
    }
    assert_eq!(sizes.rows(), expected);
}

#[test]
fn a_line_of_the_report() {
    assert_eq!(report_line(&month(2024, 3), 300), Some("2024-03-01: 300 bytes".to_string()));
    assert_eq!(report_line(&month(1970, 1), 0), Some("1970-01-01: 0 bytes".to_string()));
    assert_eq!(report_line(&month(2024, 13), 300), None);
}

#[test]
fn numbers_in_decimal() {
    assert_eq!(to_decimal(0), "0");
    assert_eq!(to_decimal(7), "7");
    assert_eq!(to_decimal(10), "10");
    assert_eq!(to_decimal(300), "300");
    assert_eq!(to_decimal(1_234_567_890), "1234567890");
    assert_eq!(to_decimal(u64::MAX), "18446744073709551615");
    let mut text = String::from("n=");
    push_decimal(&mut text, 9_081_726_354);
    assert_eq!(text, "n=9081726354");
}
