use rustup_mirror::date::{parse_dir_date, retention_cutoff, CalendarDate};

fn day(year: i32, month: u32, day: u32) -> CalendarDate {
    CalendarDate { year, month, day }
}

#[test]
fn directory_name_is_read_as_date() {
    assert_eq!(parse_dir_date("2023-10-05"), Some(day(2023, 10, 5)));
}

#[test]
fn other_names_are_no_dates() {
    assert_eq!(parse_dir_date("nightly"), None);
    assert_eq!(parse_dir_date("2023-13-01"), None);
    assert_eq!(parse_dir_date("2023-02-30"), None);
    assert_eq!(parse_dir_date(""), None);
}

#[test]
fn cutoff_moves_back_by_days() {
    assert_eq!(retention_cutoff(&day(2015, 9, 5), 40), Some(day(2015, 7, 27)));
    assert_eq!(retention_cutoff(&day(2024, 3, 1), 1), Some(day(2024, 2, 29)));
    assert_eq!(retention_cutoff(&day(2024, 1, 1), 0), Some(day(2024, 1, 1)));
}

#[test]
fn cutoff_out_of_range_is_none() {
    assert_eq!(retention_cutoff(&day(2024, 1, 1), i64::MAX), None);
    assert_eq!(retention_cutoff(&day(2024, 2, 31), 1), None);
}

#[test]
fn earlier_days_come_before() {
    assert!(day(2023, 12, 31).is_before(&day(2024, 1, 1)));
    assert!(day(2024, 1, 31).is_before(&day(2024, 2, 1)));
    assert!(day(2024, 2, 1).is_before(&day(2024, 2, 2)));
    assert!(!day(2024, 2, 2).is_before(&day(2024, 2, 2)));
    assert!(!day(2024, 2, 3).is_before(&day(2024, 2, 2)));
}

#[test]
fn order_agrees_with_chrono() {
    let days = [day(2020, 2, 29), day(2020, 3, 1), day(2019, 12, 31), day(2020, 2, 28)];
    for a in days {
        for b in days {
            let x = chrono::NaiveDate::from_ymd_opt(a.year, a.month, a.day).unwrap();
            let y = chrono::NaiveDate::from_ymd_opt(b.year, b.month, b.day).unwrap();
            assert_eq!(a.is_before(&b), x < y);
        }
    }
}
