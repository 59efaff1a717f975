use chrono::Datelike;
use ironshelf::stats::{compute_streaks, sorted_distinct_days, streaks_from_dates};

fn day(y: i32, m: u32, d: u32) -> i64 {
    chrono::NaiveDate::from_ymd_opt(y, m, d).unwrap().num_days_from_ce() as i64
}

#[test]
fn days_are_sorted_and_deduplicated() {
    assert_eq!(sorted_distinct_days(&vec![5, 3, 5, -1, 3]), vec![-1, 3, 5]);
    assert_eq!(sorted_distinct_days(&vec![]), Vec::<i64>::new());
}

#[test]
fn streaks_of_days() {
    let days = vec![12, 10, 11, 20, 21, 12];
    assert_eq!(compute_streaks(&days, 21), (2, 3));
    assert_eq!(compute_streaks(&days, 22), (2, 3));
    assert_eq!(compute_streaks(&days, 23), (0, 3));
    assert_eq!(compute_streaks(&vec![], 5), (0, 0));
    assert_eq!(compute_streaks(&vec![7], 7), (1, 1));
}

#[test]
fn current_streak_never_exceeds_longest() {
    for today in 0..30 {
        let (current, longest) = compute_streaks(&vec![1, 2, 3, 4, 10, 11, 25, 26, 27, 28, 29], today);
        assert!(current <= longest);
        assert_eq!(longest, 5);
    }
}

#[test]
fn dates_are_read_as_calendar_days() {
    let dates = vec!["2024-02-28".to_string(), "2024-02-29".to_string(), "2024-03-01".to_string()];
    assert_eq!(streaks_from_dates(&dates, day(2024, 3, 1)), (3, 3));
    let skipped = vec!["2023-02-28".to_string(), "2023-03-01".to_string()];
    assert_eq!(streaks_from_dates(&skipped, day(2023, 3, 1)), (2, 2));
    let invalid = vec!["2024-13-01".to_string(), "yesterday".to_string()];
    assert_eq!(streaks_from_dates(&invalid, day(2024, 1, 1)), (0, 0));
    assert_eq!(streaks_from_dates(&vec!["0001-01-01".to_string()], 1), (1, 1));
}

#[test]
fn streaks_from_date_texts() {
    let today = day(2024, 3, 10);
    let dates = vec![
        "2024-03-10".to_string(),
        "2024-03-09".to_string(),
        "garbage".to_string(),
        "2024-03-01".to_string(),
        "2024-03-02".to_string(),
        "2024-03-03".to_string(),
        "2024-03-09".to_string(),
    ];
    assert_eq!(streaks_from_dates(&dates, today), (2, 3));
}
