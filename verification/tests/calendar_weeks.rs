//! The calendar arithmetic against known dates: weekday (Monday as 0) and
//! the Monday-based week number, as the `%W` rule counts it.

use lightarti_rest::calendar::{monday_based_week, weekday};

#[test]
fn weekday_known_dates() {
    assert_eq!(weekday(0), 3); // 1970-01-01, a Thursday
    assert_eq!(weekday(1609459200), 4); // 2021-01-01, a Friday
    assert_eq!(weekday(1609718400), 0); // 2021-01-04, a Monday
    assert_eq!(weekday(1672531200), 6); // 2023-01-01, a Sunday
    assert_eq!(weekday(1686787200), 3); // 2023-06-15, a Thursday
    assert_eq!(weekday(1760140800), 5); // 2025-10-11, a Saturday
}

#[test]
fn week_known_dates() {
    assert_eq!(monday_based_week(0), 0); // 1970-01-01
    assert_eq!(monday_based_week(1609459200), 0); // 2021-01-01
    assert_eq!(monday_based_week(1609718400), 1); // 2021-01-04, first Monday
    assert_eq!(monday_based_week(1672531200), 0); // 2023-01-01
    assert_eq!(monday_based_week(1686787200), 24); // 2023-06-15
    assert_eq!(monday_based_week(1735603200), 53); // 2024-12-31
    assert_eq!(monday_based_week(951782400), 9); // 2000-02-29
    assert_eq!(monday_based_week(1760140800), 40); // 2025-10-11
    assert_eq!(monday_based_week(1767225600), 0); // 2026-01-01
}

#[test]
fn week_changes_at_monday_midnight() {
    // 2025-10-12 is a Sunday in week 40; the next day starts week 41.
    let sunday: u64 = 1760227200;
    let monday = sunday + 86400;
    assert_eq!(monday_based_week(sunday), 40);
    assert_eq!(monday_based_week(sunday + 86399), 40);
    assert_eq!(monday_based_week(monday), 41);
}
