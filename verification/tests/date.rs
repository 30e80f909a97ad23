use todo::date::DueDate;
use todo::item::TodoItem;
use todo::listing::view_items;
use todo::sorting::SortMode;

fn at(hour: u8, minute: u8) -> DueDate {
    DueDate {
        year: 2023,
        month: 4,
        day: 5,
        hour,
        minute,
        second: 0,
        nanos: 0,
        off_neg: false,
        off_hour: 0,
        off_minute: 0,
    }
}

#[test]
fn display_morning() {
    assert_eq!(at(0, 30).display(), "04/05/23 12:30AM");
    assert_eq!(at(9, 5).display(), "04/05/23 09:05AM");
}

#[test]
fn display_afternoon() {
    assert_eq!(at(12, 0).display(), "04/05/23 12:00PM");
    assert_eq!(at(13, 5).display(), "04/05/23 01:05PM");
    assert_eq!(at(23, 59).display(), "04/05/23 11:59PM");
}

#[test]
fn overdue_flag_against_now() {
    let store = vec![
        String::from("[]{2023-04-05 06:00:00.000000000 +00:00} past"),
        String::from("[]{2023-04-05 18:00:00.000000000 +00:00} future"),
    ];
    let rows = view_items(&store, SortMode::Unsorted, Some(at(12, 0))).expect("two rows");
    assert_eq!(rows.len(), 2);
    assert!(rows[0].overdue);
    assert_eq!(rows[0].due.as_deref(), Some("04/05/23 06:00AM"));
    assert!(!rows[1].overdue);
}

#[test]
fn out_of_range_stored_priority_is_skipped_at_display() {
    // The decoder alone never yields a priority outside one digit, so a
    // hand-built item stands in for a hand-edited store.
    let bad = TodoItem { priority: Some(99), item: String::from("bad"), due: None };
    let good = TodoItem { priority: Some(1), item: String::from("good"), due: None };
    let rows = todo::listing::view_rows(vec![bad, good], SortMode::Unsorted, None);
    assert_eq!(rows.len(), 1);
    assert_eq!(rows[0].text, "good");
}
