use todo::date::DueDate;
use todo::item::TodoItem;
use todo::sorting::{sort_items, sort_mode_of_flag, SortMode};

fn due_at(hour: u8) -> DueDate {
    DueDate {
        year: 2023,
        month: 4,
        day: 5,
        hour,
        minute: 0,
        second: 0,
        nanos: 0,
        off_neg: false,
        off_hour: 0,
        off_minute: 0,
    }
}

fn item(text: &str, priority: Option<i8>, due: Option<DueDate>) -> TodoItem {
    TodoItem { priority, item: String::from(text), due }
}

fn texts(v: &Vec<TodoItem>) -> Vec<String> {
    v.iter().map(|it| it.item.clone()).collect()
}

#[test]
fn due_ascending_absent_last() {
    let mut v = vec![
        item("none1", None, None),
        item("late", None, Some(due_at(18))),
        item("none2", None, None),
        item("early", None, Some(due_at(6))),
    ];
    sort_items(&mut v, SortMode::DueAsc);
    let t = texts(&v);
    assert_eq!(t[0], "early");
    assert_eq!(t[1], "late");
    assert!(t[2].starts_with("none"));
    assert!(t[3].starts_with("none"));
}

#[test]
fn due_descending_absent_still_last() {
    let mut v = vec![
        item("none1", None, None),
        item("late", None, Some(due_at(18))),
        item("early", None, Some(due_at(6))),
        item("none2", None, None),
    ];
    sort_items(&mut v, SortMode::DueDesc);
    let t = texts(&v);
    assert_eq!(t[0], "late");
    assert_eq!(t[1], "early");
    assert!(t[2].starts_with("none"));
    assert!(t[3].starts_with("none"));
}

#[test]
fn priority_ascending_absent_last() {
    let mut v = vec![
        item("none", None, None),
        item("nine", Some(9), None),
        item("zero", Some(0), None),
        item("four", Some(4), None),
    ];
    sort_items(&mut v, SortMode::PriAsc);
    assert_eq!(texts(&v), vec!["zero", "four", "nine", "none"]);
}

#[test]
fn priority_descending_absent_still_last() {
    let mut v = vec![
        item("none", None, None),
        item("nine", Some(9), None),
        item("zero", Some(0), None),
        item("four", Some(4), None),
    ];
    sort_items(&mut v, SortMode::PriDesc);
    assert_eq!(texts(&v), vec!["nine", "four", "zero", "none"]);
}

#[test]
fn unsorted_keeps_store_order() {
    let mut v = vec![item("b", Some(2), None), item("a", Some(1), None)];
    sort_items(&mut v, SortMode::Unsorted);
    assert_eq!(texts(&v), vec!["b", "a"]);
}

#[test]
fn sort_flag_values() {
    assert_eq!(sort_mode_of_flag(Some("d")), SortMode::DueAsc);
    assert_eq!(sort_mode_of_flag(Some("da")), SortMode::DueAsc);
    assert_eq!(sort_mode_of_flag(Some("dd")), SortMode::DueDesc);
    assert_eq!(sort_mode_of_flag(Some("p")), SortMode::PriAsc);
    assert_eq!(sort_mode_of_flag(Some("pa")), SortMode::PriAsc);
    assert_eq!(sort_mode_of_flag(Some("pd")), SortMode::PriDesc);
    assert_eq!(sort_mode_of_flag(Some("x")), SortMode::Unsorted);
    assert_eq!(sort_mode_of_flag(None), SortMode::Unsorted);
}

#[test]
fn equal_instants_under_different_offsets() {
    // 10:00 at +02:00 and 09:00 at +01:00 name the same instant.
    let mut a = due_at(10);
    a.off_hour = 2;
    let mut b = due_at(9);
    b.off_hour = 1;
    assert!(todo::date::instant_le_x(&a, &b));
    assert!(todo::date::instant_le_x(&b, &a));
}

#[test]
fn offset_orders_instants() {
    // 10:00 at +02:00 is 08:00 UTC; 09:30 at +00:00 is later.
    let mut a = due_at(10);
    a.off_hour = 2;
    let mut b = due_at(9);
    b.minute = 30;
    assert!(todo::date::instant_lt_x(&a, &b));
    assert!(!todo::date::instant_lt_x(&b, &a));
}
