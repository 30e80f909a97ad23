use todo::commands::{is_priority, new_item, NewItemError};
use todo::item::TodoItem;
use todo::listing::view_items;
use todo::nldate::{now_due, parse_due};
use todo::sorting::SortMode;

const NOT_INT: &str =
    "Priority needs to be an integer within the bounds 0 and 9. Input was not an integer.";
const OUT_OF_BOUNDS: &str =
    "Priority needs to be an integer within the bounds 0 and 9. Input was outside bounds.";

#[test]
fn priority_bounds_accepted() {
    assert!(is_priority(String::from("0")).is_ok());
    assert!(is_priority(String::from("9")).is_ok());
}

#[test]
fn priority_bounds_rejected() {
    assert_eq!(is_priority(String::from("10")), Err(String::from(OUT_OF_BOUNDS)));
    assert_eq!(is_priority(String::from("-1")), Err(String::from(OUT_OF_BOUNDS)));
}

#[test]
fn priority_not_an_integer() {
    assert_eq!(is_priority(String::from("abc")), Err(String::from(NOT_INT)));
    assert_eq!(is_priority(String::from("")), Err(String::from(NOT_INT)));
    assert_eq!(is_priority(String::from("-")), Err(String::from(NOT_INT)));
    assert_eq!(is_priority(String::from("3.5")), Err(String::from(NOT_INT)));
}

#[test]
fn priority_byte_overflow_is_not_an_integer() {
    assert_eq!(is_priority(String::from("128")), Err(String::from(NOT_INT)));
    assert_eq!(is_priority(String::from("-129")), Err(String::from(NOT_INT)));
    assert_eq!(is_priority(String::from("99999999999999999999")), Err(String::from(NOT_INT)));
}

#[test]
fn priority_odd_but_accepted_forms() {
    // These parse as integers: leading zeros, a plus sign, a negative zero.
    assert!(is_priority(String::from("007")).is_ok());
    assert!(is_priority(String::from("+3")).is_ok());
    assert!(is_priority(String::from("-0")).is_ok());
    // In the byte range but outside the priority bounds.
    assert_eq!(is_priority(String::from("-128")), Err(String::from(OUT_OF_BOUNDS)));
}

#[test]
fn new_item_without_due() {
    let r = new_item(String::from("Buy milk"), Some(String::from("3")), None);
    let (it, line) = r.ok().expect("a plain item must build");
    assert_eq!(it.priority, Some(3));
    assert_eq!(it.due, None);
    assert_eq!(line, "[3]{} Buy milk");
}

#[test]
fn new_item_rejects_bad_priority() {
    let r = new_item(String::from("x"), Some(String::from("12")), None);
    match r {
        Err(NewItemError::Priority(m)) => assert_eq!(m, OUT_OF_BOUNDS),
        _ => panic!("a bad priority must be rejected"),
    }
}

#[test]
fn new_item_rejects_bad_due() {
    let r = new_item(String::from("x"), None, Some(String::from("zzqqy")));
    match r {
        Err(NewItemError::Due(m)) => {
            assert_eq!(m, "Unable to parse due date. Please try again.")
        },
        _ => panic!("an unparseable due date must be rejected"),
    }
}

#[test]
fn new_item_rejects_huge_relative_due() {
    // A count with a long digit run would push the date parser's
    // arithmetic out of range; the library refuses it before the call.
    for due in ["999999999 days", "2000000000 weeks", "99999999 years ago"] {
        let r = new_item(String::from("x"), None, Some(String::from(due)));
        match r {
            Err(NewItemError::Due(m)) => {
                assert_eq!(m, "Unable to parse due date. Please try again.")
            },
            _ => panic!("a huge relative date must be rejected"),
        }
    }
    // Six digits stay within range and parse.
    assert!(new_item(String::from("x"), None, Some(String::from("999999 days"))).is_ok());
}

#[test]
fn new_item_rejects_unsafe_due_expressions() {
    // A dot before a non-digit, or text beyond ASCII, would drive the date
    // parser off its safe paths; the library refuses both before the call.
    for due in ["12:30:45.x", "12:30:45. 5", "août", "deux.jours"] {
        match new_item(String::from("x"), None, Some(String::from(due))) {
            Err(NewItemError::Due(m)) => {
                assert_eq!(m, "Unable to parse due date. Please try again.")
            },
            _ => panic!("an unsafe due expression must be rejected"),
        }
    }
}

#[test]
fn new_item_takes_fractional_seconds() {
    let r = new_item(String::from("x"), None, Some(String::from("12:30:45.5")));
    let (it, _) = r.ok().expect("a time with a fraction must parse");
    assert!(it.due.is_some());
}

#[test]
fn new_item_with_relative_due() {
    let r = new_item(String::from("Call dentist"), None, Some(String::from("3h")));
    let (it, line) = r.ok().expect("a relative due date must parse");
    let d = it.due.expect("the item carries its due date");
    // The encoded line must decode back to the same fields.
    let back = TodoItem::decode(&line).expect("the saved line must decode");
    assert_eq!(back.due, Some(d));
    assert_eq!(back.item, "Call dentist");
}

#[test]
fn clock_yields_a_valid_timestamp() {
    let now = now_due().expect("the current year fits four digits");
    assert!(1 <= now.month && now.month <= 12);
    assert!(parse_due("now").is_some());
}

#[test]
fn scenario_two_items_priority_sort() {
    // Append `new "Buy milk" -p 3`, then `new "Call dentist" -d "3h"`, then
    // view sorted by priority ascending: the item without a priority
    // collects at the bottom.
    let (_, line1) = new_item(String::from("Buy milk"), Some(String::from("3")), None)
        .ok()
        .expect("first append");
    let (_, line2) = new_item(String::from("Call dentist"), None, Some(String::from("3h")))
        .ok()
        .expect("second append");
    let store = vec![line1, line2];
    let rows = view_items(&store, SortMode::PriAsc, now_due()).expect("two items to show");
    assert_eq!(rows.len(), 2);
    assert_eq!(rows[0].text, "Buy milk");
    assert_eq!(rows[0].priority, Some(3));
    assert_eq!(rows[1].text, "Call dentist");
    assert_eq!(rows[1].priority, None);
}

#[test]
fn scenario_empty_store_renders_nothing() {
    let store: Vec<String> = vec![];
    assert!(view_items(&store, SortMode::Unsorted, None).is_none());
    let only_garbage = vec![String::from("not a line")];
    assert!(view_items(&only_garbage, SortMode::Unsorted, None).is_none());
}
