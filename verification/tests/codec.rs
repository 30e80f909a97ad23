use todo::date::DueDate;
use todo::item::TodoItem;

fn sample_due() -> DueDate {
    DueDate {
        year: 2023,
        month: 4,
        day: 5,
        hour: 12,
        minute: 30,
        second: 45,
        nanos: 123_456_789,
        off_neg: false,
        off_hour: 2,
        off_minute: 0,
    }
}

#[test]
fn encode_full_line() {
    let it = TodoItem { priority: Some(3), item: String::from("Buy milk"), due: Some(sample_due()) };
    assert_eq!(it.encode(), "[3]{2023-04-05 12:30:45.123456789 +02:00} Buy milk");
}

#[test]
fn encode_empty_fields() {
    let it = TodoItem { priority: None, item: String::from("Call dentist"), due: None };
    assert_eq!(it.encode(), "[]{} Call dentist");
}

#[test]
fn encode_negative_offset() {
    let mut d = sample_due();
    d.off_neg = true;
    d.off_hour = 5;
    d.off_minute = 30;
    let it = TodoItem { priority: Some(0), item: String::from("x"), due: Some(d) };
    assert_eq!(it.encode(), "[0]{2023-04-05 12:30:45.123456789 -05:30} x");
}

#[test]
fn round_trip_both_present() {
    let it = TodoItem { priority: Some(7), item: String::from("water the plants"), due: Some(sample_due()) };
    let line = it.encode();
    let back = TodoItem::decode(&line).expect("line must decode");
    assert_eq!(back.priority, Some(7));
    assert_eq!(back.due, Some(sample_due()));
    assert_eq!(back.item, "water the plants");
}

#[test]
fn round_trip_both_absent() {
    let it = TodoItem { priority: None, item: String::from("Call dentist"), due: None };
    let back = TodoItem::decode(&it.encode()).expect("line must decode");
    assert_eq!(back.priority, None);
    assert_eq!(back.due, None);
    assert_eq!(back.item, "Call dentist");
}

#[test]
fn decode_priority_zero_and_nine() {
    let a = TodoItem::decode("[0]{} lowest").expect("must decode");
    assert_eq!(a.priority, Some(0));
    let b = TodoItem::decode("[9]{} highest").expect("must decode");
    assert_eq!(b.priority, Some(9));
}

#[test]
fn decode_two_digit_priority_rejected() {
    assert!(TodoItem::decode("[10]{} too big").is_none());
}

#[test]
fn decode_garbage_rejected() {
    assert!(TodoItem::decode("not a todo line").is_none());
    assert!(TodoItem::decode("").is_none());
    assert!(TodoItem::decode("[]{}").is_none());
}

#[test]
fn round_trip_text_beyond_ascii() {
    let it = TodoItem { priority: Some(2), item: String::from("café für Noël"), due: None };
    let back = TodoItem::decode(&it.encode()).expect("accented text must come back");
    assert_eq!(back.item, "café für Noël");
    assert_eq!(back.priority, Some(2));
}

#[test]
fn decode_punctuation_rejected() {
    // The encoder writes any text, but the read grammar has no punctuation:
    // such a line does not come back. The format keeps this asymmetry.
    let it = TodoItem { priority: None, item: String::from("Buy milk!"), due: None };
    assert!(TodoItem::decode(&it.encode()).is_none());
}

#[test]
fn decode_invalid_month_keeps_line() {
    let line = "[3]{2023-13-05 12:30:45.123456789 +02:00} still here";
    let it = TodoItem::decode(line).expect("line shape matches");
    assert_eq!(it.priority, Some(3));
    assert_eq!(it.due, None);
    assert_eq!(it.item, "still here");
}

#[test]
fn decode_bad_offset_sign_drops_due() {
    let line = "[]{2023-04-05 12:30:45.123456789 |02:00} odd sign";
    let it = TodoItem::decode(line).expect("line shape matches");
    assert_eq!(it.due, None);
    assert_eq!(it.item, "odd sign");
}

#[test]
fn decode_leap_day() {
    let ok = TodoItem::decode("[]{2024-02-29 00:00:00.000000000 +00:00} leap").expect("must decode");
    assert!(ok.due.is_some());
    let not = TodoItem::decode("[]{2023-02-29 00:00:00.000000000 +00:00} not leap").expect("line kept");
    assert_eq!(not.due, None);
}

#[test]
fn load_items_tolerates_one_bad_line() {
    let lines = vec![
        String::from("[1]{} first"),
        String::from("this line is corrupt"),
        String::from("[]{} second"),
        String::from("[5]{2023-04-05 12:30:45.123456789 +02:00} third"),
    ];
    let items = TodoItem::load_items(&lines);
    assert_eq!(items.len(), 3);
    assert_eq!(items[0].item, "first");
    assert_eq!(items[1].item, "second");
    assert_eq!(items[2].item, "third");
}

#[test]
fn load_items_keeps_store_order() {
    let lines = vec![String::from("[]{} b"), String::from("[]{} a")];
    let items = TodoItem::load_items(&lines);
    assert_eq!(items.len(), 2);
    assert_eq!(items[0].item, "b");
    assert_eq!(items[1].item, "a");
}
