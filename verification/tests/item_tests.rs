use done::days_ago;
use done::item::CompletedItem;
use done::item::ParseError;
use done::weeks_ago;
use done::Instant;

fn instant(secs: i64, nanos: u32) -> Instant {
    Instant::from_parts(secs, nanos).unwrap()
}

#[test]
fn serialize_renders_the_canonical_line() {
    let item = CompletedItem { completed: instant(1_700_000_000, 0), item: "write spec".to_string() };
    assert_eq!(item.serialize(), "[2023-11-14T22:13:20+00:00] write spec");
}

#[test]
fn serialize_keeps_subsecond_precision() {
    let item = CompletedItem {
        completed: instant(1_700_000_000, 123_456_789),
        item: "ship it".to_string(),
    };
    assert_eq!(item.serialize(), "[2023-11-14T22:13:20.123456789+00:00] ship it");
}

#[test]
fn round_trip_returns_the_same_item() {
    let item = CompletedItem {
        completed: instant(1_700_000_000, 123_456_789),
        item: "write spec".to_string(),
    };
    let parsed = CompletedItem::try_parse(&item.serialize()).unwrap();
    assert_eq!(parsed, item);
    assert_eq!(parsed.serialize(), item.serialize());
}

#[test]
fn round_trip_with_brackets_in_the_label() {
    let item = CompletedItem {
        completed: instant(1_700_000_000, 0),
        item: "fix [urgent] thing] done".to_string(),
    };
    let line = item.serialize();
    let parsed = CompletedItem::try_parse(&line).unwrap();
    assert_eq!(parsed, item);
    assert_eq!(parsed.serialize(), line);
}

#[test]
fn round_trip_of_a_pre_epoch_instant() {
    let item = CompletedItem { completed: instant(-1, 999_999_999), item: "old".to_string() };
    let parsed = CompletedItem::try_parse(&item.serialize()).unwrap();
    assert_eq!(parsed, item);
}

#[test]
fn parse_accepts_a_zulu_offset() {
    let parsed = CompletedItem::try_parse("[2023-11-14T22:13:20Z] write spec").unwrap();
    assert_eq!(parsed.completed, instant(1_700_000_000, 0));
    assert_eq!(parsed.item, "write spec");
}

#[test]
fn parse_without_the_bracket_structure_is_a_format_error() {
    assert_eq!(CompletedItem::try_parse("no brackets here"), Err(ParseError::FormatError));
    assert_eq!(CompletedItem::try_parse(""), Err(ParseError::FormatError));
    assert_eq!(
        CompletedItem::try_parse("2023-11-14T22:13:20Z] label"),
        Err(ParseError::FormatError)
    );
    assert_eq!(CompletedItem::try_parse("[2023-11-14T22:13:20Z"), Err(ParseError::FormatError));
    assert_eq!(CompletedItem::try_parse("[2023-11-14T22:13:20Z]"), Err(ParseError::FormatError));
}

#[test]
fn parse_with_an_invalid_instant_is_a_timestamp_error() {
    assert_eq!(CompletedItem::try_parse("[notadate] label"), Err(ParseError::TimestampError));
    assert_eq!(CompletedItem::try_parse("[] label"), Err(ParseError::TimestampError));
    assert_eq!(
        CompletedItem::try_parse("[2023-13-99T99:99:99Z] label"),
        Err(ParseError::TimestampError)
    );
}

#[test]
fn now_keeps_the_label_and_a_valid_instant() {
    let item = CompletedItem::now("just now".to_string());
    assert_eq!(item.item, "just now");
    assert!(item.completed.is_in_range());
    assert!(item.is_log_safe());
}

#[test]
fn new_keeps_an_explicit_instant() {
    let t = instant(1_700_000_000, 5);
    let item = CompletedItem::new("then".to_string(), Some(t));
    assert_eq!(item.completed, t);
}

#[test]
fn a_label_with_a_line_break_is_not_log_safe() {
    let item = CompletedItem { completed: instant(0, 0), item: "two\nlines".to_string() };
    assert!(!item.is_log_safe());
}

#[test]
fn days_ago_subtracts_whole_days() {
    let reference = instant(1_700_000_000, 42);
    let earlier = days_ago(reference, 3);
    assert_eq!(earlier, instant(1_700_000_000 - 3 * 86_400, 42));
    let future = days_ago(reference, -2);
    assert_eq!(future, instant(1_700_000_000 + 2 * 86_400, 42));
    assert_eq!(days_ago(reference, 0), reference);
}

#[test]
fn weeks_ago_subtracts_whole_weeks() {
    let reference = instant(1_700_000_000, 0);
    assert_eq!(weeks_ago(reference, 2), instant(1_700_000_000 - 2 * 604_800, 0));
    assert_eq!(weeks_ago(reference, 2), days_ago(reference, 14));
}

#[test]
fn from_parts_rejects_out_of_range_values() {
    assert!(Instant::from_parts(0, 1_000_000_000).is_none());
    assert!(Instant::from_parts(8_000_000_000_001, 0).is_none());
    assert!(Instant::from_parts(-8_000_000_000_001, 0).is_none());
    assert!(Instant::from_parts(8_000_000_000_000, 999_999_999).is_some());
}

#[test]
fn after_orders_by_seconds_then_nanoseconds() {
    assert!(instant(10, 0).after(&instant(9, 999_999_999)));
    assert!(instant(10, 1).after(&instant(10, 0)));
    assert!(!instant(10, 0).after(&instant(10, 0)));
    assert!(!instant(9, 5).after(&instant(10, 0)));
}
