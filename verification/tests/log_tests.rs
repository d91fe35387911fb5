use done::item::CompletedItem;
use done::Instant;

fn instant(secs: i64, nanos: u32) -> Instant {
    Instant::from_parts(secs, nanos).unwrap()
}

fn item(secs: i64, label: &str) -> CompletedItem {
    CompletedItem { completed: instant(secs, 0), item: label.to_string() }
}

const T0: i64 = 1_700_000_000;

#[test]
fn save_produces_one_line_per_item() {
    let items = vec![item(T0, "write spec"), item(T0 + 3600, "review spec")];
    let lines = done::file::save(&items);
    assert_eq!(
        lines,
        vec![
            "[2023-11-14T22:13:20+00:00] write spec".to_string(),
            "[2023-11-14T23:13:20+00:00] review spec".to_string(),
        ]
    );
}

#[test]
fn log_get_filters_strictly_after_the_cutoff() {
    let items = vec![item(T0, "a"), item(T0 + 10, "b"), item(T0 + 20, "c")];
    let lines = done::file::save(&items);
    let read = done::file::get(&lines, &instant(T0 + 10, 0));
    assert_eq!(read, vec![item(T0 + 20, "c")]);
    let read = done::file::get(&lines, &instant(T0 + 9, 0));
    assert_eq!(read, vec![item(T0 + 10, "b"), item(T0 + 20, "c")]);
}

#[test]
fn get_compares_nanoseconds_at_equal_seconds() {
    let a = CompletedItem { completed: instant(T0, 100), item: "a".to_string() };
    let b = CompletedItem { completed: instant(T0, 200), item: "b".to_string() };
    let lines = done::file::save(&vec![a.clone(), b.clone()]);
    let read = done::file::get(&lines, &instant(T0, 100));
    assert_eq!(read, vec![b]);
}

#[test]
fn get_keeps_insertion_order() {
    let items = vec![item(T0 + 2, "A"), item(T0 + 3, "B"), item(T0 + 1, "C")];
    let lines = done::file::save(&items);
    let read = done::file::get(&lines, &instant(T0, 0));
    assert_eq!(read, items);
}

#[test]
fn a_malformed_line_is_skipped_and_costs_nothing_else() {
    let items = vec![item(T0 + 1, "one"), item(T0 + 2, "two"), item(T0 + 3, "three")];
    let mut lines = done::file::save(&items);
    lines.insert(1, "this line is broken".to_string());
    lines.insert(3, "[not-an-instant] nope".to_string());
    let read = done::file::get(&lines, &instant(T0, 0));
    assert_eq!(read, items);
}

#[test]
fn an_empty_log_reads_as_empty() {
    let read = done::file::get(&Vec::new(), &instant(T0, 0));
    assert!(read.is_empty());
}

#[test]
fn the_write_then_review_scenario() {
    let write = item(T0, "write spec");
    let review = item(T0 + 3600, "review spec");
    let lines = done::file::save(&vec![write.clone(), review.clone()]);

    let after_t0 = done::file::get(&lines, &instant(T0, 0));
    assert_eq!(after_t0, vec![review.clone()]);

    let after_earlier = done::file::get(&lines, &instant(T0 - 3600, 0));
    assert_eq!(after_earlier, vec![write, review]);
}
