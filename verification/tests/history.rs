use bedwatch_updater::history::{history_lines, retained_log, LOG_RETENTION_SECS, MAX_LOG_BYTES};

fn record(ts: u64, tag: &str) -> String {
    format!("{{\"ts\":{ts},\"section\":\"{tag}\"}}")
}

#[test]
fn appending_keeps_recent_records_and_adds_the_new_one_last() {
    let now = 1_000_000_000;
    let existing = format!("{}\n{}\n", record(now - 10, "a"), record(now - 5, "b"));
    let log = retained_log(&existing, record(now, "c"), now);
    assert_eq!(log, format!("{}\n{}\n{}\n", record(now - 10, "a"), record(now - 5, "b"), record(now, "c")));
}

#[test]
fn records_older_than_half_a_year_are_dropped() {
    let now = 1_000_000_000;
    let stale = record(now - LOG_RETENTION_SECS - 1, "old");
    let edge = record(now - LOG_RETENTION_SECS, "edge");
    let existing = format!("{stale}\n{edge}\n");
    let log = retained_log(&existing, record(now, "new"), now);
    assert_eq!(log, format!("{edge}\n{}\n", record(now, "new")));
}

#[test]
fn unreadable_and_empty_lines_are_dropped() {
    let now = 500;
    let existing = format!("not json\n\n{{\"ts\":\"soon\"}}\n{}\n", record(400, "ok"));
    let log = retained_log(&existing, record(now, "new"), now);
    assert_eq!(log, format!("{}\n{}\n", record(400, "ok"), record(now, "new")));
}

#[test]
fn an_early_clock_keeps_every_time_stamp() {
    // the cutoff saturates at zero
    let existing = format!("{}\n", record(0, "zero"));
    let log = retained_log(&existing, record(5, "new"), 5);
    assert_eq!(log, format!("{}\n{}\n", record(0, "zero"), record(5, "new")));
}

#[test]
fn the_oldest_records_go_first_when_the_log_is_too_large() {
    let now = 2_000_000_000;
    let pad = "x".repeat(20 * 1024 * 1024);
    let big = |ts: u64| format!("{{\"ts\":{ts},\"pad\":\"{pad}\"}}");
    let existing = format!("{}\n{}\n{}\n", big(now - 3), big(now - 2), big(now - 1));
    let log = retained_log(&existing, record(now, "new"), now);
    assert!(log.len() as u64 <= MAX_LOG_BYTES);
    assert_eq!(log, format!("{}\n{}\n{}\n", big(now - 2), big(now - 1), record(now, "new")));
}

#[test]
fn a_record_larger_than_the_cap_is_still_kept_alone() {
    let now = 2_000_000_000;
    let pad = "y".repeat(51 * 1024 * 1024);
    let huge = format!("{{\"ts\":{now},\"pad\":\"{pad}\"}}");
    let existing = format!("{}\n", record(now - 1, "small"));
    let log = retained_log(&existing, huge.clone(), now);
    assert_eq!(log, format!("{huge}\n"));
}

#[test]
fn history_reads_newest_first_without_blank_lines() {
    let content = "first\n\nsecond\r\nthird";
    assert_eq!(history_lines(content), vec!["third".to_string(), "second".to_string(), "first".to_string()]);
    assert!(history_lines("").is_empty());
}

#[test]
fn the_record_just_written_reads_back_first() {
    let now = 1_700_000_000;
    let existing = format!("{}\n", record(now - 100, "a"));
    let entry = record(now, "b");
    let log = retained_log(&existing, entry.clone(), now);
    assert_eq!(history_lines(&log)[0], entry);
}
