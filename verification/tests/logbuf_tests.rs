use std::time::{Duration, SystemTime, UNIX_EPOCH};

use cometty::logbuf::{
    Level, LevelFilter, LogBuffer, MAX_MESSAGE_BYTES, TRUNCATION_MARKER, format_hhmmss_mmm,
    stamp_millis,
};

fn messages(buffer: &LogBuffer) -> Vec<String> {
    (0..buffer.len()).map(|i| buffer.message_at(i).unwrap()).collect()
}

fn push(buffer: &mut LogBuffer, level: Level, message: &str) {
    buffer.push(level, "cometty::test", message.to_string());
}

fn millis(at: SystemTime) -> u64 {
    at.duration_since(UNIX_EPOCH)
        .map(|d| d.as_millis() as u64)
        .unwrap_or(0)
}

#[test]
fn ring_evicts_oldest_and_counts_dropped() {
    let mut buffer = LogBuffer::new(3);
    for i in 0..5 {
        push(&mut buffer, Level::Info, &format!("msg {i}"));
    }
    assert_eq!(buffer.len(), 3);
    assert_eq!(buffer.dropped(), 2);
    assert_eq!(messages(&buffer), ["msg 2", "msg 3", "msg 4"]);
}

#[test]
fn byte_budget_evicts_before_line_cap() {
    // 4 lines grant a 4 KiB budget, but each entry also pays its struct
    // overhead, so four 1 KiB payloads no longer fit.
    let mut buffer = LogBuffer::new(4);
    for i in 0..4 {
        push(
            &mut buffer,
            Level::Info,
            &format!("{i}{}", "x".repeat(1000)),
        );
    }
    assert_eq!(buffer.len(), 3);
    assert_eq!(buffer.dropped(), 1);
    assert!(!messages(&buffer)[0].starts_with('0'));
}

#[test]
fn oversized_message_is_truncated_not_evicting() {
    let mut buffer = LogBuffer::new(1);
    push(&mut buffer, Level::Info, &"x".repeat(MAX_MESSAGE_BYTES * 2));
    assert_eq!(buffer.len(), 1);
    let message = &messages(&buffer)[0];
    assert!(message.ends_with(TRUNCATION_MARKER));
    assert!(message.len() <= MAX_MESSAGE_BYTES + TRUNCATION_MARKER.len());
}

#[test]
fn truncation_respects_char_boundaries() {
    let mut buffer = LogBuffer::new(1);
    push(&mut buffer, Level::Info, &"é".repeat(MAX_MESSAGE_BYTES));
    let message = &messages(&buffer)[0];
    assert!(message.ends_with(TRUNCATION_MARKER));
    assert!(message.len() <= MAX_MESSAGE_BYTES + TRUNCATION_MARKER.len());
}

#[test]
fn filtered_applies_level_and_text() {
    let mut buffer = LogBuffer::new(16);
    push(&mut buffer, Level::Error, "pty spawn failed");
    push(&mut buffer, Level::Info, "shell exited (tab 0)");
    push(&mut buffer, Level::Debug, "renderer init");
    push(&mut buffer, Level::Trace, "grid version bumped");

    assert_eq!(buffer.filtered(LevelFilter::Trace, "").len(), 4);
    assert_eq!(buffer.filtered(LevelFilter::Info, "").len(), 2);
    assert_eq!(buffer.filtered(LevelFilter::Off, "").len(), 0);
    let hits = buffer.filtered(LevelFilter::Trace, "SHELL");
    assert_eq!(hits.len(), 1);
    assert_eq!(hits[0].message, "shell exited (tab 0)");
    assert_eq!(
        buffer.filtered(LevelFilter::Trace, "cometty::test").len(),
        4
    );
}

#[test]
fn clear_resets_entries_and_dropped() {
    let mut buffer = LogBuffer::new(2);
    for i in 0..4 {
        push(&mut buffer, Level::Info, &format!("msg {i}"));
    }
    assert_eq!(buffer.dropped(), 2);
    buffer.clear();
    assert!(buffer.is_empty());
    assert_eq!(buffer.dropped(), 0);
}

#[test]
fn capacity_shrink_keeps_newest_and_releases_memory() {
    let mut buffer = LogBuffer::new(8);
    for i in 0..8 {
        push(&mut buffer, Level::Info, &format!("msg {i}"));
    }
    buffer.set_capacity(2);
    assert_eq!(buffer.len(), 2);
    assert_eq!(buffer.dropped(), 6);
    assert_eq!(messages(&buffer), ["msg 6", "msg 7"]);
}

#[test]
fn time_of_day_is_utc_with_millis() {
    assert_eq!(
        format_hhmmss_mmm(millis(UNIX_EPOCH)),
        "00:00:00.000",
        "epoch is midnight UTC"
    );
    let one_hour_one_minute = UNIX_EPOCH + Duration::from_millis(3_661_500);
    assert_eq!(format_hhmmss_mmm(millis(one_hour_one_minute)), "01:01:01.500");
    let next_day = UNIX_EPOCH + Duration::from_secs(86_400 + 61);
    assert_eq!(format_hhmmss_mmm(millis(next_day)), "00:01:01.000");
}

#[test]
fn zero_capacity_is_clamped_to_one() {
    let mut buffer = LogBuffer::new(0);
    push(&mut buffer, Level::Info, "only");
    assert_eq!(buffer.len(), 1);
}

#[test]
fn push_at_keeps_the_given_time() {
    let mut buffer = LogBuffer::new(4);
    buffer.push_at(Level::Warn, "t", "m".to_string(), 3_661_500);
    let all = buffer.filtered(LevelFilter::Trace, "");
    assert_eq!(all.len(), 1);
    assert_eq!(all[0].at_ms, 3_661_500);
    assert_eq!(format_hhmmss_mmm(all[0].at_ms), "01:01:01.500");
}

#[test]
fn retained_plus_dropped_counts_every_push_newest_kept() {
    let mut b = LogBuffer::new(3);
    let mut pushed = 0u64;
    for i in 0..5 {
        b.push(Level::Info, "t", format!("m{i}"));
        pushed += 1;
    }
    b.set_capacity(2);
    for i in 5..7 {
        b.push(Level::Info, "t", format!("m{i}"));
        pushed += 1;
    }
    b.set_capacity(4);
    b.push(Level::Info, "t", "m7".to_string());
    pushed += 1;
    assert_eq!(b.len() as u64 + b.dropped(), pushed);
    assert_eq!(b.len(), 3);
    assert_eq!(b.message_at(0).as_deref(), Some("m5"));
    assert_eq!(b.message_at(1).as_deref(), Some("m6"));
    assert_eq!(b.message_at(2).as_deref(), Some("m7"));
}

#[test]
fn clock_readings_become_millisecond_stamps() {
    assert_eq!(stamp_millis(None), 0);
    assert_eq!(stamp_millis(Some(1_500)), 1_500);
    assert_eq!(stamp_millis(Some(u128::from(u64::MAX) + 7)), u64::MAX);
}
