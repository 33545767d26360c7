use std::sync::Arc;

use cometty::log_panel::{LogsPanel, format_entries, level_label};
use cometty::logbuf::{Level, LevelFilter, LogEntry};

fn entry(level: Level, message: &str) -> Arc<LogEntry> {
    Arc::new(LogEntry {
        level,
        target: "cometty::test".to_string(),
        message: message.to_string(),
        at_ms: 3_661_500,
    })
}

#[test]
fn copied_text_is_one_line_per_entry() {
    let entries = vec![
        entry(Level::Warn, "clamping surface size"),
        entry(Level::Error, "render failed: lost"),
    ];
    let text = format_entries(&entries);
    let lines: Vec<&str> = text.lines().collect();
    assert_eq!(lines.len(), 2);
    assert_eq!(
        lines[0],
        "01:01:01.500 WARN cometty::test clamping surface size"
    );
    assert!(lines[1].starts_with("01:01:01.500 ERROR "));
}

#[test]
fn level_labels_cover_every_filter() {
    for level in [
        LevelFilter::Off,
        LevelFilter::Error,
        LevelFilter::Warn,
        LevelFilter::Info,
        LevelFilter::Debug,
        LevelFilter::Trace,
    ] {
        assert!(!level_label(level).is_empty());
    }
    assert_eq!(level_label(LevelFilter::Warn), "warn");
}

#[test]
fn panel_toggle_show_and_close() {
    let mut panel = LogsPanel::default();
    assert!(!panel.open && panel.following && panel.level == LevelFilter::Debug);
    panel.toggle();
    assert!(panel.open);
    panel.toggle();
    assert!(!panel.open);
    panel.show();
    assert!(panel.open);
    panel.show();
    assert!(panel.open);
    panel.close();
    assert!(!panel.open);
}

#[test]
fn empty_list_copies_nothing() {
    assert_eq!(format_entries(&[]), "");
}
