//! Log window state and the plain-text form of log entries.

use std::sync::Arc;

use vstd::prelude::*;

use crate::logbuf::{LevelFilter, LogEntry, LogEntryView, format_hhmmss_mmm, hhmmss_mmm_spec};
use crate::text::{append_str, push_char};

verus! {

broadcast use vstd::string::group_string_axioms;

/// Log window state. The level and filter only change what is shown;
/// what is recorded is configured elsewhere.
pub struct LogsPanel {
    pub open: bool,
    /// Most verbose level shown (`Off` = nothing).
    pub level: LevelFilter,
    /// Case-insensitive substring filter over target and message.
    pub filter_text: String,
    /// Stick to the newest entry as records arrive.
    pub following: bool,
}

impl Default for LogsPanel {
    fn default() -> (p: Self)
        ensures
            !p.open,
            p.level == LevelFilter::Debug,
            p.filter_text@ == Seq::<char>::empty(),
            p.following,
    {
        LogsPanel { open: false, level: LevelFilter::Debug, filter_text: String::new(), following: true }
    }
}

impl LogsPanel {
    /// Open a closed panel, close an open one. Records wake the event loop
    /// only while the panel is open, so the caller gates wake-ups on the new
    /// `open`.
    pub fn toggle(&mut self)
        ensures
            final(self).open == !old(self).open,
            final(self).level == old(self).level,
            final(self).filter_text@ == old(self).filter_text@,
            final(self).following == old(self).following,
    {
        self.open = !self.open;
    }

    /// Open (from the menu bar; never closes).
    pub fn show(&mut self)
        ensures
            final(self).open,
            final(self).level == old(self).level,
            final(self).filter_text@ == old(self).filter_text@,
            final(self).following == old(self).following,
    {
        self.open = true;
    }

    pub fn close(&mut self)
        ensures
            !final(self).open,
            final(self).level == old(self).level,
            final(self).filter_text@ == old(self).filter_text@,
            final(self).following == old(self).following,
    {
        self.open = false;
    }
}

/// The picker label of a level filter.
pub open spec fn level_label_spec(level: LevelFilter) -> Seq<char> {
    match level {
        LevelFilter::Off => "off"@,
        LevelFilter::Error => "error"@,
        LevelFilter::Warn => "warn"@,
        LevelFilter::Info => "info"@,
        LevelFilter::Debug => "debug"@,
        LevelFilter::Trace => "trace"@,
    }
}

pub fn level_label(level: LevelFilter) -> (s: &'static str)
    ensures
        s@ == level_label_spec(level),
{
    match level {
        LevelFilter::Off => "off",
        LevelFilter::Error => "error",
        LevelFilter::Warn => "warn",
        LevelFilter::Info => "info",
        LevelFilter::Debug => "debug",
        LevelFilter::Trace => "trace",
    }
}

/// One entry as a line: `HH:MM:SS.mmm LEVEL target message`.
pub open spec fn entry_line(e: LogEntryView) -> Seq<char> {
    hhmmss_mmm_spec(e.at_ms) + seq![' '] + e.level.name_spec() + seq![' '] + e.target + seq![' ']
        + e.message + seq!['\n']
}

/// The lines of `es`, in order.
pub open spec fn entries_text(es: Seq<LogEntryView>) -> Seq<char>
    decreases es.len(),
{
    if es.len() == 0 {
        Seq::empty()
    } else {
        entries_text(es.drop_last()) + entry_line(es.last())
    }
}

/// The views of shared log entries.
pub open spec fn entry_views(es: Seq<Arc<LogEntry>>) -> Seq<LogEntryView> {
    es.map_values(|a: Arc<LogEntry>| (*a)@)
}

/// Plain-text dump of `entries`, one line each (for the `Copy` button).
pub fn format_entries(entries: &[Arc<LogEntry>]) -> (text: String)
    ensures
        text@ == entries_text(entry_views(entries@)),
{
    let mut text = String::new();
    let mut i: usize = 0;
    while i < entries.len()
        invariant
            i <= entries@.len(),
            text@ == entries_text(entry_views(entries@).subrange(0, i as int)),
        decreases entries@.len() - i,
    {
        let e: &LogEntry = &entries[i];
        let ghost before = text@;
        let stamp = format_hhmmss_mmm(e.at_ms);
        append_str(&mut text, stamp.as_str());
        push_char(&mut text, ' ');
        append_str(&mut text, e.level.as_str());
        push_char(&mut text, ' ');
        append_str(&mut text, e.target.as_str());
        push_char(&mut text, ' ');
        append_str(&mut text, e.message.as_str());
        push_char(&mut text, '\n');
        let ghost pre = entry_views(entries@).subrange(0, i + 1);
        assert(pre.drop_last() =~= entry_views(entries@).subrange(0, i as int));
        assert(pre.last() == e@);
        assert(text@ =~= before + entry_line(e@));
        i += 1;
    }
    assert(entry_views(entries@).subrange(0, entries@.len() as int) =~= entry_views(entries@));
    text
}

} // verus!
