//! In-memory log ring buffer backing the in-app log panel.
//!
//! Storage is bounded twice over: by entry count ([`LogBuffer::set_capacity`])
//! and by a byte budget derived from it, so a single huge message can't
//! blow the ceiling and evict the whole history.

use std::collections::VecDeque;
use std::sync::Arc;
use std::time::{Duration, SystemTime, UNIX_EPOCH};

use vstd::prelude::*;
use vstd::utf8::{decode_utf8, encode_utf8, is_char_boundary};

verus! {

broadcast use vstd::std_specs::vecdeque::group_vec_dequeue_axioms;

/// Per-message cap. Longer messages are truncated on a char boundary with
/// an elision marker.
pub const MAX_MESSAGE_BYTES: usize = 8 * 1024;

/// Byte budget granted per configured line.
pub const BYTES_PER_LINE: usize = 1024;

/// Hard ceiling for the derived byte budget.
pub const MAX_BUDGET_BYTES: usize = 16 * 1024 * 1024;

/// Elision marker appended to truncated messages.
pub const TRUNCATION_MARKER: &'static str = "… [truncated]";

/// Severity of a record, most severe first.
#[derive(Clone, Copy, Debug, PartialEq, Eq, Structural)]
pub enum Level {
    Error,
    Warn,
    Info,
    Debug,
    Trace,
}

/// A verbosity ceiling: `Off` shows nothing, `Trace` everything.
#[derive(Clone, Copy, Debug, PartialEq, Eq, Structural)]
pub enum LevelFilter {
    Off,
    Error,
    Warn,
    Info,
    Debug,
    Trace,
}

pub open spec fn level_rank(l: Level) -> int {
    match l {
        Level::Error => 1,
        Level::Warn => 2,
        Level::Info => 3,
        Level::Debug => 4,
        Level::Trace => 5,
    }
}

impl Level {
    /// The level's name as log lines print it.
    pub open spec fn name_spec(self) -> Seq<char> {
        match self {
            Level::Error => "ERROR"@,
            Level::Warn => "WARN"@,
            Level::Info => "INFO"@,
            Level::Debug => "DEBUG"@,
            Level::Trace => "TRACE"@,
        }
    }

    pub fn as_str(self) -> (s: &'static str)
        ensures
            s@ == self.name_spec(),
    {
        match self {
            Level::Error => "ERROR",
            Level::Warn => "WARN",
            Level::Info => "INFO",
            Level::Debug => "DEBUG",
            Level::Trace => "TRACE",
        }
    }
}

/// A record of level `l` shows under the filter `f`.
pub open spec fn level_passes_spec(l: Level, f: LevelFilter) -> bool {
    level_rank(l) <= filter_rank(f)
}

pub open spec fn filter_rank(f: LevelFilter) -> int {
    match f {
        LevelFilter::Off => 0,
        LevelFilter::Error => 1,
        LevelFilter::Warn => 2,
        LevelFilter::Info => 3,
        LevelFilter::Debug => 4,
        LevelFilter::Trace => 5,
    }
}

/// One captured log record; `at_ms` is wall-clock milliseconds since the
/// Unix epoch.
#[derive(Debug)]
pub struct LogEntry {
    pub level: Level,
    pub target: String,
    pub message: String,
    pub at_ms: u64,
}

/// Value model of a [`LogEntry`].
pub struct LogEntryView {
    pub level: Level,
    pub target: Seq<char>,
    pub message: Seq<char>,
    pub at_ms: u64,
}

impl View for LogEntry {
    type V = LogEntryView;

    open spec fn view(&self) -> LogEntryView {
        LogEntryView {
            level: self.level,
            target: self.target@,
            message: self.message@,
            at_ms: self.at_ms,
        }
    }
}

/// Bounded FIFO of log entries, oldest evicted first.
pub struct LogBuffer {
    entries: VecDeque<Arc<LogEntry>>,
    max_lines: usize,
    max_bytes: usize,
    bytes: usize,
    dropped: u64,
}

/// Value model of a [`LogBuffer`].
pub struct LogBufferView {
    pub entries: Seq<LogEntryView>,
    pub max_lines: usize,
    pub max_bytes: usize,
    pub bytes: usize,
    pub dropped: u64,
}

impl View for LogBuffer {
    type V = LogBufferView;

    closed spec fn view(&self) -> LogBufferView {
        LogBufferView {
            entries: self.entries@.map_values(|a: Arc<LogEntry>| (*a)@),
            max_lines: self.max_lines,
            max_bytes: self.max_bytes,
            bytes: self.bytes,
            dropped: self.dropped,
        }
    }
}

/// Approximate heap cost of one entry: the struct itself plus the UTF-8
/// bytes of its target and message.
pub open spec fn entry_bytes_spec(e: LogEntryView) -> int {
    vstd::layout::size_of::<LogEntry>() as int + byte_count(e.target) as int + byte_count(e.message) as int
}

/// The UTF-8 byte length of `s`, as `str::len` reports it.
pub open spec fn byte_count(s: Seq<char>) -> usize {
    encode_utf8(s).len() as usize
}

pub open spec fn sat_add(a: usize, b: int) -> usize {
    if a + b > usize::MAX {
        usize::MAX
    } else {
        (a + b) as usize
    }
}

pub open spec fn sat_sub(a: usize, b: int) -> usize {
    if a - b < 0 {
        0
    } else {
        (a - b) as usize
    }
}

/// The byte budget for `max_lines` lines.
pub open spec fn budget_for(max_lines: usize) -> usize {
    if max_lines * BYTES_PER_LINE > MAX_BUDGET_BYTES {
        MAX_BUDGET_BYTES
    } else {
        (max_lines * BYTES_PER_LINE) as usize
    }
}

impl LogBufferView {
    /// Either bound is exceeded (a single entry always stays).
    pub open spec fn over_bounds(self) -> bool {
        self.entries.len() > self.max_lines || (self.bytes > self.max_bytes && self.entries.len()
            > 1)
    }

    /// The oldest entry dropped and counted.
    pub open spec fn drop_oldest(self) -> LogBufferView {
        LogBufferView {
            entries: self.entries.drop_first(),
            bytes: sat_sub(self.bytes, entry_bytes_spec(self.entries[0])),
            dropped: if self.dropped == u64::MAX {
                u64::MAX
            } else {
                (self.dropped + 1) as u64
            },
            ..self
        }
    }

    /// Oldest entries dropped while a bound is exceeded.
    pub open spec fn evicted(self) -> LogBufferView
        decreases self.entries.len(),
    {
        if self.over_bounds() && self.entries.len() > 0 {
            self.drop_oldest().evicted()
        } else {
            self
        }
    }

    /// Capacity set to `max_lines` (at least 1) with its byte budget, then
    /// evicted.
    pub open spec fn with_capacity(self, max_lines: usize) -> LogBufferView {
        let m: usize = if max_lines > 1 {
            max_lines
        } else {
            1
        };
        LogBufferView { max_lines: m, max_bytes: budget_for(m), ..self }.evicted()
    }

    /// `e` appended, its bytes counted, then evicted.
    pub open spec fn pushed(self, e: LogEntryView) -> LogBufferView {
        LogBufferView {
            entries: self.entries.push(e),
            bytes: sat_add(self.bytes, entry_bytes_spec(e)),
            ..self
        }.evicted()
    }

    /// The buffer's invariant: the line cap is positive and the budget is
    /// derived from it.
    pub open spec fn wf(self) -> bool {
        &&& self.max_lines >= 1
        &&& self.max_bytes == budget_for(self.max_lines)
    }
}

/// Eviction keeps at most `max_lines` entries and keeps the newest ones in
/// order.
pub proof fn lemma_evicted_bounds(v: LogBufferView)
    ensures
        v.evicted().entries.len() <= v.entries.len(),
        v.entries.len() > 0 && v.max_lines >= 1 ==> v.evicted().entries.len() >= 1,
        v.evicted().entries.len() <= v.max_lines || v.max_lines == 0,
        v.evicted().entries =~= v.entries.subrange(
            v.entries.len() - v.evicted().entries.len(),
            v.entries.len() as int,
        ),
        v.evicted().max_lines == v.max_lines,
        v.evicted().max_bytes == v.max_bytes,
    decreases v.entries.len(),
{
    if v.over_bounds() && v.entries.len() > 0 {
        let d = v.drop_oldest();
        lemma_evicted_bounds(d);
        assert(d.entries =~= v.entries.subrange(1, v.entries.len() as int));
    }
}

/// `v` holds the newest of the entries `hist` pushed so far, in push
/// order, and counts the rest as dropped.
pub open spec fn holds_history(v: LogBufferView, hist: Seq<LogEntryView>) -> bool {
    &&& v.entries.len() + v.dropped == hist.len()
    &&& v.entries == hist.subrange(hist.len() - v.entries.len(), hist.len() as int)
}

/// Eviction keeps the history: what it drops is counted.
pub proof fn lemma_evicted_history(v: LogBufferView, hist: Seq<LogEntryView>)
    requires
        holds_history(v, hist),
        hist.len() < u64::MAX,
    ensures
        holds_history(v.evicted(), hist),
    decreases v.entries.len(),
{
    if v.over_bounds() && v.entries.len() > 0 {
        let d = v.drop_oldest();
        assert(d.entries =~= hist.subrange(hist.len() - d.entries.len(), hist.len() as int));
        lemma_evicted_history(d, hist);
    }
}

/// Retained plus dropped entries count every push, the retained ones
/// are the newest in push order, and there are at most `max_lines` of
/// them: a push extends the history by the pushed entry.
pub proof fn lemma_push_keeps_history(v: LogBufferView, hist: Seq<LogEntryView>, e: LogEntryView)
    requires
        v.wf(),
        holds_history(v, hist),
        hist.len() + 1 < u64::MAX,
    ensures
        holds_history(v.pushed(e), hist.push(e)),
        v.pushed(e).entries.len() <= v.max_lines,
        v.pushed(e).entries.len() >= 1,
        v.pushed(e).entries.last() == e,
{
    let w = LogBufferView {
        entries: v.entries.push(e),
        bytes: sat_add(v.bytes, entry_bytes_spec(e)),
        ..v
    };
    let h = hist.push(e);
    assert(w.entries =~= h.subrange(h.len() - w.entries.len(), h.len() as int));
    lemma_evicted_history(w, h);
    lemma_evicted_bounds(w);
}

/// Changing the capacity keeps the history and the new line cap.
pub proof fn lemma_capacity_keeps_history(v: LogBufferView, hist: Seq<LogEntryView>, max_lines: usize)
    requires
        holds_history(v, hist),
        hist.len() < u64::MAX,
    ensures
        holds_history(v.with_capacity(max_lines), hist),
        v.with_capacity(max_lines).entries.len() <= (if max_lines > 1 {
            max_lines as int
        } else {
            1
        }),
{
    let m: usize = if max_lines > 1 {
        max_lines
    } else {
        1
    };
    let w = LogBufferView { max_lines: m, max_bytes: budget_for(m), ..v };
    lemma_evicted_history(w, hist);
    lemma_evicted_bounds(w);
}

/// Which records a level filter lets through: nothing at `Off`; at any
/// other filter every record whose level is at least as severe as the
/// filter's, in the order Error, Warn, Info, Debug, Trace. So each level
/// passes the filter of the same name, and the next more verbose level
/// does not.
pub proof fn lemma_level_filter_order(l: Level, f: LevelFilter)
    ensures
        level_passes_spec(l, f) <==> (f != LevelFilter::Off && (l == Level::Error || (
        l == Level::Warn && f != LevelFilter::Error) || (l == Level::Info && (f == LevelFilter::Info
            || f == LevelFilter::Debug || f == LevelFilter::Trace)) || (l == Level::Debug && (f
            == LevelFilter::Debug || f == LevelFilter::Trace)) || (l == Level::Trace && f
            == LevelFilter::Trace))),
{
}

/// What the log panel shows: each shown entry passes the level filter and
/// contains the search text (ASCII case ignored) in its target or message;
/// every entry that does is shown; the shown entries keep their order (an
/// entry shown before another was recorded before it); at `Trace` with an
/// empty search everything is shown, and at `Off` nothing.
pub proof fn lemma_filtered_shows_matching(entries: Seq<LogEntryView>, f: LevelFilter, needle: Seq<u8>)
    ensures
        ({
            let r = filtered_spec(entries, f, needle);
            &&& r.len() <= entries.len()
            &&& forall|k: int| 0 <= k < r.len() ==> level_passes_spec((#[trigger] r[k]).level, f)
                && entry_matches(r[k], needle)
            &&& forall|i: int|
                0 <= i < entries.len() && level_passes_spec(entries[i].level, f) && entry_matches(
                    entries[i],
                    needle,
                ) ==> r.contains(#[trigger] entries[i])
            &&& forall|k: int| 0 <= k < r.len() ==> entries.contains(#[trigger] r[k])
            &&& f == LevelFilter::Trace && needle.len() == 0 ==> r == entries
            &&& f == LevelFilter::Off ==> r.len() == 0
        }),
    decreases entries.len(),
{
    let r = filtered_spec(entries, f, needle);
    if entries.len() > 0 {
        let init = entries.drop_last();
        lemma_filtered_shows_matching(init, f, needle);
        let r0 = filtered_spec(init, f, needle);
        let e = entries.last();
        assert forall|i: int|
            0 <= i < entries.len() && level_passes_spec(entries[i].level, f) && entry_matches(
                entries[i],
                needle,
            ) implies r.contains(#[trigger] entries[i]) by {
            if i < entries.len() - 1 {
                assert(init[i] == entries[i]);
                let k = choose|k: int| 0 <= k < r0.len() && r0[k] == init[i];
                if level_passes_spec(e.level, f) && entry_matches(e, needle) {
                    assert(r[k] == r0[k]);
                }
            } else {
                assert(r[r.len() - 1] == e);
            }
        }
        assert forall|k: int| 0 <= k < r.len() implies entries.contains(#[trigger] r[k]) by {
            if k < r0.len() {
                assert(r[k] == r0[k]);
                let i = choose|i: int| 0 <= i < init.len() && init[i] == r0[k];
                assert(entries[i] == init[i]);
            } else {
                assert(r[k] == entries[entries.len() - 1]);
            }
        }
        if f == LevelFilter::Trace && needle.len() == 0 {
            assert(level_passes_spec(e.level, f));
            assert(entries =~= init.push(e));
        }
    }
}

/// One call on a log buffer, as the model sees it.
pub enum LogOp {
    /// `push` / `push_at` storing this entry (message already truncated).
    Push(LogEntryView),
    /// `set_capacity` with this line count.
    SetCapacity(usize),
}

/// The buffer after one call.
pub open spec fn apply_log_op(v: LogBufferView, op: LogOp) -> LogBufferView {
    match op {
        LogOp::Push(e) => v.pushed(e),
        LogOp::SetCapacity(n) => v.with_capacity(n),
    }
}

/// The buffer after a sequence of calls, first to last.
pub open spec fn apply_log_ops(v: LogBufferView, ops: Seq<LogOp>) -> LogBufferView
    decreases ops.len(),
{
    if ops.len() == 0 {
        v
    } else {
        apply_log_op(apply_log_ops(v, ops.drop_last()), ops.last())
    }
}

/// The entries pushed by a sequence of calls, in push order.
pub open spec fn pushed_entries(ops: Seq<LogOp>) -> Seq<LogEntryView>
    decreases ops.len(),
{
    if ops.len() == 0 {
        Seq::empty()
    } else {
        match ops.last() {
            LogOp::Push(e) => pushed_entries(ops.drop_last()).push(e),
            LogOp::SetCapacity(_) => pushed_entries(ops.drop_last()),
        }
    }
}

/// The line cap in force after a sequence of calls: the last capacity set
/// (raised to at least 1), else `cap`.
pub open spec fn line_cap_after(cap: usize, ops: Seq<LogOp>) -> usize
    decreases ops.len(),
{
    if ops.len() == 0 {
        cap
    } else {
        match ops.last() {
            LogOp::Push(_) => line_cap_after(cap, ops.drop_last()),
            LogOp::SetCapacity(n) => if n > 1 {
                n
            } else {
                1
            },
        }
    }
}

proof fn lemma_pushed_entries_len(ops: Seq<LogOp>)
    ensures
        pushed_entries(ops).len() <= ops.len(),
    decreases ops.len(),
{
    if ops.len() > 0 {
        lemma_pushed_entries_len(ops.drop_last());
    }
}

/// Any sequence of pushes and capacity changes keeps the history: the
/// retained entries plus the dropped count make up everything pushed, the
/// retained ones are the newest in push order, and no more are kept than
/// the line cap in force.
pub proof fn lemma_log_ops_keep_history(v: LogBufferView, hist: Seq<LogEntryView>, ops: Seq<LogOp>)
    requires
        v.wf(),
        v.entries.len() <= v.max_lines,
        holds_history(v, hist),
        hist.len() + ops.len() + 1 < u64::MAX,
    ensures
        ({
            let r = apply_log_ops(v, ops);
            &&& r.wf()
            &&& holds_history(r, hist + pushed_entries(ops))
            &&& r.max_lines == line_cap_after(v.max_lines, ops)
            &&& r.entries.len() <= r.max_lines
        }),
    decreases ops.len(),
{
    if ops.len() == 0 {
        assert(hist + pushed_entries(ops) =~= hist);
    } else {
        let init = ops.drop_last();
        lemma_log_ops_keep_history(v, hist, init);
        lemma_pushed_entries_len(init);
        let p = apply_log_ops(v, init);
        let h = hist + pushed_entries(init);
        match ops.last() {
            LogOp::Push(e) => {
                lemma_push_keeps_history(p, h, e);
                lemma_evicted_bounds(LogBufferView {
                    entries: p.entries.push(e),
                    bytes: sat_add(p.bytes, entry_bytes_spec(e)),
                    ..p
                });
                assert(h.push(e) =~= hist + pushed_entries(ops));
            },
            LogOp::SetCapacity(n) => {
                lemma_capacity_keeps_history(p, h, n);
                let m: usize = if n > 1 {
                    n
                } else {
                    1
                };
                lemma_evicted_bounds(LogBufferView { max_lines: m, max_bytes: budget_for(m), ..p });
                assert(h =~= hist + pushed_entries(ops));
            },
        }
    }
}

/// From a new or cleared buffer, after any sequence of pushes and capacity
/// changes: retained plus dropped equals the number of pushes, the retained
/// entries are the last ones pushed, in push order, and there are no more
/// of them than the line cap in force.
pub proof fn lemma_fresh_buffer_counts_pushes(v: LogBufferView, ops: Seq<LogOp>)
    requires
        v.wf(),
        v.entries.len() == 0,
        v.dropped == 0,
        ops.len() + 1 < u64::MAX,
    ensures
        ({
            let r = apply_log_ops(v, ops);
            let pushes = pushed_entries(ops);
            &&& r.entries.len() + r.dropped == pushes.len()
            &&& r.entries == pushes.subrange(pushes.len() - r.entries.len(), pushes.len() as int)
            &&& r.entries.len() <= line_cap_after(v.max_lines, ops)
        }),
{
    let empty = Seq::<LogEntryView>::empty();
    assert(v.entries =~= empty.subrange(0, 0));
    lemma_log_ops_keep_history(v, empty, ops);
    assert(empty + pushed_entries(ops) =~= pushed_entries(ops));
}

/// The byte length of `s`.
fn byte_len(s: &str) -> (n: usize)
    ensures
        n == byte_count(s@),
{
    s.len()
}

/// Approximate heap cost of one entry (see [`entry_bytes_spec`]).
fn entry_bytes(e: &LogEntry) -> (n: usize)
    ensures
        n == (if entry_bytes_spec(e@) > usize::MAX {
            usize::MAX as int
        } else {
            entry_bytes_spec(e@)
        }),
{
    let base = core::mem::size_of::<LogEntry>();
    let t = byte_len(e.target.as_str());
    let m = byte_len(e.message.as_str());
    base.saturating_add(t).saturating_add(m)
}

/// `true` when a record at `level` is at most as verbose as `max_level`.
pub fn level_passes(level: Level, max_level: LevelFilter) -> (r: bool)
    ensures
        r == level_passes_spec(level, max_level),
{
    let l: u8 = match level {
        Level::Error => 1,
        Level::Warn => 2,
        Level::Info => 3,
        Level::Debug => 4,
        Level::Trace => 5,
    };
    let f: u8 = match max_level {
        LevelFilter::Off => 0,
        LevelFilter::Error => 1,
        LevelFilter::Warn => 2,
        LevelFilter::Info => 3,
        LevelFilter::Debug => 4,
        LevelFilter::Trace => 5,
    };
    l <= f
}

/// ASCII lowercase of one byte.
pub open spec fn lower_byte(b: u8) -> u8 {
    if 65 <= b <= 90 {
        (b + 32) as u8
    } else {
        b
    }
}

fn lower_byte_exec(b: u8) -> (r: u8)
    ensures
        r == lower_byte(b),
{
    if 65 <= b && b <= 90 {
        b + 32
    } else {
        b
    }
}

/// `needle` occurs in `hay` at `i`, ignoring ASCII case.
pub open spec fn occurs_at(hay: Seq<u8>, needle: Seq<u8>, i: int) -> bool {
    &&& 0 <= i
    &&& i + needle.len() <= hay.len()
    &&& forall|j: int| 0 <= j < needle.len() ==> lower_byte(#[trigger] hay[i + j]) == lower_byte(needle[j])
}

/// `needle` occurs somewhere in `hay`, ignoring ASCII case (the empty
/// needle occurs everywhere).
pub open spec fn contains_ci(hay: Seq<u8>, needle: Seq<u8>) -> bool {
    needle.len() == 0 || exists|i: int| occurs_at(hay, needle, i)
}

fn occurs_at_exec(hay: &[u8], needle: &[u8], i: usize) -> (r: bool)
    requires
        i + needle@.len() <= hay@.len(),
    ensures
        r == occurs_at(hay@, needle@, i as int),
{
    let hl = hay.len();
    let mut j: usize = 0;
    while j < needle.len()
        invariant
            hl == hay@.len(),
            i + needle@.len() <= hay@.len(),
            j <= needle@.len(),
            forall|k: int| 0 <= k < j ==> lower_byte(#[trigger] hay@[i + k]) == lower_byte(needle@[k]),
        decreases needle@.len() - j,
    {
        if lower_byte_exec(hay[i + j]) != lower_byte_exec(needle[j]) {
            return false;
        }
        j += 1;
    }
    true
}

/// Case-insensitive (ASCII) byte substring search.
pub fn contains(hay: &[u8], needle: &[u8]) -> (r: bool)
    ensures
        r == contains_ci(hay@, needle@),
{
    if needle.len() == 0 {
        return true;
    }
    if hay.len() < needle.len() {
        proof {
            assert forall|i: int| !occurs_at(hay@, needle@, i) by {}
        }
        return false;
    }
    let last = hay.len() - needle.len();
    let mut i: usize = 0;
    while i <= last
        invariant
            last == hay@.len() - needle@.len(),
            needle@.len() > 0,
            forall|k: int| 0 <= k < i ==> !occurs_at(hay@, needle@, k),
        decreases last + 1 - i,
    {
        if occurs_at_exec(hay, needle, i) {
            return true;
        }
        if i == last {
            proof {
                assert forall|k: int| !occurs_at(hay@, needle@, k) by {
                    if 0 <= k <= last {
                    }
                }
            }
            return false;
        }
        i += 1;
    }
    false
}

/// The needle's bytes ASCII-lowercased.
fn lower_bytes(s: &[u8]) -> (r: Vec<u8>)
    ensures
        r@ == s@.map_values(|b: u8| lower_byte(b)),
{
    let mut out: Vec<u8> = Vec::new();
    let mut i: usize = 0;
    while i < s.len()
        invariant
            i <= s@.len(),
            out@ == s@.subrange(0, i as int).map_values(|b: u8| lower_byte(b)),
        decreases s@.len() - i,
    {
        out.push(lower_byte_exec(s[i]));
        i += 1;
        proof {
            assert(out@ =~= s@.subrange(0, i as int).map_values(|b: u8| lower_byte(b)));
        }
    }
    proof {
        assert(s@.subrange(0, s@.len() as int) =~= s@);
    }
    out
}

/// The record matches the (already lowercased) needle in its target or
/// message.
pub open spec fn entry_matches(e: LogEntryView, needle: Seq<u8>) -> bool {
    contains_ci(encode_utf8(e.target), needle) || contains_ci(encode_utf8(e.message), needle)
}

/// The entries shown for `max_level` and `needle`, in order.
pub open spec fn filtered_spec(entries: Seq<LogEntryView>, max_level: LevelFilter, needle: Seq<u8>) -> Seq<
    LogEntryView,
>
    decreases entries.len(),
{
    if entries.len() == 0 {
        Seq::empty()
    } else {
        let rest = filtered_spec(entries.drop_last(), max_level, needle);
        let e = entries.last();
        if level_passes_spec(e.level, max_level) && entry_matches(e, needle) {
            rest.push(e)
        } else {
            rest
        }
    }
}

/// The message cut to the last char boundary at or below the cap.
pub open spec fn cut_point(bytes: Seq<u8>, i: int) -> int
    decreases i,
{
    if i > 0 && !is_char_boundary(bytes, i) {
        cut_point(bytes, i - 1)
    } else {
        i
    }
}

/// A message longer than [`MAX_MESSAGE_BYTES`] cut on a char boundary,
/// with [`TRUNCATION_MARKER`] appended.
pub open spec fn truncated_spec(message: Seq<char>) -> Seq<char> {
    let bytes = encode_utf8(message);
    if byte_count(message) <= MAX_MESSAGE_BYTES {
        message
    } else {
        decode_utf8(bytes.subrange(0, cut_point(bytes, MAX_MESSAGE_BYTES as int))) + TRUNCATION_MARKER@
    }
}

/// Cap a message at [`MAX_MESSAGE_BYTES`] (see [`truncated_spec`]).
pub fn truncate_message(message: String) -> (r: String)
    ensures
        r@ == truncated_spec(message@),
{
    let ghost bytes = encode_utf8(message@);
    let n = message.as_str().len();
    if n <= MAX_MESSAGE_BYTES {
        return message;
    }
    let mut cut = MAX_MESSAGE_BYTES;
    while cut > 0 && !message.as_str().is_char_boundary(cut)
        invariant
            bytes == encode_utf8(message@),
            cut <= MAX_MESSAGE_BYTES,
            cut_point(bytes, cut as int) == cut_point(bytes, MAX_MESSAGE_BYTES as int),
        decreases cut,
    {
        cut -= 1;
    }
    proof {
        vstd::utf8::encode_utf8_valid_utf8(message@);
        vstd::utf8::is_char_boundary_start_end_of_seq(bytes);
    }
    let (head, _) = message.as_str().split_at(cut);
    proof {
        vstd::utf8::encode_utf8_decode_utf8(head@);
        assert(encode_utf8(head@) =~= bytes.subrange(0, cut as int));
        assert(head@ == decode_utf8(bytes.subrange(0, cut as int)));
    }
    let mut out = crate::text::string_of(head);
    out.append(TRUNCATION_MARKER);
    out
}

/// The wall clock's reading, `std::time::SystemTime`.
#[verifier::external_type_specification]
#[verifier::external_body]
pub struct ExSystemTime(SystemTime);

/// `SystemTime::now`: the wall clock's current reading. Nothing is stated
/// of it: it is the time.
#[verifier::external_body]
fn system_now() -> SystemTime {
    SystemTime::now()
}

/// `SystemTime::duration_since(UNIX_EPOCH)`: how long after the Unix epoch
/// `t` lies, `None` (the error) for a reading before it. Nothing is stated
/// of the value: it follows the clock.
#[verifier::external_body]
fn since_unix_epoch(t: &SystemTime) -> Option<Duration> {
    t.duration_since(UNIX_EPOCH).ok()
}

/// `Duration::as_millis`: the whole milliseconds in `d`. Nothing is stated
/// of the value: the durations here come from the clock.
#[verifier::external_body]
fn duration_millis(d: &Duration) -> u128 {
    d.as_millis()
}

/// The timestamp stored for a clock reading `since_epoch_ms` milliseconds
/// after the Unix epoch: `0` for a reading before the epoch (`None`), and
/// the count saturated at `u64::MAX`.
pub open spec fn stamp_millis_spec(since_epoch_ms: Option<u128>) -> u64 {
    match since_epoch_ms {
        None => 0,
        Some(ms) => if ms > u64::MAX as u128 {
            u64::MAX
        } else {
            ms as u64
        },
    }
}

/// Timestamp of a clock reading (see [`stamp_millis_spec`]).
pub fn stamp_millis(since_epoch_ms: Option<u128>) -> (r: u64)
    ensures
        r == stamp_millis_spec(since_epoch_ms),
{
    match since_epoch_ms {
        None => 0,
        Some(ms) => if ms > u64::MAX as u128 {
            u64::MAX
        } else {
            ms as u64
        },
    }
}

/// The current wall-clock time in milliseconds since the Unix epoch, `0`
/// for a clock set before it.
fn now_epoch_millis() -> (r: u64)
    ensures
        exists|ms: Option<u128>| r == stamp_millis_spec(ms),
{
    let now = system_now();
    let ms = match since_unix_epoch(&now) {
        Some(d) => Some(duration_millis(&d)),
        None => None,
    };
    stamp_millis(ms)
}

impl LogBuffer {
    pub closed spec fn inv(&self) -> bool {
        self@.wf()
    }

    /// New buffer capped at `max_lines` entries (clamped to at least 1).
    pub fn new(max_lines: usize) -> (b: Self)
        ensures
            b.inv(),
            b@.entries.len() == 0,
            b@.dropped == 0,
            b@.bytes == 0,
            b@.max_lines == (if max_lines > 1 {
                max_lines
            } else {
                1
            }),
    {
        let mut buffer = LogBuffer {
            entries: VecDeque::new(),
            max_lines: 1,
            max_bytes: 1,
            bytes: 0,
            dropped: 0,
        };
        buffer.set_capacity(max_lines);
        buffer
    }

    /// Resize the ring, dropping the oldest entries as needed.
    pub fn set_capacity(&mut self, max_lines: usize)
        ensures
            final(self)@ == old(self)@.with_capacity(max_lines),
            final(self).inv(),
    {
        let m = if max_lines > 1 {
            max_lines
        } else {
            1
        };
        self.max_lines = m;
        self.max_bytes = if m > MAX_BUDGET_BYTES / BYTES_PER_LINE {
            MAX_BUDGET_BYTES
        } else {
            m * BYTES_PER_LINE
        };
        proof {
            assert(self.max_bytes == budget_for(m)) by (nonlinear_arith)
                requires
                    self.max_bytes == (if m > MAX_BUDGET_BYTES / BYTES_PER_LINE {
                        MAX_BUDGET_BYTES
                    } else {
                        (m * BYTES_PER_LINE) as usize
                    }),
                    MAX_BUDGET_BYTES == 16 * 1024 * 1024,
                    BYTES_PER_LINE == 1024,
            ;
        }
        self.evict();
    }

    /// Append one record stamped with the current wall-clock time.
    pub fn push(&mut self, level: Level, target: &str, message: String)
        requires
            old(self).inv(),
        ensures
            final(self).inv(),
            exists|at: u64|
                final(self)@ == old(self)@.pushed(
                    LogEntryView {
                        level,
                        target: target@,
                        message: truncated_spec(message@),
                        at_ms: at,
                    },
                ),
    {
        let at = now_epoch_millis();
        self.push_at(level, target, message, at);
    }

    /// Append one record stamped `at_ms`, evicting oldest entries past
    /// either bound.
    pub fn push_at(&mut self, level: Level, target: &str, message: String, at_ms: u64)
        requires
            old(self).inv(),
        ensures
            final(self).inv(),
            final(self)@ == old(self)@.pushed(
                LogEntryView { level, target: target@, message: truncated_spec(message@), at_ms },
            ),
    {
        let ghost v0 = self@;
        let message = truncate_message(message);
        let entry = LogEntry { level, target: crate::text::string_of(target), message, at_ms };
        let ghost ev = entry@;
        let eb = entry_bytes(&entry);
        self.bytes = self.bytes.saturating_add(eb);
        self.entries.push_back(Arc::new(entry));
        proof {
            assert(self@.entries =~= v0.entries.push(ev));
            assert(self@.bytes == sat_add(v0.bytes, entry_bytes_spec(ev)));
            assert(self@ == (LogBufferView {
                entries: v0.entries.push(ev),
                bytes: sat_add(v0.bytes, entry_bytes_spec(ev)),
                ..v0
            }));
        }
        self.evict();
    }

    /// Drop oldest entries while a bound is exceeded.
    fn evict(&mut self)
        ensures
            final(self)@ == old(self)@.evicted(),
            old(self).inv() ==> final(self).inv(),
    {
        while self.entries.len() > self.max_lines || (self.bytes > self.max_bytes
            && self.entries.len() > 1)
            invariant
                old(self)@.evicted() == self@.evicted(),
                old(self)@.max_lines == self@.max_lines,
                old(self)@.max_bytes == self@.max_bytes,
            decreases self.entries@.len(),
        {
            let ghost before = self@;
            match self.entries.pop_front() {
                Some(front) => {
                    let eb = entry_bytes(&*front);
                    self.bytes = self.bytes.saturating_sub(eb);
                    self.dropped = self.dropped.saturating_add(1);
                    proof {
                        assert(self@.entries =~= before.entries.drop_first());
                        assert(self@ == before.drop_oldest());
                    }
                },
                None => {
                    proof {
                        assert(false);
                    }
                },
            }
        }
    }

    /// Entries to display: at most `max_level` verbosity, plus the
    /// case-insensitive `needle` filter over target and message (empty
    /// shows everything).
    pub fn filtered(&self, max_level: LevelFilter, needle: &str) -> (r: Vec<Arc<LogEntry>>)
        ensures
            r@.map_values(|a: Arc<LogEntry>| (*a)@) == filtered_spec(
                self@.entries,
                max_level,
                encode_utf8(needle@).map_values(|b: u8| lower_byte(b)),
            ),
    {
        let nl = lower_bytes(needle.as_bytes());
        let ghost ev = self@.entries;
        let mut out: Vec<Arc<LogEntry>> = Vec::new();
        let mut i: usize = 0;
        while i < self.entries.len()
            invariant
                ev == self@.entries,
                ev.len() == self.entries@.len(),
                i <= ev.len(),
                out@.map_values(|a: Arc<LogEntry>| (*a)@) == filtered_spec(
                    ev.subrange(0, i as int),
                    max_level,
                    nl@,
                ),
            decreases ev.len() - i,
        {
            let e = &self.entries[i];
            let keep = level_passes(e.level, max_level) && (contains(
                e.target.as_str().as_bytes(),
                nl.as_slice(),
            ) || contains(e.message.as_str().as_bytes(), nl.as_slice()));
            if keep {
                out.push(e.clone());
            }
            proof {
                assert(ev.subrange(0, i + 1).drop_last() =~= ev.subrange(0, i as int));
                assert(ev[i as int] == (*self.entries@[i as int])@);
            }
            i += 1;
            proof {
                assert(out@.map_values(|a: Arc<LogEntry>| (*a)@) =~= filtered_spec(
                    ev.subrange(0, i as int),
                    max_level,
                    nl@,
                ));
            }
        }
        proof {
            assert(ev.subrange(0, ev.len() as int) =~= ev);
        }
        out
    }

    /// Drop every entry and reset the dropped count.
    pub fn clear(&mut self)
        ensures
            final(self)@ == (LogBufferView {
                entries: Seq::empty(),
                bytes: 0,
                dropped: 0,
                ..old(self)@
            }),
            old(self).inv() ==> final(self).inv(),
    {
        self.entries.clear();
        self.bytes = 0;
        self.dropped = 0;
        proof {
            assert(self@.entries =~= Seq::<LogEntryView>::empty());
        }
    }

    pub fn len(&self) -> (n: usize)
        ensures
            n == self@.entries.len(),
    {
        self.entries.len()
    }

    pub fn is_empty(&self) -> (r: bool)
        ensures
            r == (self@.entries.len() == 0),
    {
        self.entries.len() == 0
    }

    /// Entries evicted by the ring bounds since the last [`Self::clear`].
    pub fn dropped(&self) -> (n: u64)
        ensures
            n == self@.dropped,
    {
        self.dropped
    }

    /// The message of entry `i`, oldest first.
    pub fn message_at(&self, i: usize) -> (r: Option<String>)
        ensures
            i < self@.entries.len() ==> (r matches Some(m) && m@ == self@.entries[i as int].message),
            i >= self@.entries.len() ==> r is None,
    {
        if i < self.entries.len() {
            Some(crate::text::string_of(self.entries[i].message.as_str()))
        } else {
            None
        }
    }
}

/// Two decimal digits of `n` (`n < 100`).
pub open spec fn two_digits(n: int) -> Seq<char> {
    seq![digit_char(n / 10), digit_char(n % 10)]
}

pub open spec fn digit_char(d: int) -> char {
    if d == 0 {
        '0'
    } else if d == 1 {
        '1'
    } else if d == 2 {
        '2'
    } else if d == 3 {
        '3'
    } else if d == 4 {
        '4'
    } else if d == 5 {
        '5'
    } else if d == 6 {
        '6'
    } else if d == 7 {
        '7'
    } else if d == 8 {
        '8'
    } else {
        '9'
    }
}

fn digit(d: u64) -> (c: char)
    ensures
        c == digit_char(d as int),
{
    if d == 0 {
        '0'
    } else if d == 1 {
        '1'
    } else if d == 2 {
        '2'
    } else if d == 3 {
        '3'
    } else if d == 4 {
        '4'
    } else if d == 5 {
        '5'
    } else if d == 6 {
        '6'
    } else if d == 7 {
        '7'
    } else if d == 8 {
        '8'
    } else {
        '9'
    }
}

/// Time of day of `at_ms` (milliseconds since the Unix epoch) as
/// `HH:MM:SS.mmm`, in UTC.
pub open spec fn hhmmss_mmm_spec(at_ms: u64) -> Seq<char> {
    let secs = (at_ms / 1000) as int;
    let ms = (at_ms % 1000) as int;
    two_digits((secs / 3600) % 24) + seq![':'] + two_digits((secs / 60) % 60) + seq![':']
        + two_digits(secs % 60) + seq![
        '.',
        digit_char(ms / 100),
        digit_char((ms / 10) % 10),
        digit_char(ms % 10),
    ]
}

/// The value of a decimal digit character.
pub open spec fn digit_value(c: char) -> int {
    (c as u32) - ('0' as u32)
}

proof fn lemma_digit_char(d: int)
    requires
        0 <= d < 10,
    ensures
        '0' <= digit_char(d) <= '9',
        digit_value(digit_char(d)) == d,
{
}

/// A stamp renders as the time of day it holds: twelve characters
/// `HH:MM:SS.mmm` whose digit fields read back as the hour (mod 24), minute,
/// second and millisecond of `at_ms` milliseconds after midnight UTC.
pub proof fn lemma_hhmmss_reads_back(at_ms: u64)
    ensures
        ({
            let s = hhmmss_mmm_spec(at_ms);
            let secs = at_ms / 1000;
            &&& s.len() == 12
            &&& s[2] == ':' && s[5] == ':' && s[8] == '.'
            &&& forall|i: int| 0 <= i < 12 && i != 2 && i != 5 && i != 8 ==> '0' <= #[trigger] s[i] <= '9'
            &&& digit_value(s[0]) * 10 + digit_value(s[1]) == (secs / 3600) % 24
            &&& digit_value(s[3]) * 10 + digit_value(s[4]) == (secs / 60) % 60
            &&& digit_value(s[6]) * 10 + digit_value(s[7]) == secs % 60
            &&& digit_value(s[9]) * 100 + digit_value(s[10]) * 10 + digit_value(s[11]) == at_ms % 1000
        }),
{
    let secs = (at_ms / 1000) as int;
    let ms = (at_ms % 1000) as int;
    let h = (secs / 3600) % 24;
    let mi = (secs / 60) % 60;
    let se = secs % 60;
    lemma_digit_char(h / 10);
    lemma_digit_char(h % 10);
    lemma_digit_char(mi / 10);
    lemma_digit_char(mi % 10);
    lemma_digit_char(se / 10);
    lemma_digit_char(se % 10);
    lemma_digit_char(ms / 100);
    lemma_digit_char((ms / 10) % 10);
    lemma_digit_char(ms % 10);
    let s = hhmmss_mmm_spec(at_ms);
    assert(s =~= seq![
        digit_char(h / 10), digit_char(h % 10), ':', digit_char(mi / 10), digit_char(mi % 10), ':',
        digit_char(se / 10), digit_char(se % 10), '.', digit_char(ms / 100), digit_char((ms / 10) % 10),
        digit_char(ms % 10),
    ]);
    assert((ms / 100) * 100 + ((ms / 10) % 10) * 10 + ms % 10 == ms);
}

/// Wall-clock time of day as `HH:MM:SS.mmm`, in UTC; the date is left out.
pub fn format_hhmmss_mmm(at_ms: u64) -> (s: String)
    ensures
        s@ == hhmmss_mmm_spec(at_ms),
{
    let secs = at_ms / 1000;
    let ms = at_ms % 1000;
    let h = (secs / 3600) % 24;
    let m = (secs / 60) % 60;
    let sec = secs % 60;
    let chars = vec![
        digit(h / 10),
        digit(h % 10),
        ':',
        digit(m / 10),
        digit(m % 10),
        ':',
        digit(sec / 10),
        digit(sec % 10),
        '.',
        digit(ms / 100),
        digit((ms / 10) % 10),
        digit(ms % 10),
    ];
    proof {
        assert(chars@ =~= hhmmss_mmm_spec(at_ms));
    }
    crate::text::string_from_chars(chars.as_slice())
}

} // verus!
