//! Search model: smart-case match finding over grid lines and the mapping
//! of matches onto the visible rows.

use vstd::prelude::*;

use crate::grid::{Cell, CellView, Grid, GridView, min_nat, row_view};

verus! {

/// One search hit: global line index (`0` = oldest history line) and an
/// inclusive column range. A wide cluster is covered through its
/// continuation, so `end` can point at a `width == 0` cell.
#[derive(Clone, Copy, Debug, PartialEq, Eq, Structural)]
pub struct Match {
    pub line: usize,
    pub start: usize,
    pub end: usize,
}

/// What `char::is_uppercase` reports for `c`.
pub uninterp spec fn is_uppercase_of(c: char) -> bool;

/// What `char::to_lowercase` yields for `c`.
pub uninterp spec fn to_lowercase_of(c: char) -> Seq<char>;

/// `char::is_uppercase`: whether `c` has the Unicode `Uppercase`
/// property. Stated only as its named result.
#[verifier::external_body]
fn char_is_uppercase(c: char) -> (r: bool)
    ensures
        r == is_uppercase_of(c),
{
    c.is_uppercase()
}

/// `char::to_lowercase`: the lowercase mapping of `c` (one or more chars).
/// Stated only as its named result.
#[verifier::external_body]
fn char_to_lowercase(c: char) -> (r: Vec<char>)
    ensures
        r@ == to_lowercase_of(c),
{
    c.to_lowercase().collect()
}

/// Smart case: any uppercase character in the query makes matching
/// case-sensitive.
pub open spec fn smart_case_spec(q: Seq<char>) -> bool {
    exists|i: int| 0 <= i < q.len() && is_uppercase_of(#[trigger] q[i])
}

pub fn is_smart_case(query: &str) -> (r: bool)
    ensures
        r == smart_case_spec(query@),
{
    let chars = crate::text::chars_of(query);
    let mut i: usize = 0;
    while i < chars.len()
        invariant
            chars@ == query@,
            i <= chars@.len(),
            forall|k: int| 0 <= k < i ==> !is_uppercase_of(#[trigger] chars@[k]),
        decreases chars@.len() - i,
    {
        if char_is_uppercase(chars[i]) {
            return true;
        }
        i += 1;
    }
    false
}

/// Each char lowercased and the results concatenated.
pub open spec fn fold_text(t: Seq<char>) -> Seq<char>
    decreases t.len(),
{
    if t.len() == 0 {
        Seq::empty()
    } else {
        fold_text(t.drop_last()) + to_lowercase_of(t.last())
    }
}

/// The text a cell contributes: its cluster, folded unless sensitive.
pub open spec fn cell_hay(c: CellView, sensitive: bool) -> Seq<char> {
    let t = seq![c.ch] + match c.extra {
        Some(e) => e,
        None => Seq::empty(),
    };
    if sensitive {
        t
    } else {
        fold_text(t)
    }
}

/// One cluster's slice of a row's haystack.
pub struct Span {
    pub start: usize,
    pub len: usize,
    pub col: usize,
    pub width: u8,
}

pub struct SpanView {
    pub start: int,
    pub len: int,
    pub col: int,
    pub width: int,
}

impl View for Span {
    type V = SpanView;

    open spec fn view(&self) -> SpanView {
        SpanView {
            start: self.start as int,
            len: self.len as int,
            col: self.col as int,
            width: self.width as int,
        }
    }
}

/// The haystack and span table of the first `k` cells of `row`
/// (continuations contribute nothing; empty texts get no span).
pub open spec fn hay_of(row: Seq<CellView>, k: int, sensitive: bool) -> (Seq<char>, Seq<SpanView>)
    decreases k,
{
    if k <= 0 {
        (Seq::empty(), Seq::empty())
    } else {
        let (h, sp) = hay_of(row, k - 1, sensitive);
        let c = row[k - 1];
        if c.width == 0 {
            (h, sp)
        } else {
            let t = cell_hay(c, sensitive);
            if t.len() > 0 {
                (
                    h + t,
                    sp.push(SpanView { start: h.len() as int, len: t.len() as int, col: k - 1, width: c.width as int }),
                )
            } else {
                (h, sp)
            }
        }
    }
}

/// A narrow, unstyled blank: trailing blanks are not searched.
pub open spec fn blank_cell_spec(c: CellView) -> bool {
    c.width == 1 && c.ch == ' ' && c.extra is None
}

/// Where the row's text ends once trailing blanks are dropped.
pub open spec fn trimmed_end(row: Seq<CellView>, e: int) -> int
    decreases e,
{
    if e > 0 && e <= row.len() && blank_cell_spec(row[e - 1]) {
        trimmed_end(row, e - 1)
    } else {
        e
    }
}

/// `needle` occurs in `hay` at `p`.
pub open spec fn occurs(hay: Seq<char>, needle: Seq<char>, p: int) -> bool {
    0 <= p && p + needle.len() <= hay.len() && hay.subrange(p, p + needle.len()) =~= needle
}

/// The leftmost occurrence at or after `from`.
pub open spec fn next_occ(hay: Seq<char>, needle: Seq<char>, from: int) -> Option<int>
    decreases hay.len() - from,
{
    if from < 0 || from + needle.len() > hay.len() {
        None
    } else if occurs(hay, needle, from) {
        Some(from)
    } else {
        next_occ(hay, needle, from + 1)
    }
}

/// Non-overlapping occurrences from `from`, left to right, as `[start,
/// end)` ranges.
pub open spec fn occurrences(hay: Seq<char>, needle: Seq<char>, from: int) -> Seq<(int, int)>
    decreases hay.len() - from,
{
    if needle.len() == 0 || from < 0 || from >= hay.len() {
        Seq::empty()
    } else {
        match next_occ(hay, needle, from) {
            None => Seq::empty(),
            Some(p) => if p < from || p + needle.len() > hay.len() {
                Seq::empty()
            } else {
                seq![(p, p + needle.len() as int)] + occurrences(hay, needle, p + needle.len())
            },
        }
    }
}

/// First span ending after `start` (the count of spans ending at or
/// before it, for ordered spans).
pub open spec fn first_after(spans: Seq<SpanView>, start: int, i: int) -> int
    decreases spans.len() - i,
{
    if i < 0 || i >= spans.len() {
        spans.len() as int
    } else if spans[i].start + spans[i].len > start {
        i
    } else {
        first_after(spans, start, i + 1)
    }
}

/// First span starting at or after `end` (the count of spans starting
/// before it, for ordered spans).
pub open spec fn first_from(spans: Seq<SpanView>, end: int, i: int) -> int
    decreases spans.len() - i,
{
    if i < 0 || i >= spans.len() {
        spans.len() as int
    } else if spans[i].start >= end {
        i
    } else {
        first_from(spans, end, i + 1)
    }
}

/// The columns covered by haystack chars `[start, end)`.
pub open spec fn span_cover_spec(spans: Seq<SpanView>, start: int, end: int) -> Option<(int, int)> {
    let first = first_after(spans, start, 0);
    let past_last = first_from(spans, end, 0);
    if first == spans.len() || past_last == 0 || past_last - 1 < first {
        None
    } else {
        let last = past_last - 1;
        let w = if spans[last].width >= 1 {
            spans[last].width - 1
        } else {
            0
        };
        Some((spans[first].col, min_nat(spans[last].col + w, usize::MAX as int)))
    }
}

/// The matches for the occurrences `occ` (those that map onto columns).
pub open spec fn matches_of(line: int, spans: Seq<SpanView>, occ: Seq<(int, int)>) -> Seq<Match>
    decreases occ.len(),
{
    if occ.len() == 0 {
        Seq::empty()
    } else {
        let rest = matches_of(line, spans, occ.drop_last());
        match span_cover_spec(spans, occ.last().0, occ.last().1) {
            Some((a, b)) => rest.push(Match { line: line as usize, start: a as usize, end: b as usize }),
            None => rest,
        }
    }
}

/// The matches on one row.
pub open spec fn line_matches(row: Seq<CellView>, line: int, needle: Seq<char>, sensitive: bool) -> Seq<
    Match,
> {
    let end = trimmed_end(row, row.len() as int);
    let (hay, spans) = hay_of(row, end, sensitive);
    matches_of(line, spans, occurrences(hay, needle, 0))
}

/// The matches on global lines `[first, last)`.
pub open spec fn lines_matches(g: GridView, first: int, last: int, needle: Seq<char>, sensitive: bool) -> Seq<
    Match,
>
    decreases last - first,
{
    if last <= first {
        Seq::empty()
    } else {
        lines_matches(g, first, last - 1, needle, sensitive) + line_matches(
            g.global_row(last - 1),
            last - 1,
            needle,
            sensitive,
        )
    }
}

/// Every non-overlapping match of the query: over the history and the
/// screen, or the screen only on the alternate screen; rows are matched
/// one by one and trailing blanks are not searched.
pub open spec fn find_matches_spec(g: GridView, query: Seq<char>) -> Seq<Match> {
    let sensitive = smart_case_spec(query);
    let needle = if sensitive {
        query
    } else {
        fold_text(query)
    };
    if query.len() == 0 || needle.len() == 0 {
        Seq::empty()
    } else {
        let first = if g.in_alt {
            g.scrollback.len() as int
        } else {
            0
        };
        let last = min_nat(g.scrollback.len() + g.rows, usize::MAX as int);
        lines_matches(g, first, last, needle, sensitive)
    }
}

/// Lowercase `t` char by char.
fn fold_chars(t: &[char]) -> (r: Vec<char>)
    ensures
        r@ == fold_text(t@),
{
    let mut out: Vec<char> = Vec::new();
    let mut i: usize = 0;
    while i < t.len()
        invariant
            i <= t@.len(),
            out@ == fold_text(t@.subrange(0, i as int)),
        decreases t@.len() - i,
    {
        let l = char_to_lowercase(t[i]);
        let ghost before = out@;
        let mut j: usize = 0;
        while j < l.len()
            invariant
                j <= l@.len(),
                out@ == before + l@.subrange(0, j as int),
            decreases l@.len() - j,
        {
            out.push(l[j]);
            j += 1;
            proof {
                assert(out@ =~= before + l@.subrange(0, j as int));
            }
        }
        proof {
            assert(l@.subrange(0, l@.len() as int) =~= l@);
            assert(t@.subrange(0, i + 1).drop_last() =~= t@.subrange(0, i as int));
        }
        i += 1;
    }
    proof {
        assert(t@.subrange(0, t@.len() as int) =~= t@);
    }
    out
}

/// The text a cell contributes (see [`cell_hay`]).
fn cell_text(c: &Cell, sensitive: bool) -> (r: Vec<char>)
    ensures
        r@ == cell_hay(c@, sensitive),
{
    let mut t: Vec<char> = Vec::new();
    t.push(c.ch);
    match &c.extra {
        Some(e) => {
            let more = crate::text::chars_of(e.as_str());
            let mut i: usize = 0;
            let ghost base = t@;
            while i < more.len()
                invariant
                    i <= more@.len(),
                    t@ == base + more@.subrange(0, i as int),
                decreases more@.len() - i,
            {
                t.push(more[i]);
                i += 1;
                proof {
                    assert(t@ =~= base + more@.subrange(0, i as int));
                }
            }
            proof {
                assert(more@.subrange(0, more@.len() as int) =~= more@);
                assert(t@ =~= seq![c.ch] + e@);
            }
        },
        None => {
            proof {
                assert(t@ =~= seq![c.ch] + Seq::<char>::empty());
            }
        },
    }
    if sensitive {
        t
    } else {
        fold_chars(t.as_slice())
    }
}

/// The haystack and span table of a row's first `end` cells.
fn build_hay(row: &[Cell], end: usize, sensitive: bool) -> (r: (Vec<char>, Vec<Span>))
    requires
        end <= row@.len(),
    ensures
        (r.0@, r.1@.map_values(|s: Span| s@)) == hay_of(row_view(row@), end as int, sensitive),
        forall|i: int| 0 <= i < r.1@.len() ==> (#[trigger] r.1@[i]).col < end,
{
    let ghost rv = row_view(row@);
    let mut hay: Vec<char> = Vec::new();
    let mut spans: Vec<Span> = Vec::new();
    let mut col: usize = 0;
    while col < end
        invariant
            rv == row_view(row@),
            end <= row@.len(),
            col <= end,
            (hay@, spans@.map_values(|s: Span| s@)) == hay_of(rv, col as int, sensitive),
            forall|i: int| 0 <= i < spans@.len() ==> (#[trigger] spans@[i]).col < col,
        decreases end - col,
    {
        let cell = &row[col];
        proof {
            assert(rv[col as int] == cell@);
        }
        if cell.width != 0 {
            let t = cell_text(cell, sensitive);
            let start = hay.len();
            if t.len() > 0 {
                let ghost before = hay@;
                let mut j: usize = 0;
                while j < t.len()
                    invariant
                        j <= t@.len(),
                        hay@ == before + t@.subrange(0, j as int),
                    decreases t@.len() - j,
                {
                    hay.push(t[j]);
                    j += 1;
                    proof {
                        assert(hay@ =~= before + t@.subrange(0, j as int));
                    }
                }
                proof {
                    assert(t@.subrange(0, t@.len() as int) =~= t@);
                }
                let ghost sp0 = spans@;
                spans.push(Span { start, len: t.len(), col, width: cell.width });
                proof {
                    assert(spans@.map_values(|s: Span| s@) =~= sp0.map_values(|s: Span| s@).push(
                        SpanView { start: start as int, len: t@.len() as int, col: col as int, width: cell.width as int },
                    ));
                }
            }
        }
        col += 1;
    }
    (hay, spans)
}

/// The row's end once trailing blanks are dropped (see [`trimmed_end`]).
fn trimmed_end_exec(row: &[Cell]) -> (r: usize)
    ensures
        r == trimmed_end(row_view(row@), row@.len() as int),
        r <= row@.len(),
{
    let ghost rv = row_view(row@);
    let mut end = row.len();
    while end > 0 && row[end - 1].width == 1 && row[end - 1].ch == ' ' && row[end - 1].extra.is_none()
        invariant
            rv == row_view(row@),
            end <= row@.len(),
            trimmed_end(rv, end as int) == trimmed_end(rv, row@.len() as int),
        decreases end,
    {
        proof {
            assert(rv[end - 1] == row@[end - 1]@);
        }
        end -= 1;
    }
    proof {
        if end > 0 {
            assert(rv[end - 1] == row@[end - 1]@);
        }
    }
    end
}

/// `needle` occurs in `hay` at `p`.
fn occurs_exec(hay: &[char], needle: &[char], p: usize) -> (r: bool)
    requires
        p + needle@.len() <= hay@.len(),
    ensures
        r == occurs(hay@, needle@, p as int),
{
    let hl = hay.len();
    let mut j: usize = 0;
    while j < needle.len()
        invariant
            hl == hay@.len(),
            p + needle@.len() <= hay@.len(),
            j <= needle@.len(),
            forall|k: int| 0 <= k < j ==> hay@[p + k] == needle@[k],
        decreases needle@.len() - j,
    {
        if hay[p + j] != needle[j] {
            proof {
                assert(hay@.subrange(p as int, p + needle@.len())[j as int] != needle@[j as int]);
            }
            return false;
        }
        j += 1;
    }
    proof {
        assert(hay@.subrange(p as int, p + needle@.len()) =~= needle@);
    }
    true
}

/// The leftmost occurrence at or after `from` (see [`next_occ`]).
fn find_from(hay: &[char], needle: &[char], from: usize) -> (r: Option<usize>)
    ensures
        r matches Some(p) ==> next_occ(hay@, needle@, from as int) == Some(p as int) && p >= from
            && p + needle@.len() <= hay@.len(),
        r is None ==> next_occ(hay@, needle@, from as int) is None,
{
    let hl = hay.len();
    let nl = needle.len();
    if nl > hl {
        return None;
    }
    let mut p = from;
    while p <= hl - nl
        invariant
            hl == hay@.len(),
            nl == needle@.len(),
            nl <= hl,
            from <= p,
            next_occ(hay@, needle@, p as int) == next_occ(hay@, needle@, from as int),
        decreases hl - p,
    {
        if occurs_exec(hay, needle, p) {
            return Some(p);
        }
        p += 1;
    }
    None
}

/// The first span ending after `start` (see [`first_after`]).
fn first_after_exec(spans: &[Span], start: usize) -> (r: usize)
    ensures
        r == first_after(spans@.map_values(|s: Span| s@), start as int, 0),
        r <= spans@.len(),
{
    let ghost sv = spans@.map_values(|s: Span| s@);
    let mut i: usize = 0;
    while i < spans.len()
        invariant
            sv == spans@.map_values(|s: Span| s@),
            i <= spans@.len(),
            first_after(sv, start as int, i as int) == first_after(sv, start as int, 0),
        decreases spans@.len() - i,
    {
        proof {
            assert(sv[i as int] == spans@[i as int]@);
        }
        if spans[i].start as u128 + spans[i].len as u128 > start as u128 {
            return i;
        }
        i += 1;
    }
    i
}

/// The first span starting at or after `end` (see [`first_from`]).
fn first_from_exec(spans: &[Span], end: usize) -> (r: usize)
    ensures
        r == first_from(spans@.map_values(|s: Span| s@), end as int, 0),
        r <= spans@.len(),
{
    let ghost sv = spans@.map_values(|s: Span| s@);
    let mut i: usize = 0;
    while i < spans.len()
        invariant
            sv == spans@.map_values(|s: Span| s@),
            i <= spans@.len(),
            first_from(sv, end as int, i as int) == first_from(sv, end as int, 0),
        decreases spans@.len() - i,
    {
        proof {
            assert(sv[i as int] == spans@[i as int]@);
        }
        if spans[i].start >= end {
            return i;
        }
        i += 1;
    }
    i
}

/// Columns covered by haystack chars `[start, end)` (see
/// [`span_cover_spec`]).
fn span_cover(spans: &[Span], start: usize, end: usize) -> (r: Option<(usize, usize)>)
    ensures
        match span_cover_spec(spans@.map_values(|s: Span| s@), start as int, end as int) {
            Some((a, b)) => r == Some((a as usize, b as usize)),
            None => r is None,
        },
{
    let ghost sv = spans@.map_values(|s: Span| s@);
    let first = first_after_exec(spans, start);
    if first == spans.len() {
        return None;
    }
    let past_last = first_from_exec(spans, end);
    if past_last == 0 {
        return None;
    }
    let last = past_last - 1;
    if last < first {
        return None;
    }
    proof {
        assert(sv[last as int] == spans@[last as int]@);
        assert(sv[first as int] == spans@[first as int]@);
    }
    let w: usize = if spans[last].width >= 1 {
        (spans[last].width - 1) as usize
    } else {
        0
    };
    Some((spans[first].col, spans[last].col.saturating_add(w)))
}

/// The matches on one row (see [`line_matches`]).
fn row_matches(row: &[Cell], line: usize, needle: &[char], sensitive: bool, out: &mut Vec<Match>)
    requires
        needle@.len() > 0,
    ensures
        final(out)@ == old(out)@ + line_matches(row_view(row@), line as int, needle@, sensitive),
{
    let ghost rv = row_view(row@);
    let end = trimmed_end_exec(row);
    let (hay, spans) = build_hay(row, end, sensitive);
    let ghost sv = spans@.map_values(|s: Span| s@);
    let ghost occ_all = occurrences(hay@, needle@, 0);
    let ghost base = out@;
    let mut from: usize = 0;
    let ghost mut done: Seq<(int, int)> = Seq::empty();
    while from < hay.len()
        invariant
            needle@.len() > 0,
            (hay@, sv) == hay_of(rv, end as int, sensitive),
            sv == spans@.map_values(|s: Span| s@),
            forall|i: int| 0 <= i < spans@.len() ==> (#[trigger] spans@[i]).col < end,
            end <= row@.len(),
            occ_all == done + occurrences(hay@, needle@, from as int),
            out@ == base + matches_of(line as int, sv, done),
        ensures
            occ_all == done,
            out@ == base + matches_of(line as int, sv, done),
        decreases hay@.len() - from,
    {
        match find_from(hay.as_slice(), needle, from) {
            None => {
                proof {
                    assert(occurrences(hay@, needle@, from as int) =~= Seq::<(int, int)>::empty());
                    assert(done + Seq::<(int, int)>::empty() =~= done);
                }
                break;
            },
            Some(p) => {
                let e = p + needle.len();
                let ghost item = (p as int, e as int);
                match span_cover(spans.as_slice(), p, e) {
                    Some((a, b)) => {
                        out.push(Match { line, start: a, end: b });
                    },
                    None => {},
                }
                proof {
                    assert(occurrences(hay@, needle@, from as int) =~= seq![item] + occurrences(hay@, needle@, e as int));
                    assert(done.push(item).drop_last() =~= done);
                    assert(done + occurrences(hay@, needle@, from as int) =~= done.push(item) + occurrences(hay@, needle@, e as int));
                    done = done.push(item);
                }
                from = e;
            },
        }
    }
}

/// Find every non-overlapping match of `query` (see
/// [`find_matches_spec`]).
pub fn find_matches(grid: &Grid, query: &str) -> (r: Vec<Match>)
    requires
        grid.inv(),
    ensures
        r@ == find_matches_spec(grid@, query@),
{
    let q = crate::text::chars_of(query);
    if q.len() == 0 {
        return Vec::new();
    }
    let sensitive = is_smart_case(query);
    let needle = if sensitive {
        q
    } else {
        fold_chars(q.as_slice())
    };
    if needle.len() == 0 {
        return Vec::new();
    }
    let sb = grid.scrollback_len();
    let first = if grid.is_alt() {
        sb
    } else {
        0
    };
    let total = grid.total_lines();
    let mut out: Vec<Match> = Vec::new();
    let mut line = first;
    while line < total
        invariant
            grid.inv(),
            needle@.len() > 0,
            first <= line,
            line <= total || line == first,
            out@ == lines_matches(grid@, first as int, line as int, needle@, sensitive),
            needle@ == (if sensitive {
                query@
            } else {
                fold_text(query@)
            }),
            first as int == (if grid@.in_alt {
                grid@.scrollback.len() as int
            } else {
                0
            }),
            total == min_nat(grid@.scrollback.len() + grid@.rows, usize::MAX as int),
        decreases total - line,
    {
        match grid.global_line(line) {
            Some(row) => {
                row_matches(row, line, needle.as_slice(), sensitive, &mut out);
            },
            None => {},
        }
        line += 1;
    }
    out
}

/// Minimal search highlight for one frame, in view space (row 0 = top of
/// the screen).
#[derive(Clone, Debug, Default, PartialEq, Eq)]
pub struct SearchView {
    /// Per visible row: inclusive column ranges of every match.
    pub rows: Vec<Vec<(usize, usize)>>,
    /// The current match when it is on screen: `(row, start, end)`.
    pub active: Option<(usize, usize, usize)>,
}

/// What a view cell is part of.
#[derive(Clone, Copy, Debug, Default, PartialEq, Eq, Structural)]
pub enum Hit {
    #[default]
    Miss,
    Match,
    Active,
}

/// First visible global line for a history of `sb` lines scrolled back
/// `off` lines.
pub open spec fn view_base(sb: usize, off: usize) -> int {
    sb - min_nat(off as int, sb as int)
}

/// The view row of match `m`, when on one of `rows` rows.
pub open spec fn view_row_of(m: Match, base: int, rows: usize) -> Option<int> {
    if m.line < base || m.line - base >= rows {
        None
    } else {
        Some(m.line - base)
    }
}

/// The ranges on view row `r` from the first `k` matches.
pub open spec fn row_ranges(ms: Seq<Match>, base: int, rows: usize, r: int, k: int) -> Seq<(usize, usize)>
    decreases k,
{
    if k <= 0 {
        Seq::empty()
    } else {
        let rest = row_ranges(ms, base, rows, r, k - 1);
        let m = ms[k - 1];
        if view_row_of(m, base, rows) == Some(r) {
            rest.push((m.start, m.end))
        } else {
            rest
        }
    }
}

/// Range `r` meets the columns `[x, x + span)`.
pub open spec fn range_hit(r: (usize, usize), x: usize, span: usize) -> bool {
    r.0 < x + span && x <= r.1
}

/// Some range of `ranges` meets the columns `[x, x + span)`.
pub open spec fn any_hit(ranges: Seq<(usize, usize)>, x: usize, span: usize) -> bool {
    exists|i: int| 0 <= i < ranges.len() && range_hit(#[trigger] ranges[i], x, span)
}

/// What a view cell is part of: the active match first, then any match.
pub open spec fn hit_spec(v: SearchView, view_row: usize, x: usize, span: usize) -> Hit {
    if (v.active matches Some((row, start, end)) && row == view_row && range_hit((start, end), x, span)) {
        Hit::Active
    } else if view_row < v.rows@.len() && any_hit(v.rows@[view_row as int]@, x, span) {
        Hit::Match
    } else {
        Hit::Miss
    }
}

/// `v` is the projection of `matches` onto `rows` visible rows for a
/// history of `sb` lines scrolled back `off` lines, with `current` active
/// when on screen.
pub open spec fn built_view(
    v: SearchView,
    matches: Seq<Match>,
    current: Option<usize>,
    sb: usize,
    off: usize,
    rows: usize,
) -> bool {
    &&& v.rows@.len() == rows
    &&& forall|r: int|
        0 <= r < rows ==> (#[trigger] v.rows@[r])@ == row_ranges(
            matches,
            view_base(sb, off),
            rows,
            r,
            matches.len() as int,
        )
    &&& v.active == (match current {
        Some(i) => if i < matches.len() && view_row_of(matches[i as int], view_base(sb, off), rows)
            is Some {
            Some(
                (
                    view_row_of(matches[i as int], view_base(sb, off), rows)->0 as usize,
                    matches[i as int].start,
                    matches[i as int].end,
                ),
            )
        } else {
            None
        },
        None => None,
    })
}

impl SearchView {
    /// Project the match list onto the visible rows: each row gets the
    /// ranges of its matches in list order; the current match is active
    /// when on screen.
    pub fn build(
        matches: &[Match],
        current: Option<usize>,
        scrollback_len: usize,
        scroll_offset: usize,
        rows: usize,
    ) -> (v: Self)
        ensures
            built_view(v, matches@, current, scrollback_len, scroll_offset, rows),
    {
        let off = if scroll_offset < scrollback_len {
            scroll_offset
        } else {
            scrollback_len
        };
        let base = scrollback_len - off;
        let ghost b = base as int;
        let mut out_rows: Vec<Vec<(usize, usize)>> = Vec::new();
        let mut r: usize = 0;
        while r < rows
            invariant
                r <= rows,
                out_rows@.len() == r,
                forall|k: int| 0 <= k < r ==> (#[trigger] out_rows@[k])@ == Seq::<(usize, usize)>::empty(),
            decreases rows - r,
        {
            out_rows.push(Vec::new());
            r += 1;
        }
        let mut active: Option<(usize, usize, usize)> = None;
        let mut index: usize = 0;
        while index < matches.len()
            invariant
                b == view_base(scrollback_len, scroll_offset),
                base == b,
                out_rows@.len() == rows,
                index <= matches@.len(),
                forall|k: int|
                    0 <= k < rows ==> (#[trigger] out_rows@[k])@ == row_ranges(
                        matches@,
                        b,
                        rows,
                        k,
                        index as int,
                    ),
                active == (match current {
                    Some(i) => if i < index && view_row_of(matches@[i as int], b, rows) is Some {
                        Some(
                            (
                                view_row_of(matches@[i as int], b, rows)->0 as usize,
                                matches@[i as int].start,
                                matches@[i as int].end,
                            ),
                        )
                    } else {
                        None
                    },
                    None => None,
                }),
            decreases matches@.len() - index,
        {
            let m = matches[index];
            if !(m.line < base || m.line - base >= rows) {
                let view_row = m.line - base;
                let ghost before = out_rows@;
                let mut row_vec: Vec<(usize, usize)> = Vec::new();
                std::mem::swap(&mut row_vec, &mut out_rows[view_row]);
                row_vec.push((m.start, m.end));
                out_rows.set(view_row, row_vec);
                if current == Some(index) {
                    active = Some((view_row, m.start, m.end));
                }
                proof {
                    assert forall|k: int| 0 <= k < rows implies (#[trigger] out_rows@[k])@ == row_ranges(
                        matches@,
                        b,
                        rows,
                        k,
                        index + 1,
                    ) by {
                        if k != view_row {
                            assert(out_rows@[k] == before[k]);
                        }
                    }
                }
            } else {
                proof {
                    assert forall|k: int| 0 <= k < rows implies (#[trigger] out_rows@[k])@ == row_ranges(
                        matches@,
                        b,
                        rows,
                        k,
                        index + 1,
                    ) by {}
                }
            }
            index += 1;
        }
        SearchView { rows: out_rows, active }
    }

    /// Classify a view cell (`span` = 1 or 2 columns from `x`): ranges are
    /// inclusive on both edges, so a wide cluster is hit from either half.
    pub fn hit(&self, view_row: usize, x: usize, span: usize) -> (h: Hit)
        ensures
            h == hit_spec(*self, view_row, x, span),
    {
        let right: u128 = x as u128 + span as u128;
        match self.active {
            Some((row, start, end)) => {
                if row == view_row && (start as u128) < right && x <= end {
                    return Hit::Active;
                }
            },
            None => {},
        }
        if view_row < self.rows.len() {
            let ranges = &self.rows[view_row];
            let mut i: usize = 0;
            while i < ranges.len()
                invariant
                    ranges@ == self.rows@[view_row as int]@,
                    view_row < self.rows@.len(),
                    right == x + span,
                    !(self.active matches Some((row, start, end)) && row == view_row && range_hit(
                        (start, end),
                        x,
                        span,
                    )),
                    i <= ranges@.len(),
                    forall|k: int| 0 <= k < i ==> !range_hit(#[trigger] ranges@[k], x, span),
                decreases ranges@.len() - i,
            {
                let (start, end) = ranges[i];
                if (start as u128) < right && x <= end {
                    proof {
                        assert(range_hit(ranges@[i as int], x, span));
                    }
                    return Hit::Match;
                }
                i += 1;
            }
        }
        Hit::Miss
    }
}

/// The first match whose line is at or after `base` (the count of earlier
/// matches, for matches ordered by line).
pub open spec fn first_at_or_after(ms: Seq<Match>, base: int, i: int) -> int
    decreases ms.len() - i,
{
    if i < 0 || i >= ms.len() {
        ms.len() as int
    } else if ms[i].line >= base {
        i
    } else {
        first_at_or_after(ms, base, i + 1)
    }
}

/// The scan from `i` stops between `i` and the end of the list.
pub proof fn lemma_first_at_or_after_range(ms: Seq<Match>, base: int, i: int)
    requires
        0 <= i,
    ensures
        i <= first_at_or_after(ms, base, i) <= ms.len() || i > ms.len(),
    decreases ms.len() - i,
{
    if i < ms.len() && ms[i].line < base {
        lemma_first_at_or_after_range(ms, base, i + 1);
    }
}

/// The match [`pick_initial`] selects.
pub open spec fn pick_initial_spec(ms: Seq<Match>, sb: usize, off: usize) -> Option<usize> {
    if ms.len() == 0 {
        None
    } else {
        Some(min_nat(first_at_or_after(ms, view_base(sb, off), 0), ms.len() - 1) as usize)
    }
}

/// First match at or after the top of the current view, else the last
/// match (nearest above the viewport); `None` without matches.
pub fn pick_initial(matches: &[Match], scrollback_len: usize, scroll_offset: usize) -> (r: Option<
    usize,
>)
    ensures
        r == pick_initial_spec(matches@, scrollback_len, scroll_offset),
{
    if matches.len() == 0 {
        return None;
    }
    let last = matches.len() - 1;
    let off = if scroll_offset < scrollback_len {
        scroll_offset
    } else {
        scrollback_len
    };
    let base = scrollback_len - off;
    let mut i: usize = 0;
    while i < matches.len() && matches[i].line < base
        invariant
            base == view_base(scrollback_len, scroll_offset),
            i <= matches@.len(),
            first_at_or_after(matches@, base as int, i as int) == first_at_or_after(
                matches@,
                base as int,
                0,
            ),
        decreases matches@.len() - i,
    {
        i += 1;
    }
    Some(if i < last {
        i
    } else {
        last
    })
}

/// Next / previous match index with wrap-around.
pub open spec fn step_spec(current: Option<usize>, len: usize, forward: bool) -> Option<usize> {
    if len == 0 {
        None
    } else {
        match current {
            Some(i) => if i < len {
                if forward {
                    Some(((i + 1) % (len as int)) as usize)
                } else {
                    Some(((i + len - 1) % (len as int)) as usize)
                }
            } else if forward {
                Some(0)
            } else {
                Some((len - 1) as usize)
            },
            None => if forward {
                Some(0)
            } else {
                Some((len - 1) as usize)
            },
        }
    }
}

pub fn step(current: Option<usize>, len: usize, forward: bool) -> (r: Option<usize>)
    ensures
        r == step_spec(current, len, forward),
{
    if len == 0 {
        return None;
    }
    match current {
        Some(i) => {
            if i < len {
                if forward {
                    if i + 1 == len {
                        proof {
                            vstd::arithmetic::div_mod::lemma_mod_self_0(len as int);
                        }
                        Some(0)
                    } else {
                        proof {
                            vstd::arithmetic::div_mod::lemma_small_mod((i + 1) as nat, len as nat);
                        }
                        Some(i + 1)
                    }
                } else {
                    if i == 0 {
                        proof {
                            vstd::arithmetic::div_mod::lemma_small_mod((len - 1) as nat, len as nat);
                        }
                        Some(len - 1)
                    } else {
                        proof {
                            vstd::arithmetic::div_mod::lemma_mod_add_multiples_vanish(i - 1, len as int);
                            vstd::arithmetic::div_mod::lemma_small_mod((i - 1) as nat, len as nat);
                        }
                        Some(i - 1)
                    }
                }
            } else if forward {
                Some(0)
            } else {
                Some(len - 1)
            }
        },
        None => {
            if forward {
                Some(0)
            } else {
                Some(len - 1)
            }
        },
    }
}

/// The scroll offset that brings `line` on screen with the least
/// movement; `None` when it already is visible (or there are no rows).
pub open spec fn reveal_offset_spec(line: usize, rows: usize, sb: usize, off: usize) -> Option<usize> {
    if rows == 0 {
        None
    } else {
        let base = view_base(sb, off);
        if line >= base && line < base + rows {
            None
        } else {
            let target = if line < base {
                sb - line
            } else {
                min_nat(sb + rows - 1, usize::MAX as int) - line
            };
            let t = if target < 0 {
                0
            } else {
                target
            };
            Some(min_nat(t, sb as int) as usize)
        }
    }
}

pub fn reveal_offset(line: usize, rows: usize, scrollback_len: usize, scroll_offset: usize) -> (r:
    Option<usize>)
    ensures
        r == reveal_offset_spec(line, rows, scrollback_len, scroll_offset),
{
    if rows == 0 {
        return None;
    }
    let offset = if scroll_offset < scrollback_len {
        scroll_offset
    } else {
        scrollback_len
    };
    let base = scrollback_len - offset;
    if line >= base && (line - base) < rows {
        return None;
    }
    let target = if line < base {
        scrollback_len.saturating_sub(line)
    } else {
        scrollback_len.saturating_add(rows - 1).saturating_sub(line)
    };
    Some(if target < scrollback_len {
        target
    } else {
        scrollback_len
    })
}

proof fn lemma_next_occ(hay: Seq<char>, needle: Seq<char>, from: int)
    requires
        0 <= from,
    ensures
        next_occ(hay, needle, from) matches Some(p) ==> from <= p && occurs(hay, needle, p) && forall|q: int|
            from <= q < p ==> !#[trigger] occurs(hay, needle, q),
        next_occ(hay, needle, from) is None ==> forall|q: int| from <= q ==> !#[trigger] occurs(hay, needle, q),
    decreases hay.len() - from,
{
    if from + needle.len() <= hay.len() && !occurs(hay, needle, from) {
        lemma_next_occ(hay, needle, from + 1);
    }
}

/// The matches of `needle` in `hay` from `from`: each listed range holds
/// `needle` exactly, the ranges run left to right without overlapping, and
/// every place at or after `from` where `needle` occurs starts a listed
/// range or lies inside one (the search is leftmost-first).
pub proof fn lemma_occurrences_exact(hay: Seq<char>, needle: Seq<char>, from: int)
    requires
        0 <= from,
        needle.len() > 0,
    ensures
        ({
            let occ = occurrences(hay, needle, from);
            &&& forall|k: int|
                0 <= k < occ.len() ==> from <= (#[trigger] occ[k]).0 && occ[k].1 == occ[k].0
                    + needle.len() && occ[k].1 <= hay.len() && hay.subrange(occ[k].0, occ[k].1) == needle
            &&& forall|k: int| 0 < k < occ.len() ==> (#[trigger] occ[k]).0 >= occ[k - 1].1
            &&& forall|q: int|
                from <= q && #[trigger] occurs(hay, needle, q) ==> exists|k: int|
                    0 <= k < occ.len() && (#[trigger] occ[k]).0 <= q < occ[k].1
        }),
    decreases hay.len() - from,
{
    let occ = occurrences(hay, needle, from);
    lemma_next_occ(hay, needle, from);
    if from < hay.len() {
        match next_occ(hay, needle, from) {
            None => {},
            Some(p) => {
                let e = p + needle.len();
                lemma_occurrences_exact(hay, needle, e);
                let rest = occurrences(hay, needle, e);
                assert(occ == seq![(p, e)] + rest);
                assert forall|k: int| 0 < k < occ.len() implies (#[trigger] occ[k]).0 >= occ[k - 1].1 by {
                    if k >= 2 {
                        assert(occ[k] == rest[k - 1] && occ[k - 1] == rest[k - 2]);
                    } else {
                        assert(occ[k] == rest[0]);
                    }
                }
                assert forall|q: int| from <= q && #[trigger] occurs(hay, needle, q) implies exists|k: int|
                    0 <= k < occ.len() && (#[trigger] occ[k]).0 <= q < occ[k].1 by {
                    if q < e {
                        assert(occ[0] == (p, e));
                    } else {
                        let k = choose|k: int| 0 <= k < rest.len() && (#[trigger] rest[k]).0 <= q < rest[k].1;
                        assert(occ[k + 1] == rest[k]);
                    }
                }
            },
        }
    } else {
        assert forall|q: int| from <= q && #[trigger] occurs(hay, needle, q) implies false by {}
    }
}

/// Stepping through matches wraps around, and a step forward followed by a
/// step back (or back then forward) returns to the same match.
pub proof fn lemma_step_round_trip(i: usize, len: usize)
    requires
        i < len,
    ensures
        step_spec(step_spec(Some(i), len, true), len, false) == Some(i),
        step_spec(step_spec(Some(i), len, false), len, true) == Some(i),
        i + 1 < len ==> step_spec(Some(i), len, true) == Some((i + 1) as usize),
        i + 1 == len ==> step_spec(Some(i), len, true) == Some(0usize),
        i > 0 ==> step_spec(Some(i), len, false) == Some((i - 1) as usize),
        i == 0 ==> step_spec(Some(i), len, false) == Some((len - 1) as usize),
{
    let l = len as int;
    assert(((i + 1) % l) == (if i + 1 < l { i + 1 } else { 0 })) by (nonlinear_arith)
        requires
            0 <= i < l,
    ;
    assert(((i + l - 1) % l) == (if i > 0 { i - 1 } else { l - 1 })) by (nonlinear_arith)
        requires
            0 <= i < l,
    ;
    let f = if i + 1 < l { i + 1 } else { 0 };
    let b = if i > 0 { i - 1 } else { l - 1 };
    assert(((f + l - 1) % l) == i) by (nonlinear_arith)
        requires
            0 <= i < l,
            f == (if i + 1 < l { i + 1 } else { 0 }),
    ;
    assert(((b + 1) % l) == i) by (nonlinear_arith)
        requires
            0 <= i < l,
            b == (if i > 0 { i - 1 } else { l - 1 }),
    ;
}

} // verus!
