//! Text selection model in global line space (`y` counts from the oldest
//! history line through the visible rows; `x` is a cell column): drag
//! normalization, hit testing, view mapping, word expansion and text
//! extraction.

use vstd::prelude::*;

use crate::text::{chars_of, is_ascii_alnum, is_ascii_alnum_spec, string_from_chars, string_of};

verus! {

/// Position in global line space.
#[derive(Clone, Copy, Debug, PartialEq, Eq, Structural)]
pub struct CellPos {
    pub x: usize,
    pub y: usize,
}

/// Character-wise selection from `anchor` (press point) to `active`
/// (current drag point).
#[derive(Clone, Copy, Debug, PartialEq, Eq, Structural)]
pub struct Selection {
    pub anchor: CellPos,
    pub active: CellPos,
}

/// One grid column for selection math: `text` is the full grapheme cluster
/// of a lead or narrow cell, `width` is 0 (continuation), 1 or 2.
#[derive(Clone, Debug)]
pub struct SelCell {
    pub text: String,
    pub width: u8,
}

/// Value model of a [`SelCell`].
pub struct SelCellView {
    pub text: Seq<char>,
    pub width: u8,
}

impl View for SelCell {
    type V = SelCellView;

    open spec fn view(&self) -> SelCellView {
        SelCellView { text: self.text@, width: self.width }
    }
}

pub open spec fn cells_view(cells: Seq<SelCell>) -> Seq<SelCellView> {
    cells.map_values(|c: SelCell| c@)
}

/// `a` comes before `b` in reading order.
pub open spec fn pos_before(a: CellPos, b: CellPos) -> bool {
    a.y < b.y || (a.y == b.y && a.x < b.x)
}

impl Selection {
    /// The selection's ends in reading order.
    pub open spec fn ends(self) -> (CellPos, CellPos) {
        if pos_before(self.active, self.anchor) {
            (self.active, self.anchor)
        } else {
            (self.anchor, self.active)
        }
    }

    /// Whether global cell `(x, y)` lies in the selection.
    pub open spec fn covers(self, x: usize, y: usize) -> bool {
        let (s, e) = self.ends();
        if y < s.y || y > e.y {
            false
        } else if s.y == e.y {
            s.x <= x <= e.x
        } else if y == s.y {
            x >= s.x
        } else if y == e.y {
            x <= e.x
        } else {
            true
        }
    }

    /// A selection that starts and ends at `anchor`.
    pub fn new(anchor: CellPos) -> (s: Self)
        ensures
            s.anchor == anchor,
            s.active == anchor,
    {
        Selection { anchor, active: anchor }
    }

    /// Move the drag point.
    pub fn update(&mut self, active: CellPos)
        ensures
            final(self).anchor == old(self).anchor,
            final(self).active == active,
    {
        self.active = active;
    }

    /// Ordered `(start, end)` with `start <= end` in reading order.
    pub fn normalized(&self) -> (r: (CellPos, CellPos))
        ensures
            r == self.ends(),
            !pos_before(r.1, r.0),
    {
        if self.active.y < self.anchor.y || (self.active.y == self.anchor.y && self.active.x
            < self.anchor.x) {
            (self.active, self.anchor)
        } else {
            (self.anchor, self.active)
        }
    }

    /// True when the selection is a single cursor point.
    pub fn is_empty(&self) -> (r: bool)
        ensures
            r == (self.anchor == self.active),
    {
        self.anchor.x == self.active.x && self.anchor.y == self.active.y
    }

    /// Hit-test a global cell.
    pub fn contains(&self, x: usize, y: usize) -> (r: bool)
        ensures
            r == self.covers(x, y),
    {
        let (s, e) = self.normalized();
        if y < s.y || y > e.y {
            return false;
        }
        if s.y == e.y {
            return x >= s.x && x <= e.x;
        }
        if y == s.y {
            return x >= s.x;
        }
        if y == e.y {
            return x <= e.x;
        }
        true
    }
}

impl SelCell {
    /// A narrow cell holding `text`.
    pub fn narrow(text: &str) -> (c: Self)
        ensures
            c@.text == text@,
            c.width == 1,
    {
        SelCell { text: string_of(text), width: 1 }
    }

    /// A wide lead cell holding `text`.
    pub fn wide(text: &str) -> (c: Self)
        ensures
            c@.text == text@,
            c.width == 2,
    {
        SelCell { text: string_of(text), width: 2 }
    }

    /// The placeholder after a wide lead.
    pub fn continuation() -> (c: Self)
        ensures
            c@.text == Seq::<char>::empty(),
            c.width == 0,
    {
        SelCell { text: String::new(), width: 0 }
    }

    pub fn is_continuation(&self) -> (r: bool)
        ensures
            r == (self.width == 0),
    {
        self.width == 0
    }

    /// A narrow single space.
    pub fn is_blank(&self) -> (r: bool)
        ensures
            r == blank_spec(self@),
    {
        let chars = chars_of(self.text.as_str());
        proof {
            assert(chars@ == self.text@);
        }
        self.width == 1 && chars.len() == 1 && chars[0] == ' '
    }
}

pub open spec fn blank_spec(c: SelCellView) -> bool {
    c.width == 1 && c.text =~= seq![' ']
}

pub open spec fn sat_sub(a: usize, b: usize) -> int {
    if a >= b {
        a - b
    } else {
        0
    }
}

/// Convert a view row (0 = top of screen) to a global line index.
pub fn view_to_global(view_row: usize, scrollback_len: usize, scroll_offset: usize) -> (g: usize)
    requires
        sat_sub(scrollback_len, scroll_offset) + view_row <= usize::MAX,
    ensures
        g == sat_sub(scrollback_len, scroll_offset) + view_row,
{
    scrollback_len.saturating_sub(scroll_offset) + view_row
}

/// Convert a global line index to a view row, or `None` when scrolled out.
pub fn global_to_view(global: usize, scrollback_len: usize, scroll_offset: usize) -> (r: Option<
    usize,
>)
    ensures
        global >= sat_sub(scrollback_len, scroll_offset) ==> r == Some(
            (global - sat_sub(scrollback_len, scroll_offset)) as usize,
        ),
        global < sat_sub(scrollback_len, scroll_offset) ==> r is None,
{
    let base = scrollback_len.saturating_sub(scroll_offset);
    global.checked_sub(base)
}

/// A view row taken to its global line and back is the same view row:
/// [`global_to_view`] undoes [`view_to_global`].
pub proof fn lemma_view_global_round_trip(view_row: usize, scrollback_len: usize, scroll_offset: usize)
    requires
        sat_sub(scrollback_len, scroll_offset) + view_row <= usize::MAX,
    ensures
        ({
            let g = sat_sub(scrollback_len, scroll_offset) + view_row;
            g >= sat_sub(scrollback_len, scroll_offset) && (g - sat_sub(
                scrollback_len,
                scroll_offset,
            )) as usize == view_row
        }),
{
}

/// The view cell of a selection end, its row clamped into the screen.
pub open spec fn clamp_view_spec(p: CellPos, base: int, rows: int) -> (usize, usize) {
    let y = if p.y < base {
        base
    } else if p.y > base + rows - 1 {
        base + rows - 1
    } else {
        p.y as int
    };
    (p.x, (y - base) as usize)
}

/// Map a selection to view rows for the renderer; `None` when the
/// selection is empty or entirely off-screen.
pub fn selection_to_view(sel: &Selection, scrollback_len: usize, scroll_offset: usize, rows: usize) -> (r:
    Option<((usize, usize), (usize, usize))>)
    requires
        sat_sub(scrollback_len, scroll_offset) + rows <= usize::MAX,
    ensures
        ({
            let (s, e) = sel.ends();
            let base = sat_sub(scrollback_len, scroll_offset);
            if sel.anchor == sel.active || rows == 0 || e.y < base || s.y >= base + rows {
                r is None
            } else {
                r == Some((clamp_view_spec(s, base, rows as int), clamp_view_spec(e, base, rows as int)))
            }
        }),
{
    if sel.is_empty() || rows == 0 {
        return None;
    }
    let (s, e) = sel.normalized();
    let base = scrollback_len.saturating_sub(scroll_offset);
    let end_base = base + rows;
    if e.y < base || s.y >= end_base {
        return None;
    }
    let last = end_base - 1;
    let sy = if s.y < base {
        base
    } else if s.y > last {
        last
    } else {
        s.y
    };
    let ey = if e.y < base {
        base
    } else if e.y > last {
        last
    } else {
        e.y
    };
    Some(((s.x, sy - base), (e.x, ey - base)))
}

/// A continuation column resolved to its wide lead.
pub open spec fn resolve_lead_spec(cells: Seq<SelCellView>, x: usize) -> int {
    if cells.len() == 0 {
        0
    } else {
        let x1 = if x < cells.len() - 1 {
            x as int
        } else {
            cells.len() - 1
        };
        if cells[x1].width == 0 && x1 > 0 {
            x1 - 1
        } else {
            x1
        }
    }
}

fn resolve_lead(cells: &[SelCell], x: usize) -> (r: usize)
    ensures
        r == resolve_lead_spec(cells_view(cells@), x),
        cells@.len() > 0 ==> r < cells@.len(),
{
    if cells.len() == 0 {
        return 0;
    }
    let mut x = if x < cells.len() - 1 {
        x
    } else {
        cells.len() - 1
    };
    if cells[x].is_continuation() && x > 0 {
        x -= 1;
    }
    x
}

/// The first char of a cell's text, a space for an empty text.
pub open spec fn lead_char(c: SelCellView) -> char {
    if c.text.len() > 0 {
        c.text[0]
    } else {
        ' '
    }
}

/// Word chars are `[A-Za-z0-9_]`.
pub open spec fn word_char_spec(c: char) -> bool {
    is_ascii_alnum_spec(c) || c == '_'
}

fn is_word_char(c: char) -> (r: bool)
    ensures
        r == word_char_spec(c),
{
    is_ascii_alnum(c) || c == '_'
}

/// The word may grow left from `s`.
pub open spec fn grows_left(row: Seq<SelCellView>, s: int) -> bool {
    &&& 0 < s < row.len()
    &&& !(row[s - 1].width == 2 || row[s - 1].width == 0 || row[s].width == 0)
    &&& word_char_spec(lead_char(row[s - 1]))
}

/// The word may grow right from `e`.
pub open spec fn grows_right(row: Seq<SelCellView>, e: int) -> bool {
    &&& 0 <= e
    &&& e + 1 < row.len()
    &&& !(row[e + 1].width == 2 || row[e + 1].width == 0)
    &&& word_char_spec(lead_char(row[e + 1]))
}

pub open spec fn word_start(row: Seq<SelCellView>, s: int) -> int
    decreases s,
{
    if s > 0 && grows_left(row, s) {
        word_start(row, s - 1)
    } else {
        s
    }
}

pub open spec fn word_end(row: Seq<SelCellView>, e: int) -> int
    decreases row.len() - e,
{
    if e + 1 < row.len() && grows_right(row, e) {
        word_end(row, e + 1)
    } else {
        e
    }
}

/// The word around column `x` of a row: word chars are `[A-Za-z0-9_]`,
/// anything else selects just its own cell, and a wide cluster selects as
/// a unit (lead and continuation).
pub open spec fn expand_word_spec(row: Seq<SelCellView>, x: usize) -> (int, int) {
    if row.len() == 0 {
        (0, 0)
    } else {
        let l = resolve_lead_spec(row, x);
        if row[l].width == 2 {
            (l, if l + 1 < row.len() - 1 {
                l + 1
            } else {
                row.len() - 1
            })
        } else if !word_char_spec(lead_char(row[l])) {
            (l, l)
        } else {
            (word_start(row, l), word_end(row, l))
        }
    }
}

/// The first char of a cell's text, a space for an empty text.
fn first_char(c: &SelCell) -> (r: char)
    ensures
        r == lead_char(c@),
{
    let chars = chars_of(c.text.as_str());
    if chars.len() > 0 {
        chars[0]
    } else {
        ' '
    }
}

/// Expand a cell to its word on a single visual row (see
/// [`expand_word_spec`]).
pub fn expand_word(row: &[SelCell], x: usize) -> (r: (usize, usize))
    ensures
        (r.0 as int, r.1 as int) == expand_word_spec(cells_view(row@), x),
{
    let ghost rv = cells_view(row@);
    if row.len() == 0 {
        return (0, 0);
    }
    let x = resolve_lead(row, x);
    if row[x].width == 2 {
        let end = if x + 1 < row.len() - 1 {
            x + 1
        } else {
            row.len() - 1
        };
        return (x, end);
    }
    if !is_word_char(first_char(&row[x])) {
        return (x, x);
    }
    let mut start = x;
    while start > 0 && grows_left_exec(row, start)
        invariant
            rv == cells_view(row@),
            start <= x < row@.len(),
            word_start(rv, start as int) == word_start(rv, x as int),
        decreases start,
    {
        start = start - 1;
    }
    let mut end = x;
    while end < row.len() - 1 && grows_right_exec(row, end)
        invariant
            rv == cells_view(row@),
            x <= end < row@.len(),
            word_end(rv, end as int) == word_end(rv, x as int),
        decreases row@.len() - end,
    {
        end = end + 1;
    }
    (start, end)
}

fn grows_left_exec(row: &[SelCell], s: usize) -> (r: bool)
    requires
        0 < s < row@.len(),
    ensures
        r == grows_left(cells_view(row@), s as int),
{
    let prev = s - 1;
    !(row[prev].width == 2 || row[prev].is_continuation() || row[s].is_continuation())
        && is_word_char(first_char(&row[prev]))
}

fn grows_right_exec(row: &[SelCell], e: usize) -> (r: bool)
    requires
        e + 1 < row@.len(),
    ensures
        r == grows_right(cells_view(row@), e as int),
{
    let n = row.len();
    let next = e + 1;
    !(row[next].width == 2 || row[next].is_continuation()) && is_word_char(first_char(&row[next]))
}

/// Word expansion over plain chars, each a narrow cell.
pub fn expand_word_chars(row_text: &[char], x: usize) -> (r: (usize, usize))
    ensures
        (r.0 as int, r.1 as int) == expand_word_spec(
            Seq::new(row_text@.len(), |i: int| (SelCellView { text: seq![row_text@[i]], width: 1 })),
            x,
        ),
{
    let mut cells: Vec<SelCell> = Vec::new();
    let mut i: usize = 0;
    while i < row_text.len()
        invariant
            i <= row_text@.len(),
            cells@.len() == i,
            forall|k: int|
                0 <= k < i ==> (#[trigger] cells@[k])@ == (SelCellView {
                    text: seq![row_text@[k]],
                    width: 1,
                }),
        decreases row_text@.len() - i,
    {
        let mut s = String::new();
        crate::text::push_char(&mut s, row_text[i]);
        proof {
            assert(s@ =~= seq![row_text@[i as int]]);
        }
        cells.push(SelCell { text: s, width: 1 });
        i += 1;
    }
    proof {
        assert(cells_view(cells@) =~= Seq::new(
            row_text@.len(),
            |i: int| (SelCellView { text: seq![row_text@[i]], width: 1 }),
        ));
    }
    expand_word(cells.as_slice(), x)
}

/// Where a line's text ends once trailing blanks are dropped (a trailing
/// wide cluster is kept).
pub open spec fn text_end(line: Seq<SelCellView>, e: int) -> int
    decreases e,
{
    if e > 0 && e <= line.len() && line[e - 1].width != 0 && blank_spec(line[e - 1]) {
        text_end(line, e - 1)
    } else {
        e
    }
}

/// The selected columns `[from, to)` of line `y` between ends `s` and `e`.
pub open spec fn line_span(line: Seq<SelCellView>, y: int, s: CellPos, e: CellPos) -> (int, int) {
    let end = text_end(line, line.len() as int);
    let from0 = if y == s.y {
        s.x as int
    } else {
        0
    };
    let to0 = if y == e.y {
        if e.x == usize::MAX {
            e.x as int
        } else {
            e.x + 1
        }
    } else {
        end
    };
    let from1 = if from0 < end {
        from0
    } else {
        end
    };
    let to1 = if to0 < end {
        to0
    } else {
        end
    };
    let from = if from1 < end && line[from1].width == 0 && from1 > 0 {
        from1 - 1
    } else {
        from1
    };
    let to = if to1 > 0 && to1 < line.len() && line[to1 - 1].width == 2 && line[to1].width == 0 {
        to1 + 1
    } else {
        to1
    };
    (from, to)
}

/// The texts of the non-continuation cells `[from, to)`.
pub open spec fn span_text(line: Seq<SelCellView>, from: int, to: int) -> Seq<char>
    decreases to - from,
{
    if from >= to || to > line.len() || from < 0 {
        Seq::empty()
    } else {
        let rest = span_text(line, from, to - 1);
        if line[to - 1].width == 0 {
            rest
        } else {
            rest + line[to - 1].text
        }
    }
}

/// `t` without trailing spaces.
pub open spec fn trim_spaces(t: Seq<char>) -> Seq<char>
    decreases t.len(),
{
    if t.len() > 0 && t.last() == ' ' {
        trim_spaces(t.drop_last())
    } else {
        t
    }
}

/// The selected text of line `y`.
pub open spec fn line_text(line: Seq<SelCellView>, y: int, s: CellPos, e: CellPos) -> Seq<char> {
    let (from, to) = line_span(line, y, s, e);
    trim_spaces(span_text(line, from, to))
}

/// The selected text of the first `k` lines (`lines[i]` is global line
/// `s.y + i`), joined with newlines.
pub open spec fn joined_text(lines: Seq<Seq<SelCellView>>, s: CellPos, e: CellPos, k: int) -> Seq<
    char,
>
    decreases k,
{
    if k <= 0 {
        Seq::empty()
    } else if k == 1 {
        line_text(lines[0], s.y as int, s, e)
    } else {
        joined_text(lines, s, e, k - 1).push('\n') + line_text(lines[k - 1], s.y + k - 1, s, e)
    }
}

/// The text of a non-empty selection over `lines` (`lines[i]` is global
/// line `start.y + i`; it spans the selection's lines).
pub open spec fn extract_spec(sel: Selection, lines: Seq<Seq<SelCellView>>) -> Seq<char> {
    let (s, e) = sel.ends();
    joined_text(lines, s, e, lines.len() as int)
}

/// Line `y`'s trailing blanks dropped (see [`text_end`]).
fn text_end_exec(line: &[SelCell]) -> (r: usize)
    ensures
        r == text_end(cells_view(line@), line@.len() as int),
        r <= line@.len(),
{
    let ghost lv = cells_view(line@);
    let mut end = line.len();
    while end > 0 && !line[end - 1].is_continuation() && line[end - 1].is_blank()
        invariant
            lv == cells_view(line@),
            end <= line@.len(),
            text_end(lv, end as int) == text_end(lv, line@.len() as int),
        decreases end,
    {
        end -= 1;
    }
    end
}

/// The selected text of one line (see [`line_text`]).
fn line_chars(line: &[SelCell], y: usize, s: CellPos, e: CellPos) -> (r: Vec<char>)
    ensures
        r@ == line_text(cells_view(line@), y as int, s, e),
{
    let ghost lv = cells_view(line@);
    let end = text_end_exec(line);
    let from0 = if y == s.y {
        s.x
    } else {
        0
    };
    let to0 = if y == e.y {
        e.x.saturating_add(1)
    } else {
        end
    };
    let mut from = if from0 < end {
        from0
    } else {
        end
    };
    let mut to = if to0 < end {
        to0
    } else {
        end
    };
    if from < end && line[from].is_continuation() && from > 0 {
        from -= 1;
    }
    if to > 0 && to < line.len() && line[to - 1].width == 2 && line[to].is_continuation() {
        to += 1;
    }
    proof {
        assert((from as int, to as int) == line_span(lv, y as int, s, e));
    }
    let mut out: Vec<char> = Vec::new();
    let mut i = from;
    if from < to {
        while i < to
            invariant
                lv == cells_view(line@),
                from <= i <= to <= line@.len(),
                out@ == span_text(lv, from as int, i as int),
            decreases to - i,
        {
            let c = &line[i];
            if !c.is_continuation() {
                let t = chars_of(c.text.as_str());
                let mut j: usize = 0;
                let ghost base = out@;
                while j < t.len()
                    invariant
                        t@ == line@[i as int].text@,
                        j <= t@.len(),
                        out@ == base + t@.subrange(0, j as int),
                    decreases t@.len() - j,
                {
                    out.push(t[j]);
                    j += 1;
                    proof {
                        assert(out@ =~= base + t@.subrange(0, j as int));
                    }
                }
                proof {
                    assert(t@.subrange(0, t@.len() as int) =~= t@);
                }
            }
            i += 1;
        }
    }
    while out.len() > 0 && out[out.len() - 1] == ' '
        invariant
            trim_spaces(out@) == trim_spaces(span_text(lv, from as int, to as int)),
        decreases out@.len(),
    {
        let ghost before = out@;
        out.pop();
        proof {
            assert(out@ == before.drop_last());
        }
    }
    out
}

/// The text of a selection whose lines `s.y ..= e.y` are `lines` (in
/// order); `None` for an empty selection.
pub fn extract_text_lines(sel: &Selection, lines: &[Vec<SelCell>]) -> (r: Option<String>)
    requires
        sel.ends().0.y + lines@.len() <= usize::MAX + 1,
    ensures
        sel.anchor == sel.active ==> r is None,
        sel.anchor != sel.active ==> (r matches Some(t) && t@ == extract_spec(
            *sel,
            lines@.map_values(|l: Vec<SelCell>| cells_view(l@)),
        )),
{
    if sel.is_empty() {
        return None;
    }
    let ghost ls = lines@.map_values(|l: Vec<SelCell>| cells_view(l@));
    let (s, e) = sel.normalized();
    let mut out: Vec<char> = Vec::new();
    let mut k: usize = 0;
    while k < lines.len()
        invariant
            ls == lines@.map_values(|l: Vec<SelCell>| cells_view(l@)),
            (s, e) == sel.ends(),
            s.y + lines@.len() <= usize::MAX + 1,
            k <= lines@.len(),
            out@ == joined_text(ls, s, e, k as int),
        decreases lines@.len() - k,
    {
        let line_y = s.y + k;
        proof {
            assert(ls[k as int] == cells_view(lines@[k as int]@));
        }
        let piece = line_chars(lines[k].as_slice(), line_y, s, e);
        if k > 0 {
            out.push('\n');
        }
        let ghost base = out@;
        let mut j: usize = 0;
        while j < piece.len()
            invariant
                j <= piece@.len(),
                out@ == base + piece@.subrange(0, j as int),
            decreases piece@.len() - j,
        {
            out.push(piece[j]);
            j += 1;
            proof {
                assert(out@ =~= base + piece@.subrange(0, j as int));
            }
        }
        proof {
            assert(piece@.subrange(0, piece@.len() as int) =~= piece@);
            assert(out@ =~= joined_text(ls, s, e, k + 1));
        }
        k += 1;
    }
    Some(string_from_chars(out.as_slice()))
}

/// What a line source gave for line `y`: its cells, or nothing.
pub open spec fn given_line(o: Option<Vec<SelCell>>) -> Seq<SelCellView> {
    match o {
        Some(v) => cells_view(v@),
        None => Seq::empty(),
    }
}

/// Extract the selected text from lines resolved by `line_at` (missing
/// lines are blank). Wide leads emit their cluster once, continuations
/// emit nothing (a selection starting on a continuation still includes
/// its lead); each line is trimmed of trailing spaces and lines are joined
/// with `\n`. What comes back is [`extract_text_lines`] over the lines
/// `line_at` gave.
pub fn extract_text<F: Fn(usize) -> Option<Vec<SelCell>>>(sel: &Selection, line_at: F) -> (r: Option<
    String,
>)
    requires
        forall|y: usize| call_requires(line_at, (y,)),
    ensures
        (sel.anchor == sel.active) <==> r is None,
        sel.anchor != sel.active ==> exists|outs: Seq<Option<Vec<SelCell>>>|
            #![trigger outs.len()]
            outs.len() == sel.ends().1.y - sel.ends().0.y + 1 && (forall|k: int|
                0 <= k < outs.len() ==> call_ensures(
                    line_at,
                    ((sel.ends().0.y + k) as usize,),
                    #[trigger] outs[k],
                )) && (r matches Some(t) && t@ == extract_spec(
                *sel,
                outs.map_values(|o: Option<Vec<SelCell>>| line_of(o)),
            )),
{
    if sel.is_empty() {
        return None;
    }
    let (s, e) = sel.normalized();
    let mut lines: Vec<Vec<SelCell>> = Vec::new();
    let ghost mut outs: Seq<Option<Vec<SelCell>>> = Seq::empty();
    let mut y = s.y;
    loop
        invariant_except_break
            s.y <= y <= e.y,
            lines@.len() == y - s.y,
        invariant
            (s, e) == sel.ends(),
            forall|y: usize| call_requires(line_at, (y,)),
            outs.len() == lines@.len(),
            forall|k: int|
                0 <= k < outs.len() ==> call_ensures(line_at, ((s.y + k) as usize,), #[trigger] outs[k]),
            forall|k: int|
                0 <= k < outs.len() ==> cells_view(#[trigger] lines@[k]@) == line_of(outs[k]),
        ensures
            lines@.len() == e.y - s.y + 1,
        decreases e.y - y,
    {
        let got = line_at(y);
        proof {
            outs = outs.push(got);
        }
        let line = match got {
            Some(l) => l,
            None => Vec::new(),
        };
        lines.push(line);
        if y == e.y {
            break;
        }
        y += 1;
    }
    assert(lines@.map_values(|l: Vec<SelCell>| cells_view(l@)) =~= outs.map_values(
        |o: Option<Vec<SelCell>>| line_of(o),
    ));
    extract_text_lines(sel, lines.as_slice())
}

/// The cells of a line a callback reported (none for a missing line).
pub open spec fn line_of(o: Option<Vec<SelCell>>) -> Seq<SelCellView> {
    match o {
        Some(l) => cells_view(l@),
        None => Seq::empty(),
    }
}

/// One narrow cell per character.
pub open spec fn chars_as_cells(cs: Seq<char>) -> Seq<SelCellView> {
    cs.map_values(|c: char| SelCellView { text: seq![c], width: 1 })
}

/// The cells of a character line a callback reported.
pub open spec fn char_line_of(o: Option<Vec<char>>) -> Seq<SelCellView> {
    match o {
        Some(l) => chars_as_cells(l@),
        None => Seq::empty(),
    }
}

/// Narrow cells for `cs`, one per character.
fn narrow_cells(cs: &[char]) -> (r: Vec<SelCell>)
    ensures
        cells_view(r@) == chars_as_cells(cs@),
{
    let mut out: Vec<SelCell> = Vec::new();
    let mut i: usize = 0;
    while i < cs.len()
        invariant
            i <= cs@.len(),
            out@.len() == i,
            cells_view(out@) == chars_as_cells(cs@.subrange(0, i as int)),
        decreases cs@.len() - i,
    {
        let ghost prev = out@;
        let mut t = String::new();
        crate::text::push_char(&mut t, cs[i]);
        assert(t@ =~= seq![cs@[i as int]]);
        let c = SelCell { text: t, width: 1 };
        out.push(c);
        assert forall|k: int| 0 <= k < out@.len() implies #[trigger] cells_view(out@)[k]
            == chars_as_cells(cs@.subrange(0, i + 1))[k] by {
            if k < prev.len() {
                assert(out@[k] == prev[k]);
                assert(cells_view(prev)[k] == chars_as_cells(cs@.subrange(0, i as int))[k]);
            }
        }
        i += 1;
        assert(cells_view(out@) =~= chars_as_cells(cs@.subrange(0, i as int)));
    }
    assert(cs@.subrange(0, cs@.len() as int) =~= cs@);
    out
}

/// [`extract_text`] over lines of characters, each a narrow cell.
pub fn extract_text_chars<F: Fn(usize) -> Option<Vec<char>>>(sel: &Selection, line_at: F) -> (r: Option<
    String,
>)
    requires
        forall|y: usize| call_requires(line_at, (y,)),
    ensures
        (sel.anchor == sel.active) <==> r is None,
        sel.anchor != sel.active ==> exists|outs: Seq<Option<Vec<char>>>|
            #![trigger outs.len()]
            outs.len() == sel.ends().1.y - sel.ends().0.y + 1 && (forall|k: int|
                0 <= k < outs.len() ==> call_ensures(
                    line_at,
                    ((sel.ends().0.y + k) as usize,),
                    #[trigger] outs[k],
                )) && (r matches Some(t) && t@ == extract_spec(
                *sel,
                outs.map_values(|o: Option<Vec<char>>| char_line_of(o)),
            )),
{
    if sel.is_empty() {
        return None;
    }
    let (s, e) = sel.normalized();
    let mut lines: Vec<Vec<SelCell>> = Vec::new();
    let ghost mut outs: Seq<Option<Vec<char>>> = Seq::empty();
    let mut y = s.y;
    loop
        invariant_except_break
            s.y <= y <= e.y,
            lines@.len() == y - s.y,
        invariant
            (s, e) == sel.ends(),
            forall|y: usize| call_requires(line_at, (y,)),
            outs.len() == lines@.len(),
            forall|k: int|
                0 <= k < outs.len() ==> call_ensures(line_at, ((s.y + k) as usize,), #[trigger] outs[k]),
            forall|k: int|
                0 <= k < outs.len() ==> cells_view(#[trigger] lines@[k]@) == char_line_of(outs[k]),
        ensures
            lines@.len() == e.y - s.y + 1,
        decreases e.y - y,
    {
        let got = line_at(y);
        proof {
            outs = outs.push(got);
        }
        let line = match &got {
            Some(l) => narrow_cells(l.as_slice()),
            None => Vec::new(),
        };
        assert(cells_view(line@) == char_line_of(got)) by {
            if got is None {
                assert(cells_view(line@) =~= Seq::<SelCellView>::empty());
            }
        }
        lines.push(line);
        if y == e.y {
            break;
        }
        y += 1;
    }
    assert(lines@.map_values(|l: Vec<SelCell>| cells_view(l@)) =~= outs.map_values(
        |o: Option<Vec<char>>| char_line_of(o),
    ));
    extract_text_lines(sel, lines.as_slice())
}

/// The characters a word is made of: ASCII letters, ASCII digits and `_`.
pub open spec fn ascii_word_char(c: char) -> bool {
    ('a' <= c && c <= 'z') || ('A' <= c && c <= 'Z') || ('0' <= c && c <= '9') || c == '_'
}

proof fn lemma_narrow_cell(cs: Seq<char>, i: int)
    requires
        0 <= i < cs.len(),
    ensures
        chars_as_cells(cs)[i].width == 1,
        lead_char(chars_as_cells(cs)[i]) == cs[i],
        word_char_spec(lead_char(chars_as_cells(cs)[i])) == ascii_word_char(cs[i]),
{
}

proof fn lemma_narrow_word_start(cs: Seq<char>, s: int)
    requires
        0 <= s < cs.len(),
    ensures
        0 <= word_start(chars_as_cells(cs), s) <= s,
        forall|i: int| word_start(chars_as_cells(cs), s) <= i < s ==> ascii_word_char(#[trigger] cs[i]),
        word_start(chars_as_cells(cs), s) == 0 || !ascii_word_char(
            cs[word_start(chars_as_cells(cs), s) - 1],
        ),
    decreases s,
{
    let row = chars_as_cells(cs);
    if s > 0 {
        lemma_narrow_cell(cs, s - 1);
        lemma_narrow_cell(cs, s);
        if grows_left(row, s) {
            lemma_narrow_word_start(cs, s - 1);
        }
    }
}

proof fn lemma_narrow_word_end(cs: Seq<char>, e: int)
    requires
        0 <= e < cs.len(),
    ensures
        e <= word_end(chars_as_cells(cs), e) < cs.len(),
        forall|i: int| e < i <= word_end(chars_as_cells(cs), e) ==> ascii_word_char(#[trigger] cs[i]),
        word_end(chars_as_cells(cs), e) == cs.len() - 1 || !ascii_word_char(
            cs[word_end(chars_as_cells(cs), e) + 1],
        ),
    decreases cs.len() - e,
{
    let row = chars_as_cells(cs);
    if e + 1 < cs.len() {
        lemma_narrow_cell(cs, e + 1);
        if grows_right(row, e) {
            lemma_narrow_word_end(cs, e + 1);
        }
    }
}

/// Double-clicking a row of narrow characters selects the word under the
/// pointer: on a word character (an ASCII letter, digit or `_`) the
/// selection is the longest run of word characters around it; on any other
/// character it is that character alone.
pub proof fn lemma_word_is_maximal_run(cs: Seq<char>, x: usize)
    requires
        x < cs.len(),
    ensures
        ({
            let (s, e) = expand_word_spec(chars_as_cells(cs), x);
            if ascii_word_char(cs[x as int]) {
                &&& 0 <= s <= x <= e < cs.len()
                &&& forall|i: int| s <= i <= e ==> ascii_word_char(#[trigger] cs[i])
                &&& s == 0 || !ascii_word_char(cs[s - 1])
                &&& e == cs.len() - 1 || !ascii_word_char(cs[e + 1])
            } else {
                s == x && e == x
            }
        }),
{
    let row = chars_as_cells(cs);
    lemma_narrow_cell(cs, x as int);
    assert(resolve_lead_spec(row, x) == x as int);
    if ascii_word_char(cs[x as int]) {
        lemma_narrow_word_start(cs, x as int);
        lemma_narrow_word_end(cs, x as int);
    }
}

proof fn lemma_narrow_span(cs: Seq<char>, from: int, to: int)
    requires
        0 <= from <= to <= cs.len(),
    ensures
        span_text(chars_as_cells(cs), from, to) == cs.subrange(from, to),
    decreases to - from,
{
    if from < to {
        lemma_narrow_span(cs, from, to - 1);
        lemma_narrow_cell(cs, to - 1);
        assert(cs.subrange(from, to - 1) + seq![cs[to - 1]] =~= cs.subrange(from, to));
    } else {
        assert(cs.subrange(from, to) =~= Seq::<char>::empty());
    }
}

proof fn lemma_narrow_text_end(cs: Seq<char>, e: int)
    requires
        0 <= e <= cs.len(),
    ensures
        0 <= text_end(chars_as_cells(cs), e) <= e,
        forall|i: int| text_end(chars_as_cells(cs), e) <= i < e ==> #[trigger] cs[i] == ' ',
        text_end(chars_as_cells(cs), e) == 0 || cs[text_end(chars_as_cells(cs), e) - 1] != ' ',
    decreases e,
{
    let row = chars_as_cells(cs);
    if e > 0 {
        lemma_narrow_cell(cs, e - 1);
        assert(blank_spec(row[e - 1]) <==> cs[e - 1] == ' ') by {
            if cs[e - 1] == ' ' {
                assert(row[e - 1].text =~= seq![' ']);
            }
            if blank_spec(row[e - 1]) {
                assert(row[e - 1].text[0] == ' ');
            }
        }
        if blank_spec(row[e - 1]) {
            lemma_narrow_text_end(cs, e - 1);
        }
    }
}

proof fn lemma_trim_spaces_shape(t: Seq<char>)
    ensures
        trim_spaces(t).len() <= t.len(),
        trim_spaces(t) == t.subrange(0, trim_spaces(t).len() as int),
        forall|i: int| trim_spaces(t).len() <= i < t.len() ==> #[trigger] t[i] == ' ',
        trim_spaces(t).len() == 0 || t[trim_spaces(t).len() - 1] != ' ',
    decreases t.len(),
{
    if t.len() > 0 && t.last() == ' ' {
        lemma_trim_spaces_shape(t.drop_last());
        let r = trim_spaces(t.drop_last());
        assert(t.drop_last().subrange(0, r.len() as int) =~= t.subrange(0, r.len() as int));
        assert forall|i: int| r.len() <= i < t.len() implies #[trigger] t[i] == ' ' by {
            if i < t.len() - 1 {
                assert(t.drop_last()[i] == t[i]);
            }
        }
    } else {
        assert(t.subrange(0, t.len() as int) =~= t);
    }
}

/// The text copied from one line of a selection of narrow characters `cs`,
/// where the line's text ends at `j` (everything after it is spaces, and
/// the character before it is not): a line strictly between the
/// selection's first and last lines gives its whole text from column 0;
/// the first line gives its text from the start column; the last line gives
/// its text up to and including the end column, without trailing spaces.
pub proof fn lemma_selected_line_text(cs: Seq<char>, y: int, s: CellPos, e: CellPos, j: int)
    requires
        cs.len() <= usize::MAX,
        s.y < e.y,
        s.y <= y <= e.y,
        0 <= j <= cs.len(),
        forall|i: int| j <= i < cs.len() ==> #[trigger] cs[i] == ' ',
        j == 0 || cs[j - 1] != ' ',
    ensures
        ({
            let r = line_text(chars_as_cells(cs), y, s, e);
            &&& s.y < y < e.y ==> r == cs.subrange(0, j)
            &&& y == s.y ==> r == cs.subrange(if s.x < j { s.x as int } else { j }, j)
            &&& y == e.y ==> {
                let hi = if e.x + 1 < j { e.x + 1 } else { j };
                &&& r.len() <= hi
                &&& r == cs.subrange(0, r.len() as int)
                &&& forall|i: int| r.len() <= i < hi ==> #[trigger] cs[i] == ' '
                &&& r.len() == 0 || cs[r.len() - 1] != ' '
            }
        }),
{
    let row = chars_as_cells(cs);
    lemma_narrow_text_end(cs, cs.len() as int);
    let end = text_end(row, cs.len() as int);
    assert(end == j) by {
        if end < j {
            assert(cs[j - 1] == ' ');
        }
        if end > j {
            assert(cs[end - 1] == ' ');
        }
    }
    let (from, to) = line_span(row, y, s, e);
    if from < cs.len() {
        lemma_narrow_cell(cs, from);
    }
    if 0 < to {
        lemma_narrow_cell(cs, to - 1);
    }
    assert(0 <= from <= to <= cs.len());
    lemma_narrow_span(cs, from, to);
    let t = cs.subrange(from, to);
    lemma_trim_spaces_shape(t);
    if y < e.y {
        assert(to == j);
        assert(trim_spaces(t) == t) by {
            if t.len() > 0 {
                assert(t.last() == cs[j - 1]);
            }
        }
    } else {
        assert(from == 0);
        let r = trim_spaces(t);
        let hi = if e.x + 1 < j { e.x + 1 } else { j };
        assert(to == hi);
        assert(r =~= cs.subrange(0, r.len() as int));
        assert forall|i: int| r.len() <= i < hi implies #[trigger] cs[i] == ' ' by {
            assert(t[i] == cs[i]);
        }
        if r.len() > 0 {
            assert(t[r.len() - 1] == cs[r.len() - 1]);
        }
    }
}

/// The text copied from a selection within one line of narrow characters
/// `cs` whose text ends at `j`: the characters from the start column up to
/// and including the end column (both cut at `j`), without trailing spaces.
pub proof fn lemma_selected_single_line_text(cs: Seq<char>, y: int, s: CellPos, e: CellPos, j: int)
    requires
        cs.len() <= usize::MAX,
        s.y == y && e.y == y,
        s.x <= e.x,
        0 <= j <= cs.len(),
        forall|i: int| j <= i < cs.len() ==> #[trigger] cs[i] == ' ',
        j == 0 || cs[j - 1] != ' ',
    ensures
        ({
            let r = line_text(chars_as_cells(cs), y, s, e);
            let lo = if s.x < j { s.x as int } else { j };
            let hi = if e.x + 1 < j { e.x + 1 } else { j };
            &&& lo + r.len() <= hi
            &&& r == cs.subrange(lo, lo + r.len())
            &&& forall|i: int| lo + r.len() <= i < hi ==> #[trigger] cs[i] == ' '
            &&& r.len() == 0 || cs[lo + r.len() - 1] != ' '
        }),
{
    let row = chars_as_cells(cs);
    lemma_narrow_text_end(cs, cs.len() as int);
    let end = text_end(row, cs.len() as int);
    assert(end == j) by {
        if end < j {
            assert(cs[j - 1] == ' ');
        }
        if end > j {
            assert(cs[end - 1] == ' ');
        }
    }
    let (from, to) = line_span(row, y, s, e);
    if from < cs.len() {
        lemma_narrow_cell(cs, from);
    }
    if 0 < to {
        lemma_narrow_cell(cs, to - 1);
    }
    let lo = if s.x < j { s.x as int } else { j };
    let hi = if e.x + 1 < j { e.x + 1 } else { j };
    assert(from == lo && to == hi);
    lemma_narrow_span(cs, from, to);
    let t = cs.subrange(from, to);
    lemma_trim_spaces_shape(t);
    let r = trim_spaces(t);
    assert(r =~= cs.subrange(lo, lo + r.len()));
    assert forall|i: int| lo + r.len() <= i < hi implies #[trigger] cs[i] == ' ' by {
        assert(t[i - lo] == cs[i]);
    }
    if r.len() > 0 {
        assert(t[r.len() - 1] == cs[lo + r.len() - 1]);
    }
}

} // verus!
