//! Writing printable characters: cluster continuation, wide characters,
//! pending wrap, insert mode and the repair of split wide halves.

use vstd::prelude::*;

use super::edit::{fix_row_wide_spec, lemma_fix_row_wide_pairs};
use super::wide::{lemma_put_char_wide_ok, screen_wide_ok};
use super::{
    Cell, CellView, Grid, GridView, UnderlineStyle, cluster_spec, lemma_view, row_view, with_cluster,
};
use crate::unicode::{
    char_width, char_width_spec, continues_cluster, continues_cluster_spec, is_joining_modifier,
    is_joining_modifier_spec,
};

verus! {

/// `row` shifted right by `s` from column `x`: the vacated cells become
/// `e`, cells pushed past the end are lost.
pub open spec fn shift_right(row: Seq<CellView>, x: int, s: int, e: CellView) -> Seq<CellView> {
    Seq::new(
        row.len(),
        |i: int|
            if i < x {
                row[i]
            } else if i < x + s {
                e
            } else {
                row[i - s]
            },
    )
}

/// The wide halves that a write of width `w` at column `x` would split,
/// replaced by `e`.
#[verifier::opaque]
pub open spec fn clear_split(row: Seq<CellView>, x: int, w: int, e: CellView) -> Seq<CellView> {
    let r1 = if x < row.len() && row[x].width == 0 && x > 0 {
        row.update(x - 1, e)
    } else {
        row
    };
    let r2 = if w == 1 && x < row.len() && row[x].width == 2 && x + 1 < row.len() {
        r1.update(x + 1, e)
    } else {
        r1
    };
    if w == 2 && x + 1 < row.len() && row[x + 1].width == 2 && x + 2 < row.len() {
        r2.update(x + 2, e)
    } else {
        r2
    }
}

/// `row` with `cell` (of width `w`) written at column `x`: the wide halves
/// it splits become `e`, and a wide cell gets the continuation `p`.
pub open spec fn written_into(
    row: Seq<CellView>,
    x: int,
    w: int,
    cell: CellView,
    e: CellView,
    p: CellView,
) -> Seq<CellView> {
    let r1 = clear_split(row, x, w, e).update(x, cell);
    if w == 2 && x + 1 < row.len() {
        r1.update(x + 1, p)
    } else {
        r1
    }
}

/// Write `cell` of width `w` at column `x` (see [`written_into`]).
fn write_into_row(row: &mut Vec<Cell>, x: usize, w: usize, cell: Cell, e: &Cell, p: Cell)
    requires
        x < old(row)@.len(),
    ensures
        row_view(final(row)@) == written_into(row_view(old(row)@), x as int, w as int, cell@, e@, p@),
        final(row)@.len() == old(row)@.len(),
{
    let n = row.len();
    clear_split_row(row, x, w, e);
    let ghost r0 = row_view(row@);
    let ghost cv = cell@;
    let ghost pv = p@;
    row.set(x, cell);
    proof {
        assert(row_view(row@) =~= r0.update(x as int, cv));
    }
    let ghost r1 = row_view(row@);
    if w == 2 && x + 1 < n {
        row.set(x + 1, p);
        proof {
            assert(row_view(row@) =~= r1.update(x + 1, pv));
        }
    }
}

/// The cell written for `ch` with width `w` under pen of `v`.
pub open spec fn written_cell(v: GridView, ch: char, w: int) -> CellView {
    CellView {
        ch,
        extra: None,
        width: w as u8,
        fg: v.pen.fg,
        bg: v.pen.bg,
        bold: v.pen.bold,
        underline: v.pen.underline != UnderlineStyle::Off,
    }
}

impl GridView {
    /// The cell just before the cursor: on the same row, or the last cell
    /// of the previous row at column zero.
    pub open spec fn prev_cell_pos(self) -> Option<(int, int)> {
        if self.cursor.x > 0 {
            Some(((self.cursor.x - 1) as int, self.cursor.y as int))
        } else if self.cursor.y > 0 && self.cells.len() > 0 {
            Some((self.cols - 1, self.cursor.y - 1))
        } else {
            None
        }
    }

    /// The lead of the cluster at `(px, py)`: the cell itself when narrow
    /// or a wide lead, its left neighbour when a continuation of a wide
    /// lead.
    pub open spec fn lead_of(self, px: int, py: int) -> Option<int> {
        let w = self.cells[py][px].width;
        if w == 0 {
            if px == 0 {
                None
            } else if self.cells[py][px - 1].width != 2 {
                None
            } else {
                Some(px - 1)
            }
        } else if w != 1 && w != 2 {
            None
        } else {
            Some(px)
        }
    }

    /// The lead cell that `c` continues, when it continues the cluster
    /// before the cursor.
    pub open spec fn append_target_spec(self, c: char) -> Option<(int, int)> {
        if c == '\0' {
            None
        } else {
            match self.prev_cell_pos() {
                None => None,
                Some((px, py)) => if py >= self.rows || px >= self.cols {
                    None
                } else {
                    match self.lead_of(px, py) {
                        None => None,
                        Some(lx) => {
                            let lead = self.cells[py][lx];
                            let blank = lead.ch == ' ' && lead.extra is None;
                            if is_joining_modifier_spec(c) {
                                if blank && py != self.cursor.y {
                                    None
                                } else {
                                    Some((lx, py))
                                }
                            } else if blank {
                                None
                            } else if continues_cluster_spec(cluster_spec(lead), c) {
                                Some((lx, py))
                            } else {
                                None
                            }
                        },
                    }
                },
            }
        }
    }

    /// `c` appended to the cluster of the cell at `(x, y)`.
    pub open spec fn appended(self, x: int, y: int, c: char) -> GridView {
        let lead = self.cells[y][x];
        self.with_cell(x, y, with_cluster(lead, cluster_spec(lead).push(c)))
    }

    pub open spec fn append_to_prev_spec(self, c: char) -> (GridView, bool) {
        match self.append_target_spec(c) {
            Some((x, y)) => (self.appended(x, y, c).bump(), true),
            None => (self, false),
        }
    }

    /// Append `c` to the cluster at `(x, y)`, resolving a continuation to
    /// its lead; refused for `'\0'`, positions off screen, blanks (unless
    /// `c` is a joining modifier) and non-continuations.
    pub open spec fn append_to_cell_spec(self, x: int, y: int, c: char) -> (GridView, bool) {
        if c == '\0' || y >= self.rows || x >= self.cols {
            (self, false)
        } else {
            let lx: Option<int> = if self.cells[y][x].width == 0 {
                if x == 0 {
                    None
                } else if self.cells[y][x - 1].width != 2 {
                    None
                } else {
                    Some(x - 1)
                }
            } else {
                Some(x)
            };
            match lx {
                None => (self, false),
                Some(lx) => {
                    let lead = self.cells[y][lx];
                    let blank = lead.ch == ' ' && lead.extra is None;
                    if lead.width != 1 && lead.width != 2 {
                        (self, false)
                    } else if !is_joining_modifier_spec(c) && (blank || !continues_cluster_spec(
                        cluster_spec(lead),
                        c,
                    )) {
                        (self, false)
                    } else {
                        (self.appended(lx, y, c).bump(), true)
                    }
                },
            }
        }
    }

    /// A wide char with one column left: with auto-wrap the last column is
    /// erased and the line wraps; without, the char degrades to narrow.
    pub open spec fn wide_pad_spec(self, w: int) -> (GridView, int) {
        if w == 2 && self.cols >= 2 && self.cursor.x + 1 >= self.cols {
            if self.auto_wrap {
                (
                    self.with_cell(self.cursor.x as int, self.cursor.y as int, self.erase_cell())
                        .newline_spec(),
                    2,
                )
            } else {
                (self, 1)
            }
        } else {
            (self, w)
        }
    }

    /// Insert mode: the line shifts right by `w` from the cursor.
    pub open spec fn insert_shift_spec(self, w: int) -> GridView {
        let x = self.cursor.x as int;
        let y = self.cursor.y as int;
        if self.insert_mode && x < self.cols && x + w <= self.cols {
            self.with_row(
                y,
                fix_row_wide_spec(shift_right(self.cells[y], x, w, self.erase_cell()), self.erase_cell()),
            )
        } else {
            self
        }
    }

    /// The cursor row after writing `ch` with width `w2` at the cursor.
    pub open spec fn written_row(self, ch: char, w2: int) -> Seq<CellView> {
        written_into(
            self.cells[self.cursor.y as int],
            self.cursor.x as int,
            w2,
            written_cell(self, ch, w2),
            self.erase_cell(),
            self.placeholder_cell(),
        )
    }

    /// The char itself written at the cursor, which then advances.
    pub open spec fn write_cell_spec(self, ch: char, w: int) -> GridView {
        let w2 = if w == 2 && self.cols == 1 {
            1
        } else {
            w
        };
        let x = self.cursor.x as int;
        let y = self.cursor.y as int;
        let r2 = self.written_row(ch, w2);
        let nx = x + w2;
        let nx2 = if !self.auto_wrap && nx >= self.cols {
            self.cols - 1
        } else {
            nx
        };
        self.with_row(y, r2).with_cursor(nx2 as usize, self.cursor.y).bump()
    }

    /// A printable char that starts a new cell.
    pub open spec fn write_new_spec(self, ch: char) -> GridView {
        let cw = char_width_spec(ch) as int;
        let w0 = if cw < 1 {
            1
        } else if cw > 2 {
            2
        } else {
            cw
        };
        let v = self.stick_to_bottom().handle_wrap_spec();
        let (v3, w) = v.wide_pad_spec(w0);
        v3.insert_shift_spec(w).write_cell_spec(ch, w)
    }

    /// Writing one char: a continuation joins the previous cluster without
    /// moving the cursor; anything else starts a new cell.
    pub open spec fn put_char_spec(self, ch: char) -> GridView {
        if ch == '\0' {
            self
        } else if self.append_target_spec(ch) is Some {
            self.append_to_prev_spec(ch).0
        } else {
            self.write_new_spec(ch)
        }
    }
}

/// Replacing a row twice keeps only the second replacement.
proof fn lemma_with_row_twice(v: GridView, y: int, a: Seq<CellView>, b: Seq<CellView>)
    requires
        0 <= y < v.cells.len(),
    ensures
        v.with_row(y, a).with_row(y, b) == v.with_row(y, b),
{
    assert(v.cells.update(y, a).update(y, b) =~= v.cells.update(y, b));
}

/// A line feed leaves the cursor in the first column.
proof fn lemma_newline_cursor(v: GridView)
    requires
        v.wf(),
    ensures
        v.newline_spec().cursor.x == 0,
        v.newline_spec().cols == v.cols,
        v.newline_spec().rows == v.rows,
{
    reveal(GridView::moved_row);
    let w = v.stick_to_bottom().with_cursor(0, v.cursor.y);
    assert(w.region_up_n(0) == w);
    assert(w.region_up_n(1) == w.region_up_n(0).region_up_once());
}

/// `cell` with `c` appended to its cluster.
fn append_char(cell: &mut Cell, c: char)
    requires
        old(cell)@.width != 0,
    ensures
        final(cell)@ == with_cluster(old(cell)@, cluster_spec(old(cell)@).push(c)),
{
    let ghost c0 = cell@;
    let mut s = String::new();
    match &cell.extra {
        Some(e) => {
            s = e.clone();
        },
        None => {},
    }
    crate::text::push_char(&mut s, c);
    let ghost text = cluster_spec(c0).push(c);
    proof {
        match c0.extra {
            Some(e) => {
                assert(text =~= seq![c0.ch] + e.push(c));
                assert(text.skip(1) =~= e.push(c));
            },
            None => {
                assert(text =~= seq![c0.ch, c]);
                assert(text.skip(1) =~= seq![c]);
            },
        }
    }
    cell.extra = Some(s);
    proof {
        assert(cell@ =~= with_cluster(c0, text));
    }
}

/// `row` shifted right by `s` from column `x` (see [`shift_right`]).
fn shift_row_right(row: &mut Vec<Cell>, x: usize, s: usize, e: &Cell)
    requires
        x + s <= old(row)@.len(),
    ensures
        row_view(final(row)@) == shift_right(row_view(old(row)@), x as int, s as int, e@),
        final(row)@.len() == old(row)@.len(),
{
    let ghost r0 = row_view(row@);
    let n = row.len();
    let mut i: usize = n - s;
    while i > x
        invariant
            n == row@.len(),
            r0.len() == n,
            x <= i <= n - s,
            x + s <= n,
            forall|k: int|
                0 <= k < n ==> (#[trigger] row@[k])@ == (if k >= i + s {
                    r0[k - s]
                } else {
                    r0[k]
                }),
        decreases i,
    {
        i -= 1;
        let c = row[i].copy();
        row.set(i + s, c);
    }
    let mut j: usize = x;
    while j < x + s
        invariant
            n == row@.len(),
            r0.len() == n,
            x <= j <= x + s,
            x + s <= n,
            forall|k: int|
                0 <= k < n ==> (#[trigger] row@[k])@ == (if k < x {
                    r0[k]
                } else if k < j {
                    e@
                } else if k < x + s {
                    r0[k]
                } else {
                    r0[k - s]
                }),
        decreases x + s - j,
    {
        row.set(j, e.copy());
        j += 1;
    }
    proof {
        assert(row_view(row@) =~= shift_right(r0, x as int, s as int, e@));
    }
}

/// The wide halves a write would split, cleared (see [`clear_split`]).
fn clear_split_row(row: &mut Vec<Cell>, x: usize, w: usize, e: &Cell)
    ensures
        row_view(final(row)@) == clear_split(row_view(old(row)@), x as int, w as int, e@),
        final(row)@.len() == old(row)@.len(),
{
    reveal(clear_split);
    let ghost r0 = row_view(row@);
    let n = row.len();
    let lead_x = x < n && row[x].width == 0 && x > 0;
    let cont_x = w == 1 && x < n && row[x].width == 2 && x + 1 < n;
    let next_wide = w == 2 && x < n && x + 1 < n && row[x + 1].width == 2 && x + 2 < n;
    proof {
        if x < n {
            assert(r0[x as int] == row@[x as int]@);
        }
        if x + 1 < n {
            assert(r0[x + 1] == row@[x + 1]@);
        }
    }
    if lead_x {
        row.set(x - 1, e.copy());
    }
    if cont_x {
        row.set(x + 1, e.copy());
    }
    if next_wide {
        row.set(x + 2, e.copy());
    }
    proof {
        assert(row_view(row@) =~= clear_split(r0, x as int, w as int, e@));
    }
}

impl Grid {
    /// A copy of visible cell `(x, y)`.
    fn cell_copy(&self, x: usize, y: usize) -> (c: Cell)
        requires
            self.inv(),
            x < self@.cols,
            y < self@.rows,
        ensures
            c@ == self@.cells[y as int][x as int],
    {
        proof {
            reveal(<Grid as View>::view);
            assert(self@.cells[y as int] == row_view(self.cells@[y as int]@));
        }
        self.cells[y][x].copy()
    }

    /// Where `c` would append to the previous cluster (see
    /// [`GridView::append_target_spec`]).
    fn append_target(&self, c: char) -> (r: Option<(usize, usize)>)
        requires
            self.inv(),
        ensures
            match self@.append_target_spec(c) {
                Some((x, y)) => r == Some((x as usize, y as usize)) && 0 <= x < self@.cols && 0 <= y
                    < self@.rows,
                None => r is None,
            },
    {
        if c == '\0' {
            return None;
        }
        let joining = is_joining_modifier(c);
        let cur = self.cursor();
        let cols = self.cols();
        let rows = self.rows();
        proof {
            lemma_view(self);
            super::lemma_view_lens(self);
        }
        let (px, py) = if cur.x > 0 {
            (cur.x - 1, cur.y)
        } else if cur.y > 0 && self.cells.len() > 0 {
            (cols - 1, cur.y - 1)
        } else {
            return None;
        };
        if py >= rows || px >= cols {
            return None;
        }
        let pcell = self.cell_copy(px, py);
        let mut lx = px;
        if pcell.width == 0 {
            if px == 0 {
                return None;
            }
            lx = px - 1;
            if self.cell_copy(lx, py).width != 2 {
                return None;
            }
        } else if pcell.width != 1 && pcell.width != 2 {
            return None;
        }
        let lead = self.cell_copy(lx, py);
        let prev_text = lead.cluster();
        let is_blank_filler = lead.ch == ' ' && lead.extra.is_none();
        if joining {
            if is_blank_filler {
                if py != cur.y {
                    return None;
                }
                return Some((lx, py));
            }
            return Some((lx, py));
        }
        if is_blank_filler {
            return None;
        }
        if continues_cluster(prev_text.as_str(), c) {
            return Some((lx, py));
        }
        None
    }

    /// True when `c` would append to the previous cluster instead of
    /// starting a new cell.
    pub fn is_append_continuation(&self, c: char) -> (r: bool)
        requires
            self.inv(),
        ensures
            r == self@.append_target_spec(c) is Some,
    {
        self.append_target(c).is_some()
    }

    /// Append `c` to the cluster of cell `(x, y)` and count the change.
    fn append_at(&mut self, x: usize, y: usize, c: char)
        requires
            old(self).inv(),
            x < old(self)@.cols,
            y < old(self)@.rows,
            old(self)@.cells[y as int][x as int].width != 0,
        ensures
            final(self)@ === old(self)@.appended(x as int, y as int, c).bump(),
            final(self).inv(),
    {
        let mut cell = self.cell_copy(x, y);
        append_char(&mut cell, c);
        self.set_cell(x, y, cell);
        self.bump();
    }

    /// Append `c` to the previous cluster (combining / ZWJ / flag / VS).
    /// Never moves the cursor. Returns false when there was no target.
    pub fn append_to_prev(&mut self, c: char) -> (ok: bool)
        requires
            old(self).inv(),
        ensures
            (final(self)@, ok) === old(self)@.append_to_prev_spec(c),
            final(self).inv(),
    {
        match self.append_target(c) {
            Some((lx, ly)) => {
                proof {
                    let (x, y) = self@.append_target_spec(c)->0;
                    assert(self@.lead_of(x, y) is Some);
                }
                self.append_at(lx, ly, c);
                true
            },
            None => false,
        }
    }

    /// Append `c` to the cluster at `(x, y)` (see
    /// [`GridView::append_to_cell_spec`]). Never moves the cursor.
    pub fn append_to_cell(&mut self, x: usize, y: usize, c: char) -> (ok: bool)
        requires
            old(self).inv(),
        ensures
            (final(self)@, ok) === old(self)@.append_to_cell_spec(x as int, y as int, c),
            final(self).inv(),
    {
        let cols = self.cols();
        let rows = self.rows();
        if c == '\0' || y >= rows || x >= cols {
            return false;
        }
        let mut lx = x;
        if self.cell_copy(x, y).width == 0 {
            if x == 0 {
                return false;
            }
            lx = x - 1;
            if self.cell_copy(lx, y).width != 2 {
                return false;
            }
        }
        let lead = self.cell_copy(lx, y);
        if lead.width != 1 && lead.width != 2 {
            return false;
        }
        let prev_text = lead.cluster();
        let is_blank = lead.ch == ' ' && lead.extra.is_none();
        if !is_joining_modifier(c) && (is_blank || !continues_cluster(prev_text.as_str(), c)) {
            return false;
        }
        self.append_at(lx, y, c);
        true
    }

    /// The wide-char pad step (see [`GridView::wide_pad_spec`]).
    fn wide_pad(&mut self, w: usize) -> (r: usize)
        requires
            old(self).inv(),
            old(self)@.cursor.x < old(self)@.cols,
            w == 1 || w == 2,
        ensures
            (final(self)@, r as int) === old(self)@.wide_pad_spec(w as int),
            final(self).inv(),
            final(self)@.cursor.x < final(self)@.cols,
            r == 1 || r == 2,
            r == 2 && final(self)@.cols >= 2 ==> final(self)@.cursor.x + 1 < final(self)@.cols,
    {
        let cur = self.cursor();
        let cols = self.cols();
        if w == 2 && cols >= 2 && cur.x + 1 >= cols {
            if self.auto_wrap() {
                let e = self.erase_cell();
                self.set_cell(cur.x, cur.y, e);
                proof {
                    lemma_newline_cursor(self@);
                }
                self.newline();
                2
            } else {
                1
            }
        } else {
            w
        }
    }

    /// The insert-mode shift (see [`GridView::insert_shift_spec`]).
    fn insert_shift(&mut self, w: usize)
        requires
            old(self).inv(),
        ensures
            final(self)@ === old(self)@.insert_shift_spec(w as int),
            final(self).inv(),
            final(self)@.cursor == old(self)@.cursor,
            final(self)@.cols == old(self)@.cols,
    {
        let cur = self.cursor();
        let cols = self.cols();
        if self.insert_mode() && cur.x < cols && w <= cols - cur.x {
            let ghost v = self@;
            let e = self.erase_cell();
            let mut row = self.take_row(cur.y);
            shift_row_right(&mut row, cur.x, w, &e);
            Grid::fix_row_wide(&mut row, &e);
            let ghost nr = row_view(row@);
            self.put_row(cur.y, row);
            proof {
                lemma_fix_row_wide_pairs(shift_right(v.cells[cur.y as int], cur.x as int, w as int, v.erase_cell()), v.erase_cell());
                super::edit::lemma_with_row_wf(v, cur.y as int, nr);
                assert(self@ =~= v.with_row(cur.y as int, nr));
            }
        }
    }

    /// The cell written for `ch` with width `w2` under the pen.
    fn pen_cell(&self, ch: char, w2: usize) -> (c: Cell)
        requires
            w2 == 1 || w2 == 2,
        ensures
            c@ == written_cell(self@, ch, w2 as int),
    {
        let pen = self.pen();
        Cell {
            ch,
            extra: None,
            width: w2 as u8,
            fg: pen.fg,
            bg: pen.bg,
            bold: pen.bold,
            underline: !matches!(pen.underline, UnderlineStyle::Off),
        }
    }

    /// The cursor row rewritten with `ch` of width `w2`.
    #[verifier::spinoff_prover]
    fn write_row(&mut self, ch: char, w2: usize)
        requires
            old(self).inv(),
            old(self)@.cursor.x < old(self)@.cols,
            w2 == 1 || w2 == 2,
        ensures
            final(self)@ === old(self)@.with_row(
                old(self)@.cursor.y as int,
                old(self)@.written_row(ch, w2 as int),
            ),
            final(self).inv(),
    {
        let ghost v = self@;
        let cur = self.cursor();
        let e = self.erase_cell();
        let p = self.placeholder_cell();
        let cell = self.pen_cell(ch, w2);
        let mut row = self.take_row(cur.y);
        write_into_row(&mut row, cur.x, w2, cell, &e, p);
        let ghost nr = row_view(row@);
        assert(nr == v.written_row(ch, w2 as int));
        assert(nr.len() == v.cols);
        self.put_row(cur.y, row);
        proof {
            lemma_with_row_twice(v, cur.y as int, Seq::empty(), nr);
            super::edit::lemma_with_row_wf(v, cur.y as int, nr);
        }
    }

    /// Write the char at the cursor and advance (see
    /// [`GridView::write_cell_spec`]).
    fn write_cell(&mut self, ch: char, w: usize)
        requires
            old(self).inv(),
            old(self)@.cursor.x < old(self)@.cols,
            w == 1 || w == 2,
            w == 2 && old(self)@.cols >= 2 ==> old(self)@.cursor.x + 1 < old(self)@.cols,
        ensures
            final(self)@ === old(self)@.write_cell_spec(ch, w as int),
            final(self).inv(),
    {
        let ghost v = self@;
        let cur = self.cursor();
        let cols = self.cols();
        let w2: usize = if w == 2 && cols == 1 {
            1
        } else {
            w
        };
        let wrap = self.auto_wrap();
        let nx = cur.x + w2;
        let nx2 = if !wrap && nx >= cols {
            cols - 1
        } else {
            nx
        };
        self.write_row(ch, w2);
        self.set_cursor_xy(nx2, cur.y);
        self.bump();
    }

    /// Write one printable char (see [`GridView::put_char_spec`]). Wide
    /// characters stay whole: when every visible row keeps its wide halves
    /// in pairs and the cursor is not on the right half of a wide
    /// character, every row still does afterwards.
    pub fn put_char(&mut self, ch: char)
        requires
            old(self).inv(),
        ensures
            final(self)@ === old(self)@.put_char_spec(ch),
            final(self).inv(),
            screen_wide_ok(old(self)@) && (old(self)@.cursor.x < old(self)@.cols
                ==> old(self)@.cells[old(self)@.cursor.y as int][old(self)@.cursor.x as int].width
                != 0) ==> screen_wide_ok(final(self)@),
    {
        let ghost v = self@;
        self.write_char(ch);
        proof {
            if screen_wide_ok(v) && (v.cursor.x < v.cols ==> v.cells[v.cursor.y as int][v.cursor.x as int].width != 0) {
                lemma_put_char_wide_ok(v, ch);
            }
        }
    }

    /// The write itself (see [`GridView::put_char_spec`]).
    fn write_char(&mut self, ch: char)
        requires
            old(self).inv(),
        ensures
            final(self)@ === old(self)@.put_char_spec(ch),
            final(self).inv(),
    {
        if ch == '\0' {
            return;
        }
        if self.append_to_prev(ch) {
            return;
        }
        let cw = char_width(ch);
        let w0: usize = if cw < 1 {
            1
        } else if cw > 2 {
            2
        } else {
            cw
        };
        let ghost v0 = self@;
        self.stick_to_bottom();
        let ghost v1 = self@;
        proof {
            lemma_newline_cursor(v1);
        }
        self.handle_wrap_if_needed();
        let ghost v2 = self@;
        let w = self.wide_pad(w0);
        let ghost v3 = self@;
        self.insert_shift(w);
        let ghost v4 = self@;
        self.write_cell(ch, w);
        proof {
            assert(v1 === v0.stick_to_bottom());
            assert(v2 === v1.handle_wrap_spec());
            assert((v3, w as int) === v2.wide_pad_spec(w0 as int));
            assert(v4 === v3.insert_shift_spec(w as int));
            assert(self@ === v4.write_cell_spec(ch, w as int));
        }
    }
}

} // verus!
