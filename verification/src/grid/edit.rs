//! Content mutation: cursor motion, line feeds, erase, insert/delete lines
//! and the repair of split wide characters.

use vstd::prelude::*;

use super::{
    Cell, CellView, Grid, GridView, lemma_view, lemma_with_cells_wf, max_nat, min_nat, row_view,
    rows_view,
};

verus! {

/// `row` with the cells in `[lo, hi)` replaced by `e`.
pub open spec fn fill_range(row: Seq<CellView>, lo: int, hi: int, e: CellView) -> Seq<CellView> {
    Seq::new(row.len(), |i: int| if lo <= i < hi { e } else { row[i] })
}

/// First repair pass: a continuation without a wide lead before it
/// becomes `blank`.
pub open spec fn fix_orphans(row: Seq<CellView>, blank: CellView) -> Seq<CellView> {
    Seq::new(
        row.len(),
        |i: int|
            if row[i].width == 0 && !(i > 0 && row[i - 1].width == 2) {
                blank
            } else {
                row[i]
            },
    )
}

/// Second repair pass: a wide lead without a continuation after it
/// becomes `blank`.
pub open spec fn fix_leads(row: Seq<CellView>, blank: CellView) -> Seq<CellView> {
    Seq::new(
        row.len(),
        |i: int|
            if row[i].width == 2 && !(i + 1 < row.len() && row[i + 1].width == 0) {
                blank
            } else {
                row[i]
            },
    )
}

/// Both repair passes, in order.
pub open spec fn fix_row_wide_spec(row: Seq<CellView>, blank: CellView) -> Seq<CellView> {
    fix_leads(fix_orphans(row, blank), blank)
}

/// Every continuation follows a wide lead and every wide lead is followed
/// by a continuation.
pub open spec fn wide_pairs_ok(row: Seq<CellView>) -> bool {
    forall|i: int|
        0 <= i < row.len() ==> {
            &&& (#[trigger] row[i]).width == 0 ==> i > 0 && row[i - 1].width == 2
            &&& row[i].width == 2 ==> i + 1 < row.len() && row[i + 1].width == 0
        }
}

/// `x` clamped into `[lo, hi]` (`lo <= hi`).
pub open spec fn clamp_int(x: int, lo: int, hi: int) -> int {
    if x < lo {
        lo
    } else if x > hi {
        hi
    } else {
        x
    }
}

/// Repairing a row with a narrow blank leaves no dangling wide half.
pub proof fn lemma_fix_row_wide_pairs(row: Seq<CellView>, blank: CellView)
    requires
        blank.width == 1,
    ensures
        wide_pairs_ok(fix_row_wide_spec(row, blank)),
        fix_row_wide_spec(row, blank).len() == row.len(),
{
    let r1 = fix_orphans(row, blank);
    let r2 = fix_leads(r1, blank);
    assert forall|i: int| 0 <= i < r2.len() implies {
        &&& (#[trigger] r2[i]).width == 0 ==> i > 0 && r2[i - 1].width == 2
        &&& r2[i].width == 2 ==> i + 1 < r2.len() && r2[i + 1].width == 0
    } by {
        if r2[i].width == 0 {
            assert(r1[i].width == 0);
            assert(i > 0 && row[i - 1].width == 2);
            assert(r1[i - 1] == row[i - 1]);
            assert(r2[i - 1] == r1[i - 1]);
        }
        if r2[i].width == 2 {
            assert(r1[i].width == 2);
            assert(i + 1 < r1.len() && r1[i + 1].width == 0);
            assert(r2[i + 1] == r1[i + 1]);
        }
    }
}

/// Replace the cells `[lo, hi)` of `row` by copies of `e`.
pub fn fill_row_range(row: &mut Vec<Cell>, lo: usize, hi: usize, e: &Cell)
    requires
        hi <= old(row)@.len(),
    ensures
        row_view(final(row)@) == fill_range(row_view(old(row)@), lo as int, hi as int, e@),
{
    let ghost r0 = row_view(row@);
    let mut x: usize = lo;
    while x < hi
        invariant
            hi <= row@.len(),
            x == lo || (lo < x && x <= hi),
            row@.len() == r0.len(),
            forall|i: int|
                0 <= i < row@.len() ==> (#[trigger] row@[i])@ == (if lo <= i < x {
                    e@
                } else {
                    r0[i]
                }),
        decreases hi - x,
    {
        row.set(x, e.copy());
        x += 1;
    }
    proof {
        assert(row_view(row@) =~= fill_range(r0, lo as int, hi as int, e@));
    }
}

impl Grid {
    /// Repair dangling wide halves in a row: a continuation without its
    /// lead becomes `blank`, then a lead without its continuation does.
    pub(crate) fn fix_row_wide(row: &mut Vec<Cell>, blank: &Cell)
        requires
            blank@.width == 1,
        ensures
            row_view(final(row)@) == fix_row_wide_spec(row_view(old(row)@), blank@),
    {
        let ghost r0 = row_view(row@);
        let ghost r1 = fix_orphans(r0, blank@);
        let n = row.len();
        let mut i: usize = 0;
        while i < n
            invariant
                n == row@.len(),
                r0.len() == n,
                r1 == fix_orphans(r0, blank@),
                blank@.width == 1,
                i <= n,
                forall|k: int| 0 <= k < i ==> (#[trigger] row@[k])@ == r1[k],
                forall|k: int| i <= k < n ==> (#[trigger] row@[k])@ == r0[k],
            decreases n - i,
        {
            if row[i].width == 0 {
                let lead_ok = i > 0 && row[i - 1].width == 2;
                proof {
                    if i > 0 {
                        assert(row@[i - 1]@ == r1[i - 1]);
                        assert((r1[i - 1].width == 2) == (r0[i - 1].width == 2));
                    }
                }
                if !lead_ok {
                    row.set(i, blank.copy());
                }
            }
            i += 1;
        }
        let mut j: usize = 0;
        while j < n
            invariant
                n == row@.len(),
                r1.len() == n,
                blank@.width == 1,
                j <= n,
                forall|k: int| 0 <= k < j ==> (#[trigger] row@[k])@ == fix_leads(r1, blank@)[k],
                forall|k: int| j <= k < n ==> (#[trigger] row@[k])@ == r1[k],
            decreases n - j,
        {
            if row[j].width == 2 {
                let cont_ok = j + 1 < n && row[j + 1].width == 0;
                if !cont_ok {
                    row.set(j, blank.copy());
                }
            }
            j += 1;
        }
        proof {
            assert(row_view(row@) =~= fix_row_wide_spec(r0, blank@));
        }
    }
}

/// Every row of `cells` repaired with `blank`.
fn repair_rows(cells: &mut Vec<Vec<Cell>>, blank: &Cell)
    requires
        blank@.width == 1,
    ensures
        rows_view(final(cells)@) == Seq::new(
            old(cells)@.len(),
            |y: int| fix_row_wide_spec(rows_view(old(cells)@)[y], blank@),
        ),
{
    let ghost c0 = rows_view(cells@);
    let n = cells.len();
    let mut y: usize = 0;
    while y < n
        invariant
            n == cells@.len(),
            c0.len() == n,
            blank@.width == 1,
            y <= n,
            forall|k: int|
                0 <= k < n ==> row_view((#[trigger] cells@[k])@) == (if k < y {
                    fix_row_wide_spec(c0[k], blank@)
                } else {
                    c0[k]
                }),
        decreases n - y,
    {
        let mut row: Vec<Cell> = Vec::new();
        std::mem::swap(&mut row, &mut cells[y]);
        Grid::fix_row_wide(&mut row, blank);
        cells.set(y, row);
        y += 1;
    }
    proof {
        assert(rows_view(cells@) =~= Seq::new(n as nat, |k: int| fix_row_wide_spec(c0[k], blank@)));
    }
}

impl GridView {
    /// Every visible row repaired (pen-background blanks).
    #[verifier::opaque]
    pub open spec fn repair_wide(self) -> GridView {
        GridView {
            cells: Seq::new(
                self.cells.len(),
                |y: int| fix_row_wide_spec(self.cells[y], self.erase_cell()),
            ),
            ..self
        }
    }

    /// Rows `[lo, hi)` replaced by erase rows.
    pub open spec fn erase_rows(self, lo: int, hi: int) -> Seq<Seq<CellView>> {
        Seq::new(self.cells.len(), |y: int| if lo <= y < hi { self.erase_row() } else { self.cells[y] })
    }

    /// Every visible cell replaced by the erase cell.
    pub open spec fn clear_all_spec(self) -> GridView {
        let v = self.stick_to_bottom();
        GridView { cells: v.erase_rows(0, v.rows as int), ..v }.bump()
    }

    /// `EL`: 0 = cursor to end of line, 1 = start to cursor, 2 = whole line.
    pub open spec fn erase_in_line_spec(self, mode: u16) -> GridView {
        let v = self.stick_to_bottom();
        let y = self.cursor.y as int;
        let x = self.cursor.x as int;
        let row = v.cells[y];
        let e = v.erase_cell();
        let erased = if mode == 0 {
            v.with_row(y, fill_range(row, x, v.cols as int, e))
        } else if mode == 1 {
            v.with_row(y, fill_range(row, 0, min_nat(x, v.cols - 1) + 1, e))
        } else if mode == 2 {
            v.with_row(y, fill_range(row, 0, v.cols as int, e))
        } else {
            v
        };
        erased.repair_wide().bump()
    }

    /// `ED`: 0 = cursor to end of screen, 1 = start to cursor, 2 = whole
    /// screen, 3 = whole screen and the history.
    pub open spec fn erase_in_display_spec(self, mode: u16) -> GridView {
        let v = self.stick_to_bottom();
        let y = self.cursor.y as int;
        let x = self.cursor.x as int;
        let e = v.erase_cell();
        let erased = if mode == 0 {
            v.erase_below()
        } else if mode == 1 {
            v.erase_above()
        } else if mode == 2 {
            v.clear_all_spec()
        } else if mode == 3 {
            v.clear_all_spec().clear_scrollback_spec()
        } else {
            v
        };
        erased.repair_wide().bump()
    }

    /// From the cursor to the end of the screen.
    #[verifier::opaque]
    pub open spec fn erase_below(self) -> GridView {
        let y = self.cursor.y as int;
        let w = GridView { cells: self.erase_rows(y + 1, self.rows as int), ..self };
        w.with_row(y, fill_range(self.cells[y], self.cursor.x as int, self.cols as int, self.erase_cell()))
    }

    /// From the start of the screen to the cursor.
    #[verifier::opaque]
    pub open spec fn erase_above(self) -> GridView {
        let y = self.cursor.y as int;
        let w = GridView { cells: self.erase_rows(0, y), ..self };
        w.with_row(
            y,
            fill_range(self.cells[y], 0, min_nat(self.cursor.x as int, self.cols - 1) + 1, self.erase_cell()),
        )
    }

    pub open spec fn carriage_return_spec(self) -> GridView {
        self.with_cursor(0, self.cursor.y).bump()
    }

    /// `BS`: step left over the whole previous cluster.
    pub open spec fn backspace_spec(self) -> GridView {
        if self.cursor.x > 0 {
            let prev = self.cursor.x - 1;
            let y = self.cursor.y as int;
            let step: int = if y < self.rows && prev < self.cols && self.cells[y][prev].width == 0 {
                2
            } else if y < self.rows && prev < self.cols {
                max_nat(self.cells[y][prev].width as int, 1)
            } else {
                1
            };
            self.with_cursor(max_nat(self.cursor.x - step, 0) as usize, self.cursor.y)
                .snap_cursor_to_lead()
                .bump()
        } else {
            self
        }
    }

    /// `HT`: the next multiple of the configured tab stop, capped at the
    /// last column.
    pub open spec fn tab_spec(self) -> GridView {
        let next = (self.cursor.x as int / self.tab_stop as int + 1) * self.tab_stop;
        self.with_cursor(min_nat(next, self.cols - 1) as usize, self.cursor.y)
            .snap_cursor_to_lead()
            .bump()
    }

    /// Relative cursor motion, clamped to the screen, then to the margins
    /// in origin mode.
    pub open spec fn move_cursor_spec(self, dx: int, dy: int) -> GridView {
        let nx = clamp_int(self.cursor.x + dx, 0, self.cols - 1);
        let ny = clamp_int(self.cursor.y + dy, 0, self.rows - 1);
        self.with_cursor(nx as usize, ny as usize)
            .snap_cursor_to_lead()
            .clamp_cursor_to_margins()
            .bump()
    }

    /// Absolute cursor position, clamped to the screen, then to the
    /// margins in origin mode.
    pub open spec fn set_cursor_spec(self, x: usize, y: usize) -> GridView {
        self.with_cursor(
            min_nat(x as int, self.cols - 1) as usize,
            min_nat(y as int, self.rows - 1) as usize,
        ).snap_cursor_to_lead().clamp_cursor_to_margins().bump()
    }

    /// Line feed with carriage return: at the bottom margin the region
    /// scrolls (the whole screen, into history, when the margins span it);
    /// outside the margins the cursor moves down without scrolling.
    pub open spec fn newline_spec(self) -> GridView {
        let y = self.cursor.y as int;
        let v = self.stick_to_bottom().with_cursor(0, self.cursor.y);
        let moved = if v.top() <= y <= v.bottom() {
            if y == v.bottom() {
                if v.top() == 0 && v.bottom() == v.rows - 1 {
                    v.scroll_full_once()
                } else {
                    v.region_up_inner(1)
                }
            } else {
                v.with_cursor(0, (y + 1) as usize)
            }
        } else if y + 1 < v.rows {
            v.with_cursor(0, (y + 1) as usize)
        } else {
            v
        };
        moved.bump()
    }

    /// Pending wrap resolved: a newline with auto-wrap, else the cursor
    /// stays on the last column.
    pub open spec fn handle_wrap_spec(self) -> GridView {
        if self.cursor.x >= self.cols {
            if self.auto_wrap {
                self.newline_spec()
            } else {
                self.with_cursor((self.cols - 1) as usize, self.cursor.y)
            }
        } else {
            self
        }
    }

    /// `RI`: up one, scrolling the region down at its top margin.
    pub open spec fn reverse_index_spec(self) -> GridView {
        let y = self.cursor.y as int;
        let v = self.stick_to_bottom();
        let moved = if v.top() <= y <= v.bottom() {
            if y == v.top() {
                v.region_down_inner(1)
            } else {
                v.with_cursor(self.cursor.x, (y - 1) as usize)
            }
        } else if y > 0 {
            v.with_cursor(self.cursor.x, (y - 1) as usize)
        } else {
            v
        };
        moved.snap_cursor_to_lead().bump()
    }

    /// `n` times: the row at the bottom margin dropped, a blank row
    /// inserted at `y`.
    pub open spec fn insert_n(self, y: int, n: nat) -> GridView
        decreases n,
    {
        if n == 0 {
            self
        } else {
            self.insert_n(y, (n - 1) as nat).moved_row(self.bottom(), y)
        }
    }

    /// `n` times: the row at `y` dropped, a blank row inserted at the
    /// bottom margin.
    pub open spec fn delete_n(self, y: int, n: nat) -> GridView
        decreases n,
    {
        if n == 0 {
            self
        } else {
            self.delete_n(y, (n - 1) as nat).moved_row(y, self.bottom())
        }
    }

    /// `IL`: no-op outside the margins.
    pub open spec fn insert_lines_spec(self, n: nat) -> GridView {
        let v = self.stick_to_bottom();
        let y = self.cursor.y as int;
        if y < v.top() || y > v.bottom() {
            v.bump()
        } else {
            v.insert_n(y, n).bump()
        }
    }

    /// `DL`: no-op outside the margins.
    pub open spec fn delete_lines_spec(self, n: nat) -> GridView {
        let v = self.stick_to_bottom();
        let y = self.cursor.y as int;
        if y < v.top() || y > v.bottom() {
            v.bump()
        } else {
            v.delete_n(y, n).bump()
        }
    }
}

/// Rows `[lo, hi)` of `cells` replaced by copies of `fill`.
fn erase_whole_rows(cells: &mut Vec<Vec<Cell>>, lo: usize, hi: usize, fill: &Vec<Cell>)
    requires
        hi <= old(cells)@.len(),
    ensures
        final(cells)@.len() == old(cells)@.len(),
        rows_view(final(cells)@) == Seq::new(
            old(cells)@.len(),
            |k: int|
                if lo <= k < hi {
                    row_view(fill@)
                } else {
                    rows_view(old(cells)@)[k]
                },
        ),
{
    let ghost c0 = rows_view(cells@);
    let mut y: usize = lo;
    while y < hi
        invariant
            hi <= cells@.len(),
            c0.len() == cells@.len(),
            y == lo || (lo < y && y <= hi),
            forall|k: int|
                0 <= k < cells@.len() ==> row_view((#[trigger] cells@[k])@) == (if lo <= k < y {
                    row_view(fill@)
                } else {
                    c0[k]
                }),
        decreases hi - y,
    {
        let r = super::copy_row(fill);
        cells.set(y, r);
        y += 1;
    }
    proof {
        assert(rows_view(cells@) =~= Seq::new(
            c0.len(),
            |k: int|
                if lo <= k < hi {
                    row_view(fill@)
                } else {
                    c0[k]
                },
        ));
    }
}

/// The next multiple of `stop` after `x`, capped at `last`.
fn next_tab_col(x: usize, stop: usize, last: usize) -> (r: usize)
    requires
        stop >= 1,
    ensures
        r == min_nat((x as int / stop as int + 1) * stop, last as int),
{
    let q = x / stop;
    if q >= last / stop {
        assert((q + 1) * stop > last) by (nonlinear_arith)
            requires
                q >= last / stop,
                stop >= 1,
        ;
        last
    } else {
        assert((q + 1) * stop <= last) by (nonlinear_arith)
            requires
                q < last / stop,
                stop >= 1,
        ;
        (q + 1) * stop
    }
}

/// Replacing one visible row by a row of the screen width keeps the grid
/// well-formed.
pub(crate) proof fn lemma_with_row_wf(v: GridView, y: int, r: Seq<CellView>)
    requires
        v.wf(),
        0 <= y < v.rows,
        r.len() == v.cols,
    ensures
        v.with_row(y, r).wf(),
{
    let c = v.cells.update(y, r);
    assert forall|i: int| 0 <= i < c.len() implies (#[trigger] c[i]).len() == v.cols by {
        if i != y {
            assert(c[i] == v.cells[i]);
        }
    }
    lemma_with_cells_wf(v, c);
}

impl Grid {
    /// Every visible row repaired with pen-background blanks.
    fn repair_wide_after_erase(&mut self)
        requires
            old(self).inv(),
        ensures
            final(self)@ === old(self)@.repair_wide(),
            final(self).inv(),
    {
        proof {
            reveal(GridView::repair_wide);
        }
        let ghost v = self@;
        let blank = self.erase_cell();
        let mut cells = self.take_cells();
        repair_rows(&mut cells, &blank);
        let ghost nc = rows_view(cells@);
        self.put_cells(cells);
        proof {
            assert(nc =~= v.repair_wide().cells);
            assert forall|i: int| 0 <= i < nc.len() implies (#[trigger] nc[i]).len() == v.cols by {
                lemma_fix_row_wide_pairs(v.cells[i], v.erase_cell());
            }
            lemma_with_cells_wf(v, nc);
            assert(self@ =~= v.repair_wide());
        }
    }

    /// Rows `[lo, hi)` replaced by erase rows.
    fn erase_row_span(&mut self, lo: usize, hi: usize)
        requires
            old(self).inv(),
            hi <= old(self)@.rows,
        ensures
            final(self)@ === (GridView {
                cells: old(self)@.erase_rows(lo as int, hi as int),
                ..old(self)@
            }),
            final(self).inv(),
    {
        let ghost v = self@;
        let fill = self.erase_row();
        let mut cells = self.take_cells();
        erase_whole_rows(&mut cells, lo, hi, &fill);
        let ghost nc = rows_view(cells@);
        self.put_cells(cells);
        proof {
            assert(nc =~= v.erase_rows(lo as int, hi as int));
            assert forall|i: int| 0 <= i < nc.len() implies (#[trigger] nc[i]).len() == v.cols by {}
            lemma_with_cells_wf(v, nc);
            assert(self@ =~= (GridView { cells: nc, ..v }));
        }
    }

    /// Cells `[a, b)` of visible row `y` replaced by the erase cell.
    fn fill_row_span(&mut self, y: usize, a: usize, b: usize)
        requires
            old(self).inv(),
            y < old(self)@.rows,
            b <= old(self)@.cols,
        ensures
            final(self)@ === old(self)@.with_row(
                y as int,
                fill_range(old(self)@.cells[y as int], a as int, b as int, old(self)@.erase_cell()),
            ),
            final(self).inv(),
    {
        let ghost v = self@;
        let e = self.erase_cell();
        let mut row = self.take_row(y);
        fill_row_range(&mut row, a, b, &e);
        let ghost nr = row_view(row@);
        self.put_row(y, row);
        proof {
            lemma_with_row_wf(v, y as int, nr);
            assert(self@ =~= v.with_row(y as int, nr));
        }
    }

    /// Clear every visible cell to the erase cell (pen background).
    pub fn clear_all(&mut self)
        requires
            old(self).inv(),
        ensures
            final(self)@ === old(self)@.clear_all_spec(),
            final(self).inv(),
    {
        self.stick_to_bottom();
        let rows = self.rows();
        self.erase_row_span(0, rows);
        self.bump();
    }

    /// `EL` (see [`GridView::erase_in_line_spec`]); rows whose wide halves
    /// were in pairs stay so.
    pub fn erase_in_line(&mut self, mode: u16)
        requires
            old(self).inv(),
        ensures
            final(self)@ === old(self)@.erase_in_line_spec(mode),
            final(self).inv(),
            super::wide::screen_wide_ok(old(self)@) ==> super::wide::screen_wide_ok(final(self)@),
    {
        proof {
            if super::wide::screen_wide_ok(self@) {
                super::wide::lemma_erase_in_line_wide_ok(self@, mode);
            }
        }
        self.erase_line_part(mode);
    }

    /// The erase and repair behind [`Grid::erase_in_line`].
    #[verifier::spinoff_prover]
    fn erase_line_part(&mut self, mode: u16)
        requires
            old(self).inv(),
        ensures
            final(self)@ === old(self)@.erase_in_line_spec(mode),
            final(self).inv(),
    {
        self.stick_to_bottom();
        let ghost v = self@;
        let c = self.cursor();
        let cols = self.cols();
        if mode <= 2 {
            let lo: usize = if mode == 0 {
                c.x
            } else {
                0
            };
            let hi: usize = if mode == 1 {
                (if c.x < cols - 1 {
                    c.x
                } else {
                    cols - 1
                }) + 1
            } else {
                cols
            };
            self.fill_row_span(c.y, lo, hi);
        }
        let ghost v1 = self@;
        self.repair_wide_after_erase();
        let ghost v2 = self@;
        self.bump();
        proof {
            assert(v2 === v1.repair_wide());
            assert(self@ === v2.bump());
        }
    }

    /// Erase from the cursor to the end of the screen.
    fn erase_below(&mut self)
        requires
            old(self).inv(),
        ensures
            final(self)@ === old(self)@.erase_below(),
            final(self).inv(),
    {
        proof {
            reveal(GridView::erase_below);
        }
        let ghost v = self@;
        let c = self.cursor();
        let cols = self.cols();
        let rows = self.rows();
        self.erase_row_span(c.y + 1, rows);
        let ghost w = self@;
        proof {
            assert(w.cells[c.y as int] == v.cells[c.y as int]);
        }
        self.fill_row_span(c.y, c.x, cols);
    }

    /// Erase from the start of the screen to the cursor.
    fn erase_above(&mut self)
        requires
            old(self).inv(),
        ensures
            final(self)@ === old(self)@.erase_above(),
            final(self).inv(),
    {
        proof {
            reveal(GridView::erase_above);
        }
        let ghost v = self@;
        let c = self.cursor();
        let cols = self.cols();
        self.erase_row_span(0, c.y);
        let ghost w = self@;
        proof {
            assert(w.cells[c.y as int] == v.cells[c.y as int]);
        }
        let hi = (if c.x < cols - 1 {
            c.x
        } else {
            cols - 1
        }) + 1;
        self.fill_row_span(c.y, 0, hi);
    }

    /// `ED` (see [`GridView::erase_in_display_spec`]).
    #[verifier::spinoff_prover]
    pub fn erase_in_display(&mut self, mode: u16)
        requires
            old(self).inv(),
        ensures
            final(self)@ === old(self)@.erase_in_display_spec(mode),
            final(self).inv(),
            super::wide::screen_wide_ok(old(self)@) ==> super::wide::screen_wide_ok(final(self)@),
    {
        proof {
            if super::wide::screen_wide_ok(self@) {
                super::wide::lemma_erase_in_display_wide_ok(self@, mode);
            }
        }
        self.stick_to_bottom();
        let ghost v = self@;
        let c = self.cursor();
        let cols = self.cols();
        let rows = self.rows();
        if mode == 0 {
            self.erase_below();
        } else if mode == 1 {
            self.erase_above();
        } else if mode == 2 {
            self.clear_all();
        } else if mode == 3 {
            self.clear_all();
            self.clear_scrollback();
        }
        let ghost v1 = self@;
        self.repair_wide_after_erase();
        let ghost v2 = self@;
        self.bump();
        proof {
            assert(v2 === v1.repair_wide());
            assert(self@ === v2.bump());
        }
    }

    /// Take visible row `y` out, leaving an empty row behind.
    pub(crate) fn take_row(&mut self, y: usize) -> (r: Vec<Cell>)
        requires
            old(self).inv(),
            y < old(self)@.rows,
        ensures
            row_view(r@) == old(self)@.cells[y as int],
            r@.len() == old(self)@.cols,
            final(self)@ === old(self)@.with_row(y as int, Seq::empty()),
    {
        proof {
            reveal(<Grid as View>::view);
        }
        let ghost v = self@;
        proof {
            assert(v.cells[y as int] == row_view(self.cells@[y as int]@));
        }
        let mut r: Vec<Cell> = Vec::new();
        std::mem::swap(&mut r, &mut self.cells[y]);
        proof {
            assert(row_view(Seq::<Cell>::empty()) =~= Seq::<CellView>::empty());
            assert(rows_view(self.cells@) =~= v.cells.update(y as int, Seq::empty()));
            assert(self@ =~= v.with_row(y as int, Seq::empty()));
        }
        r
    }

    /// Put row `r` back at visible row `y`.
    pub(crate) fn put_row(&mut self, y: usize, r: Vec<Cell>)
        requires
            y < old(self)@.cells.len(),
        ensures
            final(self)@ === old(self)@.with_row(y as int, row_view(r@)),
    {
        proof {
            reveal(<Grid as View>::view);
        }
        let ghost v = self@;
        let ghost rv = row_view(r@);
        self.cells.set(y, r);
        proof {
            assert(rows_view(self.cells@) =~= v.cells.update(y as int, rv));
            assert(self@ =~= v.with_row(y as int, rv));
        }
    }

    pub fn carriage_return(&mut self)
        requires
            old(self).inv(),
        ensures
            final(self)@ === old(self)@.carriage_return_spec(),
            final(self).inv(),
    {
        proof {
            lemma_view(&*self);
        }
        let y = self.cursor.y;
        self.set_cursor_xy(0, y);
        self.bump();
    }

    /// `BS` (see [`GridView::backspace_spec`]).
    pub fn backspace(&mut self)
        requires
            old(self).inv(),
        ensures
            final(self)@ === old(self)@.backspace_spec(),
            final(self).inv(),
    {
        proof {
            lemma_view(&*self);
        }
        let x = self.cursor.x;
        let y = self.cursor.y;
        if x > 0 {
            let prev = x - 1;
            let step: usize = if prev < self.cols {
                let w = self.width_at(prev, y);
                if w == 0 {
                    2
                } else {
                    w as usize
                }
            } else {
                1
            };
            let nx = if x >= step {
                x - step
            } else {
                0
            };
            self.set_cursor_xy(nx, y);
            self.snap_cursor_to_lead();
            self.bump();
        }
    }

    /// `HT` (see [`GridView::tab_spec`]).
    pub fn tab(&mut self)
        requires
            old(self).inv(),
        ensures
            final(self)@ === old(self)@.tab_spec(),
            final(self).inv(),
    {
        proof {
            lemma_view(&*self);
        }
        let x = self.cursor.x;
        let y = self.cursor.y;
        let nx = next_tab_col(x, self.tab_stop, self.cols - 1);
        self.set_cursor_xy(nx, y);
        self.snap_cursor_to_lead();
        self.bump();
    }

    /// Relative cursor motion (see [`GridView::move_cursor_spec`]).
    pub fn move_cursor(&mut self, dx: isize, dy: isize)
        requires
            old(self).inv(),
        ensures
            final(self)@ === old(self)@.move_cursor_spec(dx as int, dy as int),
            final(self).inv(),
    {
        proof {
            lemma_view(&*self);
        }
        let last_x = self.cols - 1;
        let last_y = self.rows - 1;
        let tx: i128 = self.cursor.x as i128 + dx as i128;
        let ty: i128 = self.cursor.y as i128 + dy as i128;
        let nx: usize = if tx < 0 {
            0
        } else if tx > last_x as i128 {
            last_x
        } else {
            tx as usize
        };
        let ny: usize = if ty < 0 {
            0
        } else if ty > last_y as i128 {
            last_y
        } else {
            ty as usize
        };
        self.set_cursor_xy(nx, ny);
        self.snap_cursor_to_lead();
        self.clamp_cursor_to_margins();
        self.bump();
    }

    /// Absolute cursor position (see [`GridView::set_cursor_spec`]).
    pub fn set_cursor(&mut self, x: usize, y: usize)
        requires
            old(self).inv(),
        ensures
            final(self)@ === old(self)@.set_cursor_spec(x, y),
            final(self).inv(),
    {
        proof {
            lemma_view(&*self);
        }
        let last_x = self.cols - 1;
        let last_y = self.rows - 1;
        let nx = if x < last_x {
            x
        } else {
            last_x
        };
        let ny = if y < last_y {
            y
        } else {
            last_y
        };
        self.set_cursor_xy(nx, ny);
        self.snap_cursor_to_lead();
        self.clamp_cursor_to_margins();
        self.bump();
    }

    /// Line feed with carriage return (see [`GridView::newline_spec`]);
    /// rows whose wide halves were in pairs stay so.
    pub fn newline(&mut self)
        requires
            old(self).inv(),
        ensures
            final(self)@ === old(self)@.newline_spec(),
            final(self).inv(),
            super::wide::screen_wide_ok(old(self)@) ==> super::wide::screen_wide_ok(final(self)@),
    {
        proof {
            lemma_view(&*self);
            if super::wide::screen_wide_ok(self@) {
                super::wide::lemma_newline_wide_ok(self@);
            }
        }
        let y = self.cursor.y;
        let max = self.rows - 1;
        let top = if self.scroll_top < max {
            self.scroll_top
        } else {
            max
        };
        let bottom = if self.scroll_bottom < max {
            self.scroll_bottom
        } else {
            max
        };
        self.stick_to_bottom();
        self.set_cursor_xy(0, y);
        let ghost v = self@;
        if top <= y && y <= bottom {
            if y == bottom {
                if top == 0 && bottom == max {
                    self.scroll_full_once();
                } else {
                    self.scroll_region_up_inner(1);
                }
            } else {
                self.set_cursor_xy(0, y + 1);
            }
        } else if y + 1 <= max {
            self.set_cursor_xy(0, y + 1);
        }
        self.bump();
    }

    /// Resolve a pending wrap (see [`GridView::handle_wrap_spec`]).
    pub fn handle_wrap_if_needed(&mut self)
        requires
            old(self).inv(),
        ensures
            final(self)@ === old(self)@.handle_wrap_spec(),
            final(self).inv(),
    {
        proof {
            lemma_view(&*self);
        }
        if self.cursor.x >= self.cols {
            if self.auto_wrap {
                self.newline();
            } else {
                let y = self.cursor.y;
                let last = self.cols - 1;
                self.set_cursor_xy(last, y);
            }
        }
    }

    /// `RI` (see [`GridView::reverse_index_spec`]).
    pub fn reverse_index(&mut self)
        requires
            old(self).inv(),
        ensures
            final(self)@ === old(self)@.reverse_index_spec(),
            final(self).inv(),
    {
        proof {
            lemma_view(&*self);
        }
        let x = self.cursor.x;
        let y = self.cursor.y;
        let max = self.rows - 1;
        let top = if self.scroll_top < max {
            self.scroll_top
        } else {
            max
        };
        let bottom = if self.scroll_bottom < max {
            self.scroll_bottom
        } else {
            max
        };
        self.stick_to_bottom();
        if top <= y && y <= bottom {
            if y == top {
                self.scroll_region_down_inner(1);
            } else {
                self.set_cursor_xy(x, y - 1);
            }
        } else if y > 0 {
            self.set_cursor_xy(x, y - 1);
        }
        self.snap_cursor_to_lead();
        self.bump();
    }

    /// `IL` (see [`GridView::insert_lines_spec`]).
    pub fn insert_lines(&mut self, n: usize)
        requires
            old(self).inv(),
        ensures
            final(self)@ === old(self)@.insert_lines_spec(n as nat),
            final(self).inv(),
            super::wide::screen_wide_ok(old(self)@) ==> super::wide::screen_wide_ok(final(self)@),
    {
        proof {
            if super::wide::screen_wide_ok(self@) {
                super::wide::lemma_insert_delete_lines_wide_ok(self@, n as nat);
            }
        }
        proof {
            lemma_view(&*self);
        }
        let y = self.cursor.y;
        let max = self.rows - 1;
        let top = if self.scroll_top < max {
            self.scroll_top
        } else {
            max
        };
        let bottom = if self.scroll_bottom < max {
            self.scroll_bottom
        } else {
            max
        };
        self.stick_to_bottom();
        if y < top || y > bottom {
            self.bump();
            return;
        }
        let ghost v = self@;
        let mut i: usize = 0;
        while i < n
            invariant
                i <= n,
                v.wf(),
                y < v.rows,
                bottom == v.bottom(),
                bottom < v.rows,
                self.inv(),
                self@ === v.insert_n(y as int, i as nat),
                self@.scroll_top == v.scroll_top,
                self@.scroll_bottom == v.scroll_bottom,
                self@.rows == v.rows,
                self@.cols == v.cols,
                self@.pen == v.pen,
                self@.theme == v.theme,
            decreases n - i,
        {
            self.move_row_with_fill(bottom, y);
            i += 1;
        }
        self.bump();
    }

    /// `DL` (see [`GridView::delete_lines_spec`]).
    pub fn delete_lines(&mut self, n: usize)
        requires
            old(self).inv(),
        ensures
            final(self)@ === old(self)@.delete_lines_spec(n as nat),
            final(self).inv(),
            super::wide::screen_wide_ok(old(self)@) ==> super::wide::screen_wide_ok(final(self)@),
    {
        proof {
            if super::wide::screen_wide_ok(self@) {
                super::wide::lemma_insert_delete_lines_wide_ok(self@, n as nat);
            }
        }
        proof {
            lemma_view(&*self);
        }
        let y = self.cursor.y;
        let max = self.rows - 1;
        let top = if self.scroll_top < max {
            self.scroll_top
        } else {
            max
        };
        let bottom = if self.scroll_bottom < max {
            self.scroll_bottom
        } else {
            max
        };
        self.stick_to_bottom();
        if y < top || y > bottom {
            self.bump();
            return;
        }
        let ghost v = self@;
        let mut i: usize = 0;
        while i < n
            invariant
                i <= n,
                v.wf(),
                y < v.rows,
                bottom == v.bottom(),
                bottom < v.rows,
                self.inv(),
                self@ === v.delete_n(y as int, i as nat),
                self@.scroll_top == v.scroll_top,
                self@.scroll_bottom == v.scroll_bottom,
                self@.rows == v.rows,
                self@.cols == v.cols,
                self@.pen == v.pen,
                self@.theme == v.theme,
            decreases n - i,
        {
            self.move_row_with_fill(y, bottom);
            i += 1;
        }
        self.bump();
    }
}

} // verus!
