//! Wide characters stay whole: every continuation cell follows a wide
//! lead, every wide lead is followed by its continuation, and no cell is
//! wider than two columns. Writing a character, line feeds, erasing,
//! inserting and deleting lines, and resizing keep this on every visible
//! row.

use vstd::prelude::*;

use super::edit::{
    fill_range, fix_row_wide_spec, lemma_fix_row_wide_pairs, lemma_with_row_wf, wide_pairs_ok,
};
use super::write::{clear_split, shift_right, written_cell, written_into};
use super::{
    CellView, GridView, cluster_spec, lemma_move_row_wf, lemma_scroll_full_once_parts, with_cluster,
};
use crate::unicode::char_width_spec;

verus! {

/// No cell is wider than two columns, and wide halves come in pairs.
#[verifier::opaque]
pub open spec fn row_wide_ok(row: Seq<CellView>) -> bool {
    &&& wide_pairs_ok(row)
    &&& forall|i: int| 0 <= i < row.len() ==> (#[trigger] row[i]).width <= 2
}

/// Every visible row keeps its wide halves in pairs.
pub open spec fn screen_wide_ok(v: GridView) -> bool {
    forall|y: int| 0 <= y < v.cells.len() ==> row_wide_ok(#[trigger] v.cells[y])
}

proof fn lemma_uniform_row_ok(n: nat, c: CellView)
    requires
        c.width == 1,
    ensures
        row_wide_ok(Seq::new(n, |i: int| c)),
{
    reveal(row_wide_ok);
}

proof fn lemma_remove_insert_ok(rs: Seq<Seq<CellView>>, from: int, to: int, fill: Seq<CellView>)
    requires
        0 <= from < rs.len(),
        0 <= to < rs.len(),
        forall|y: int| 0 <= y < rs.len() ==> row_wide_ok(#[trigger] rs[y]),
        row_wide_ok(fill),
    ensures
        forall|y: int|
            0 <= y < rs.remove(from).insert(to, fill).len() ==> row_wide_ok(
                #[trigger] rs.remove(from).insert(to, fill)[y],
            ),
{
    let r = rs.remove(from).insert(to, fill);
    assert forall|i: int| 0 <= i < r.len() implies row_wide_ok(#[trigger] r[i]) by {
        if i < to {
            if i < from {
                assert(r[i] == rs[i]);
            } else {
                assert(r[i] == rs[i + 1]);
            }
        } else if i > to {
            if i - 1 < from {
                assert(r[i] == rs[i - 1]);
            } else {
                assert(r[i] == rs[i]);
            }
        } else {
            assert(r[i] == fill);
        }
    }
}

/// A line feed keeps wide halves in pairs (and the grid well-formed).
pub proof fn lemma_newline_wide_ok(v: GridView)
    requires
        v.wf(),
        screen_wide_ok(v),
    ensures
        screen_wide_ok(v.newline_spec()),
        v.newline_spec().wf(),
        v.newline_spec().cursor.x == 0,
{
    reveal(GridView::moved_row);
    let w = v.stick_to_bottom().with_cursor(0, v.cursor.y);
    assert(w.region_up_n(0) == w);
    assert(w.region_up_n(1) == w.region_up_n(0).region_up_once());
    assert(w.erase_row() == Seq::new(v.cols as nat, |i: int| v.erase_cell()));
    lemma_uniform_row_ok(v.cols as nat, v.erase_cell());
    assert(w.wf());
    lemma_scroll_full_once_parts(w);
    assert(w.cells.remove(0).insert(w.rows - 1, w.erase_row()) =~= w.cells.subrange(
        1,
        w.cells.len() as int,
    ).push(w.erase_row()));
    lemma_remove_insert_ok(w.cells, 0, w.rows - 1, w.erase_row());
    if w.top() < w.bottom() {
        lemma_move_row_wf(w, w.top(), w.bottom());
        lemma_remove_insert_ok(w.cells, w.top(), w.bottom(), w.erase_row());
    }
}

/// Replacing one cell by a cell of the same width keeps the row whole.
proof fn lemma_same_width_update_ok(row: Seq<CellView>, x: int, c: CellView)
    requires
        row_wide_ok(row),
        0 <= x < row.len(),
        c.width == row[x].width,
    ensures
        row_wide_ok(row.update(x, c)),
{
    reveal(row_wide_ok);
    let r = row.update(x, c);
    assert forall|i: int| 0 <= i < r.len() implies {
        &&& (#[trigger] r[i]).width == 0 ==> i > 0 && r[i - 1].width == 2
        &&& r[i].width == 2 ==> i + 1 < r.len() && r[i + 1].width == 0
    } by {
        assert(r[i].width == row[i].width);
        if i > 0 {
            assert(r[i - 1].width == row[i - 1].width);
        }
        if i + 1 < r.len() {
            assert(r[i + 1].width == row[i + 1].width);
        }
    }
}

proof fn lemma_shift_fix_widths(row: Seq<CellView>, x: int, s: int, e: CellView)
    requires
        forall|i: int| 0 <= i < row.len() ==> (#[trigger] row[i]).width <= 2,
        e.width == 1,
        0 <= x,
        0 <= s,
    ensures
        forall|i: int|
            0 <= i < row.len() ==> (#[trigger] fix_row_wide_spec(shift_right(row, x, s, e), e)[i]).width
                <= 2,
        fix_row_wide_spec(shift_right(row, x, s, e), e).len() == row.len(),
{
    let r0 = shift_right(row, x, s, e);
    let r1 = super::edit::fix_orphans(r0, e);
    let r = fix_row_wide_spec(r0, e);
    assert forall|i: int| 0 <= i < r.len() implies (#[trigger] r[i]).width <= 2 by {
        assert(r[i] == e || r[i] == r1[i]);
        assert(r1[i] == e || r1[i] == r0[i]);
        if i >= x + s {
            assert(row[i - s].width <= 2);
        }
    }
}

/// Shifting a row right and repairing it leaves it whole.
proof fn lemma_shift_fix_ok(row: Seq<CellView>, x: int, s: int, e: CellView)
    requires
        row_wide_ok(row),
        e.width == 1,
        0 <= x,
        0 <= s,
    ensures
        row_wide_ok(fix_row_wide_spec(shift_right(row, x, s, e), e)),
{
    reveal(row_wide_ok);
    lemma_shift_fix_widths(row, x, s, e);
    lemma_fix_row_wide_pairs(shift_right(row, x, s, e), e);
}

/// Writing a cell of width `w` (with its continuation when wide) into a
/// whole row leaves it whole: the wide halves the write splits are
/// blanked.
proof fn lemma_written_into_ok(
    row: Seq<CellView>,
    x: int,
    w: int,
    cell: CellView,
    e: CellView,
    p: CellView,
)
    requires
        row_wide_ok(row),
        0 <= x < row.len(),
        w == 1 || w == 2,
        w == 2 ==> x + 1 < row.len(),
        cell.width == w,
        e.width == 1,
        p.width == 0,
    ensures
        row_wide_ok(written_into(row, x, w, cell, e, p)),
{
    reveal(row_wide_ok);
    reveal(clear_split);
    let r = written_into(row, x, w, cell, e, p);
    assert(r.len() == row.len());
    assert forall|i: int| 0 <= i < r.len() implies (#[trigger] r[i]).width <= 2 by {
        if i != x && i != x + 1 && i != x - 1 && i != x + 2 {
            assert(r[i] == row[i]);
        }
    }
    assert forall|i: int| 0 <= i < r.len() implies {
        &&& (#[trigger] r[i]).width == 0 ==> i > 0 && r[i - 1].width == 2
        &&& r[i].width == 2 ==> i + 1 < r.len() && r[i + 1].width == 0
    } by {
        assert(row[i].width == 0 ==> i > 0 && row[i - 1].width == 2);
        assert(row[i].width == 2 ==> i + 1 < row.len() && row[i + 1].width == 0);
        if i > 0 {
            assert(row[i - 1].width == 0 ==> i - 1 > 0 && row[i - 2].width == 2);
            assert(row[i - 1].width == 2 ==> row[i].width == 0);
        }
        if i + 1 < r.len() {
            assert(row[i + 1].width == 0 ==> row[i].width == 2);
            assert(row[i + 1].width == 2 ==> i + 2 < row.len() && row[i + 2].width == 0);
        }
        if x > 0 {
            assert(row[x].width == 0 ==> row[x - 1].width == 2);
        }
        if x + 1 < row.len() {
            assert(row[x + 1].width == 0 ==> row[x].width == 2);
            assert(row[x + 1].width == 2 ==> x + 2 < row.len() && row[x + 2].width == 0);
        }
        assert(row[x].width == 2 ==> x + 1 < row.len() && row[x + 1].width == 0);
    }
}

/// Replacing one visible row by a whole row keeps the screen whole.
proof fn lemma_with_row_ok(v: GridView, y: int, r: Seq<CellView>)
    requires
        screen_wide_ok(v),
        0 <= y < v.cells.len(),
        row_wide_ok(r),
    ensures
        screen_wide_ok(v.with_row(y, r)),
{
    let c = v.with_row(y, r).cells;
    assert forall|i: int| 0 <= i < c.len() implies row_wide_ok(#[trigger] c[i]) by {
        if i != y {
            assert(c[i] == v.cells[i]);
        }
    }
}

/// In a whole row, a last cell that is not a continuation is narrow.
proof fn lemma_last_cell_narrow(row: Seq<CellView>)
    requires
        row_wide_ok(row),
        row.len() > 0,
        row[row.len() - 1].width != 0,
    ensures
        row[row.len() - 1].width == 1,
{
    reveal(row_wide_ok);
    assert(row[row.len() - 1].width <= 2);
}

/// The wrap and the room a wide character needs, resolved before it is
/// written: the screen stays whole, and the cursor ends on the screen
/// with room for the width chosen.
proof fn lemma_pad_ok(v: GridView, w0: int)
    requires
        v.wf(),
        screen_wide_ok(v),
        v.cursor.x < v.cols ==> v.cells[v.cursor.y as int][v.cursor.x as int].width != 0,
        w0 == 1 || w0 == 2,
    ensures
        ({
            let (v3, w) = v.stick_to_bottom().handle_wrap_spec().wide_pad_spec(w0);
            &&& v3.wf()
            &&& screen_wide_ok(v3)
            &&& v3.cursor.x < v3.cols
            &&& w == 1 || w == 2
            &&& w == 2 && v3.cols >= 2 ==> v3.cursor.x + 1 < v3.cols
        }),
{
    let s = v.stick_to_bottom();
    let h = s.handle_wrap_spec();
    if s.cursor.x >= s.cols && s.auto_wrap {
        lemma_newline_wide_ok(s);
    }
    assert(h.wf() && screen_wide_ok(h) && h.cursor.x < h.cols);
    if w0 == 2 && h.cols >= 2 && h.cursor.x + 1 >= h.cols && h.auto_wrap {
        let x = h.cursor.x as int;
        let y = h.cursor.y as int;
        assert(h == s);
        assert(x == h.cells[y].len() - 1);
        lemma_last_cell_narrow(h.cells[y]);
        lemma_same_width_update_ok(h.cells[y], x, h.erase_cell());
        lemma_with_row_ok(h, y, h.cells[y].update(x, h.erase_cell()));
        lemma_with_row_wf(h, y, h.cells[y].update(x, h.erase_cell()));
        let e1 = h.with_cell(x, y, h.erase_cell());
        assert(e1 == h.with_row(y, h.cells[y].update(x, h.erase_cell())));
        lemma_newline_wide_ok(e1);
    }
}

/// Insert mode's shift and the write itself keep the screen whole.
proof fn lemma_shift_write_ok(v3: GridView, w: int, ch: char)
    requires
        v3.wf(),
        screen_wide_ok(v3),
        v3.cursor.x < v3.cols,
        w == 1 || w == 2,
        w == 2 && v3.cols >= 2 ==> v3.cursor.x + 1 < v3.cols,
    ensures
        screen_wide_ok(v3.insert_shift_spec(w).write_cell_spec(ch, w)),
{
    let i = v3.insert_shift_spec(w);
    let x = v3.cursor.x as int;
    let y = v3.cursor.y as int;
    if v3.insert_mode && x < v3.cols && x + w <= v3.cols {
        let sr = fix_row_wide_spec(shift_right(v3.cells[y], x, w, v3.erase_cell()), v3.erase_cell());
        lemma_shift_fix_ok(v3.cells[y], x, w, v3.erase_cell());
        lemma_fix_row_wide_pairs(shift_right(v3.cells[y], x, w, v3.erase_cell()), v3.erase_cell());
        lemma_with_row_ok(v3, y, sr);
        lemma_with_row_wf(v3, y, sr);
    }
    assert(i.wf() && screen_wide_ok(i) && i.cursor == v3.cursor);
    let w2 = if w == 2 && i.cols == 1 {
        1
    } else {
        w
    };
    lemma_written_into_ok(
        i.cells[y],
        x,
        w2,
        written_cell(i, ch, w2),
        i.erase_cell(),
        i.placeholder_cell(),
    );
    lemma_with_row_ok(i, y, i.written_row(ch, w2));
}

/// Writing a character keeps every visible row whole, provided the cursor
/// does not rest on the right half of a wide character: a wide character
/// that no longer fits is moved to the next line or written narrow, and
/// the wide halves the write splits are blanked.
pub proof fn lemma_put_char_wide_ok(v: GridView, ch: char)
    requires
        v.wf(),
        screen_wide_ok(v),
        v.cursor.x < v.cols ==> v.cells[v.cursor.y as int][v.cursor.x as int].width != 0,
    ensures
        screen_wide_ok(v.put_char_spec(ch)),
{
    if ch == '\0' {
    } else if v.append_target_spec(ch) is Some {
        let (x, y) = v.append_target_spec(ch)->0;
        let lead = v.cells[y][x];
        let c = with_cluster(lead, cluster_spec(lead).push(ch));
        assert(0 <= y < v.rows && 0 <= x < v.cols);
        lemma_same_width_update_ok(v.cells[y], x, c);
        lemma_with_row_ok(v, y, v.cells[y].update(x, c));
        assert(v.appended(x, y, ch) == v.with_row(y, v.cells[y].update(x, c)));
    } else {
        let cw = char_width_spec(ch) as int;
        let w0 = if cw < 1 {
            1
        } else if cw > 2 {
            2
        } else {
            cw
        };
        lemma_pad_ok(v, w0);
        let (v3, w) = v.stick_to_bottom().handle_wrap_spec().wide_pad_spec(w0);
        lemma_shift_write_ok(v3, w, ch);
    }
}

/// No visible cell is wider than two columns.
pub open spec fn screen_widths_ok(v: GridView) -> bool {
    forall|y: int, i: int|
        0 <= y < v.cells.len() && 0 <= i < v.cells[y].len() ==> (#[trigger] v.cells[y][i]).width <= 2
}

proof fn lemma_whole_screen_widths(v: GridView)
    requires
        screen_wide_ok(v),
    ensures
        screen_widths_ok(v),
{
    reveal(row_wide_ok);
    assert forall|y: int, i: int|
        0 <= y < v.cells.len() && 0 <= i < v.cells[y].len() implies (#[trigger] v.cells[y][i]).width
        <= 2 by {
        assert(row_wide_ok(v.cells[y]));
    }
}

/// Repairing every row of a screen whose cells are at most two columns
/// wide leaves it whole.
proof fn lemma_repair_wide_ok(v: GridView)
    requires
        screen_widths_ok(v),
    ensures
        screen_wide_ok(v.repair_wide()),
{
    reveal(GridView::repair_wide);
    reveal(row_wide_ok);
    let r = v.repair_wide();
    let e = v.erase_cell();
    assert forall|y: int| 0 <= y < r.cells.len() implies row_wide_ok(#[trigger] r.cells[y]) by {
        let row = v.cells[y];
        lemma_fix_row_wide_pairs(row, e);
        let r1 = super::edit::fix_orphans(row, e);
        let r2 = fix_row_wide_spec(row, e);
        assert forall|i: int| 0 <= i < r2.len() implies (#[trigger] r2[i]).width <= 2 by {
            assert(r2[i] == e || r2[i] == r1[i]);
            assert(r1[i] == e || r1[i] == row[i]);
            assert(v.cells[y][i].width <= 2);
        }
    }
}

/// Erasing in the line (`EL`) leaves every row whole.
pub proof fn lemma_erase_in_line_wide_ok(v: GridView, mode: u16)
    requires
        v.wf(),
        screen_wide_ok(v),
    ensures
        screen_wide_ok(v.erase_in_line_spec(mode)),
{
    lemma_whole_screen_widths(v);
    let s = v.stick_to_bottom();
    let y = v.cursor.y as int;
    let x = v.cursor.x as int;
    let erased = if mode == 0 {
        s.with_row(y, fill_range(s.cells[y], x, s.cols as int, s.erase_cell()))
    } else if mode == 1 {
        s.with_row(y, fill_range(s.cells[y], 0, super::min_nat(x, s.cols - 1) + 1, s.erase_cell()))
    } else if mode == 2 {
        s.with_row(y, fill_range(s.cells[y], 0, s.cols as int, s.erase_cell()))
    } else {
        s
    };
    assert(screen_widths_ok(erased)) by {
        assert forall|yy: int, i: int|
            0 <= yy < erased.cells.len() && 0 <= i < erased.cells[yy].len() implies (
            #[trigger] erased.cells[yy][i]).width <= 2 by {
            if yy == y && mode <= 2 {
                assert(erased.cells[yy][i] == s.erase_cell() || erased.cells[yy][i] == v.cells[y][i]);
            } else {
                assert(erased.cells[yy] == v.cells[yy]);
            }
        }
    }
    lemma_repair_wide_ok(erased);
}

/// Erasing in the display (`ED`) leaves every row whole.
pub proof fn lemma_erase_in_display_wide_ok(v: GridView, mode: u16)
    requires
        v.wf(),
        screen_wide_ok(v),
    ensures
        screen_wide_ok(v.erase_in_display_spec(mode)),
{
    reveal(GridView::erase_below);
    reveal(GridView::erase_above);
    lemma_whole_screen_widths(v);
    let s = v.stick_to_bottom();
    let erased = if mode == 0 {
        s.erase_below()
    } else if mode == 1 {
        s.erase_above()
    } else if mode == 2 {
        s.clear_all_spec()
    } else if mode == 3 {
        s.clear_all_spec().clear_scrollback_spec()
    } else {
        s
    };
    let y = v.cursor.y as int;
    assert(screen_widths_ok(erased)) by {
        assert forall|yy: int, i: int|
            0 <= yy < erased.cells.len() && 0 <= i < erased.cells[yy].len() implies (
            #[trigger] erased.cells[yy][i]).width <= 2 by {
            if mode <= 3 {
                assert(erased.cells[yy][i] == s.erase_cell() || erased.cells[yy][i] == v.cells[yy][i]);
            } else {
                assert(erased.cells[yy] == v.cells[yy]);
            }
        }
    }
    lemma_repair_wide_ok(erased);
}

proof fn lemma_insert_n_wide_ok(v: GridView, y: int, n: nat)
    requires
        v.wf(),
        screen_wide_ok(v),
        0 <= y < v.rows,
        v.bottom() < v.rows,
    ensures
        screen_wide_ok(v.insert_n(y, n)),
        v.insert_n(y, n).cells.len() == v.cells.len(),
        v.insert_n(y, n).erase_row() == v.erase_row(),
    decreases n,
{
    reveal(GridView::moved_row);
    if n > 0 {
        lemma_insert_n_wide_ok(v, y, (n - 1) as nat);
        let p = v.insert_n(y, (n - 1) as nat);
        lemma_uniform_row_ok(v.cols as nat, v.erase_cell());
        lemma_remove_insert_ok(p.cells, v.bottom(), y, p.erase_row());
    }
}

proof fn lemma_delete_n_wide_ok(v: GridView, y: int, n: nat)
    requires
        v.wf(),
        screen_wide_ok(v),
        0 <= y < v.rows,
        v.bottom() < v.rows,
    ensures
        screen_wide_ok(v.delete_n(y, n)),
        v.delete_n(y, n).cells.len() == v.cells.len(),
        v.delete_n(y, n).erase_row() == v.erase_row(),
    decreases n,
{
    reveal(GridView::moved_row);
    if n > 0 {
        lemma_delete_n_wide_ok(v, y, (n - 1) as nat);
        let p = v.delete_n(y, (n - 1) as nat);
        lemma_uniform_row_ok(v.cols as nat, v.erase_cell());
        lemma_remove_insert_ok(p.cells, y, v.bottom(), p.erase_row());
    }
}

/// Inserting and deleting lines (`IL`, `DL`) moves whole rows and brings
/// in blank ones, so every row stays whole.
pub proof fn lemma_insert_delete_lines_wide_ok(v: GridView, n: nat)
    requires
        v.wf(),
        screen_wide_ok(v),
    ensures
        screen_wide_ok(v.insert_lines_spec(n)),
        screen_wide_ok(v.delete_lines_spec(n)),
{
    let s = v.stick_to_bottom();
    let y = v.cursor.y as int;
    if s.top() <= y <= s.bottom() {
        lemma_insert_n_wide_ok(s, y, n);
        lemma_delete_n_wide_ok(s, y, n);
    }
}

/// A row fitted to a new width and repaired is whole, when the source
/// cells are at most two columns wide.
proof fn lemma_fitted_row_ok(src: Seq<Seq<CellView>>, src_cols: int, y: int, cols: int, blank: CellView)
    requires
        blank.width == 1,
        0 <= y,
        0 <= cols,
        y < src.len() ==> src[y].len() >= src_cols,
        forall|i: int| 0 <= i < src_cols && y < src.len() ==> (#[trigger] src[y][i]).width <= 2,
    ensures
        row_wide_ok(fix_row_wide_spec(super::tuning::resized_row(src, src_cols, y, cols, blank), blank)),
{
    reveal(row_wide_ok);
    let row = super::tuning::resized_row(src, src_cols, y, cols, blank);
    lemma_fix_row_wide_pairs(row, blank);
    let r1 = super::edit::fix_orphans(row, blank);
    let r2 = fix_row_wide_spec(row, blank);
    assert forall|i: int| 0 <= i < r2.len() implies (#[trigger] r2[i]).width <= 2 by {
        assert(r2[i] == blank || r2[i] == r1[i]);
        assert(r1[i] == blank || r1[i] == row[i]);
        if y < src.len() && i < src_cols {
            assert(src[y][i].width <= 2);
        }
    }
}

/// Resizing keeps every row whole: contents are copied cell for cell and
/// the wide halves the new width splits are repaired.
pub proof fn lemma_resize_wide_ok(v: GridView, cols: usize, rows: usize)
    requires
        v.wf(),
        screen_wide_ok(v),
    ensures
        screen_wide_ok(v.resize_spec(cols, rows)),
{
    let c = v.clamp_dim(cols);
    let r = v.clamp_dim(rows);
    if !(c == v.cols && r == v.rows) {
        lemma_whole_screen_widths(v);
        reveal(GridView::resized_cells);
        let cells = v.resize_fields(c, r).cells;
        assert(cells == super::tuning::resized_screen(v.cells, v.cols as int, c as int, r as int, v.blank_cell()));
        assert forall|y: int| 0 <= y < cells.len() implies row_wide_ok(#[trigger] cells[y]) by {
            assert(y < v.cells.len() ==> v.cells[y].len() == v.cols);
            lemma_fitted_row_ok(v.cells, v.cols as int, y, c as int, v.blank_cell());
        }
    }
}

/// Repairing a whole row changes nothing.
pub proof fn lemma_fix_whole_row(row: Seq<CellView>, e: CellView)
    requires
        row_wide_ok(row),
        e.width == 1,
    ensures
        fix_row_wide_spec(row, e) == row,
{
    reveal(row_wide_ok);
    let r1 = super::edit::fix_orphans(row, e);
    assert(r1 =~= row);
    assert(fix_row_wide_spec(row, e) =~= row);
}

/// Repairing a whole row with `[lo, hi)` filled by a narrow blank keeps the
/// blanks and every cell more than one column away from the filled span.
pub proof fn lemma_fix_filled_row(row: Seq<CellView>, lo: int, hi: int, e: CellView)
    requires
        row_wide_ok(row),
        e.width == 1,
        0 <= lo <= hi <= row.len(),
    ensures
        ({
            let r = fix_row_wide_spec(fill_range(row, lo, hi, e), e);
            &&& r.len() == row.len()
            &&& forall|i: int| lo <= i < hi ==> #[trigger] r[i] == e
            &&& forall|i: int| 0 <= i < row.len() && (i < lo - 1 || i > hi) ==> #[trigger] r[i] == row[i]
        }),
{
    reveal(row_wide_ok);
    let r0 = fill_range(row, lo, hi, e);
    let r1 = super::edit::fix_orphans(r0, e);
    let r = fix_row_wide_spec(r0, e);
    assert forall|i: int| lo <= i < hi implies #[trigger] r[i] == e by {
        assert(r0[i] == e);
        assert(r1[i] == e);
    }
    assert forall|i: int| 0 <= i < row.len() && (i < lo - 1 || i > hi) implies #[trigger] r[i] == row[i] by {
        assert(r0[i] == row[i]);
        if i > 0 {
            assert(r0[i - 1] == row[i - 1]);
        }
        if i + 1 < row.len() {
            assert(r0[i + 1] == row[i + 1]);
            assert(r1[i + 1] == row[i + 1]) by {
                if i + 1 > 0 {
                    assert(r0[i] == row[i]);
                }
            }
        }
        assert(r1[i] == row[i]);
    }
}

/// Erasing in the line (`EL`) on a whole screen: mode 0 blanks the cursor
/// column to the end of the line, mode 1 the start of the line through the
/// cursor column, mode 2 the whole line (with the pen's background); other
/// cells of the line more than one column from the erased span, and every
/// other line, stay as they were.
pub proof fn lemma_erase_in_line_cells(v: GridView, mode: u16)
    requires
        v.wf(),
        screen_wide_ok(v),
    ensures
        ({
            let r = v.erase_in_line_spec(mode).cells;
            let x = v.cursor.x as int;
            let y = v.cursor.y as int;
            let xm = if x < v.cols - 1 { x } else { v.cols - 1 };
            &&& r.len() == v.cells.len()
            &&& forall|yy: int| 0 <= yy < r.len() && yy != y ==> #[trigger] r[yy] == v.cells[yy]
            &&& r[y].len() == v.cols
            &&& mode == 0 ==> (forall|i: int| x <= i < v.cols ==> #[trigger] r[y][i] == v.erase_cell())
                && (forall|i: int| 0 <= i < x - 1 ==> #[trigger] r[y][i] == v.cells[y][i])
            &&& mode == 1 ==> (forall|i: int| 0 <= i <= xm ==> #[trigger] r[y][i] == v.erase_cell())
                && (forall|i: int| xm + 1 < i < v.cols ==> #[trigger] r[y][i] == v.cells[y][i])
            &&& mode == 2 ==> forall|i: int| 0 <= i < v.cols ==> #[trigger] r[y][i] == v.erase_cell()
            &&& mode > 2 ==> r[y] == v.cells[y]
        }),
{
    reveal(GridView::repair_wide);
    let s = v.stick_to_bottom();
    let x = v.cursor.x as int;
    let y = v.cursor.y as int;
    let e = v.erase_cell();
    let row = v.cells[y];
    let (lo, hi) = if mode == 0 {
        (x, v.cols as int)
    } else if mode == 1 {
        (0, super::min_nat(x, v.cols - 1) + 1)
    } else if mode == 2 {
        (0, v.cols as int)
    } else {
        (0, 0)
    };
    assert(row.len() == v.cols);
    assert(row_wide_ok(row));
    lemma_fix_filled_row(row, lo, hi, e);
    assert(fill_range(row, 0, 0, e) =~= row);
    let r = v.erase_in_line_spec(mode).cells;
    assert forall|yy: int| 0 <= yy < r.len() && yy != y implies #[trigger] r[yy] == v.cells[yy] by {
        assert(row_wide_ok(v.cells[yy]));
        lemma_fix_whole_row(v.cells[yy], e);
    }
    if mode > 2 {
        lemma_fix_whole_row(row, e);
    }
}

proof fn lemma_write_cell_at(s: GridView, c: char, w: int)
    requires
        s.wf(),
        s.cursor.x < s.cols,
        w == 1 || (w == 2 && s.cursor.x + 1 < s.cols),
    ensures
        ({
            let r = s.write_cell_spec(c, w);
            let x = s.cursor.x as int;
            let y = s.cursor.y as int;
            &&& r.cells.len() == s.cells.len()
            &&& forall|yy: int| 0 <= yy < r.cells.len() && yy != y ==> #[trigger] r.cells[yy] == s.cells[yy]
            &&& r.cursor.y == y
            &&& r.cells[y][x].ch == c
            &&& r.cells[y][x].width == w
            &&& r.cells[y][x].fg == s.pen.fg && r.cells[y][x].bg == s.pen.bg
            &&& r.cells[y][x].bold == s.pen.bold
            &&& w == 2 ==> r.cells[y][x + 1].width == 0
            &&& r.cursor.x == (if x + w >= s.cols && !s.auto_wrap { s.cols - 1 } else { x + w })
            &&& forall|i: int|
                0 <= i < s.cols && (i < x - 1 || i > x + w) ==> #[trigger] r.cells[y][i] == s.cells[y][i]
        }),
{
    reveal(clear_split);
    let x = s.cursor.x as int;
    let y = s.cursor.y as int;
    let row = s.cells[y];
    let r2 = s.written_row(c, w);
    assert(r2.len() == row.len());
    assert forall|i: int| 0 <= i < s.cols && (i < x - 1 || i > x + w) implies #[trigger] r2[i] == row[i] by {}
    assert(r2[x].ch == c && r2[x].width == w);
}

/// Writing a character that fits at the cursor is the cell write itself.
#[verifier::spinoff_prover]
#[verifier::rlimit(80)]
proof fn lemma_put_char_is_write(v: GridView, c: char)
    requires
        v.wf(),
        v.cursor.x < v.cols,
        c != '\0',
        v.append_target_spec(c) is None,
        !v.insert_mode,
        char_width_spec(c) == 1 || (char_width_spec(c) == 2 && v.cursor.x + 1 < v.cols),
    ensures
        v.put_char_spec(c) == v.stick_to_bottom().write_cell_spec(c, char_width_spec(c) as int),
{
    let s = v.stick_to_bottom();
    let w0 = char_width_spec(c) as int;
    assert(s.handle_wrap_spec() == s);
    assert(s.wide_pad_spec(w0) == (s, w0));
    assert(s.insert_shift_spec(w0) == s);
    assert(v.put_char_spec(c) == s.write_new_spec(c));
}

/// Writing a character of width one (that does not join the previous
/// cluster) with the cursor on the screen and insert mode off: the cell
/// under the cursor becomes that character in the pen's colors, the cursor
/// moves one column right (staying on the last column without auto-wrap),
/// and every other line and every cell of the line more than one column
/// away is kept. A character of width two with room for both halves takes
/// the cursor cell and the next (its continuation) and moves two columns.
#[verifier::spinoff_prover]
pub proof fn lemma_put_char_writes_at_cursor(v: GridView, c: char)
    requires
        v.wf(),
        v.cursor.x < v.cols,
        c != '\0',
        v.append_target_spec(c) is None,
        !v.insert_mode,
    ensures
        ({
            let r = v.put_char_spec(c);
            let x = v.cursor.x as int;
            let y = v.cursor.y as int;
            let w = char_width_spec(c);
            &&& (w == 1 || (w == 2 && x + 1 < v.cols)) ==> {
                &&& r.cells.len() == v.cells.len()
                &&& forall|yy: int| 0 <= yy < r.cells.len() && yy != y ==> #[trigger] r.cells[yy] == v.cells[yy]
                &&& r.cursor.y == y
                &&& r.cells[y][x].ch == c
                &&& r.cells[y][x].width == w
                &&& r.cells[y][x].fg == v.pen.fg && r.cells[y][x].bg == v.pen.bg
                &&& r.cells[y][x].bold == v.pen.bold
                &&& w == 2 ==> r.cells[y][x + 1].width == 0
                &&& r.cursor.x == (if x + w >= v.cols && !v.auto_wrap { v.cols - 1 } else { x + w })
                &&& forall|i: int|
                    0 <= i < v.cols && (i < x - 1 || i > x + w) ==> #[trigger] r.cells[y][i]
                        == v.cells[y][i]
            }
        }),
{
    let x = v.cursor.x as int;
    let w = char_width_spec(c);
    if w == 1 || (w == 2 && x + 1 < v.cols) {
        lemma_put_char_is_write(v, c);
        lemma_write_cell_at(v.stick_to_bottom(), c, w as int);
    }
}
} // verus!
