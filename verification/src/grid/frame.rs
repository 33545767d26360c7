//! What editing leaves alone: the cursor state `DECSC` saved, the main
//! screen the alternate screen kept aside, and the screen size. From
//! these frame facts follow the laws across any sequence of edits:
//! `DECRC` brings back what `DECSC` saved, and leaving the alternate
//! screen brings back the main screen as it was when it was entered.

use vstd::prelude::*;

use super::{CursorStyle, GridView};

verus! {

/// `a` keeps what `b` has kept aside: the screen size, the saved cursor
/// state, the main screen held during the alternate screen, the history
/// cap, and (on the alternate screen) the history itself.
pub open spec fn keeps_saved(a: GridView, b: GridView) -> bool {
    &&& a.cols == b.cols
    &&& a.rows == b.rows
    &&& a.in_alt == b.in_alt
    &&& a.saved_cursor == b.saved_cursor
    &&& a.saved_pen == b.saved_pen
    &&& a.saved_style == b.saved_style
    &&& a.saved_origin == b.saved_origin
    &&& a.saved_main_cells == b.saved_main_cells
    &&& a.saved_main_cursor == b.saved_main_cursor
    &&& a.saved_main_saved_cursor == b.saved_main_saved_cursor
    &&& a.saved_main_saved_pen == b.saved_main_saved_pen
    &&& a.saved_main_saved_style == b.saved_main_saved_style
    &&& a.saved_main_saved_origin == b.saved_main_saved_origin
    &&& a.saved_main_scroll_top == b.saved_main_scroll_top
    &&& a.saved_main_scroll_bottom == b.saved_main_scroll_bottom
    &&& a.saved_main_origin == b.saved_main_origin
    &&& a.saved_main_insert == b.saved_main_insert
    &&& a.saved_main_wrap == b.saved_main_wrap
    &&& a.max_scrollback == b.max_scrollback
    &&& (b.in_alt ==> a.scrollback == b.scrollback)
}

/// `a` has the margins of `b`.
pub open spec fn same_margins(a: GridView, b: GridView) -> bool {
    a.scroll_top == b.scroll_top && a.scroll_bottom == b.scroll_bottom
}

/// Keeping what was kept aside is transitive, so a law over one edit
/// extends to any sequence of them.
pub proof fn lemma_keeps_saved_trans(a: GridView, b: GridView, c: GridView)
    requires
        keeps_saved(a, b),
        keeps_saved(b, c),
    ensures
        keeps_saved(a, c),
{
}

proof fn lemma_region_up_n_keeps(v: GridView, n: nat)
    ensures
        keeps_saved(v.region_up_n(n), v),
        v.region_up_n(n).scrollback == v.scrollback,
        same_margins(v.region_up_n(n), v),
    decreases n,
{
    reveal(GridView::moved_row);
    if n > 0 {
        lemma_region_up_n_keeps(v, (n - 1) as nat);
    }
}

proof fn lemma_scroll_full_n_keeps(v: GridView, n: nat)
    ensures
        keeps_saved(v.scroll_full_n(n), v),
        same_margins(v.scroll_full_n(n), v),
    decreases n,
{
    if n > 0 {
        lemma_scroll_full_n_keeps(v, (n - 1) as nat);
    }
}

/// A line feed keeps what was kept aside.
pub proof fn lemma_newline_keeps_saved(v: GridView)
    ensures
        keeps_saved(v.newline_spec(), v),
        same_margins(v.newline_spec(), v),
{
    let w = v.stick_to_bottom().with_cursor(0, v.cursor.y);
    lemma_region_up_n_keeps(w, 1);
    lemma_scroll_full_n_keeps(w, 1);
    assert(w.scroll_full_n(1) == w.scroll_full_n(0).scroll_full_once());
}

/// Writing a character keeps what was kept aside.
pub proof fn lemma_put_char_keeps_saved(v: GridView, ch: char)
    ensures
        keeps_saved(v.put_char_spec(ch), v),
        same_margins(v.put_char_spec(ch), v),
{
    let s = v.stick_to_bottom();
    lemma_newline_keeps_saved(s);
    let h = s.handle_wrap_spec();
    let e = h.with_cell(h.cursor.x as int, h.cursor.y as int, h.erase_cell());
    lemma_newline_keeps_saved(e);
}

/// Cursor positioning keeps what was kept aside.
pub proof fn lemma_cursor_moves_keep_saved(v: GridView, x: usize, y: usize, dx: int, dy: int)
    ensures
        keeps_saved(v.set_cursor_spec(x, y), v),
        keeps_saved(v.move_cursor_spec(dx, dy), v),
{
}

/// `SGR`, erasing in the line, margins and the mode flags keep what was
/// kept aside.
pub proof fn lemma_modes_keep_saved(
    v: GridView,
    params: Seq<u16>,
    mode: u16,
    top: usize,
    bottom: usize,
    e: bool,
    style: CursorStyle,
)
    ensures
        keeps_saved(v.sgr_spec(params), v),
        keeps_saved(v.erase_in_line_spec(mode), v),
        keeps_saved(v.set_scroll_region_spec(top, bottom).0, v),
        keeps_saved(
            if v.origin_mode == e {
                v
            } else {
                (GridView { origin_mode: e, ..v }).home_cursor().bump()
            },
            v,
        ),
        keeps_saved(
            if v.insert_mode == e {
                v
            } else {
                (GridView { insert_mode: e, ..v }).bump()
            },
            v,
        ),
        keeps_saved(
            if v.auto_wrap == e {
                v
            } else {
                (GridView { auto_wrap: e, ..v }).bump()
            },
            v,
        ),
        keeps_saved(
            if v.cursor_style == style {
                v
            } else {
                (GridView { cursor_style: style, ..v }).bump()
            },
            v,
        ),
{
    reveal(GridView::repair_wide);
}

/// `DECRC` after any edits that kept what `DECSC` saved brings back the
/// saved cursor, pen, cursor style and origin mode, provided the saved
/// cursor is on screen, not on the right half of a wide character, and
/// (in origin mode) inside the margins.
pub proof fn lemma_restore_after_edits(v: GridView, w: GridView)
    requires
        v.wf(),
        keeps_saved(w, v.save_cursor_spec()),
        v.cursor.x < v.cols,
        w.cells[v.cursor.y as int][v.cursor.x as int].width != 0,
        v.origin_mode ==> w.top() <= v.cursor.y <= w.bottom(),
    ensures
        w.restore_cursor_spec().cursor == v.cursor,
        w.restore_cursor_spec().pen == v.pen,
        w.restore_cursor_spec().cursor_style == v.cursor_style,
        w.restore_cursor_spec().origin_mode == v.origin_mode,
{
}

/// Entering the alternate screen, editing there in any way that keeps
/// what was kept aside, and leaving it brings back the main screen, its
/// cursor, margins, modes, saved cursor state and history, with the view
/// at the live screen. The premises are those of the immediate round trip.
pub proof fn lemma_alt_round_trip_after_edits(v: GridView, clear: bool, w: GridView)
    requires
        v.wf(),
        !v.in_alt,
        v.cursor.x < v.cols,
        v.origin_mode ==> v.top() <= v.cursor.y <= v.bottom(),
        keeps_saved(w, v.enter_alt_spec(clear)),
    ensures
        ({
            let r = w.exit_alt_spec();
            &&& !r.in_alt
            &&& r.cells == v.cells
            &&& r.scrollback == v.scrollback
            &&& r.cursor == v.cursor
            &&& r.scroll_top == v.scroll_top
            &&& r.scroll_bottom == v.scroll_bottom
            &&& r.origin_mode == v.origin_mode
            &&& r.insert_mode == v.insert_mode
            &&& r.auto_wrap == v.auto_wrap
            &&& r.saved_cursor == v.saved_cursor
            &&& r.saved_pen == v.saved_pen
            &&& r.saved_style == v.saved_style
            &&& r.saved_origin == v.saved_origin
            &&& r.scroll_offset == 0
        }),
{
    super::modes::lemma_alt_round_trip(v, clear);
}

/// One editing call on a grid, as the model sees it.
pub enum GridEdit {
    PutChar(char),
    Newline,
    SetCursor(usize, usize),
    MoveCursor(isize, isize),
    Sgr(Seq<u16>),
    EraseInLine(u16),
    SetScrollRegion(usize, usize),
    SetOriginMode(bool),
    SetInsertMode(bool),
    SetAutoWrap(bool),
    SetCursorStyle(CursorStyle),
}

/// The grid after one call, as the `Grid` method of that name leaves it.
pub open spec fn apply_edit(v: GridView, e: GridEdit) -> GridView {
    match e {
        GridEdit::PutChar(ch) => v.put_char_spec(ch),
        GridEdit::Newline => v.newline_spec(),
        GridEdit::SetCursor(x, y) => v.set_cursor_spec(x, y),
        GridEdit::MoveCursor(dx, dy) => v.move_cursor_spec(dx as int, dy as int),
        GridEdit::Sgr(params) => v.sgr_spec(params),
        GridEdit::EraseInLine(mode) => v.erase_in_line_spec(mode),
        GridEdit::SetScrollRegion(top, bottom) => v.set_scroll_region_spec(top, bottom).0,
        GridEdit::SetOriginMode(e) => if v.origin_mode == e {
            v
        } else {
            (GridView { origin_mode: e, ..v }).home_cursor().bump()
        },
        GridEdit::SetInsertMode(e) => if v.insert_mode == e {
            v
        } else {
            (GridView { insert_mode: e, ..v }).bump()
        },
        GridEdit::SetAutoWrap(e) => if v.auto_wrap == e {
            v
        } else {
            (GridView { auto_wrap: e, ..v }).bump()
        },
        GridEdit::SetCursorStyle(style) => if v.cursor_style == style {
            v
        } else {
            (GridView { cursor_style: style, ..v }).bump()
        },
    }
}

/// The grid after a sequence of calls, first to last.
pub open spec fn apply_edits(v: GridView, es: Seq<GridEdit>) -> GridView
    decreases es.len(),
{
    if es.len() == 0 {
        v
    } else {
        apply_edit(apply_edits(v, es.drop_last()), es.last())
    }
}

/// One call keeps what was kept aside, and only setting the margins moves
/// them.
proof fn lemma_edit_keeps_saved(v: GridView, e: GridEdit)
    ensures
        keeps_saved(apply_edit(v, e), v),
        !(e is SetScrollRegion) ==> same_margins(apply_edit(v, e), v),
{
    reveal(GridView::repair_wide);
    match e {
        GridEdit::PutChar(ch) => lemma_put_char_keeps_saved(v, ch),
        GridEdit::Newline => lemma_newline_keeps_saved(v),
        GridEdit::SetCursor(x, y) => lemma_cursor_moves_keep_saved(v, x, y, 0, 0),
        GridEdit::MoveCursor(dx, dy) => lemma_cursor_moves_keep_saved(v, 0, 0, dx as int, dy as int),
        GridEdit::Sgr(params) => lemma_modes_keep_saved(v, params, 0, 0, 0, false, v.cursor_style),
        GridEdit::EraseInLine(mode) => lemma_modes_keep_saved(v, Seq::empty(), mode, 0, 0, false, v.cursor_style),
        GridEdit::SetScrollRegion(top, bottom) => lemma_modes_keep_saved(v, Seq::empty(), 0, top, bottom, false, v.cursor_style),
        GridEdit::SetOriginMode(b) => lemma_modes_keep_saved(v, Seq::empty(), 0, 0, 0, b, v.cursor_style),
        GridEdit::SetInsertMode(b) => lemma_modes_keep_saved(v, Seq::empty(), 0, 0, 0, b, v.cursor_style),
        GridEdit::SetAutoWrap(b) => lemma_modes_keep_saved(v, Seq::empty(), 0, 0, 0, b, v.cursor_style),
        GridEdit::SetCursorStyle(style) => lemma_modes_keep_saved(v, Seq::empty(), 0, 0, 0, false, style),
    }
}

/// Any sequence of these calls keeps what was kept aside; without a call
/// that sets the margins, the margins stay too.
pub proof fn lemma_edits_keep_saved(v: GridView, es: Seq<GridEdit>)
    ensures
        keeps_saved(apply_edits(v, es), v),
        (forall|i: int| 0 <= i < es.len() ==> !(#[trigger] es[i] is SetScrollRegion)) ==> same_margins(
            apply_edits(v, es),
            v,
        ),
    decreases es.len(),
{
    if es.len() > 0 {
        let init = es.drop_last();
        lemma_edits_keep_saved(v, init);
        lemma_edit_keeps_saved(apply_edits(v, init), es.last());
        lemma_keeps_saved_trans(apply_edits(v, es), apply_edits(v, init), v);
        if forall|i: int| 0 <= i < es.len() ==> !(#[trigger] es[i] is SetScrollRegion) {
            assert(forall|i: int| 0 <= i < init.len() ==> init[i] == es[i]);
            assert(!(es[es.len() - 1] is SetScrollRegion));
        }
    }
}

/// `DECRC` after `DECSC` and any sequence of writes, line feeds, cursor
/// moves, `SGR`, line erases, mode changes and cursor-style changes (no
/// margin change) brings back the saved cursor, pen, cursor style and
/// origin mode, provided the saved cell is not then the right half of a
/// wide character. In origin mode the cursor lies inside the margins, as
/// every operation of the grid leaves it.
pub proof fn lemma_restore_after_edit_sequence(v: GridView, es: Seq<GridEdit>)
    requires
        v.wf(),
        v.cursor.x < v.cols,
        v.origin_mode ==> v.top() <= v.cursor.y <= v.bottom(),
        forall|i: int| 0 <= i < es.len() ==> !(#[trigger] es[i] is SetScrollRegion),
        apply_edits(v.save_cursor_spec(), es).cells[v.cursor.y as int][v.cursor.x as int].width != 0,
    ensures
        ({
            let r = apply_edits(v.save_cursor_spec(), es).restore_cursor_spec();
            &&& r.cursor == v.cursor
            &&& r.pen == v.pen
            &&& r.cursor_style == v.cursor_style
            &&& r.origin_mode == v.origin_mode
        }),
{
    lemma_edits_keep_saved(v.save_cursor_spec(), es);
    lemma_restore_after_edits(v, apply_edits(v.save_cursor_spec(), es));
}

/// Entering the alternate screen, any sequence of writes, line feeds,
/// cursor moves, `SGR`, line erases, margin and mode changes there, and
/// leaving it brings back the main screen, its cursor, margins, modes,
/// saved cursor state and history, with the view at the live screen. In
/// origin mode the cursor lies inside the margins, as every operation of
/// the grid leaves it.
pub proof fn lemma_alt_round_trip_after_edit_sequence(v: GridView, clear: bool, es: Seq<GridEdit>)
    requires
        v.wf(),
        !v.in_alt,
        v.cursor.x < v.cols,
        v.origin_mode ==> v.top() <= v.cursor.y <= v.bottom(),
    ensures
        ({
            let r = apply_edits(v.enter_alt_spec(clear), es).exit_alt_spec();
            &&& !r.in_alt
            &&& r.cells == v.cells
            &&& r.scrollback == v.scrollback
            &&& r.cursor == v.cursor
            &&& r.scroll_top == v.scroll_top
            &&& r.scroll_bottom == v.scroll_bottom
            &&& r.origin_mode == v.origin_mode
            &&& r.insert_mode == v.insert_mode
            &&& r.auto_wrap == v.auto_wrap
            &&& r.saved_cursor == v.saved_cursor
            &&& r.saved_pen == v.saved_pen
            &&& r.saved_style == v.saved_style
            &&& r.saved_origin == v.saved_origin
            &&& r.scroll_offset == 0
        }),
{
    lemma_edits_keep_saved(v.enter_alt_spec(clear), es);
    lemma_alt_round_trip_after_edits(v, clear, apply_edits(v.enter_alt_spec(clear), es));
}

} // verus!
