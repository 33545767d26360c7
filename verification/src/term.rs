//! Escape-sequence dispatch: what each printable character, control byte,
//! CSI, ESC and OSC sequence does to the grid, plus the deferred-wrap flag
//! and the window title the shell reports.
//!
//! The byte-level parser lives outside this module: its callbacks hand
//! the parsed pieces (characters, control bytes, parameter groups,
//! intermediates) to the methods here.

use vstd::prelude::*;

use crate::grid::{
    CellView, CursorShape, CursorStyle, Grid, GridView, Pen, TerminalConfig, UnderlineStyle, default_cursor_style,
    initial_view,
};
use crate::text::{chars_of, push_char, trim_of, trim_str, utf8_lossy, utf8_lossy_of};
use crate::theme::Theme;

verus! {

/// Default cap on the stored OSC title length (chars), so a runaway escape
/// cannot grow memory without bound; `[terminal] max_title_chars`
/// configures it.
pub const MAX_TITLE_CHARS: usize = 256;

/// Terminal state on top of the grid.
pub struct Terminal {
    grid: Grid,
    /// The cursor sits past the right margin: the next printable wraps
    /// first.
    pending_wrap: bool,
    /// Last `OSC 0/1/2` title set by the shell; empty when none seen.
    title: String,
    /// Cap on the stored title length (chars).
    max_title_chars: usize,
}

/// Value model of a [`Terminal`].
#[verifier::ext_equal]
pub struct TermView {
    pub grid: GridView,
    pub pending_wrap: bool,
    pub title: Seq<char>,
    pub max_title_chars: usize,
}

impl View for Terminal {
    type V = TermView;

    closed spec fn view(&self) -> TermView {
        TermView {
            grid: self.grid@,
            pending_wrap: self.pending_wrap,
            title: self.title@,
            max_title_chars: self.max_title_chars,
        }
    }
}

/// All parameter groups of a CSI sequence, concatenated.
pub open spec fn flat_params(ps: Seq<Vec<u16>>) -> Seq<u16>
    decreases ps.len(),
{
    if ps.len() == 0 {
        Seq::empty()
    } else {
        flat_params(ps.drop_last()) + ps.last()@
    }
}

/// Parameter `idx`, with `0` or a missing value read as `default`.
pub open spec fn param_or_spec(flat: Seq<u16>, idx: int, default: u16) -> u16 {
    if 0 <= idx < flat.len() && flat[idx] != 0 {
        flat[idx]
    } else {
        default
    }
}

/// `g` with the cursor shown or hidden.
pub open spec fn with_cursor_enabled(g: GridView, enabled: bool) -> GridView {
    if g.cursor_enabled == enabled {
        g
    } else {
        (GridView { cursor_enabled: enabled, ..g }).bump()
    }
}

/// `g` with bracketed paste switched on or off.
pub open spec fn with_bracketed_paste(g: GridView, enabled: bool) -> GridView {
    if g.bracketed_paste == enabled {
        g
    } else {
        (GridView { bracketed_paste: enabled, ..g }).bump()
    }
}

/// `g` with cursor style `s`.
pub open spec fn with_cursor_style(g: GridView, s: CursorStyle) -> GridView {
    if g.cursor_style == s {
        g
    } else {
        (GridView { cursor_style: s, ..g }).bump()
    }
}

/// `g` with a mode flag changed through its setter's rule: unchanged
/// when equal, else set and the version bumped.
pub open spec fn with_cursor_app(g: GridView, e: bool) -> GridView {
    if g.cursor_app == e {
        g
    } else {
        (GridView { cursor_app: e, ..g }).bump()
    }
}

pub open spec fn with_keypad_app(g: GridView, e: bool) -> GridView {
    if g.keypad_app == e {
        g
    } else {
        (GridView { keypad_app: e, ..g }).bump()
    }
}

pub open spec fn with_origin_mode(g: GridView, e: bool) -> GridView {
    if g.origin_mode == e {
        g
    } else {
        (GridView { origin_mode: e, ..g }).home_cursor().bump()
    }
}

pub open spec fn with_insert_mode(g: GridView, e: bool) -> GridView {
    if g.insert_mode == e {
        g
    } else {
        (GridView { insert_mode: e, ..g }).bump()
    }
}

pub open spec fn with_auto_wrap(g: GridView, e: bool) -> GridView {
    if g.auto_wrap == e {
        g
    } else {
        (GridView { auto_wrap: e, ..g }).bump()
    }
}

/// The private modes that only flip a grid flag: 1 (application
/// cursor keys), 6 (origin), 7 (auto-wrap), 1000/1002/1003 (mouse press,
/// drag, any-motion reporting), 1004 (focus reports), 1006 (SGR mouse
/// encoding) and 2026 (synchronized output, nested); others are ignored.
pub open spec fn flag_mode_spec(g: GridView, mode: u16, set: bool) -> GridView {
    if mode == 1 {
        with_cursor_app(g, set)
    } else if mode == 6 {
        with_origin_mode(g, set)
    } else if mode == 7 {
        with_auto_wrap(g, set)
    } else {
        report_mode_spec(g, mode, set)
    }
}

/// The reporting modes: 1000/1002/1003 (mouse press, drag, any-motion),
/// 1004 (focus), 1006 (SGR mouse encoding) and 2026 (synchronized output,
/// nested); others are ignored.
pub open spec fn report_mode_spec(g: GridView, mode: u16, set: bool) -> GridView {
    if mode == 1000 {
        GridView { mouse_press: set, ..g }
    } else if mode == 1002 {
        GridView { mouse_drag: set, ..g }
    } else if mode == 1003 {
        GridView { mouse_any: set, ..g }
    } else {
        other_report_mode_spec(g, mode, set)
    }
}

/// 1004 (focus reports), 1006 (SGR mouse encoding) and 2026
/// (synchronized output, nested); others are ignored.
pub open spec fn other_report_mode_spec(g: GridView, mode: u16, set: bool) -> GridView {
    if mode == 1004 {
        GridView { focus_report: set, ..g }
    } else if mode == 1006 {
        GridView { mouse_sgr: set, ..g }
    } else if mode == 2026 {
        GridView {
            sync_depth: if set {
                if g.sync_depth == u32::MAX {
                    u32::MAX
                } else {
                    (g.sync_depth + 1) as u32
                }
            } else if g.sync_depth == 0 {
                0
            } else {
                (g.sync_depth - 1) as u32
            },
            ..g
        }
    } else {
        g
    }
}

/// `DECSET`/`DECRST` of one private mode.
#[verifier::opaque]
pub open spec fn private_mode_spec(t: TermView, mode: u16, set: bool) -> TermView {
    if mode == 25 {
        TermView { grid: with_cursor_enabled(t.grid, set), ..t }
    } else if mode == 2004 {
        TermView { grid: with_bracketed_paste(t.grid, set), ..t }
    } else if mode == 47 || mode == 1047 {
        TermView {
            grid: if set {
                t.grid.enter_alt_spec(false)
            } else {
                t.grid.exit_alt_spec()
            },
            pending_wrap: false,
            ..t
        }
    } else if mode == 1048 {
        TermView {
            grid: if set {
                t.grid.save_cursor_spec()
            } else {
                t.grid.restore_cursor_spec()
            },
            ..t
        }
    } else if mode == 1049 {
        TermView {
            grid: if set {
                t.grid.save_cursor_spec().enter_alt_spec(true)
            } else {
                t.grid.exit_alt_spec().restore_cursor_spec()
            },
            pending_wrap: false,
            ..t
        }
    } else {
        TermView { grid: flag_mode_spec(t.grid, mode, set), ..t }
    }
}

/// The private modes `ms`, applied in order.
pub open spec fn private_modes_spec(t: TermView, ms: Seq<u16>, set: bool) -> TermView
    decreases ms.len(),
{
    if ms.len() == 0 {
        t
    } else {
        private_mode_spec(private_modes_spec(t, ms.drop_last(), set), ms.last(), set)
    }
}

/// The `DECSCUSR` style for `Ps`, when `Ps` names one.
pub open spec fn decscusr_style(ps: u16) -> Option<CursorStyle> {
    if ps == 0 || ps == 1 {
        Some(CursorStyle { shape: CursorShape::Block, blinking: true })
    } else if ps == 2 {
        Some(CursorStyle { shape: CursorShape::Block, blinking: false })
    } else if ps == 3 {
        Some(CursorStyle { shape: CursorShape::Underline, blinking: true })
    } else if ps == 4 {
        Some(CursorStyle { shape: CursorShape::Underline, blinking: false })
    } else if ps == 5 {
        Some(CursorStyle { shape: CursorShape::Bar, blinking: true })
    } else if ps == 6 {
        Some(CursorStyle { shape: CursorShape::Bar, blinking: false })
    } else {
        None
    }
}

/// A printable character: resolve a pending wrap, write, and defer the
/// wrap when the write reached the right margin (the cursor is then kept
/// on the last column).
pub open spec fn print_spec(t: TermView, c: char) -> TermView {
    let g1 = if t.pending_wrap {
        t.grid.newline_spec()
    } else {
        t.grid.handle_wrap_spec()
    };
    let g2 = g1.put_char_spec(c);
    if g2.cursor.x >= g2.cols {
        TermView {
            grid: g2.set_cursor_spec((g2.cols - 1) as usize, g2.cursor.y),
            pending_wrap: true,
            ..t
        }
    } else {
        TermView { grid: g2, pending_wrap: false, ..t }
    }
}

/// A C0 control byte: LF/VT/FF, CR, BS and HT act; the rest are ignored.
pub open spec fn execute_spec(t: TermView, byte: u8) -> TermView {
    let g = t.grid;
    TermView {
        grid: if byte == 0x0a || byte == 0x0b || byte == 0x0c {
            g.newline_spec()
        } else if byte == 0x0d {
            g.carriage_return_spec()
        } else if byte == 0x08 {
            g.backspace_spec()
        } else if byte == 0x09 {
            g.tab_spec()
        } else {
            g
        },
        pending_wrap: false,
        ..t
    }
}

/// A CSI sequence without intermediates, on the grid.
pub open spec fn csi_grid_spec(g: GridView, flat: Seq<u16>, action: char) -> GridView {
    let n = param_or_spec(flat, 0, 1);
    if action == 'A' {
        g.move_cursor_spec(0, -(n as int))
    } else if action == 'B' || action == 'e' {
        g.move_cursor_spec(0, n as int)
    } else if action == 'C' || action == 'a' {
        g.move_cursor_spec(n as int, 0)
    } else if action == 'D' {
        g.move_cursor_spec(-(n as int), 0)
    } else if action == 'E' {
        g.set_cursor_spec(
            0,
            (if g.cursor.y + n <= g.rows - 1 {
                g.cursor.y + n
            } else {
                g.rows - 1
            }) as usize,
        )
    } else if action == 'F' {
        g.set_cursor_spec(
            0,
            (if n <= g.cursor.y {
                g.cursor.y - n
            } else {
                0
            }) as usize,
        )
    } else {
        csi_move_spec(g, flat, action)
    }
}

/// The absolute cursor-positioning CSI actions (`G \x60 d H f`), else
/// the editing ones.
pub open spec fn csi_move_spec(g: GridView, flat: Seq<u16>, action: char) -> GridView {
    let n = param_or_spec(flat, 0, 1);
    if action == 'G' || action == '\x60' {
        g.set_cursor_spec((n - 1) as usize, g.cursor.y)
    } else if action == 'd' {
        g.set_cursor_spec(g.cursor.x, (n - 1) as usize)
    } else if action == 'H' || action == 'f' {
        g.set_cursor_spec((param_or_spec(flat, 1, 1) - 1) as usize, (n - 1) as usize)
    } else {
        csi_edit_spec(g, flat, action)
    }
}

/// The editing and rendition CSI actions (`J K m s u L M S T`).
pub open spec fn csi_edit_spec(g: GridView, flat: Seq<u16>, action: char) -> GridView {
    let n = param_or_spec(flat, 0, 1);
    if action == 'J' {
        g.erase_in_display_spec(param_or_spec(flat, 0, 0))
    } else if action == 'K' {
        g.erase_in_line_spec(param_or_spec(flat, 0, 0))
    } else if action == 'm' {
        g.sgr_spec(flat)
    } else if action == 's' {
        g.save_cursor_spec()
    } else if action == 'u' {
        g.restore_cursor_spec()
    } else if action == 'L' {
        g.insert_lines_spec(n as nat)
    } else if action == 'M' {
        g.delete_lines_spec(n as nat)
    } else if action == 'S' {
        g.scroll_up_spec(n as nat)
    } else if action == 'T' {
        g.scroll_down_spec(n as nat)
    } else {
        csi_mode_spec(g, flat, action)
    }
}

/// `CSI r` (scroll margins, 1-based, defaulting to the whole screen) and
/// `CSI 4 h` / `CSI 4 l` (insert mode); other actions are ignored.
pub open spec fn csi_mode_spec(g: GridView, flat: Seq<u16>, action: char) -> GridView {
    if action == 'r' {
        let top = param_or_spec(flat, 0, 1) as int;
        let bottom = if 1 < flat.len() && flat[1] != 0 {
            flat[1] as int
        } else {
            g.rows as int
        };
        g.set_scroll_region_spec((top - 1) as usize, (bottom - 1) as usize).0
    } else if (action == 'h' || action == 'l') && flat.contains(4u16) {
        with_insert_mode(g, action == 'h')
    } else {
        g
    }
}

/// A CSI sequence: `?h`/`?l` private modes and ` q` cursor style when
/// intermediates are present (others ignored), else the grid action.
pub open spec fn csi_spec(t: TermView, flat: Seq<u16>, inter: Seq<u8>, action: char) -> TermView {
    if inter.len() > 0 {
        let t0 = TermView { pending_wrap: false, ..t };
        if inter == seq![0x3fu8] && (action == 'h' || action == 'l') {
            private_modes_spec(t0, flat, action == 'h')
        } else if inter == seq![0x20u8] && action == 'q' {
            match decscusr_style(param_or_spec(flat, 0, 0)) {
                Some(s) => TermView { grid: with_cursor_style(t0.grid, s), ..t0 },
                None => t0,
            }
        } else {
            t
        }
    } else {
        TermView { grid: csi_grid_spec(t.grid, flat, action), pending_wrap: false, ..t }
    }
}

/// Cursor shown, bracketed paste off, default cursor style.
#[verifier::opaque]
pub open spec fn default_modes_spec(g: GridView) -> GridView {
    with_cursor_style(
        with_bracketed_paste(with_cursor_enabled(g, true), false),
        default_cursor_style(),
    )
}

/// Default margins, origin/insert/auto-wrap modes, no mouse or focus
/// reporting, normal cursor and keypad keys.
#[verifier::opaque]
pub open spec fn default_reporting_spec(g: GridView) -> GridView {
    with_keypad_app(
        with_cursor_app(
            GridView {
                mouse_press: false,
                mouse_drag: false,
                mouse_any: false,
                mouse_sgr: false,
                focus_report: false,
                ..g.reset_margins_and_modes_spec()
            },
            false,
        ),
        false,
    )
}

/// `ESC c`, modes: main buffer, then the default modes.
pub open spec fn reset_modes_spec(g: GridView) -> GridView {
    default_reporting_spec(default_modes_spec(g.exit_alt_spec()))
}

/// `ESC c`, screen: default pen, cleared screen, cursor home.
#[verifier::opaque]
pub open spec fn reset_screen_spec(g: GridView) -> GridView {
    g.sgr_spec(seq![0u16]).clear_all_spec().set_cursor_spec(0, 0)
}

/// `ESC c`: main buffer, default modes and pen, a cleared screen with the
/// cursor home.
pub open spec fn full_reset_spec(g: GridView) -> GridView {
    reset_screen_spec(reset_modes_spec(g))
}

/// The grid side of an ESC sequence without intermediates: `M` (reverse
/// index), `7`/`8` (save/restore cursor) and `c` (full reset).
pub open spec fn esc_grid_spec(g: GridView, byte: u8) -> GridView {
    if byte == 0x4d {
        if g.cursor.y == 0 {
            g.scroll_down_spec(1)
        } else {
            g.set_cursor_spec(g.cursor.x, (g.cursor.y - 1) as usize)
        }
    } else if byte == 0x37 {
        g.save_cursor_spec()
    } else if byte == 0x38 {
        g.restore_cursor_spec()
    } else if byte == 0x63 {
        full_reset_spec(g)
    } else if byte == 0x3d {
        with_keypad_app(g, true)
    } else if byte == 0x3e {
        with_keypad_app(g, false)
    } else {
        g
    }
}

/// An ESC sequence: any ESC resolves a pending wrap; without
/// intermediates it acts on the grid, and `ESC c` also clears the title.
pub open spec fn esc_spec(t: TermView, inter: Seq<u8>, byte: u8) -> TermView {
    if inter.len() > 0 {
        TermView { pending_wrap: false, ..t }
    } else {
        TermView {
            grid: esc_grid_spec(t.grid, byte),
            pending_wrap: false,
            title: if byte == 0x63 {
                Seq::empty()
            } else {
                t.title
            },
            ..t
        }
    }
}

/// Index of the first `;` in `s` at or after `i`.
pub open spec fn semicolon_from(s: Seq<u8>, i: int) -> Option<int>
    decreases s.len() - i,
{
    if i < 0 || i >= s.len() {
        None
    } else if s[i] == 0x3b {
        Some(i)
    } else {
        semicolon_from(s, i + 1)
    }
}

/// The pieces of `rest` joined with `;`.
pub open spec fn join_semicolons(rest: Seq<Seq<u8>>) -> Seq<u8>
    decreases rest.len(),
{
    if rest.len() == 0 {
        Seq::empty()
    } else if rest.len() == 1 {
        rest[0]
    } else {
        join_semicolons(rest.drop_last()) + seq![0x3bu8] + rest.last()
    }
}

/// At most the first `max` characters of `s`.
pub open spec fn clip_title(s: Seq<char>, max: usize) -> Seq<char> {
    if s.len() <= max {
        s
    } else {
        s.subrange(0, max as int)
    }
}

/// The title for OSC number `num` with text pieces `rest`: only `0`, `1`
/// and `2` set one; the pieces are rejoined, decoded, trimmed and clipped.
pub open spec fn title_from(num: Seq<u8>, rest: Seq<Seq<u8>>, max: usize) -> Option<Seq<char>> {
    if !(num == seq![0x30u8] || num == seq![0x31u8] || num == seq![0x32u8]) {
        None
    } else if rest.len() == 0 {
        Some(Seq::empty())
    } else {
        Some(clip_title(trim_of(utf8_lossy_of(join_semicolons(rest))), max))
    }
}

/// The views of a list of byte strings.
pub open spec fn byte_views(ps: Seq<Vec<u8>>) -> Seq<Seq<u8>> {
    ps.map_values(|p: Vec<u8>| p@)
}

/// The window-title update an OSC sequence carries, if any. The
/// parameters arrive split on `;`; a single unsplit parameter is split at
/// its first `;`.
pub open spec fn osc_title_spec(ps: Seq<Seq<u8>>, max: usize) -> Option<Seq<char>> {
    if ps.len() == 0 {
        None
    } else if ps.len() == 1 {
        match semicolon_from(ps[0], 0) {
            None => None,
            Some(i) => title_from(
                ps[0].subrange(0, i),
                seq![ps[0].subrange(i + 1, ps[0].len() as int)],
                max,
            ),
        }
    } else {
        title_from(ps[0], ps.subrange(1, ps.len() as int), max)
    }
}

/// Cursor motion (`CUU`, `CUD`, `CUF`, `CUB`) outside origin mode: with
/// `n` the first parameter (1 when absent or 0), cursor-up moves to row
/// `max(y - n, 0)` and cursor-down to row `min(y + n, rows - 1)`, leaving
/// the column; cursor-forward and cursor-back keep the row and move to
/// column `min(x + n, cols - 1)` and `max(x - n, 0)` (one further left when
/// that lands on the right half of a wide character).
pub proof fn lemma_cursor_motion(t: TermView, flat: Seq<u16>)
    requires
        t.grid.wf(),
        !t.grid.origin_mode,
    ensures
        ({
            let n: int = if flat.len() > 0 && flat[0] != 0 { flat[0] as int } else { 1 };
            let g = t.grid;
            let x = g.cursor.x as int;
            let y = g.cursor.y as int;
            let up = csi_spec(t, flat, Seq::empty(), 'A').grid.cursor;
            let down = csi_spec(t, flat, Seq::empty(), 'B').grid.cursor;
            let fwd = csi_spec(t, flat, Seq::empty(), 'C').grid.cursor;
            let back = csi_spec(t, flat, Seq::empty(), 'D').grid.cursor;
            let xc = if x < g.cols - 1 { x } else { g.cols - 1 };
            let right = if x + n < g.cols - 1 { x + n } else { g.cols - 1 };
            let left = if x - n > 0 { x - n } else { 0 };
            &&& up.y == (if y - n > 0 { y - n } else { 0 })
            &&& down.y == (if y + n < g.rows - 1 { y + n } else { g.rows - 1 })
            &&& up.x <= xc && up.x >= xc - 1
            &&& down.x <= xc && down.x >= xc - 1
            &&& fwd.y == y && back.y == y
            &&& fwd.x <= right && fwd.x >= right - 1
            &&& back.x <= left && back.x >= left - 1
        }),
{
}

proof fn lemma_set_cursor_lands(g: GridView, x: usize, y: usize)
    requires
        g.wf(),
        !g.origin_mode,
    ensures
        g.set_cursor_spec(x, y).cursor.y == (if y < g.rows - 1 { y as int } else { g.rows - 1 }),
        g.set_cursor_spec(x, y).cursor.x <= (if x < g.cols - 1 { x as int } else { g.cols - 1 }),
        g.set_cursor_spec(x, y).cursor.x >= (if x < g.cols - 1 { x as int } else { g.cols - 1 }) - 1,
        x == 0 ==> g.set_cursor_spec(x, y).cursor.x == 0,
{
}

/// Absolute and line-wise cursor positioning outside origin mode, with
/// 1-based parameters (1 when absent or 0) clamped to the screen: `CUP`
/// (`H`, `f`) goes to row `p0` and column `p1`, `CHA` (`G`) to column `p0`
/// on the same row, `VPA` (`d`) to row `p0` in the same column, and `CNL` /
/// `CPL` (`E` / `F`) to the first column `p0` rows below / above. A column
/// landing on the right half of a wide character moves one left.
pub proof fn lemma_cursor_positioning(t: TermView, flat: Seq<u16>)
    requires
        t.grid.wf(),
        !t.grid.origin_mode,
    ensures
        ({
            let p0: int = if flat.len() > 0 && flat[0] != 0 { flat[0] as int } else { 1 };
            let p1: int = if flat.len() > 1 && flat[1] != 0 { flat[1] as int } else { 1 };
            let g = t.grid;
            let x = g.cursor.x as int;
            let y = g.cursor.y as int;
            let row0 = if p0 - 1 < g.rows - 1 { p0 - 1 } else { g.rows - 1 };
            let col0 = if p0 - 1 < g.cols - 1 { p0 - 1 } else { g.cols - 1 };
            let col1 = if p1 - 1 < g.cols - 1 { p1 - 1 } else { g.cols - 1 };
            let xc = if x < g.cols - 1 { x } else { g.cols - 1 };
            let cup = csi_spec(t, flat, Seq::empty(), 'H').grid.cursor;
            let hvp = csi_spec(t, flat, Seq::empty(), 'f').grid.cursor;
            let cha = csi_spec(t, flat, Seq::empty(), 'G').grid.cursor;
            let vpa = csi_spec(t, flat, Seq::empty(), 'd').grid.cursor;
            let cnl = csi_spec(t, flat, Seq::empty(), 'E').grid.cursor;
            let cpl = csi_spec(t, flat, Seq::empty(), 'F').grid.cursor;
            &&& cup.y == row0 && cup.x <= col1 && cup.x >= col1 - 1
            &&& hvp == cup
            &&& cha.y == y && cha.x <= col0 && cha.x >= col0 - 1
            &&& vpa.y == row0 && vpa.x <= xc && vpa.x >= xc - 1
            &&& cnl.x == 0 && cnl.y == (if y + p0 < g.rows - 1 { y + p0 } else { g.rows - 1 })
            &&& cpl.x == 0 && cpl.y == (if y - p0 > 0 { y - p0 } else { 0 })
        }),
{
    let g = t.grid;
    let p0: int = if flat.len() > 0 && flat[0] != 0 { flat[0] as int } else { 1 };
    let p1: int = if flat.len() > 1 && flat[1] != 0 { flat[1] as int } else { 1 };
    let y = g.cursor.y as int;
    assert(p0 == param_or_spec(flat, 0, 1) && p1 == param_or_spec(flat, 1, 1));
    lemma_set_cursor_lands(g, (p1 - 1) as usize, (p0 - 1) as usize);
    lemma_set_cursor_lands(g, (p0 - 1) as usize, g.cursor.y);
    lemma_set_cursor_lands(g, g.cursor.x, (p0 - 1) as usize);
    let dn = if y + p0 <= g.rows - 1 { y + p0 } else { g.rows - 1 };
    let upr = if p0 <= y { y - p0 } else { 0 };
    lemma_set_cursor_lands(g, 0, dn as usize);
    lemma_set_cursor_lands(g, 0, upr as usize);
}

/// `CSI n K` (erase in line) on a screen whose wide characters are whole:
/// `n` = 0 (or absent) blanks from the cursor to the end of the line, 1
/// from the start through the cursor, 2 the whole line; the blanks carry the
/// pen's background, cells more than one column from the erased span and
/// all other lines are kept, and the cursor does not move.
pub proof fn lemma_erase_line_sequence(t: TermView, flat: Seq<u16>)
    requires
        t.grid.wf(),
        crate::grid::wide::screen_wide_ok(t.grid),
    ensures
        ({
            let n: int = if flat.len() > 0 { flat[0] as int } else { 0 };
            let g = t.grid;
            let r = csi_spec(t, flat, Seq::empty(), 'K').grid;
            let x = g.cursor.x as int;
            let y = g.cursor.y as int;
            let xm = if x < g.cols - 1 { x } else { g.cols - 1 };
            let blank = CellView {
                ch: ' ',
                extra: None,
                width: 1,
                fg: g.theme.foreground,
                bg: g.pen.bg,
                bold: false,
                underline: false,
            };
            &&& r.cursor == g.cursor
            &&& r.cells.len() == g.cells.len()
            &&& forall|yy: int| 0 <= yy < r.cells.len() && yy != y ==> #[trigger] r.cells[yy] == g.cells[yy]
            &&& n == 0 ==> (forall|i: int| x <= i < g.cols ==> #[trigger] r.cells[y][i] == blank)
                && (forall|i: int| 0 <= i < x - 1 ==> #[trigger] r.cells[y][i] == g.cells[y][i])
            &&& n == 1 ==> (forall|i: int| 0 <= i <= xm ==> #[trigger] r.cells[y][i] == blank)
                && (forall|i: int| xm + 1 < i < g.cols ==> #[trigger] r.cells[y][i] == g.cells[y][i])
            &&& n == 2 ==> forall|i: int| 0 <= i < g.cols ==> #[trigger] r.cells[y][i] == blank
        }),
{
    let mode = param_or_spec(flat, 0, 0);
    crate::grid::wide::lemma_erase_in_line_cells(t.grid, mode);
    reveal(GridView::repair_wide);
}

/// The C0 controls that move the cursor: CR goes to the first column of
/// the row; BS steps one column left over a narrow character and stays at
/// the first column; HT goes to the next multiple of the tab stop (at most
/// the last column, one further left on the right half of a wide
/// character) on the same row; LF, VT and FF go to the first column of the
/// next row, or stay on the bottom margin's row (which scrolls).
pub proof fn lemma_c0_cursor_moves(t: TermView)
    requires
        t.grid.wf(),
    ensures
        ({
            let g = t.grid;
            let x = g.cursor.x as int;
            let y = g.cursor.y as int;
            let cr = execute_spec(t, 0x0d).grid.cursor;
            let bs = execute_spec(t, 0x08).grid.cursor;
            let ht = execute_spec(t, 0x09).grid.cursor;
            let stop = g.tab_stop as int;
            let next = (x / stop + 1) * stop;
            let target = if next < g.cols - 1 { next } else { g.cols - 1 };
            &&& cr.x == 0 && cr.y == y
            &&& x == 0 ==> bs == g.cursor
            &&& 0 < x <= g.cols && g.cells[y][x - 1].width == 1 ==> bs.x == x - 1 && bs.y == y
            &&& ht.y == y && ht.x <= target && ht.x >= target - 1
            &&& x < g.cols - 1 ==> target > x
            &&& forall|b: u8|
                (b == 0x0a || b == 0x0b || b == 0x0c) ==> {
                    let lf = #[trigger] execute_spec(t, b).grid.cursor;
                    &&& lf.x == 0
                    &&& y == g.bottom() ==> lf.y == y
                    &&& y != g.bottom() && y + 1 < g.rows ==> lf.y == y + 1
                }
        }),
{
    let g = t.grid;
    let x = g.cursor.x as int;
    let stop = g.tab_stop as int;
    assert((x / stop + 1) * stop > x) by (nonlinear_arith)
        requires
            stop >= 1,
            x >= 0,
    ;
    reveal(GridView::moved_row);
    let w = g.stick_to_bottom().with_cursor(0, g.cursor.y);
    assert(w.region_up_n(0) == w);
    assert(w.region_up_n(1) == w.region_up_n(0).region_up_once());
}

/// `CSI p m` with one parameter: 0 restores the theme's colors with no
/// attributes; 1, 3, 4, 7, 9 turn bold, italic, underline, inverse,
/// strikethrough on and 22, 23, 24, 27, 29 off (22 also ends dim); 30-37
/// and 40-47 pick the theme's eight base colors for the foreground and
/// background, 90-97 and 100-107 its eight bright ones, and 39 / 49 go back
/// to the theme's default foreground / background. Other attributes stay.
pub proof fn lemma_sgr_single(t: TermView, p: u16)
    ensures
        ({
            let pen = t.grid.pen;
            let th = t.grid.theme;
            let r = csi_spec(t, seq![p], Seq::empty(), 'm').grid.pen;
            &&& p == 0 ==> r.fg == th.foreground && r.bg == th.background && !r.bold && !r.dim
                && !r.italic && r.underline == UnderlineStyle::Off && !r.inverse && !r.strikethrough
                && !r.overline && r.underline_color is None
            &&& p == 1 ==> r == Pen { bold: true, ..pen }
            &&& p == 3 ==> r == Pen { italic: true, ..pen }
            &&& p == 4 ==> r == Pen { underline: UnderlineStyle::Single, ..pen }
            &&& p == 7 ==> r == Pen { inverse: true, ..pen }
            &&& p == 9 ==> r == Pen { strikethrough: true, ..pen }
            &&& p == 22 ==> r == Pen { bold: false, dim: false, ..pen }
            &&& p == 23 ==> r == Pen { italic: false, ..pen }
            &&& p == 24 ==> r == Pen { underline: UnderlineStyle::Off, ..pen }
            &&& p == 27 ==> r == Pen { inverse: false, ..pen }
            &&& p == 29 ==> r == Pen { strikethrough: false, ..pen }
            &&& 30 <= p <= 37 ==> r == Pen { fg: th.palette@[p - 30], ..pen }
            &&& 40 <= p <= 47 ==> r == Pen { bg: th.palette@[p - 40], ..pen }
            &&& 90 <= p <= 97 ==> r == Pen { fg: th.palette@[p - 90 + 8], ..pen }
            &&& 100 <= p <= 107 ==> r == Pen { bg: th.palette@[p - 100 + 8], ..pen }
            &&& p == 39 ==> r == Pen { fg: th.foreground, ..pen }
            &&& p == 49 ==> r == Pen { bg: th.background, ..pen }
        }),
{
    let g = t.grid;
    let gs = Seq::new(1, |i: int| seq![p]);
    assert(gs =~= Seq::new(seq![p].len(), |i: int| seq![seq![p][i]]));
    reveal_with_fuel(crate::grid::style::sgr_run, 2);
}

/// `CSI t ; b r` sets the scroll margins to rows `t` through `b` (1-based;
/// `t` defaults to 1, `b` to the last row) when `t < b` on the screen, and
/// homes the cursor (outside origin mode to the top-left corner); any other
/// pair leaves the margins and the cursor alone.
pub proof fn lemma_set_margins_sequence(t: TermView, flat: Seq<u16>)
    requires
        t.grid.wf(),
        !t.grid.origin_mode,
    ensures
        ({
            let g = t.grid;
            let top: int = if flat.len() > 0 && flat[0] != 0 { flat[0] as int } else { 1 };
            let bottom: int = if flat.len() > 1 && flat[1] != 0 { flat[1] as int } else { g.rows as int };
            let r = csi_spec(t, flat, Seq::empty(), 'r').grid;
            &&& top < bottom && bottom <= g.rows ==> r.scroll_top == top - 1 && r.scroll_bottom == bottom - 1
                && r.cursor.x == 0 && r.cursor.y == 0
            &&& top >= bottom ==> r.scroll_top == g.scroll_top && r.scroll_bottom == g.scroll_bottom
                && r.cursor == g.cursor
        }),
{
}

/// A title taken from an OSC sequence never exceeds the cap of `max`
/// characters, however long the sequence.
pub proof fn lemma_osc_title_bounded(ps: Seq<Seq<u8>>, max: usize)
    ensures
        osc_title_spec(ps, max) matches Some(t) ==> t.len() <= max,
{
}

/// All parameter groups of a CSI sequence, in one list.
pub fn params_flat(params: &[Vec<u16>]) -> (r: Vec<u16>)
    ensures
        r@ == flat_params(params@),
{
    let mut out: Vec<u16> = Vec::new();
    let mut i: usize = 0;
    while i < params.len()
        invariant
            i <= params@.len(),
            out@ == flat_params(params@.subrange(0, i as int)),
        decreases params@.len() - i,
    {
        let group = &params[i];
        let ghost before = out@;
        let mut j: usize = 0;
        while j < group.len()
            invariant
                j <= group@.len(),
                out@ == before + group@.subrange(0, j as int),
            decreases group@.len() - j,
        {
            out.push(group[j]);
            j += 1;
            assert(out@ =~= before + group@.subrange(0, j as int));
        }
        assert(group@.subrange(0, group@.len() as int) =~= group@);
        assert(params@.subrange(0, i + 1).drop_last() =~= params@.subrange(0, i as int));
        i += 1;
    }
    assert(params@.subrange(0, params@.len() as int) =~= params@);
    out
}

/// Parameter `idx`, with `0` or a missing value read as `default`.
pub fn param_or(flat: &[u16], idx: usize, default: u16) -> (r: u16)
    ensures
        r == param_or_spec(flat@, idx as int, default),
{
    if idx < flat.len() && flat[idx] != 0 {
        flat[idx]
    } else {
        default
    }
}

/// The number of the OSC sequence and its text pieces.
fn osc_parts(params: &[Vec<u8>]) -> (r: Option<(Vec<u8>, Vec<Vec<u8>>)>)
    requires
        params@.len() > 0,
    ensures
        params@.len() == 1 ==> match semicolon_from(params@[0]@, 0) {
            None => r is None,
            Some(i) => (r matches Some((num, rest)) && num@ == params@[0]@.subrange(0, i)
                && byte_views(rest@) == seq![params@[0]@.subrange(i + 1, params@[0]@.len() as int)]),
        },
        params@.len() > 1 ==> (r matches Some((num, rest)) && num@ == params@[0]@ && byte_views(
            rest@,
        ) == byte_views(params@).subrange(1, params@.len() as int)),
{
    if params.len() == 1 {
        let single = &params[0];
        let mut i: usize = 0;
        while i < single.len()
            invariant
                i <= single@.len(),
                params@.len() == 1,
                single@ == params@[0]@,
                semicolon_from(single@, 0) == semicolon_from(single@, i as int),
            decreases single@.len() - i,
        {
            if single[i] == 0x3b {
                let num = slice_bytes(single.as_slice(), 0, i);
                let tail = slice_bytes(single.as_slice(), i + 1, single.len());
                let mut rest: Vec<Vec<u8>> = Vec::new();
                rest.push(tail);
                assert(byte_views(rest@) =~= seq![single@.subrange(i + 1, single@.len() as int)]);
                return Some((num, rest));
            }
            i += 1;
        }
        None
    } else {
        let num = slice_bytes(params[0].as_slice(), 0, params[0].len());
        assert(num@ =~= params@[0]@);
        let mut rest: Vec<Vec<u8>> = Vec::new();
        let mut k: usize = 1;
        while k < params.len()
            invariant
                1 <= k <= params@.len(),
                rest@.len() == k - 1,
                byte_views(rest@) =~= byte_views(params@).subrange(1, k as int),
            decreases params@.len() - k,
        {
            let ghost prev = rest@;
            let p = slice_bytes(params[k].as_slice(), 0, params[k].len());
            rest.push(p);
            assert(p@ =~= params@[k as int]@);
            assert forall|j: int| 0 <= j < rest@.len() implies #[trigger] byte_views(rest@)[j]
                == byte_views(params@)[j + 1] by {
                if j < prev.len() {
                    assert(rest@[j] == prev[j]);
                    assert(byte_views(prev)[j] == byte_views(params@).subrange(1, k as int)[j]);
                } else {
                    assert(rest@[j] == p);
                }
            }
            assert(byte_views(rest@) =~= byte_views(params@).subrange(1, k + 1));
            k += 1;
        }
        Some((num, rest))
    }
}

/// The bytes `s[from..to]`.
fn slice_bytes(s: &[u8], from: usize, to: usize) -> (r: Vec<u8>)
    requires
        from <= to <= s@.len(),
    ensures
        r@ == s@.subrange(from as int, to as int),
{
    let mut out: Vec<u8> = Vec::new();
    let mut i = from;
    while i < to
        invariant
            from <= i <= to <= s@.len(),
            out@ == s@.subrange(from as int, i as int),
        decreases to - i,
    {
        out.push(s[i]);
        i += 1;
        assert(out@ =~= s@.subrange(from as int, i as int));
    }
    out
}

/// The pieces joined with `;`.
fn join_pieces(rest: &[Vec<u8>]) -> (r: Vec<u8>)
    ensures
        r@ == join_semicolons(byte_views(rest@)),
{
    let mut out: Vec<u8> = Vec::new();
    let mut i: usize = 0;
    while i < rest.len()
        invariant
            i <= rest@.len(),
            out@ == join_semicolons(byte_views(rest@).subrange(0, i as int)),
        decreases rest@.len() - i,
    {
        let ghost before = out@;
        if i > 0 {
            out.push(0x3b);
        }
        let piece = &rest[i];
        let mut j: usize = 0;
        while j < piece.len()
            invariant
                j <= piece@.len(),
                i > 0 ==> out@ == before + seq![0x3bu8] + piece@.subrange(0, j as int),
                i == 0 ==> out@ == before + piece@.subrange(0, j as int),
            decreases piece@.len() - j,
        {
            out.push(piece[j]);
            j += 1;
            assert(i > 0 ==> out@ =~= before + seq![0x3bu8] + piece@.subrange(0, j as int));
            assert(i == 0 ==> out@ =~= before + piece@.subrange(0, j as int));
        }
        let ghost pre = byte_views(rest@).subrange(0, i + 1);
        assert(piece@.subrange(0, piece@.len() as int) =~= piece@);
        assert(pre.drop_last() =~= byte_views(rest@).subrange(0, i as int));
        assert(pre.last() == piece@);
        if i == 0 {
            assert(before =~= Seq::<u8>::empty());
            assert(out@ =~= join_semicolons(pre));
        }
        i += 1;
    }
    assert(byte_views(rest@).subrange(0, rest@.len() as int) =~= byte_views(rest@));
    out
}

/// Extract an `OSC 0/1/2` window-title update from the split parameters,
/// clipped to the default [`MAX_TITLE_CHARS`].
pub fn osc_title(params: &[Vec<u8>]) -> (r: Option<String>)
    ensures
        match r {
            Some(s) => osc_title_spec(byte_views(params@), MAX_TITLE_CHARS) == Some(s@),
            None => osc_title_spec(byte_views(params@), MAX_TITLE_CHARS) is None,
        },
{
    osc_title_capped(params, MAX_TITLE_CHARS)
}

/// The title the shell set, from its decoded and trimmed text: the first
/// `max` characters.
pub fn clip_title_text(trimmed: &str, max: usize) -> (r: String)
    ensures
        r@ == clip_title(trimmed@, max),
{
    let cs = chars_of(trimmed);
    let keep = if cs.len() <= max {
        cs.len()
    } else {
        max
    };
    let mut clipped = String::new();
    let mut k: usize = 0;
    while k < keep
        invariant
            k <= keep <= cs@.len(),
            cs@ == trimmed@,
            clipped@ == cs@.subrange(0, k as int),
        decreases keep - k,
    {
        push_char(&mut clipped, cs[k]);
        k += 1;
        assert(clipped@ =~= cs@.subrange(0, k as int));
    }
    proof {
        if cs@.len() <= max {
            assert(cs@.subrange(0, keep as int) =~= cs@);
        }
    }
    clipped
}

/// Extract an `OSC 0/1/2` window-title update from the split parameters,
/// clipped to `max` characters.
pub fn osc_title_capped(params: &[Vec<u8>], max: usize) -> (r: Option<String>)
    ensures
        match r {
            Some(s) => osc_title_spec(byte_views(params@), max) == Some(s@),
            None => osc_title_spec(byte_views(params@), max) is None,
        },
{
    if params.len() == 0 {
        return None;
    }
    let parts = osc_parts(params);
    assert(byte_views(params@)[0] == params@[0]@);
    assert(params@.len() > 1 ==> byte_views(params@).subrange(1, params@.len() as int)
        =~= byte_views(params@).subrange(1, byte_views(params@).len() as int));
    match parts {
        None => None,
        Some((num, rest)) => {
            let is_title = num.len() == 1 && (num[0] == 0x30 || num[0] == 0x31 || num[0] == 0x32);
            assert(is_title <==> (num@ == seq![0x30u8] || num@ == seq![0x31u8] || num@ == seq![
                0x32u8,
            ])) by {
                if num@.len() == 1 {
                    assert(num@ == seq![num@[0]]);
                }
            }
            if !is_title {
                return None;
            }
            if rest.len() == 0 {
                return Some(String::new());
            }
            let bytes = join_pieces(rest.as_slice());
            let decoded = utf8_lossy(bytes.as_slice());
            let trimmed = trim_str(decoded.as_str());
            Some(clip_title_text(trimmed, max))
        },
    }
}

impl Terminal {
    /// Well-formedness: the grid's, and a title within the cap.
    pub open spec fn inv(&self) -> bool {
        self@.grid.wf() && self@.title.len() <= self@.max_title_chars
    }

    /// A terminal over a fresh `cols x rows` grid in `theme`'s colors.
    pub fn new(cols: usize, rows: usize, theme: Theme) -> (t: Self)
        ensures
            t.inv(),
            t@.grid == initial_view(
                cols,
                rows,
                theme,
                TerminalConfig {
                    scrollback_lines: 10000,
                    min_dim: 1,
                    max_dim: 1024,
                    tab_stop: 8,
                    max_title_chars: 256,
                },
                default_cursor_style(),
            ),
            !t@.pending_wrap,
            t@.title == Seq::<char>::empty(),
            t@.max_title_chars == MAX_TITLE_CHARS,
    {
        Terminal {
            grid: Grid::new(cols, rows, theme),
            pending_wrap: false,
            title: String::new(),
            max_title_chars: MAX_TITLE_CHARS,
        }
    }

    /// A terminal over a fresh grid tuned by `config` (dimension clamps,
    /// scrollback, tab stop) with cursor style `style`, storing shell
    /// titles of at most `config.max_title_chars` characters.
    pub fn new_with_config(
        cols: usize,
        rows: usize,
        theme: Theme,
        config: &TerminalConfig,
        style: CursorStyle,
    ) -> (t: Self)
        ensures
            t.inv(),
            t@.grid == initial_view(cols, rows, theme, *config, style),
            !t@.pending_wrap,
            t@.title == Seq::<char>::empty(),
            t@.max_title_chars == config.max_title_chars,
    {
        Terminal {
            grid: Grid::new_with_config(cols, rows, theme, config, style),
            pending_wrap: false,
            title: String::new(),
            max_title_chars: config.max_title_chars,
        }
    }

    /// The cap on the stored shell title (chars).
    pub fn max_title_chars(&self) -> (r: usize)
        ensures
            r == self@.max_title_chars,
    {
        self.max_title_chars
    }

    /// Last `OSC 0/1/2` title reported by the shell, or empty.
    pub fn title(&self) -> (r: &str)
        ensures
            r@ == self@.title,
    {
        self.title.as_str()
    }

    pub fn theme(&self) -> (r: Theme)
        ensures
            r == self@.grid.theme,
    {
        self.grid.theme()
    }

    pub fn grid(&self) -> (r: &Grid)
        ensures
            r@ == self@.grid,
    {
        &self.grid
    }

    pub fn cols(&self) -> (r: usize)
        ensures
            r == self@.grid.cols,
    {
        self.grid.cols()
    }

    pub fn rows(&self) -> (r: usize)
        ensures
            r == self@.grid.rows,
    {
        self.grid.rows()
    }

    pub fn cursor_visible(&self) -> (r: bool)
        ensures
            r == self@.grid.cursor_enabled,
    {
        self.grid.cursor_enabled()
    }

    pub fn cursor_style(&self) -> (r: CursorStyle)
        ensures
            r == self@.grid.cursor_style,
    {
        self.grid.cursor_style()
    }

    pub fn bracketed_paste(&self) -> (r: bool)
        ensures
            r == self@.grid.bracketed_paste,
    {
        self.grid.bracketed_paste()
    }

    pub fn is_alt(&self) -> (r: bool)
        ensures
            r == self@.grid.in_alt,
    {
        self.grid.is_alt()
    }

    /// Resize the grid; a pending wrap is dropped.
    pub fn resize(&mut self, cols: usize, rows: usize)
        requires
            old(self).inv(),
        ensures
            final(self).inv(),
            final(self)@.grid === old(self)@.grid.resize_spec(cols, rows),
            !final(self)@.pending_wrap,
            final(self)@.title == old(self)@.title,
    {
        self.grid.resize(cols, rows);
        self.pending_wrap = false;
    }

    pub fn scroll_offset(&self) -> (r: usize)
        requires
            self.inv(),
        ensures
            r == self@.grid.offset(),
    {
        self.grid.scroll_offset()
    }

    /// Scroll the view by `delta` lines into history (positive) or back
    /// toward the live screen; a change drops a pending wrap.
    pub fn scroll_by(&mut self, delta: isize) -> (changed: bool)
        requires
            old(self).inv(),
        ensures
            final(self).inv(),
            (final(self)@.grid, changed) === old(self)@.grid.scroll_by_spec(delta as int),
            final(self)@.pending_wrap == (old(self)@.pending_wrap && !changed),
            final(self)@.title == old(self)@.title,
    {
        let changed = self.grid.scroll_by(delta);
        if changed {
            self.pending_wrap = false;
        }
        changed
    }

    pub fn scroll_to_top(&mut self) -> (changed: bool)
        requires
            old(self).inv(),
        ensures
            final(self).inv(),
            (final(self)@.grid, changed) === old(self)@.grid.scroll_by_spec(
                (old(self)@.grid.scrollback.len() as isize) as int,
            ),
            final(self)@.pending_wrap == old(self)@.pending_wrap,
            final(self)@.title == old(self)@.title,
    {
        self.grid.scroll_to_top()
    }

    pub fn scroll_to_bottom(&mut self) -> (changed: bool)
        requires
            old(self).inv(),
        ensures
            final(self).inv(),
            (final(self)@.grid, changed) === (if old(self)@.grid.scroll_offset == 0 {
                (old(self)@.grid, false)
            } else {
                ((GridView { scroll_offset: 0, ..old(self)@.grid }).bump_view(), true)
            }),
            final(self)@.pending_wrap == old(self)@.pending_wrap,
            final(self)@.title == old(self)@.title,
    {
        self.grid.scroll_to_bottom()
    }

    /// Scroll the view to `offset` lines into history; a change drops a
    /// pending wrap.
    pub fn scroll_to_offset(&mut self, offset: usize) -> (changed: bool)
        requires
            old(self).inv(),
        ensures
            final(self).inv(),
            (final(self)@.grid, changed) === old(self)@.grid.scroll_to_offset_spec(offset),
            final(self)@.pending_wrap == (old(self)@.pending_wrap && !changed),
            final(self)@.title == old(self)@.title,
    {
        let changed = self.grid.scroll_to_offset(offset);
        if changed {
            self.pending_wrap = false;
        }
        changed
    }

    /// `DECSET`/`DECRST` of one private mode: 25 cursor, 2004 bracketed
    /// paste, 47/1047 alternate screen, 1048 cursor save, 1049 both.
    fn set_private_mode(&mut self, mode: u16, set: bool)
        requires
            old(self).inv(),
        ensures
            final(self).inv(),
            final(self)@ === private_mode_spec(old(self)@, mode, set),
    {
        proof {
            reveal(private_mode_spec);
        }
        if mode == 25 {
            self.grid.set_cursor_enabled(set);
        } else if mode == 2004 {
            self.grid.set_bracketed_paste(set);
        } else if mode == 47 || mode == 1047 {
            if set {
                self.grid.enter_alt(false);
            } else {
                self.grid.exit_alt();
            }
            self.pending_wrap = false;
        } else if mode == 1048 {
            if set {
                self.grid.save_cursor();
            } else {
                self.grid.restore_cursor();
            }
        } else if mode == 1049 {
            if set {
                self.grid.save_cursor();
                self.grid.enter_alt(true);
            } else {
                self.grid.exit_alt();
                self.grid.restore_cursor();
            }
            self.pending_wrap = false;
        } else {
            flag_mode(&mut self.grid, mode, set);
        }
    }

    /// `DECSCUSR`: the cursor style named by `ps`; unknown values are
    /// ignored.
    fn set_cursor_style(&mut self, ps: u16)
        requires
            old(self).inv(),
        ensures
            final(self).inv(),
            final(self)@ === (match decscusr_style(ps) {
                Some(st) => TermView { grid: with_cursor_style(old(self)@.grid, st), ..old(self)@ },
                None => old(self)@,
            }),
    {
        let style = if ps == 0 || ps == 1 {
            CursorStyle { shape: CursorShape::Block, blinking: true }
        } else if ps == 2 {
            CursorStyle { shape: CursorShape::Block, blinking: false }
        } else if ps == 3 {
            CursorStyle { shape: CursorShape::Underline, blinking: true }
        } else if ps == 4 {
            CursorStyle { shape: CursorShape::Underline, blinking: false }
        } else if ps == 5 {
            CursorStyle { shape: CursorShape::Bar, blinking: true }
        } else if ps == 6 {
            CursorStyle { shape: CursorShape::Bar, blinking: false }
        } else {
            return ;
        };
        self.grid.set_cursor_style(style);
    }

    /// The private modes `ms`, in order.
    fn apply_private_modes(&mut self, ms: &[u16], set: bool)
        requires
            old(self).inv(),
        ensures
            final(self).inv(),
            final(self)@ === private_modes_spec(old(self)@, ms@, set),
    {
        let ghost t0 = self@;
        let mut i: usize = 0;
        while i < ms.len()
            invariant
                i <= ms@.len(),
                self.inv(),
                self@ === private_modes_spec(t0, ms@.subrange(0, i as int), set),
            decreases ms@.len() - i,
        {
            assert(ms@.subrange(0, i + 1).drop_last() =~= ms@.subrange(0, i as int));
            self.set_private_mode(ms[i], set);
            i += 1;
        }
        assert(ms@.subrange(0, ms@.len() as int) =~= ms@);
    }

    /// A printable character (see [`print_spec`]). The cursor always stays
    /// on screen: a write that reaches the right margin leaves the wrap
    /// pending instead.
    pub fn print(&mut self, c: char)
        requires
            old(self).inv(),
        ensures
            final(self).inv(),
            final(self)@ === print_spec(old(self)@, c),
            final(self)@.grid.cursor.x < final(self)@.grid.cols,
    {
        if self.pending_wrap {
            self.grid.newline();
            self.pending_wrap = false;
        } else {
            self.grid.handle_wrap_if_needed();
        }
        self.grid.put_char(c);
        let cur = self.grid.cursor();
        let cols = self.grid.cols();
        if cur.x >= cols {
            self.pending_wrap = true;
            self.grid.set_cursor(cols - 1, cur.y);
        }
    }

    /// A C0 control byte (see [`execute_spec`]).
    pub fn execute(&mut self, byte: u8)
        requires
            old(self).inv(),
        ensures
            final(self).inv(),
            final(self)@ === execute_spec(old(self)@, byte),
    {
        self.pending_wrap = false;
        if byte == 0x0a || byte == 0x0b || byte == 0x0c {
            self.grid.newline();
        } else if byte == 0x0d {
            self.grid.carriage_return();
        } else if byte == 0x08 {
            self.grid.backspace();
        } else if byte == 0x09 {
            self.grid.tab();
        }
    }

    /// A CSI sequence with its parameter groups (see [`csi_spec`]).
    #[verifier::spinoff_prover]
    pub fn csi_dispatch(&mut self, params: &[Vec<u16>], intermediates: &[u8], ignore: bool, action: char)
        requires
            old(self).inv(),
        ensures
            final(self).inv(),
            final(self)@ === csi_spec(old(self)@, flat_params(params@), intermediates@, action),
    {
        let flat = params_flat(params);
        if intermediates.len() > 0 {
            if intermediates.len() == 1 && intermediates[0] == 0x3f && (action == 'h' || action == 'l') {
                assert(intermediates@ =~= seq![0x3fu8]);
                self.pending_wrap = false;
                self.apply_private_modes(flat.as_slice(), action == 'h');
            } else if intermediates.len() == 1 && intermediates[0] == 0x20 && action == 'q' {
                assert(intermediates@ =~= seq![0x20u8]);
                self.pending_wrap = false;
                let ps = param_or(flat.as_slice(), 0, 0);
                self.set_cursor_style(ps);
            } else {
                assert(intermediates@ != seq![0x3fu8] || !(action == 'h' || action == 'l'));
                assert(intermediates@ != seq![0x20u8] || action != 'q');
            }
            return ;
        }
        self.pending_wrap = false;
        csi_grid(&mut self.grid, flat.as_slice(), action);
    }

    /// An ESC sequence (see [`esc_spec`]).
    #[verifier::spinoff_prover]
    pub fn esc_dispatch(&mut self, intermediates: &[u8], ignore: bool, byte: u8)
        requires
            old(self).inv(),
        ensures
            final(self).inv(),
            final(self)@ === esc_spec(old(self)@, intermediates@, byte),
    {
        self.pending_wrap = false;
        if intermediates.len() > 0 {
            return ;
        }
        esc_grid(&mut self.grid, byte);
        if byte == 0x63 {
            self.title = String::new();
        }
    }

    /// An OSC sequence: a window-title update replaces the stored title;
    /// anything else is ignored.
    pub fn osc_dispatch(&mut self, params: &[Vec<u8>], bell_terminated: bool)
        requires
            old(self).inv(),
        ensures
            final(self).inv(),
            final(self)@ === (TermView {
                title: match osc_title_spec(byte_views(params@), old(self)@.max_title_chars) {
                    Some(t) => t,
                    None => old(self)@.title,
                },
                ..old(self)@
            }),
    {
        proof {
            lemma_osc_title_bounded(byte_views(params@), self.max_title_chars);
        }
        match osc_title_capped(params, self.max_title_chars) {
            Some(t) => {
                self.title = t;
            },
            None => {},
        }
    }
}

/// See [`esc_grid_spec`].
fn esc_grid(grid: &mut Grid, byte: u8)
    requires
        old(grid).inv(),
    ensures
        final(grid).inv(),
        final(grid)@ === esc_grid_spec(old(grid)@, byte),
{
    if byte == 0x4d {
        let cur = grid.cursor();
        if cur.y == 0 {
            grid.scroll_down(1);
        } else {
            grid.set_cursor(cur.x, cur.y - 1);
        }
    } else if byte == 0x37 {
        grid.save_cursor();
    } else if byte == 0x38 {
        grid.restore_cursor();
    } else if byte == 0x63 {
        full_reset(grid);
    } else if byte == 0x3d {
        grid.set_keypad_app_mode(true);
    } else if byte == 0x3e {
        grid.set_keypad_app_mode(false);
    }
}

/// See [`flag_mode_spec`].
#[verifier::spinoff_prover]
fn flag_mode(grid: &mut Grid, mode: u16, set: bool)
    requires
        old(grid).inv(),
    ensures
        final(grid).inv(),
        final(grid)@ === flag_mode_spec(old(grid)@, mode, set),
{
    if mode == 1 {
        grid.set_cursor_app_mode(set);
    } else if mode == 6 {
        grid.set_origin_mode(set);
    } else if mode == 7 {
        grid.set_auto_wrap(set);
    } else {
        report_mode(grid, mode, set);
    }
}

/// See [`report_mode_spec`].
#[verifier::spinoff_prover]
fn report_mode(grid: &mut Grid, mode: u16, set: bool)
    requires
        old(grid).inv(),
    ensures
        final(grid).inv(),
        final(grid)@ === report_mode_spec(old(grid)@, mode, set),
{
    if mode == 1000 {
        grid.set_mouse_press(set);
    } else if mode == 1002 {
        grid.set_mouse_drag(set);
    } else if mode == 1003 {
        grid.set_mouse_any(set);
    } else {
        other_report_mode(grid, mode, set);
    }
}

/// See [`other_report_mode_spec`].
#[verifier::spinoff_prover]
fn other_report_mode(grid: &mut Grid, mode: u16, set: bool)
    requires
        old(grid).inv(),
    ensures
        final(grid).inv(),
        final(grid)@ === other_report_mode_spec(old(grid)@, mode, set),
{
    if mode == 1004 {
        grid.set_focus_report(set);
    } else if mode == 1006 {
        grid.set_mouse_sgr(set);
    } else if mode == 2026 {
        if set {
            grid.sync_begin();
        } else {
            grid.sync_end();
        }
    }
}

/// `ESC c` on the grid (see [`full_reset_spec`]).
fn full_reset(grid: &mut Grid)
    requires
        old(grid).inv(),
    ensures
        final(grid).inv(),
        final(grid)@ === full_reset_spec(old(grid)@),
{
    reset_modes(grid);
    reset_screen(grid);
}

/// See [`reset_modes_spec`].
fn reset_modes(grid: &mut Grid)
    requires
        old(grid).inv(),
    ensures
        final(grid).inv(),
        final(grid)@ === reset_modes_spec(old(grid)@),
{
    grid.exit_alt();
    default_modes(grid);
    default_reporting(grid);
}

/// See [`default_reporting_spec`].
#[verifier::spinoff_prover]
#[verifier::rlimit(100)]
fn default_reporting(grid: &mut Grid)
    requires
        old(grid).inv(),
    ensures
        final(grid).inv(),
        final(grid)@ === default_reporting_spec(old(grid)@),
{
    proof {
        reveal(default_reporting_spec);
    }
    grid.reset_margins_and_modes();
    grid.reset_mouse_and_focus();
    grid.set_cursor_app_mode(false);
    grid.set_keypad_app_mode(false);
}

/// See [`default_modes_spec`].
#[verifier::spinoff_prover]
#[verifier::rlimit(100)]
fn default_modes(grid: &mut Grid)
    requires
        old(grid).inv(),
    ensures
        final(grid).inv(),
        final(grid)@ === default_modes_spec(old(grid)@),
{
    proof {
        reveal(default_modes_spec);
    }
    grid.set_cursor_enabled(true);
    grid.set_bracketed_paste(false);
    grid.set_cursor_style(CursorStyle::default());
}

/// See [`reset_screen_spec`].
#[verifier::spinoff_prover]
fn reset_screen(grid: &mut Grid)
    requires
        old(grid).inv(),
    ensures
        final(grid).inv(),
        final(grid)@ === reset_screen_spec(old(grid)@),
{
    proof {
        reveal(reset_screen_spec);
    }
    let zero: Vec<u16> = vec![0u16];
    assert(zero@ =~= seq![0u16]);
    grid.sgr(zero.as_slice());
    grid.clear_all();
    grid.set_cursor(0, 0);
}

/// A CSI sequence without intermediates (see [`csi_grid_spec`]).
fn csi_grid(grid: &mut Grid, flat: &[u16], action: char)
    requires
        old(grid).inv(),
    ensures
        final(grid).inv(),
        final(grid)@ === csi_grid_spec(old(grid)@, flat@, action),
{
    let n = param_or(flat, 0, 1);
    if action == 'A' {
        grid.move_cursor(0, -(n as isize));
    } else if action == 'B' || action == 'e' {
        grid.move_cursor(0, n as isize);
    } else if action == 'C' || action == 'a' {
        grid.move_cursor(n as isize, 0);
    } else if action == 'D' {
        grid.move_cursor(-(n as isize), 0);
    } else if action == 'E' {
        let cur = grid.cursor();
        let last = grid.rows() - 1;
        let y = if (n as usize) <= last - cur.y {
            cur.y + n as usize
        } else {
            last
        };
        grid.set_cursor(0, y);
    } else if action == 'F' {
        let cur = grid.cursor();
        let y = if (n as usize) <= cur.y {
            cur.y - n as usize
        } else {
            0
        };
        grid.set_cursor(0, y);
    } else {
        csi_move(grid, flat, action);
    }
}

/// The absolute cursor-positioning CSI actions (see [`csi_move_spec`]).
fn csi_move(grid: &mut Grid, flat: &[u16], action: char)
    requires
        old(grid).inv(),
    ensures
        final(grid).inv(),
        final(grid)@ === csi_move_spec(old(grid)@, flat@, action),
{
    let n = param_or(flat, 0, 1);
    if action == 'G' || action == '\x60' {
        let cur = grid.cursor();
        grid.set_cursor((n - 1) as usize, cur.y);
    } else if action == 'd' {
        let cur = grid.cursor();
        grid.set_cursor(cur.x, (n - 1) as usize);
    } else if action == 'H' || action == 'f' {
        let col = param_or(flat, 1, 1);
        grid.set_cursor((col - 1) as usize, (n - 1) as usize);
    } else {
        csi_edit(grid, flat, action);
    }
}

/// The editing and rendition CSI actions (see [`csi_edit_spec`]).
fn csi_edit(grid: &mut Grid, flat: &[u16], action: char)
    requires
        old(grid).inv(),
    ensures
        final(grid).inv(),
        final(grid)@ === csi_edit_spec(old(grid)@, flat@, action),
{
    let n = param_or(flat, 0, 1);
    if action == 'J' {
        grid.erase_in_display(param_or(flat, 0, 0));
    } else if action == 'K' {
        grid.erase_in_line(param_or(flat, 0, 0));
    } else if action == 'm' {
        grid.sgr(flat);
    } else if action == 's' {
        grid.save_cursor();
    } else if action == 'u' {
        grid.restore_cursor();
    } else if action == 'L' {
        grid.insert_lines(n as usize);
    } else if action == 'M' {
        grid.delete_lines(n as usize);
    } else if action == 'S' {
        grid.scroll_up(n as usize);
    } else if action == 'T' {
        grid.scroll_down(n as usize);
    } else {
        csi_mode(grid, flat, action);
    }
}

/// See [`csi_mode_spec`].
fn csi_mode(grid: &mut Grid, flat: &[u16], action: char)
    requires
        old(grid).inv(),
    ensures
        final(grid).inv(),
        final(grid)@ === csi_mode_spec(old(grid)@, flat@, action),
{
    if action == 'r' {
        let top = param_or(flat, 0, 1);
        let rows = grid.rows();
        let bottom: usize = if 1 < flat.len() && flat[1] != 0 {
            flat[1] as usize
        } else {
            rows
        };
        let _ = grid.set_scroll_region((top - 1) as usize, bottom - 1);
    } else if action == 'h' || action == 'l' {
        let mut i: usize = 0;
        let mut found = false;
        while i < flat.len()
            invariant
                i <= flat@.len(),
                found == flat@.subrange(0, i as int).contains(4u16),
            decreases flat@.len() - i,
        {
            let ghost pre = flat@.subrange(0, i as int);
            let ghost post = flat@.subrange(0, i + 1);
            if flat[i] == 4 {
                found = true;
                assert(post[i as int] == 4u16);
            } else {
                assert(post.contains(4u16) == pre.contains(4u16)) by {
                    if post.contains(4u16) {
                        let k = choose|k: int| 0 <= k < post.len() && post[k] == 4u16;
                        assert(pre[k] == 4u16);
                    }
                    if pre.contains(4u16) {
                        let k = choose|k: int| 0 <= k < pre.len() && pre[k] == 4u16;
                        assert(post[k] == 4u16);
                    }
                }
            }
            i += 1;
        }
        assert(flat@.subrange(0, flat@.len() as int) =~= flat@);
        if found {
            grid.set_insert_mode(action == 'h');
        }
    }
}

} // verus!
