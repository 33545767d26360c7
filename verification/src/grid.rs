//! The terminal character grid: visible cells, scrollback history, the
//! alternate screen, scroll margins, cursor, pen (SGR) and mode flags.
//!
//! The grid is modelled by [`GridView`]; every mutating operation is
//! specified as a transition on that model.

mod edit;
pub mod frame;
mod modes;
pub mod style;
mod tuning;
pub mod wide;
mod write;

use std::collections::VecDeque;

use vstd::prelude::*;

use crate::theme::{Rgb, Theme};

verus! {

broadcast use vstd::std_specs::vecdeque::group_vec_dequeue_axioms;

/// One terminal cell: the first char of a grapheme cluster in `ch`, the
/// rest (combining marks, ZWJ sequences, variation selectors, flags) in
/// `extra`. `width` is `0` for the trailing placeholder of a wide char,
/// `1` for narrow and `2` for a wide lead.
#[derive(Clone, Debug, PartialEq, Eq)]
pub struct Cell {
    pub ch: char,
    pub extra: Option<String>,
    pub width: u8,
    pub fg: Rgb,
    pub bg: Rgb,
    pub bold: bool,
    pub underline: bool,
}

/// Value model of a [`Cell`].
#[verifier::ext_equal]
pub struct CellView {
    pub ch: char,
    pub extra: Option<Seq<char>>,
    pub width: u8,
    pub fg: Rgb,
    pub bg: Rgb,
    pub bold: bool,
    pub underline: bool,
}

impl View for Cell {
    type V = CellView;

    open spec fn view(&self) -> CellView {
        CellView {
            ch: self.ch,
            extra: match self.extra {
                Some(s) => Some(s@),
                None => None,
            },
            width: self.width,
            fg: self.fg,
            bg: self.bg,
            bold: self.bold,
            underline: self.underline,
        }
    }
}

/// Full cluster text of a cell (`ch` then `extra`); a continuation reads
/// as a single space.
pub open spec fn cluster_spec(c: CellView) -> Seq<char> {
    if c.width == 0 {
        seq![' ']
    } else {
        match c.extra {
            Some(e) => seq![c.ch] + e,
            None => seq![c.ch],
        }
    }
}

/// The cell that holds `text` as its cluster, keeping the other fields of
/// `c` (`text` is non-empty).
pub open spec fn with_cluster(c: CellView, text: Seq<char>) -> CellView {
    CellView {
        ch: text[0],
        extra: if text.len() > 1 {
            Some(text.skip(1))
        } else {
            None
        },
        ..c
    }
}

impl Cell {
    /// Full cluster text for shaping / copy (`ch` + `extra`).
    /// Continuations return a single space.
    pub fn cluster(&self) -> (s: String)
        ensures
            s@ == cluster_spec(self@),
    {
        if self.width == 0 {
            proof {
                reveal_strlit(" ");
                assert(" "@ =~= seq![' ']);
            }
            return crate::text::string_of(" ");
        }
        let mut s = String::new();
        crate::text::push_char(&mut s, self.ch);
        match &self.extra {
            Some(e) => {
                s.append(e.as_str());
            },
            None => {},
        }
        proof {
            reveal_strlit(" ");
            match &self.extra {
                Some(e) => assert(s@ =~= seq![self.ch] + e@),
                None => assert(s@ =~= seq![self.ch]),
            }
        }
        s
    }

    /// True for the trailing placeholder of a double-width cell.
    pub fn is_continuation(&self) -> (r: bool)
        ensures
            r == (self.width == 0),
    {
        self.width == 0
    }

    /// True for the lead half of a double-width cell.
    pub fn is_wide_lead(&self) -> (r: bool)
        ensures
            r == (self.width == 2),
    {
        self.width == 2
    }

    /// A field-for-field copy.
    pub fn copy(&self) -> (r: Cell)
        ensures
            r@ == self@,
    {
        Cell {
            ch: self.ch,
            extra: match &self.extra {
                Some(e) => Some(e.clone()),
                None => None,
            },
            width: self.width,
            fg: self.fg,
            bg: self.bg,
            bold: self.bold,
            underline: self.underline,
        }
    }
}

impl Default for Cell {
    fn default() -> (c: Self)
        ensures
            c@ == plain_cell(crate::theme::tokyo_night_fg(), crate::theme::tokyo_night_bg()),
    {
        let theme = Theme::default();
        Cell {
            ch: ' ',
            extra: None,
            width: 1,
            fg: theme.foreground,
            bg: theme.background,
            bold: false,
            underline: false,
        }
    }
}

/// A blank narrow cell with the given colors.
pub open spec fn plain_cell(fg: Rgb, bg: Rgb) -> CellView {
    CellView { ch: ' ', extra: None, width: 1, fg, bg, bold: false, underline: false }
}

#[derive(Clone, Copy, Debug, PartialEq, Eq, Structural)]
pub struct Cursor {
    pub x: usize,
    pub y: usize,
}

/// DECSCUSR cursor shape (`CSI Ps SP q`).
#[derive(Clone, Copy, Debug, PartialEq, Eq, Structural)]
pub enum CursorShape {
    Block,
    Underline,
    Bar,
}

/// DECSCUSR cursor style: shape + blink phase. `blinking == true` follows
/// the app blink timer; `false` is steady.
#[derive(Clone, Copy, Debug, PartialEq, Eq, Structural)]
pub struct CursorStyle {
    pub shape: CursorShape,
    pub blinking: bool,
}

impl Default for CursorShape {
    fn default() -> (s: Self)
        ensures
            s == CursorShape::Block,
    {
        CursorShape::Block
    }
}

impl Default for CursorStyle {
    fn default() -> (s: Self)
        ensures
            s == default_cursor_style(),
    {
        CursorStyle { shape: CursorShape::Block, blinking: true }
    }
}

pub open spec fn default_cursor_style() -> CursorStyle {
    CursorStyle { shape: CursorShape::Block, blinking: true }
}

/// Underline style selected by `SGR 4` / `4:n`.
#[derive(Clone, Copy, Debug, PartialEq, Eq, Structural)]
pub enum UnderlineStyle {
    Off,
    Single,
    Double,
    Curly,
    Dotted,
    Dashed,
}

/// Current graphic rendition applied to newly written cells.
#[derive(Clone, Copy, Debug, PartialEq, Eq, Structural)]
pub struct Pen {
    pub fg: Rgb,
    pub bg: Rgb,
    pub bold: bool,
    pub dim: bool,
    pub italic: bool,
    pub underline: UnderlineStyle,
    pub inverse: bool,
    pub strikethrough: bool,
    pub overline: bool,
    pub underline_color: Option<Rgb>,
}

/// The pen with default attributes and the given colors.
pub open spec fn plain_pen(fg: Rgb, bg: Rgb) -> Pen {
    Pen {
        fg,
        bg,
        bold: false,
        dim: false,
        italic: false,
        underline: UnderlineStyle::Off,
        inverse: false,
        strikethrough: false,
        overline: false,
        underline_color: None,
    }
}

impl Default for Pen {
    fn default() -> (p: Self)
        ensures
            p == plain_pen(crate::theme::tokyo_night_fg(), crate::theme::tokyo_night_bg()),
    {
        let theme = Theme::default();
        Pen {
            fg: theme.foreground,
            bg: theme.background,
            bold: false,
            dim: false,
            italic: false,
            underline: UnderlineStyle::Off,
            inverse: false,
            strikethrough: false,
            overline: false,
            underline_color: None,
        }
    }
}

/// Mouse reporting mode requested by the application (DECSET 1000/1002/1003).
#[derive(Clone, Copy, Debug, PartialEq, Eq, Structural)]
pub enum MouseMode {
    Off,
    Press,
    Drag,
    Any,
}

impl MouseMode {
    /// Whether pointer motion is reported in this mode (`button_down`:
    /// a button is held during the motion).
    pub fn reports_motion(self, button_down: bool) -> (r: bool)
        ensures
            r == (self == MouseMode::Any || (self == MouseMode::Drag && button_down)),
    {
        match self {
            MouseMode::Off => false,
            MouseMode::Press => false,
            MouseMode::Drag => button_down,
            MouseMode::Any => true,
        }
    }
}

/// Scrollback / dimension / tab tuning (the `[terminal]` config section).
#[derive(Clone, Copy, Debug, PartialEq, Eq, Structural)]
pub struct TerminalConfig {
    pub scrollback_lines: usize,
    pub min_dim: usize,
    pub max_dim: usize,
    pub tab_stop: usize,
    pub max_title_chars: usize,
}

impl Default for TerminalConfig {
    fn default() -> (c: Self)
        ensures
            c == (TerminalConfig {
                scrollback_lines: 10000,
                min_dim: 1,
                max_dim: 1024,
                tab_stop: 8,
                max_title_chars: 256,
            }),
    {
        TerminalConfig {
            scrollback_lines: 10000,
            min_dim: 1,
            max_dim: 1024,
            tab_stop: 8,
            max_title_chars: 256,
        }
    }
}

pub struct Grid {
    cols: usize,
    rows: usize,
    theme: Theme,
    cells: Vec<Vec<Cell>>,
    scrollback: VecDeque<Vec<Cell>>,
    max_scrollback: usize,
    tab_stop: usize,
    min_dim: usize,
    max_dim: usize,
    cursor: Cursor,
    pen: Pen,
    saved_cursor: Option<Cursor>,
    saved_pen: Option<Pen>,
    /// Bumped on every change that affects what is painted.
    pub version: u64,
    /// Bumped on content changes only (not on view-only scrolling).
    pub content_version: u64,
    in_alt: bool,
    saved_main_cells: Option<Vec<Vec<Cell>>>,
    saved_main_cursor: Option<Cursor>,
    saved_main_saved_cursor: Option<Cursor>,
    saved_main_saved_pen: Option<Pen>,
    cursor_enabled: bool,
    bracketed_paste: bool,
    cursor_app: bool,
    keypad_app: bool,
    scroll_offset: usize,
    cursor_style: CursorStyle,
    saved_style: Option<CursorStyle>,
    saved_main_saved_style: Option<CursorStyle>,
    scroll_top: usize,
    scroll_bottom: usize,
    origin_mode: bool,
    insert_mode: bool,
    auto_wrap: bool,
    saved_origin: Option<bool>,
    saved_main_scroll_top: Option<usize>,
    saved_main_scroll_bottom: Option<usize>,
    saved_main_origin: Option<bool>,
    saved_main_insert: Option<bool>,
    saved_main_wrap: Option<bool>,
    saved_main_saved_origin: Option<bool>,
    mouse_press: bool,
    mouse_drag: bool,
    mouse_any: bool,
    mouse_sgr: bool,
    focus_report: bool,
    sync_depth: u32,
}

/// Value model of a [`Grid`].
#[verifier::ext_equal]
pub struct GridView {
    pub cols: usize,
    pub rows: usize,
    pub theme: Theme,
    pub cells: Seq<Seq<CellView>>,
    pub scrollback: Seq<Seq<CellView>>,
    pub max_scrollback: usize,
    pub tab_stop: usize,
    pub min_dim: usize,
    pub max_dim: usize,
    pub cursor: Cursor,
    pub pen: Pen,
    pub saved_cursor: Option<Cursor>,
    pub saved_pen: Option<Pen>,
    pub version: u64,
    pub content_version: u64,
    pub in_alt: bool,
    pub saved_main_cells: Option<Seq<Seq<CellView>>>,
    pub saved_main_cursor: Option<Cursor>,
    pub saved_main_saved_cursor: Option<Cursor>,
    pub saved_main_saved_pen: Option<Pen>,
    pub cursor_enabled: bool,
    pub bracketed_paste: bool,
    pub cursor_app: bool,
    pub keypad_app: bool,
    pub scroll_offset: usize,
    pub cursor_style: CursorStyle,
    pub saved_style: Option<CursorStyle>,
    pub saved_main_saved_style: Option<CursorStyle>,
    pub scroll_top: usize,
    pub scroll_bottom: usize,
    pub origin_mode: bool,
    pub insert_mode: bool,
    pub auto_wrap: bool,
    pub saved_origin: Option<bool>,
    pub saved_main_scroll_top: Option<usize>,
    pub saved_main_scroll_bottom: Option<usize>,
    pub saved_main_origin: Option<bool>,
    pub saved_main_insert: Option<bool>,
    pub saved_main_wrap: Option<bool>,
    pub saved_main_saved_origin: Option<bool>,
    pub mouse_press: bool,
    pub mouse_drag: bool,
    pub mouse_any: bool,
    pub mouse_sgr: bool,
    pub focus_report: bool,
    pub sync_depth: u32,
}

pub open spec fn row_view(r: Seq<Cell>) -> Seq<CellView> {
    r.map_values(|c: Cell| c@)
}

pub open spec fn rows_view(rs: Seq<Vec<Cell>>) -> Seq<Seq<CellView>> {
    rs.map_values(|r: Vec<Cell>| row_view(r@))
}

/// The successor of a wrapping `u64` counter.
pub open spec fn next_version(v: u64) -> u64 {
    if v == u64::MAX {
        0
    } else {
        (v + 1) as u64
    }
}

/// Every row of `rs` has exactly `cols` cells.
pub open spec fn rows_have_width(rs: Seq<Seq<CellView>>, cols: usize) -> bool {
    forall|i: int| 0 <= i < rs.len() ==> (#[trigger] rs[i]).len() == cols
}

pub open spec fn min_nat(a: int, b: int) -> int {
    if a <= b { a } else { b }
}

pub open spec fn max_nat(a: int, b: int) -> int {
    if a >= b { a } else { b }
}

impl View for Grid {
    type V = GridView;

    #[verifier::opaque]
    closed spec fn view(&self) -> GridView {
        GridView {
            cols: self.cols,
            rows: self.rows,
            theme: self.theme,
            cells: rows_view(self.cells@),
            scrollback: rows_view(self.scrollback@),
            max_scrollback: self.max_scrollback,
            tab_stop: self.tab_stop,
            min_dim: self.min_dim,
            max_dim: self.max_dim,
            cursor: self.cursor,
            pen: self.pen,
            saved_cursor: self.saved_cursor,
            saved_pen: self.saved_pen,
            version: self.version,
            content_version: self.content_version,
            in_alt: self.in_alt,
            saved_main_cells: match self.saved_main_cells {
                Some(m) => Some(rows_view(m@)),
                None => None,
            },
            saved_main_cursor: self.saved_main_cursor,
            saved_main_saved_cursor: self.saved_main_saved_cursor,
            saved_main_saved_pen: self.saved_main_saved_pen,
            cursor_enabled: self.cursor_enabled,
            bracketed_paste: self.bracketed_paste,
            cursor_app: self.cursor_app,
            keypad_app: self.keypad_app,
            scroll_offset: self.scroll_offset,
            cursor_style: self.cursor_style,
            saved_style: self.saved_style,
            saved_main_saved_style: self.saved_main_saved_style,
            scroll_top: self.scroll_top,
            scroll_bottom: self.scroll_bottom,
            origin_mode: self.origin_mode,
            insert_mode: self.insert_mode,
            auto_wrap: self.auto_wrap,
            saved_origin: self.saved_origin,
            saved_main_scroll_top: self.saved_main_scroll_top,
            saved_main_scroll_bottom: self.saved_main_scroll_bottom,
            saved_main_origin: self.saved_main_origin,
            saved_main_insert: self.saved_main_insert,
            saved_main_wrap: self.saved_main_wrap,
            saved_main_saved_origin: self.saved_main_saved_origin,
            mouse_press: self.mouse_press,
            mouse_drag: self.mouse_drag,
            mouse_any: self.mouse_any,
            mouse_sgr: self.mouse_sgr,
            focus_report: self.focus_report,
            sync_depth: self.sync_depth,
        }
    }
}

impl GridView {
    /// Well-formedness: the shape and range facts every grid keeps.
    pub open spec fn wf(self) -> bool {
        &&& self.cols >= 1
        &&& self.rows >= 1
        &&& self.cells.len() == self.rows
        &&& rows_have_width(self.cells, self.cols)
        &&& rows_have_width(self.scrollback, self.cols)
        &&& self.scrollback.len() <= max_nat(self.max_scrollback as int, 1)
        &&& self.scroll_offset <= self.scrollback.len()
        &&& self.cursor.x <= self.cols
        &&& self.cursor.y < self.rows
        &&& self.scroll_top <= self.scroll_bottom
        &&& self.scroll_bottom < self.rows
        &&& (self.rows > 1 ==> self.scroll_top < self.scroll_bottom)
        &&& self.tab_stop >= 1
        &&& 1 <= self.min_dim <= self.max_dim
        &&& self.in_alt <==> self.saved_main_cells is Some
        &&& (self.saved_main_cells matches Some(m) ==> m.len() == self.rows && rows_have_width(
            m,
            self.cols,
        ))
    }

    /// Content change: both counters advance.
    pub open spec fn bump(self) -> GridView {
        GridView {
            version: next_version(self.version),
            content_version: next_version(self.content_version),
            ..self
        }
    }

    /// View-only change (scrolling): only `version` advances.
    pub open spec fn bump_view(self) -> GridView {
        GridView { version: next_version(self.version), ..self }
    }

    pub open spec fn blank_cell(self) -> CellView {
        plain_cell(self.theme.foreground, self.theme.background)
    }

    /// Background-color-erase cell: blank with the pen's background.
    pub open spec fn erase_cell(self) -> CellView {
        plain_cell(self.theme.foreground, self.pen.bg)
    }

    /// Trailing placeholder for a wide lead, styled like the pen.
    pub open spec fn placeholder_cell(self) -> CellView {
        CellView {
            ch: ' ',
            extra: None,
            width: 0,
            fg: self.pen.fg,
            bg: self.pen.bg,
            bold: self.pen.bold,
            underline: self.pen.underline != UnderlineStyle::Off,
        }
    }

    pub open spec fn blank_row(self) -> Seq<CellView> {
        Seq::new(self.cols as nat, |i: int| self.blank_cell())
    }

    pub open spec fn erase_row(self) -> Seq<CellView> {
        Seq::new(self.cols as nat, |i: int| self.erase_cell())
    }

    pub open spec fn default_pen(self) -> Pen {
        plain_pen(self.theme.foreground, self.theme.background)
    }

    /// The cell at column `x` of visible row `y`.
    pub open spec fn cell_at(self, x: int, y: int) -> CellView {
        self.cells[y][x]
    }

    pub open spec fn with_cell(self, x: int, y: int, c: CellView) -> GridView {
        GridView { cells: self.cells.update(y, self.cells[y].update(x, c)), ..self }
    }

    pub open spec fn with_row(self, y: int, r: Seq<CellView>) -> GridView {
        GridView { cells: self.cells.update(y, r), ..self }
    }

    pub open spec fn stick_to_bottom(self) -> GridView {
        GridView { scroll_offset: 0, ..self }
    }

    pub open spec fn with_cursor(self, x: usize, y: usize) -> GridView {
        GridView { cursor: Cursor { x, y }, ..self }
    }
}

} // verus!

verus! {

proof fn lemma_row_view_push(s: Seq<Cell>, c: Cell)
    ensures
        row_view(s.push(c)) == row_view(s).push(c@),
{
    assert(row_view(s.push(c)) =~= row_view(s).push(c@));
}

proof fn lemma_rows_view_push(s: Seq<Vec<Cell>>, r: Vec<Cell>)
    ensures
        rows_view(s.push(r)) == rows_view(s).push(row_view(r@)),
{
    assert(rows_view(s.push(r)) =~= rows_view(s).push(row_view(r@)));
}

/// A row of `n` copies of `c`.
fn filled_row(c: &Cell, n: usize) -> (r: Vec<Cell>)
    ensures
        row_view(r@) == Seq::new(n as nat, |i: int| c@),
{
    let mut r: Vec<Cell> = Vec::with_capacity(n);
    let mut i: usize = 0;
    while i < n
        invariant
            i <= n,
            row_view(r@) == Seq::new(i as nat, |j: int| c@),
        decreases n - i,
    {
        let ghost before = r@;
        let x = c.copy();
        r.push(x);
        proof {
            lemma_row_view_push(before, x);
        }
        i += 1;
        assert(row_view(r@) =~= Seq::new(i as nat, |j: int| c@));
    }
    r
}

/// `rows` rows of `cols` copies of `c`.
fn filled_rows(c: &Cell, cols: usize, rows: usize) -> (r: Vec<Vec<Cell>>)
    ensures
        rows_view(r@) == Seq::new(rows as nat, |i: int| Seq::new(cols as nat, |j: int| c@)),
{
    let mut r: Vec<Vec<Cell>> = Vec::with_capacity(rows);
    let mut i: usize = 0;
    while i < rows
        invariant
            i <= rows,
            rows_view(r@) == Seq::new(i as nat, |k: int| Seq::new(cols as nat, |j: int| c@)),
        decreases rows - i,
    {
        let ghost before = r@;
        let x = filled_row(c, cols);
        r.push(x);
        proof {
            lemma_rows_view_push(before, x);
        }
        i += 1;
        assert(rows_view(r@) =~= Seq::new(i as nat, |k: int| Seq::new(cols as nat, |j: int| c@)));
    }
    r
}

/// A cell-for-cell copy of a row.
fn copy_row(r: &Vec<Cell>) -> (o: Vec<Cell>)
    ensures
        row_view(o@) == row_view(r@),
{
    let mut o: Vec<Cell> = Vec::with_capacity(r.len());
    let mut i: usize = 0;
    while i < r.len()
        invariant
            i <= r@.len(),
            row_view(o@) == row_view(r@.subrange(0, i as int)),
        decreases r@.len() - i,
    {
        let ghost before = o@;
        let x = r[i].copy();
        o.push(x);
        proof {
            lemma_row_view_push(before, x);
            assert(r@.subrange(0, i + 1) =~= r@.subrange(0, i as int).push(r@[i as int]));
            lemma_row_view_push(r@.subrange(0, i as int), r@[i as int]);
        }
        i += 1;
        assert(row_view(o@) =~= row_view(r@.subrange(0, i as int)));
    }
    assert(r@.subrange(0, r@.len() as int) =~= r@);
    o
}

/// The scalar fields of the model are the grid's fields.
proof fn lemma_view(g: &Grid)
    ensures
        g@.cols == g.cols,
        g@.rows == g.rows,
        g@.theme == g.theme,
        g@.pen == g.pen,
        g@.cursor == g.cursor,
        g@.max_scrollback == g.max_scrollback,
        g@.tab_stop == g.tab_stop,
        g@.min_dim == g.min_dim,
        g@.max_dim == g.max_dim,
        g@.saved_cursor == g.saved_cursor,
        g@.saved_pen == g.saved_pen,
        g@.version == g.version,
        g@.content_version == g.content_version,
        g@.in_alt == g.in_alt,
        g@.saved_main_cursor == g.saved_main_cursor,
        g@.saved_main_saved_cursor == g.saved_main_saved_cursor,
        g@.saved_main_saved_pen == g.saved_main_saved_pen,
        g@.cursor_enabled == g.cursor_enabled,
        g@.bracketed_paste == g.bracketed_paste,
        g@.cursor_app == g.cursor_app,
        g@.keypad_app == g.keypad_app,
        g@.scroll_offset == g.scroll_offset,
        g@.cursor_style == g.cursor_style,
        g@.saved_style == g.saved_style,
        g@.saved_main_saved_style == g.saved_main_saved_style,
        g@.scroll_top == g.scroll_top,
        g@.scroll_bottom == g.scroll_bottom,
        g@.origin_mode == g.origin_mode,
        g@.insert_mode == g.insert_mode,
        g@.auto_wrap == g.auto_wrap,
        g@.saved_origin == g.saved_origin,
        g@.saved_main_scroll_top == g.saved_main_scroll_top,
        g@.saved_main_scroll_bottom == g.saved_main_scroll_bottom,
        g@.saved_main_origin == g.saved_main_origin,
        g@.saved_main_insert == g.saved_main_insert,
        g@.saved_main_wrap == g.saved_main_wrap,
        g@.saved_main_saved_origin == g.saved_main_saved_origin,
        g@.mouse_press == g.mouse_press,
        g@.mouse_drag == g.mouse_drag,
        g@.mouse_any == g.mouse_any,
        g@.mouse_sgr == g.mouse_sgr,
        g@.focus_report == g.focus_report,
        g@.sync_depth == g.sync_depth,
{
    reveal(<Grid as View>::view);
}

/// The margin fields of the model are the grid's fields.
proof fn lemma_view_margins(g: &Grid)
    ensures
        g@.rows == g.rows,
        g@.scroll_top == g.scroll_top,
        g@.scroll_bottom == g.scroll_bottom,
{
    reveal(<Grid as View>::view);
}

/// The container fields of the model are the views of the grid's vectors.
proof fn lemma_view_rows(g: &Grid)
    ensures
        g@.cells == rows_view(g.cells@),
        g@.scrollback == rows_view(g.scrollback@),
        g@.in_alt == g.in_alt,
        g@.saved_main_cells == (match g.saved_main_cells {
            Some(m) => Some(rows_view(m@)),
            None => None,
        }),
{
    reveal(<Grid as View>::view);
}

/// `cur + delta` clamped into `[0, max]`.
fn clamp_offset(cur: usize, max: usize, delta: isize) -> (n: usize)
    requires
        cur <= max,
    ensures
        n == min_nat(max_nat(cur + delta, 0), max as int),
{
    if delta >= 0 {
        let d = delta as usize;
        if d >= max - cur {
            max
        } else {
            cur + d
        }
    } else {
        let d: usize = if delta == isize::MIN {
            (isize::MAX as usize) + 1
        } else {
            (-delta) as usize
        };
        if d >= cur {
            0
        } else {
            cur - d
        }
    }
}

/// The lengths of the container fields of the model.
proof fn lemma_view_lens(g: &Grid)
    ensures
        g@.cells.len() == g.cells@.len(),
        g@.scrollback.len() == g.scrollback@.len(),
        g@.scroll_offset == g.scroll_offset,
        g@.in_alt == g.in_alt,
        g@.rows == g.rows,
{
    reveal(<Grid as View>::view);
}

/// The initial model of a grid created with these parameters.
pub open spec fn initial_view(
    cols: usize,
    rows: usize,
    theme: Theme,
    cfg: TerminalConfig,
    style: CursorStyle,
) -> GridView {
    let min_dim = max_nat(cfg.min_dim as int, 1) as usize;
    let max_dim = max_nat(cfg.max_dim as int, min_dim as int) as usize;
    let c = min_nat(max_nat(cols as int, min_dim as int), max_dim as int) as usize;
    let r = min_nat(max_nat(rows as int, min_dim as int), max_dim as int) as usize;
    GridView {
        cols: c,
        rows: r,
        theme,
        cells: Seq::new(
            r as nat,
            |i: int| Seq::new(c as nat, |j: int| plain_cell(theme.foreground, theme.background)),
        ),
        scrollback: Seq::empty(),
        max_scrollback: cfg.scrollback_lines,
        tab_stop: max_nat(cfg.tab_stop as int, 1) as usize,
        min_dim,
        max_dim,
        cursor: Cursor { x: 0, y: 0 },
        pen: plain_pen(theme.foreground, theme.background),
        saved_cursor: None,
        saved_pen: None,
        version: 0,
        content_version: 0,
        in_alt: false,
        saved_main_cells: None,
        saved_main_cursor: None,
        saved_main_saved_cursor: None,
        saved_main_saved_pen: None,
        cursor_enabled: true,
        bracketed_paste: false,
        cursor_app: false,
        keypad_app: false,
        scroll_offset: 0,
        cursor_style: style,
        saved_style: None,
        saved_main_saved_style: None,
        scroll_top: 0,
        scroll_bottom: (r - 1) as usize,
        origin_mode: false,
        insert_mode: false,
        auto_wrap: true,
        saved_origin: None,
        saved_main_scroll_top: None,
        saved_main_scroll_bottom: None,
        saved_main_origin: None,
        saved_main_insert: None,
        saved_main_wrap: None,
        saved_main_saved_origin: None,
        mouse_press: false,
        mouse_drag: false,
        mouse_any: false,
        mouse_sgr: false,
        focus_report: false,
        sync_depth: 0,
    }
}

/// ASCII case-insensitive equality of a char sequence with a lowercase
/// ASCII word.
pub open spec fn eq_ignore_ascii_case_spec(a: Seq<char>, lower: Seq<char>) -> bool {
    crate::text::ascii_lower_seq(a) == lower
}

/// The DECSCUSR style configured by `[cursor] default_shape` (matched
/// ASCII case-insensitively; anything unknown is a block) and
/// `default_blinking`.
pub open spec fn cursor_style_from_config_spec(shape: Seq<char>, blinking: bool) -> CursorStyle {
    CursorStyle {
        shape: if eq_ignore_ascii_case_spec(shape, "underline"@) {
            CursorShape::Underline
        } else if eq_ignore_ascii_case_spec(shape, "bar"@) {
            CursorShape::Bar
        } else {
            CursorShape::Block
        },
        blinking,
    }
}

/// Cursor style from the `[cursor]` config values.
pub fn cursor_style_from_config(default_shape: &str, default_blinking: bool) -> (s: CursorStyle)
    ensures
        s == cursor_style_from_config_spec(default_shape@, default_blinking),
{
    let chars = crate::text::chars_of(default_shape);
    let lower = crate::text::ascii_lower_chars(chars.as_slice());
    let underline = crate::text::chars_of("underline");
    let bar = crate::text::chars_of("bar");
    let shape = if crate::text::chars_eq(lower.as_slice(), underline.as_slice()) {
        CursorShape::Underline
    } else if crate::text::chars_eq(lower.as_slice(), bar.as_slice()) {
        CursorShape::Bar
    } else {
        CursorShape::Block
    };
    CursorStyle { shape, blinking: default_blinking }
}

impl Grid {
    /// Well-formedness of the grid (see [`GridView::wf`]).
    pub open spec fn inv(&self) -> bool {
        self@.wf()
    }

    /// A grid with default terminal tuning and cursor style.
    pub fn new(cols: usize, rows: usize, theme: Theme) -> (g: Self)
        ensures
            g.inv(),
            g@ == initial_view(
                cols,
                rows,
                theme,
                TerminalConfig {
                    scrollback_lines: 10000,
                    min_dim: 1,
                    max_dim: 1024,
                    tab_stop: 8,
                    max_title_chars: 256,
                },
                default_cursor_style(),
            ),
    {
        let cfg = TerminalConfig::default();
        Self::new_with_config(cols, rows, theme, &cfg, CursorStyle::default())
    }

    /// A grid sized `cols x rows` (clamped into the configured dimension
    /// range), blank in `theme`'s colors.
    pub fn new_with_config(
        cols: usize,
        rows: usize,
        theme: Theme,
        terminal: &TerminalConfig,
        cursor_style: CursorStyle,
    ) -> (g: Self)
        ensures
            g.inv(),
            g@ == initial_view(cols, rows, theme, *terminal, cursor_style),
    {
        proof {
            reveal(<Grid as View>::view);
        }
        let min_dim = if terminal.min_dim >= 1 {
            terminal.min_dim
        } else {
            1
        };
        let max_dim = if terminal.max_dim >= min_dim {
            terminal.max_dim
        } else {
            min_dim
        };
        let cols = if cols < min_dim {
            min_dim
        } else if cols > max_dim {
            max_dim
        } else {
            cols
        };
        let rows = if rows < min_dim {
            min_dim
        } else if rows > max_dim {
            max_dim
        } else {
            rows
        };
        let blank = Cell {
            ch: ' ',
            extra: None,
            width: 1,
            fg: theme.foreground,
            bg: theme.background,
            bold: false,
            underline: false,
        };
        let g = Grid {
            cols,
            rows,
            theme,
            cells: filled_rows(&blank, cols, rows),
            scrollback: VecDeque::new(),
            max_scrollback: terminal.scrollback_lines,
            tab_stop: if terminal.tab_stop >= 1 {
                terminal.tab_stop
            } else {
                1
            },
            min_dim,
            max_dim,
            cursor: Cursor { x: 0, y: 0 },
            pen: Pen {
                fg: theme.foreground,
                bg: theme.background,
                bold: false,
                dim: false,
                italic: false,
                underline: UnderlineStyle::Off,
                inverse: false,
                strikethrough: false,
                overline: false,
                underline_color: None,
            },
            saved_cursor: None,
            saved_pen: None,
            version: 0,
            content_version: 0,
            in_alt: false,
            saved_main_cells: None,
            saved_main_cursor: None,
            saved_main_saved_cursor: None,
            saved_main_saved_pen: None,
            cursor_enabled: true,
            bracketed_paste: false,
            cursor_app: false,
            keypad_app: false,
            scroll_offset: 0,
            cursor_style,
            saved_style: None,
            saved_main_saved_style: None,
            scroll_top: 0,
            scroll_bottom: rows - 1,
            origin_mode: false,
            insert_mode: false,
            auto_wrap: true,
            saved_origin: None,
            saved_main_scroll_top: None,
            saved_main_scroll_bottom: None,
            saved_main_origin: None,
            saved_main_insert: None,
            saved_main_wrap: None,
            saved_main_saved_origin: None,
            mouse_press: false,
            mouse_drag: false,
            mouse_any: false,
            mouse_sgr: false,
            focus_report: false,
            sync_depth: 0,
        };
        assert(g@.scrollback =~= Seq::<Seq<CellView>>::empty());
        assert(g@ =~= initial_view(cols, rows, theme, *terminal, cursor_style));
        g
    }

    pub fn cols(&self) -> (c: usize)
        ensures
            c == self@.cols,
    {
        proof {
            reveal(<Grid as View>::view);
        }
        self.cols
    }

    pub fn rows(&self) -> (r: usize)
        ensures
            r == self@.rows,
    {
        proof {
            reveal(<Grid as View>::view);
        }
        self.rows
    }

    pub fn cursor(&self) -> (c: Cursor)
        ensures
            c == self@.cursor,
    {
        proof {
            reveal(<Grid as View>::view);
        }
        self.cursor
    }

    pub fn theme(&self) -> (t: Theme)
        ensures
            t == self@.theme,
    {
        proof {
            reveal(<Grid as View>::view);
        }
        self.theme
    }

    pub fn pen(&self) -> (p: Pen)
        ensures
            p == self@.pen,
    {
        proof {
            reveal(<Grid as View>::view);
        }
        self.pen
    }

    pub fn version(&self) -> (v: u64)
        ensures
            v == self@.version,
    {
        proof {
            reveal(<Grid as View>::view);
        }
        self.version
    }

    pub fn content_version(&self) -> (v: u64)
        ensures
            v == self@.content_version,
    {
        proof {
            reveal(<Grid as View>::view);
        }
        self.content_version
    }

    /// The cell at `(x, y)` of the visible screen, `None` outside it.
    pub fn cell(&self, x: usize, y: usize) -> (c: Option<Cell>)
        requires
            self.inv(),
        ensures
            (x < self@.cols && y < self@.rows) ==> (c is Some && c->0@ == self@.cells[y as int][x as int]),
            !(x < self@.cols && y < self@.rows) ==> c is None,
    {
        proof {
            reveal(<Grid as View>::view);
        }
        if y < self.cells.len() && x < self.cells[y].len() {
            proof {
                assert(self@.cells[y as int] == row_view(self.cells@[y as int]@));
            }
            Some(self.cells[y][x].copy())
        } else {
            proof {
                if y < self@.rows {
                    assert(self@.cells[y as int] == row_view(self.cells@[y as int]@));
                }
            }
            None
        }
    }

    /// The visible rows, top to bottom.
    pub fn visible_rows(&self) -> (r: &[Vec<Cell>])
        ensures
            rows_view(r@) == self@.cells,
    {
        proof {
            reveal(<Grid as View>::view);
        }
        self.cells.as_slice()
    }

    pub(crate) fn blank_cell(&self) -> (c: Cell)
        ensures
            c@ == self@.blank_cell(),
    {
        proof {
            reveal(<Grid as View>::view);
        }
        Cell {
            ch: ' ',
            extra: None,
            width: 1,
            fg: self.theme.foreground,
            bg: self.theme.background,
            bold: false,
            underline: false,
        }
    }

    pub(crate) fn erase_cell(&self) -> (c: Cell)
        ensures
            c@ == self@.erase_cell(),
    {
        proof {
            reveal(<Grid as View>::view);
        }
        Cell {
            ch: ' ',
            extra: None,
            width: 1,
            fg: self.theme.foreground,
            bg: self.pen.bg,
            bold: false,
            underline: false,
        }
    }

    pub(crate) fn placeholder_cell(&self) -> (c: Cell)
        ensures
            c@ == self@.placeholder_cell(),
    {
        proof {
            reveal(<Grid as View>::view);
        }
        Cell {
            ch: ' ',
            extra: None,
            width: 0,
            fg: self.pen.fg,
            bg: self.pen.bg,
            bold: self.pen.bold,
            underline: !matches!(self.pen.underline, UnderlineStyle::Off),
        }
    }

    /// A row of blank (theme-colored) cells.
    pub fn blank_row(&self) -> (r: Vec<Cell>)
        ensures
            row_view(r@) == self@.blank_row(),
    {
        proof {
            lemma_view(&*self);
        }
        let b = self.blank_cell();
        filled_row(&b, self.cols)
    }

    pub(crate) fn erase_row(&self) -> (r: Vec<Cell>)
        ensures
            row_view(r@) == self@.erase_row(),
    {
        proof {
            lemma_view(&*self);
        }
        let b = self.erase_cell();
        filled_row(&b, self.cols)
    }

    pub(crate) fn default_pen(&self) -> (p: Pen)
        ensures
            p == self@.default_pen(),
    {
        proof {
            reveal(<Grid as View>::view);
        }
        Pen {
            fg: self.theme.foreground,
            bg: self.theme.background,
            bold: false,
            dim: false,
            italic: false,
            underline: UnderlineStyle::Off,
            inverse: false,
            strikethrough: false,
            overline: false,
            underline_color: None,
        }
    }

    fn bump(&mut self)
        ensures
            final(self)@ === old(self)@.bump(),
            old(self).inv() ==> final(self).inv(),
    {
        proof {
            reveal(<Grid as View>::view);
        }
        self.version = self.version.wrapping_add(1);
        self.content_version = self.content_version.wrapping_add(1);
        proof {
            assert(final(self)@ =~= old(self)@.bump());
        }
    }

    fn bump_view(&mut self)
        ensures
            final(self)@ === old(self)@.bump_view(),
            old(self).inv() ==> final(self).inv(),
    {
        proof {
            reveal(<Grid as View>::view);
        }
        self.version = self.version.wrapping_add(1);
        proof {
            assert(final(self)@ =~= old(self)@.bump_view());
        }
    }

    /// Overwrite one visible cell.
    fn set_cell(&mut self, x: usize, y: usize, c: Cell)
        requires
            old(self).inv(),
            x < old(self)@.cols,
            y < old(self)@.rows,
        ensures
            final(self)@ === old(self)@.with_cell(x as int, y as int, c@),
            final(self).inv(),
    {
        proof {
            reveal(<Grid as View>::view);
        }
        let ghost old_cells = self.cells@;
        proof {
            assert(old(self)@.cells[y as int] == row_view(old_cells[y as int]@));
        }
        self.cells[y][x] = c;
        proof {
            let v = old(self)@;
            assert(row_view(self.cells@[y as int]@) =~= v.cells[y as int].update(x as int, c@));
            assert(rows_view(self.cells@) =~= v.cells.update(y as int, v.cells[y as int].update(x as int, c@)));
            assert(final(self)@ =~= v.with_cell(x as int, y as int, c@));
        }
    }
}

} // verus!

verus! {

proof fn lemma_rows_view_remove(s: Seq<Vec<Cell>>, i: int)
    requires
        0 <= i < s.len(),
    ensures
        rows_view(s.remove(i)) == rows_view(s).remove(i),
{
    assert(rows_view(s.remove(i)) =~= rows_view(s).remove(i));
}

proof fn lemma_rows_view_insert(s: Seq<Vec<Cell>>, i: int, r: Vec<Cell>)
    requires
        0 <= i <= s.len(),
    ensures
        rows_view(s.insert(i, r)) == rows_view(s).insert(i, row_view(r@)),
{
    assert(rows_view(s.insert(i, r)) =~= rows_view(s).insert(i, row_view(r@)));
}

proof fn lemma_rows_view_subrange(s: Seq<Vec<Cell>>, i: int, j: int)
    requires
        0 <= i <= j <= s.len(),
    ensures
        rows_view(s.subrange(i, j)) == rows_view(s).subrange(i, j),
{
    assert(rows_view(s.subrange(i, j)) =~= rows_view(s).subrange(i, j));
}

/// Keep the last `m` rows of `s` (all of them when there are fewer).
pub open spec fn keep_last(s: Seq<Seq<CellView>>, m: int) -> Seq<Seq<CellView>> {
    if s.len() <= m {
        s
    } else {
        s.subrange(s.len() - m, s.len() as int)
    }
}

impl GridView {
    /// Effective scroll margins (clamped into the screen).
    pub open spec fn top(self) -> int {
        min_nat(self.scroll_top as int, self.rows - 1)
    }

    pub open spec fn bottom(self) -> int {
        min_nat(self.scroll_bottom as int, self.rows - 1)
    }

    pub open spec fn is_full_region(self) -> bool {
        self.rows == 0 || (self.scroll_top == 0 && self.scroll_bottom + 1 >= self.rows)
    }

    /// Append `row` to the history, dropping the oldest line when the cap
    /// is reached (no history on the alternate screen).
    pub open spec fn push_history(self, row: Seq<CellView>) -> GridView {
        if self.in_alt {
            self
        } else {
            let sb = if self.scrollback.len() >= self.max_scrollback && self.scrollback.len() > 0 {
                self.scrollback.subrange(1, self.scrollback.len() as int)
            } else {
                self.scrollback
            };
            GridView { scrollback: sb.push(row), ..self }
        }
    }

    /// One full-screen scroll: the top row goes to history, a blank
    /// (pen-background) row enters at the bottom.
    pub open spec fn scroll_full_once(self) -> GridView {
        let top_row = self.cells[0];
        let s = self.push_history(top_row);
        GridView { cells: self.cells.subrange(1, self.cells.len() as int).push(self.erase_row()), ..s }
    }

    pub open spec fn scroll_full_n(self, n: nat) -> GridView
        decreases n,
    {
        if n == 0 {
            self
        } else {
            self.scroll_full_n((n - 1) as nat).scroll_full_once()
        }
    }

    /// Rotate the margin region up by one: its top row is discarded, a
    /// blank row enters at its bottom.
    /// Visible row `from` dropped and a blank (pen-background) row
    /// inserted at `to`.
    #[verifier::opaque]
    pub open spec fn moved_row(self, from: int, to: int) -> GridView {
        GridView { cells: self.cells.remove(from).insert(to, self.erase_row()), ..self }
    }

    pub open spec fn region_up_once(self) -> GridView {
        self.moved_row(self.top(), self.bottom())
    }

    pub open spec fn region_down_once(self) -> GridView {
        self.moved_row(self.bottom(), self.top())
    }

    pub open spec fn region_up_n(self, n: nat) -> GridView
        decreases n,
    {
        if n == 0 {
            self
        } else {
            self.region_up_n((n - 1) as nat).region_up_once()
        }
    }

    pub open spec fn region_down_n(self, n: nat) -> GridView
        decreases n,
    {
        if n == 0 {
            self
        } else {
            self.region_down_n((n - 1) as nat).region_down_once()
        }
    }

    /// Scroll the margin region up `n` lines (no history); a degenerate
    /// one-line region does not move.
    pub open spec fn region_up_inner(self, n: nat) -> GridView {
        if self.top() >= self.bottom() {
            self
        } else {
            self.region_up_n(n)
        }
    }

    pub open spec fn region_down_inner(self, n: nat) -> GridView {
        if self.top() >= self.bottom() {
            self
        } else {
            self.region_down_n(n)
        }
    }

    pub open spec fn scroll_up_spec(self, n: nat) -> GridView {
        let s = self.stick_to_bottom();
        if !s.is_full_region() {
            s.region_up_inner(n).bump()
        } else {
            s.scroll_full_n(n).bump()
        }
    }

    pub open spec fn scroll_down_spec(self, n: nat) -> GridView {
        let s = self.stick_to_bottom();
        if !s.is_full_region() {
            s.region_down_inner(n).bump()
        } else {
            s.full_down_n(n).bump()
        }
    }

    pub open spec fn full_down_once(self) -> GridView {
        GridView {
            cells: self.cells.subrange(0, self.cells.len() - 1).insert(0, self.erase_row()),
            ..self
        }
    }

    pub open spec fn full_down_n(self, n: nat) -> GridView
        decreases n,
    {
        if n == 0 {
            self
        } else {
            self.full_down_n((n - 1) as nat).full_down_once()
        }
    }

    /// Number of history lines actually scrolled back.
    pub open spec fn offset(self) -> int {
        min_nat(self.scroll_offset as int, self.scrollback.len() as int)
    }

    /// Line `global` of the whole buffer (`0` = oldest history line).
    pub open spec fn global_row(self, global: int) -> Seq<CellView> {
        if global < self.scrollback.len() {
            self.scrollback[global]
        } else {
            self.cells[global - self.scrollback.len()]
        }
    }

    /// Rows on screen, accounting for scrollback viewing.
    pub open spec fn view_rows_spec(self) -> Seq<Seq<CellView>> {
        if self.offset() == 0 {
            self.cells
        } else {
            Seq::new(
                self.rows as nat,
                |i: int| self.global_row(self.scrollback.len() - self.offset() + i),
            )
        }
    }

    pub open spec fn scroll_by_spec(self, delta: int) -> (GridView, bool) {
        if self.in_alt {
            (self, false)
        } else {
            let next = min_nat(max_nat(self.offset() + delta, 0), self.scrollback.len() as int);
            if next == self.scroll_offset {
                (self, false)
            } else {
                (GridView { scroll_offset: next as usize, ..self }.bump_view(), true)
            }
        }
    }

    pub open spec fn scroll_to_offset_spec(self, offset: usize) -> (GridView, bool) {
        if self.in_alt {
            (self, false)
        } else {
            let next = min_nat(offset as int, self.scrollback.len() as int);
            if next == self.scroll_offset {
                (self, false)
            } else {
                (GridView { scroll_offset: next as usize, ..self }.bump_view(), true)
            }
        }
    }

    pub open spec fn clear_scrollback_spec(self) -> GridView {
        if self.scrollback.len() == 0 && self.scroll_offset == 0 {
            self
        } else {
            GridView { scrollback: Seq::empty(), scroll_offset: 0, ..self }.bump()
        }
    }

    /// The cursor moved back onto a wide lead when it rests on a
    /// continuation.
    pub open spec fn snap_cursor_to_lead(self) -> GridView {
        if self.cursor.y < self.rows && self.cursor.x < self.cols && self.cursor.x > 0
            && self.cells[self.cursor.y as int][self.cursor.x as int].width == 0 {
            self.with_cursor((self.cursor.x - 1) as usize, self.cursor.y)
        } else {
            self
        }
    }

    /// Origin-aware home: `(0, top)` in origin mode, else `(0, 0)`.
    pub open spec fn home_cursor(self) -> GridView {
        let y = if self.origin_mode {
            self.top() as usize
        } else {
            0
        };
        self.with_cursor(0, y).snap_cursor_to_lead()
    }

    pub open spec fn clamp_cursor_to_margins(self) -> GridView {
        if self.origin_mode && self.rows > 0 {
            if self.cursor.y < self.top() {
                self.with_cursor(self.cursor.x, self.top() as usize)
            } else if self.cursor.y > self.bottom() {
                self.with_cursor(self.cursor.x, self.bottom() as usize)
            } else {
                self
            }
        } else {
            self
        }
    }

    pub open spec fn set_scroll_region_spec(self, top: usize, bottom: usize) -> (GridView, bool) {
        let t = min_nat(top as int, self.rows - 1);
        let b = min_nat(bottom as int, self.rows - 1);
        if t >= b {
            (self, false)
        } else {
            (GridView { scroll_top: t as usize, scroll_bottom: b as usize, ..self }.home_cursor().bump(), true)
        }
    }

    pub open spec fn reset_scroll_region(self) -> GridView {
        GridView { scroll_top: 0, scroll_bottom: (self.rows - 1) as usize, ..self }
    }
}

} // verus!

verus! {

proof fn lemma_scroll_full_n_wf(v: GridView, n: nat)
    requires
        v.wf(),
    ensures
        v.scroll_full_n(n).wf(),
        v.scroll_full_n(n).cols == v.cols,
        v.scroll_full_n(n).rows == v.rows,
    decreases n,
{
    if n > 0 {
        lemma_scroll_full_n_wf(v, (n - 1) as nat);
    }
}

/// Drop row `from` and insert `fill` at `to` (both indices into the
/// original length).
fn move_row(cells: &mut Vec<Vec<Cell>>, from: usize, to: usize, fill: Vec<Cell>)
    requires
        from < old(cells)@.len(),
        to < old(cells)@.len(),
    ensures
        rows_view(final(cells)@) == rows_view(old(cells)@).remove(from as int).insert(
            to as int,
            row_view(fill@),
        ),
{
    let ghost c0 = cells@;
    let _ = cells.remove(from);
    proof {
        lemma_rows_view_remove(c0, from as int);
    }
    let ghost c1 = cells@;
    cells.insert(to, fill);
    proof {
        lemma_rows_view_insert(c1, to as int, fill);
    }
}

proof fn lemma_width_remove_insert(
    rs: Seq<Seq<CellView>>,
    from: int,
    to: int,
    fill: Seq<CellView>,
    cols: usize,
)
    requires
        0 <= from < rs.len(),
        0 <= to < rs.len(),
        rows_have_width(rs, cols),
        fill.len() == cols,
    ensures
        rows_have_width(rs.remove(from).insert(to, fill), cols),
        rs.remove(from).insert(to, fill).len() == rs.len(),
{
    let r = rs.remove(from).insert(to, fill);
    assert forall|i: int| 0 <= i < r.len() implies (#[trigger] r[i]).len() == cols by {
        if i < to {
            if i < from {
                assert(r[i] == rs[i]);
            } else {
                assert(r[i] == rs[i + 1]);
            }
        } else if i > to {
            if i - 1 < from {
                assert(r[i] == rs[i - 1]);
            } else {
                assert(r[i] == rs[i]);
            }
        }
    }
}

proof fn lemma_move_row_wf(v: GridView, from: int, to: int)
    requires
        v.wf(),
        0 <= from < v.rows,
        0 <= to < v.rows,
    ensures
        (GridView { cells: v.cells.remove(from).insert(to, v.erase_row()), ..v }).wf(),
{
    lemma_width_remove_insert(v.cells, from, to, v.erase_row(), v.cols);
    lemma_with_cells_wf(v, v.cells.remove(from).insert(to, v.erase_row()));
}

/// Replacing the visible rows by same-shaped rows keeps the grid
/// well-formed.
proof fn lemma_with_cells_wf(v: GridView, cells: Seq<Seq<CellView>>)
    requires
        v.wf(),
        cells.len() == v.rows,
        rows_have_width(cells, v.cols),
    ensures
        (GridView { cells, ..v }).wf(),
{
}

proof fn lemma_scroll_full_once_parts(v: GridView)
    requires
        v.wf(),
    ensures
        (GridView { cells: v.cells.subrange(1, v.cells.len() as int).push(v.erase_row()), ..v }).push_history(v.cells[0])
            == v.scroll_full_once(),
        v.scroll_full_once().wf(),
{
    let nc = v.cells.subrange(1, v.cells.len() as int).push(v.erase_row());
    assert(v.cells.remove(0) =~= v.cells.subrange(1, v.cells.len() as int));
    lemma_width_remove_insert(v.cells, 0, v.rows - 1, v.erase_row(), v.cols);
    assert(v.cells.remove(0).insert(v.rows - 1, v.erase_row()) =~= nc);
    lemma_with_cells_wf(v, nc);
    lemma_push_history_wf(GridView { cells: nc, ..v }, v.cells[0]);
    assert((GridView { cells: nc, ..v }).push_history(v.cells[0]) =~= v.scroll_full_once());
}

proof fn lemma_push_history_wf(v: GridView, row: Seq<CellView>)
    requires
        v.wf(),
        row.len() == v.cols,
    ensures
        v.push_history(row).wf(),
{
    let w = v.push_history(row);
    if !v.in_alt {
        assert(rows_have_width(w.scrollback, v.cols)) by {
            assert forall|i: int| 0 <= i < w.scrollback.len() implies (#[trigger] w.scrollback[i]).len() == v.cols by {
                if v.scrollback.len() >= v.max_scrollback && v.scrollback.len() > 0 {
                    if i < w.scrollback.len() - 1 {
                        assert(w.scrollback[i] == v.scrollback[i + 1]);
                    }
                } else {
                    if i < w.scrollback.len() - 1 {
                        assert(w.scrollback[i] == v.scrollback[i]);
                    }
                }
            }
        }
    }
}

/// `sb` with `row` appended, dropping the oldest row first when `max`
/// rows are already held.
fn push_capped(sb: &mut VecDeque<Vec<Cell>>, row: Vec<Cell>, max: usize)
    ensures
        rows_view(final(sb)@) == (if old(sb)@.len() >= max && old(sb)@.len() > 0 {
            rows_view(old(sb)@).subrange(1, old(sb)@.len() as int)
        } else {
            rows_view(old(sb)@)
        }).push(row_view(row@)),
{
    let ghost sb0 = sb@;
    if sb.len() >= max {
        let _ = sb.pop_front();
        proof {
            if sb0.len() > 0 {
                lemma_rows_view_subrange(sb0, 1, sb0.len() as int);
            }
        }
    }
    let ghost sb1 = sb@;
    sb.push_back(row);
    proof {
        lemma_rows_view_push(sb1, row);
    }
}

impl Grid {
    /// Replace the visible rows wholesale.
    fn put_cells(&mut self, cells: Vec<Vec<Cell>>)
        ensures
            final(self)@ === (GridView { cells: rows_view(cells@), ..old(self)@ }),
    {
        proof {
            reveal(<Grid as View>::view);
        }
        self.cells = cells;
        proof {
            assert(final(self)@ =~= (GridView { cells: rows_view(cells@), ..old(self)@ }));
        }
    }

    /// Take the visible rows out, leaving an empty vector behind.
    fn take_cells(&mut self) -> (c: Vec<Vec<Cell>>)
        ensures
            rows_view(c@) == old(self)@.cells,
            final(self)@ === (GridView { cells: Seq::empty(), ..old(self)@ }),
    {
        proof {
            reveal(<Grid as View>::view);
        }
        let mut c: Vec<Vec<Cell>> = Vec::new();
        std::mem::swap(&mut c, &mut self.cells);
        proof {
            assert(rows_view(Seq::<Vec<Cell>>::empty()) =~= Seq::<Seq<CellView>>::empty());
            assert(final(self)@ =~= (GridView { cells: Seq::empty(), ..old(self)@ }));
        }
        c
    }

    /// Append one row to the history with the cap rule.
    /// Replace the history wholesale.
    fn put_scrollback(&mut self, sb: VecDeque<Vec<Cell>>)
        ensures
            final(self)@ === (GridView { scrollback: rows_view(sb@), ..old(self)@ }),
    {
        proof {
            reveal(<Grid as View>::view);
        }
        self.scrollback = sb;
        proof {
            assert(final(self)@ =~= (GridView { scrollback: rows_view(sb@), ..old(self)@ }));
        }
    }

    fn take_scrollback(&mut self) -> (sb: VecDeque<Vec<Cell>>)
        ensures
            rows_view(sb@) == old(self)@.scrollback,
            final(self)@ === (GridView { scrollback: Seq::empty(), ..old(self)@ }),
    {
        proof {
            reveal(<Grid as View>::view);
        }
        let mut sb: VecDeque<Vec<Cell>> = VecDeque::new();
        std::mem::swap(&mut sb, &mut self.scrollback);
        proof {
            assert(rows_view(Seq::<Vec<Cell>>::empty()) =~= Seq::<Seq<CellView>>::empty());
            assert(final(self)@ =~= (GridView { scrollback: Seq::empty(), ..old(self)@ }));
        }
        sb
    }

    /// Append one row to the history with the cap rule.
    fn push_history(&mut self, row: Vec<Cell>)
        ensures
            final(self)@ === old(self)@.push_history(row_view(row@)),
    {
        proof {
            reveal(<Grid as View>::view);
        }
        if !self.in_alt {
            let max = self.max_scrollback;
            let mut sb = self.take_scrollback();
            push_capped(&mut sb, row, max);
            self.put_scrollback(sb);
        }
    }

    #[verifier::rlimit(40)]
    fn scroll_full_once(&mut self)
        requires
            old(self).inv(),
            old(self)@.scroll_offset == 0,
        ensures
            final(self)@ === old(self)@.scroll_full_once(),
            final(self).inv(),
    {
        proof {
            lemma_view(&*self);
        }
        let ghost v = self@;
        let fill = self.erase_row();
        let mut cells = self.take_cells();
        let ghost c0 = cells@;
        let top = cells.remove(0);
        proof {
            lemma_rows_view_remove(c0, 0);
        }
        let ghost c1 = cells@;
        cells.push(fill);
        proof {
            lemma_rows_view_push(c1, fill);
        }
        let ghost nc = v.cells.subrange(1, v.cells.len() as int).push(v.erase_row());
        proof {
            assert(rows_view(c1) =~= v.cells.subrange(1, v.cells.len() as int));
            assert(rows_view(c1.push(fill)) == nc);
        }
        self.put_cells(cells);
        let ghost mid = self@;
        proof {
            assert(mid == (GridView { cells: nc, ..v }));
            assert(row_view(top@) == v.cells[0]);
        }
        self.push_history(top);
        proof {
            lemma_scroll_full_once_parts(v);
        }
    }

    /// Drop visible row `from` and insert a blank (pen-background) row at
    /// `to`.
    #[verifier::rlimit(40)]
    fn move_row_with_fill(&mut self, from: usize, to: usize)
        requires
            old(self).inv(),
            from < old(self)@.rows,
            to < old(self)@.rows,
        ensures
            final(self)@ === old(self)@.moved_row(from as int, to as int),
            final(self)@.scroll_top == old(self)@.scroll_top,
            final(self)@.scroll_bottom == old(self)@.scroll_bottom,
            final(self)@.rows == old(self)@.rows,
            final(self)@.cols == old(self)@.cols,
            final(self)@.pen == old(self)@.pen,
            final(self)@.theme == old(self)@.theme,
            final(self).inv(),
    {
        proof {
            reveal(GridView::moved_row);
        }
        let ghost v = self@;
        let fill = self.erase_row();
        let mut cells = self.take_cells();
        move_row(&mut cells, from, to, fill);
        self.put_cells(cells);
        proof {
            assert(self@.cells == v.cells.remove(from as int).insert(to as int, v.erase_row()));
            lemma_move_row_wf(v, from as int, to as int);
            assert(final(self)@ =~= (GridView {
                cells: v.cells.remove(from as int).insert(to as int, v.erase_row()),
                ..v
            }));
        }
    }

    fn region_up_once(&mut self)
        requires
            old(self).inv(),
        ensures
            final(self)@ === old(self)@.region_up_once(),
            final(self)@.scroll_top == old(self)@.scroll_top,
            final(self)@.scroll_bottom == old(self)@.scroll_bottom,
            final(self)@.rows == old(self)@.rows,
            final(self)@.cols == old(self)@.cols,
            final(self)@.pen == old(self)@.pen,
            final(self)@.theme == old(self)@.theme,
            final(self).inv(),
    {
        proof {
            lemma_view_margins(&*self);
        }
        let top = if self.scroll_top < self.rows - 1 { self.scroll_top } else { self.rows - 1 };
        let bottom = if self.scroll_bottom < self.rows - 1 { self.scroll_bottom } else { self.rows - 1 };
        self.move_row_with_fill(top, bottom);
    }

    fn region_down_once(&mut self)
        requires
            old(self).inv(),
        ensures
            final(self)@ === old(self)@.region_down_once(),
            final(self)@.scroll_top == old(self)@.scroll_top,
            final(self)@.scroll_bottom == old(self)@.scroll_bottom,
            final(self)@.rows == old(self)@.rows,
            final(self)@.cols == old(self)@.cols,
            final(self)@.pen == old(self)@.pen,
            final(self)@.theme == old(self)@.theme,
            final(self).inv(),
    {
        proof {
            lemma_view_margins(&*self);
        }
        let top = if self.scroll_top < self.rows - 1 { self.scroll_top } else { self.rows - 1 };
        let bottom = if self.scroll_bottom < self.rows - 1 { self.scroll_bottom } else { self.rows - 1 };
        self.move_row_with_fill(bottom, top);
    }

    fn full_down_once(&mut self)
        requires
            old(self).inv(),
        ensures
            final(self)@ === old(self)@.full_down_once(),
            final(self).inv(),
    {
        proof {
            lemma_view(&*self);
        }
        let ghost v = self@;
        let fill = self.erase_row();
        let mut cells = self.take_cells();
        let last = cells.len() - 1;
        move_row(&mut cells, last, 0, fill);
        self.put_cells(cells);
        proof {
            assert(v.cells.remove(last as int) =~= v.cells.subrange(0, v.cells.len() - 1));
            lemma_width_remove_insert(v.cells, last as int, 0, v.erase_row(), v.cols);
            lemma_with_cells_wf(v, v.cells.remove(last as int).insert(0, v.erase_row()));
            assert(final(self)@ =~= v.full_down_once());
        }
    }

    pub(crate) fn scroll_region_up_inner(&mut self, n: usize)
        requires
            old(self).inv(),
        ensures
            final(self)@ === old(self)@.region_up_inner(n as nat),
            final(self).inv(),
    {
        proof {
            lemma_view(&*self);
        }
        let top = if self.scroll_top < self.rows - 1 { self.scroll_top } else { self.rows - 1 };
        let bottom = if self.scroll_bottom < self.rows - 1 { self.scroll_bottom } else { self.rows - 1 };
        if top >= bottom {
            return;
        }
        let ghost v = self@;
        let mut i: usize = 0;
        while i < n
            invariant
                i <= n,
                v.wf(),
                v.top() < v.bottom(),
                self.inv(),
                self@ === v.region_up_n(i as nat),
                self@.scroll_top == v.scroll_top,
                self@.scroll_bottom == v.scroll_bottom,
                self@.rows == v.rows,
                self@.cols == v.cols,
                self@.pen == v.pen,
                self@.theme == v.theme,
            decreases n - i,
        {
            self.region_up_once();
            i += 1;
        }
    }

    pub(crate) fn scroll_region_down_inner(&mut self, n: usize)
        requires
            old(self).inv(),
        ensures
            final(self)@ === old(self)@.region_down_inner(n as nat),
            final(self).inv(),
    {
        proof {
            lemma_view(&*self);
        }
        let top = if self.scroll_top < self.rows - 1 { self.scroll_top } else { self.rows - 1 };
        let bottom = if self.scroll_bottom < self.rows - 1 { self.scroll_bottom } else { self.rows - 1 };
        if top >= bottom {
            return;
        }
        let ghost v = self@;
        let mut i: usize = 0;
        while i < n
            invariant
                i <= n,
                v.wf(),
                v.top() < v.bottom(),
                self.inv(),
                self@ === v.region_down_n(i as nat),
                self@.scroll_top == v.scroll_top,
                self@.scroll_bottom == v.scroll_bottom,
                self@.rows == v.rows,
                self@.cols == v.cols,
                self@.pen == v.pen,
                self@.theme == v.theme,
            decreases n - i,
        {
            self.region_down_once();
            i += 1;
        }
    }

    pub(crate) fn stick_to_bottom(&mut self)
        ensures
            final(self)@ === old(self)@.stick_to_bottom(),
            old(self).inv() ==> final(self).inv(),
    {
        proof {
            reveal(<Grid as View>::view);
        }
        self.scroll_offset = 0;
        proof {
            assert(final(self)@ =~= old(self)@.stick_to_bottom());
        }
    }

    /// Scroll the margin region up `n` lines (no scrollback).
    pub fn scroll_region_up(&mut self, n: usize)
        requires
            old(self).inv(),
        ensures
            final(self)@ === old(self)@.stick_to_bottom().region_up_inner(n as nat).bump(),
            final(self).inv(),
    {
        self.stick_to_bottom();
        self.scroll_region_up_inner(n);
        self.bump();
    }

    /// Scroll the margin region down `n` lines (no scrollback).
    pub fn scroll_region_down(&mut self, n: usize)
        requires
            old(self).inv(),
        ensures
            final(self)@ === old(self)@.stick_to_bottom().region_down_inner(n as nat).bump(),
            final(self).inv(),
    {
        self.stick_to_bottom();
        self.scroll_region_down_inner(n);
        self.bump();
    }

    /// Scroll up `n` lines: the whole screen (top rows into history) when
    /// the margins span it, otherwise only the margin region.
    pub fn scroll_up(&mut self, n: usize)
        requires
            old(self).inv(),
        ensures
            final(self)@ === old(self)@.scroll_up_spec(n as nat),
            final(self).inv(),
    {
        proof {
            lemma_view(&*self);
        }
        self.stick_to_bottom();
        if !self.is_full_region() {
            self.scroll_region_up_inner(n);
            self.bump();
            return;
        }
        let ghost v = self@;
        let mut i: usize = 0;
        while i < n
            invariant
                i <= n,
                v.wf(),
                v.scroll_offset == 0,
                self.inv(),
                self@ === v.scroll_full_n(i as nat),
                self@.scroll_offset == 0,
            decreases n - i,
        {
            proof {
                lemma_scroll_full_n_wf(v, i as nat);
            }
            self.scroll_full_once();
            i += 1;
        }
        self.bump();
    }

    /// Scroll down `n` lines (blank rows enter at the top of the region).
    pub fn scroll_down(&mut self, n: usize)
        requires
            old(self).inv(),
        ensures
            final(self)@ === old(self)@.scroll_down_spec(n as nat),
            final(self).inv(),
    {
        proof {
            lemma_view(&*self);
        }
        self.stick_to_bottom();
        if !self.is_full_region() {
            self.scroll_region_down_inner(n);
            self.bump();
            return;
        }
        let ghost v = self@;
        let mut i: usize = 0;
        while i < n
            invariant
                i <= n,
                v.wf(),
                self.inv(),
                self@ === v.full_down_n(i as nat),
                self@.cols == v.cols,
                self@.rows == v.rows,
                self@.pen == v.pen,
                self@.theme == v.theme,
            decreases n - i,
        {
            self.full_down_once();
            i += 1;
        }
        self.bump();
    }

    pub fn scroll_region(&self) -> (r: (usize, usize))
        ensures
            r == (self@.scroll_top, self@.scroll_bottom),
    {
        proof {
            reveal(<Grid as View>::view);
        }
        (self.scroll_top, self.scroll_bottom)
    }

    pub fn is_full_region(&self) -> (r: bool)
        ensures
            r == self@.is_full_region(),
    {
        proof {
            reveal(<Grid as View>::view);
        }
        self.rows == 0 || (self.scroll_top == 0 && self.scroll_bottom as u128 + 1 >= self.rows as u128)
    }
}

} // verus!

verus! {

impl Grid {
    /// Width of visible cell `(x, y)`.
    fn width_at(&self, x: usize, y: usize) -> (w: u8)
        requires
            self.inv(),
            x < self@.cols,
            y < self@.rows,
        ensures
            w == self@.cells[y as int][x as int].width,
    {
        proof {
            lemma_view_rows(self);
            assert(self@.cells[y as int] == row_view(self.cells@[y as int]@));
        }
        self.cells[y][x].width
    }

    /// If the cursor sits on a wide continuation, move it back to the lead.
    pub(crate) fn snap_cursor_to_lead(&mut self)
        requires
            old(self).inv(),
        ensures
            final(self)@ === old(self)@.snap_cursor_to_lead(),
            final(self).inv(),
    {
        proof {
            lemma_view(&*self);
        }
        if self.cursor.y < self.rows && self.cursor.x < self.cols && self.cursor.x > 0 {
            if self.width_at(self.cursor.x, self.cursor.y) == 0 {
                self.set_cursor_xy(self.cursor.x - 1, self.cursor.y);
            }
        }
    }

    /// Move the cursor (no clamping).
    fn set_cursor_xy(&mut self, x: usize, y: usize)
        ensures
            final(self)@ === old(self)@.with_cursor(x, y),
            old(self).inv() && x <= old(self)@.cols && y < old(self)@.rows ==> final(self).inv(),
    {
        proof {
            reveal(<Grid as View>::view);
        }
        self.cursor = Cursor { x, y };
        proof {
            assert(final(self)@ =~= old(self)@.with_cursor(x, y));
        }
    }

    /// Origin-aware cursor home: `(0, top)` in origin mode, else `(0, 0)`.
    pub fn home_cursor(&mut self)
        requires
            old(self).inv(),
        ensures
            final(self)@ === old(self)@.home_cursor(),
            final(self).inv(),
    {
        proof {
            lemma_view(&*self);
        }
        let y = if self.origin_mode {
            if self.scroll_top < self.rows - 1 { self.scroll_top } else { self.rows - 1 }
        } else {
            0
        };
        self.set_cursor_xy(0, y);
        self.snap_cursor_to_lead();
    }

    /// Clamp the cursor into the margins while origin mode is on.
    pub fn clamp_cursor_to_margins(&mut self)
        requires
            old(self).inv(),
        ensures
            final(self)@ === old(self)@.clamp_cursor_to_margins(),
            final(self).inv(),
    {
        proof {
            lemma_view(&*self);
        }
        if self.origin_mode && self.rows > 0 {
            let max = self.rows - 1;
            let top = if self.scroll_top < max { self.scroll_top } else { max };
            let bottom = if self.scroll_bottom < max { self.scroll_bottom } else { max };
            if self.cursor.y < top {
                self.set_cursor_xy(self.cursor.x, top);
            } else if self.cursor.y > bottom {
                self.set_cursor_xy(self.cursor.x, bottom);
            }
        }
    }

    /// Set scroll margins (0-based inclusive). Returns false, leaving the
    /// region unchanged, when the request is invalid (`top >= bottom`
    /// after clamping into the screen).
    #[verifier::spinoff_prover]
    #[verifier::rlimit(50)]
    pub fn set_scroll_region(&mut self, top: usize, bottom: usize) -> (ok: bool)
        requires
            old(self).inv(),
        ensures
            (final(self)@, ok) === old(self)@.set_scroll_region_spec(top, bottom),
            final(self).inv(),
    {
        proof {
            lemma_view(&*self);
        }
        let max = self.rows - 1;
        let t = if top < max { top } else { max };
        let b = if bottom < max { bottom } else { max };
        if t >= b {
            return false;
        }
        let ghost v0 = self@;
        self.set_margins(t, b);
        let ghost v1 = self@;
        self.home_cursor();
        let ghost v2 = self@;
        self.bump();
        proof {
            assert(v1 === (GridView { scroll_top: t, scroll_bottom: b, ..v0 }));
            assert(v2 === v1.home_cursor());
            assert(self@ === v2.bump());
            assert(t as int == min_nat(top as int, v0.rows - 1));
            assert(b as int == min_nat(bottom as int, v0.rows - 1));
        }
        true
    }

    /// Overwrite both margins.
    fn set_margins(&mut self, t: usize, b: usize)
        ensures
            final(self)@ === (GridView { scroll_top: t, scroll_bottom: b, ..old(self)@ }),
            old(self).inv() && t <= b < old(self)@.rows && (old(self)@.rows > 1 ==> t < b) ==> final(self).inv(),
    {
        proof {
            reveal(<Grid as View>::view);
        }
        self.scroll_top = t;
        self.scroll_bottom = b;
        proof {
            assert(final(self)@ =~= (GridView { scroll_top: t, scroll_bottom: b, ..old(self)@ }));
        }
    }

    /// Reset margins to the full screen without moving the cursor.
    pub fn reset_scroll_region(&mut self)
        requires
            old(self).inv(),
        ensures
            final(self)@ === old(self)@.reset_scroll_region(),
            final(self).inv(),
    {
        proof {
            lemma_view(&*self);
        }
        self.set_margins(0, self.rows - 1);
    }

    /// Rows on screen, accounting for scrollback viewing: `scroll_offset
    /// == 0` is the live view; `k > 0` looks `k` lines up into history.
    pub fn view_rows(&self) -> (r: Vec<&Vec<Cell>>)
        requires
            self.inv(),
        ensures
            r@.len() == self@.view_rows_spec().len(),
            forall|i: int| 0 <= i < r@.len() ==> row_view((#[trigger] r@[i])@) == self@.view_rows_spec()[i],
    {
        proof {
            lemma_view(self);
            lemma_view_rows(self);
        }
        let sb = self.scrollback.len();
        let off = if self.scroll_offset < sb { self.scroll_offset } else { sb };
        let mut out: Vec<&Vec<Cell>> = Vec::new();
        let mut i: usize = 0;
        while i < self.rows
            invariant
                self.inv(),
                self@.cells == rows_view(self.cells@),
                self@.scrollback == rows_view(self.scrollback@),
                self@.rows == self.rows,
                sb == self@.scrollback.len(),
                off == self@.offset(),
                i <= self.rows,
                out@.len() == i,
                forall|k: int| 0 <= k < i ==> row_view((#[trigger] out@[k])@) == self@.view_rows_spec()[k],
            decreases self.rows - i,
        {
            if i < off {
                let global = sb - off + i;
                proof {
                    assert(self@.scrollback[global as int] == row_view(self.scrollback@[global as int]@));
                }
                out.push(&self.scrollback[global]);
            } else {
                proof {
                    assert(self@.cells[i - off] == row_view(self.cells@[i - off]@));
                }
                out.push(&self.cells[i - off]);
            }
            i += 1;
        }
        out
    }

    /// Number of history lines.
    pub fn scrollback_len(&self) -> (n: usize)
        ensures
            n == self@.scrollback.len(),
    {
        proof {
            lemma_view_lens(self);
        }
        self.scrollback.len()
    }

    /// Total lines in global space: scrollback + visible.
    pub fn total_lines(&self) -> (n: usize)
        ensures
            n == min_nat(self@.scrollback.len() + self@.rows, usize::MAX as int),
    {
        proof {
            lemma_view_lens(self);
        }
        self.scrollback.len().saturating_add(self.rows)
    }

    /// Borrowed cells of global line `global` (`0` = oldest history
    /// line); `None` past the last visible row.
    pub fn global_line(&self, global: usize) -> (r: Option<&[Cell]>)
        requires
            self.inv(),
        ensures
            global < self@.scrollback.len() + self@.rows ==> (r is Some && row_view(r->0@)
                == self@.global_row(global as int)),
            global >= self@.scrollback.len() + self@.rows ==> r is None,
    {
        proof {
            lemma_view(self);
            lemma_view_rows(self);
        }
        let sb = self.scrollback.len();
        if global < sb {
            proof {
                assert(self@.scrollback[global as int] == row_view(self.scrollback@[global as int]@));
            }
            Some(self.scrollback[global].as_slice())
        } else if global - sb < self.cells.len() {
            proof {
                assert(self@.cells[global - sb] == row_view(self.cells@[global - sb]@));
            }
            Some(self.cells[global - sb].as_slice())
        } else {
            None
        }
    }

    /// Owned copy of global line `global`, for Unicode-aware copy.
    pub fn global_line_cells(&self, global: usize) -> (r: Option<Vec<Cell>>)
        requires
            self.inv(),
        ensures
            global < self@.scrollback.len() + self@.rows ==> (r is Some && row_view(r->0@)
                == self@.global_row(global as int)),
            global >= self@.scrollback.len() + self@.rows ==> r is None,
    {
        match self.global_line(global) {
            Some(row) => {
                let mut out: Vec<Cell> = Vec::new();
                let mut i: usize = 0;
                while i < row.len()
                    invariant
                        i <= row@.len(),
                        row_view(out@) == row_view(row@.subrange(0, i as int)),
                    decreases row@.len() - i,
                {
                    let ghost before = out@;
                    let c = row[i].copy();
                    out.push(c);
                    proof {
                        lemma_row_view_push(before, c);
                        assert(row@.subrange(0, i + 1) =~= row@.subrange(0, i as int).push(row@[i as int]));
                        lemma_row_view_push(row@.subrange(0, i as int), row@[i as int]);
                    }
                    i += 1;
                }
                proof {
                    assert(row@.subrange(0, row@.len() as int) =~= row@);
                }
                Some(out)
            },
            None => None,
        }
    }

    /// First char of each cell of global line `global`.
    pub fn global_line_chars(&self, global: usize) -> (r: Option<Vec<char>>)
        requires
            self.inv(),
        ensures
            global < self@.scrollback.len() + self@.rows ==> (r is Some && r->0@ == self@.global_row(
                global as int,
            ).map_values(|c: CellView| c.ch)),
            global >= self@.scrollback.len() + self@.rows ==> r is None,
    {
        match self.global_line(global) {
            Some(row) => {
                let mut out: Vec<char> = Vec::new();
                let mut i: usize = 0;
                while i < row.len()
                    invariant
                        i <= row@.len(),
                        out@ == row_view(row@).subrange(0, i as int).map_values(|c: CellView| c.ch),
                    decreases row@.len() - i,
                {
                    out.push(row[i].ch);
                    i += 1;
                    proof {
                        assert(out@ =~= row_view(row@).subrange(0, i as int).map_values(|c: CellView| c.ch));
                    }
                }
                proof {
                    assert(row_view(row@).subrange(0, row@.len() as int) =~= row_view(row@));
                }
                Some(out)
            },
            None => None,
        }
    }

    /// How many history lines the view is scrolled back.
    pub fn scroll_offset(&self) -> (n: usize)
        ensures
            n == self@.offset(),
    {
        proof {
            lemma_view_lens(self);
        }
        if self.scroll_offset < self.scrollback.len() {
            self.scroll_offset
        } else {
            self.scrollback.len()
        }
    }

    fn set_scroll_offset(&mut self, off: usize)
        ensures
            final(self)@ === (GridView { scroll_offset: off, ..old(self)@ }),
            old(self).inv() && off <= old(self)@.scrollback.len() ==> final(self).inv(),
    {
        proof {
            reveal(<Grid as View>::view);
        }
        self.scroll_offset = off;
        proof {
            assert(final(self)@ =~= (GridView { scroll_offset: off, ..old(self)@ }));
        }
    }

    /// Scroll the view by `delta` lines (`> 0` = up into history). No-op
    /// on the alternate screen. Returns true when the view changed.
    #[verifier::spinoff_prover]
    #[verifier::rlimit(50)]
    pub fn scroll_by(&mut self, delta: isize) -> (changed: bool)
        requires
            old(self).inv(),
        ensures
            (final(self)@, changed) === old(self)@.scroll_by_spec(delta as int),
            final(self).inv(),
    {
        proof {
            lemma_view(&*self);
            lemma_view_lens(&*self);
        }
        if self.in_alt {
            return false;
        }
        let max = self.scrollback.len();
        let cur = if self.scroll_offset < max { self.scroll_offset } else { max };
        let next = clamp_offset(cur, max, delta);
        if next == self.scroll_offset {
            return false;
        }
        let ghost v0 = self@;
        self.set_scroll_offset(next);
        let ghost v1 = self@;
        self.bump_view();
        proof {
            assert(v1 === (GridView { scroll_offset: next, ..v0 }));
            assert(self@ === v1.bump_view());
        }
        true
    }

    /// Scroll to the oldest history line. No-op on the alternate screen.
    pub fn scroll_to_top(&mut self) -> (changed: bool)
        requires
            old(self).inv(),
        ensures
            (final(self)@, changed) === old(self)@.scroll_by_spec(
                (old(self)@.scrollback.len() as isize) as int,
            ),
            final(self).inv(),
    {
        proof {
            lemma_view_lens(&*self);
        }
        let n = self.scrollback.len();
        self.scroll_by(n as isize)
    }

    /// Return to the live view. Returns true when the view changed.
    pub fn scroll_to_bottom(&mut self) -> (changed: bool)
        requires
            old(self).inv(),
        ensures
            (final(self)@, changed) === (if old(self)@.scroll_offset == 0 {
                (old(self)@, false)
            } else {
                ((GridView { scroll_offset: 0, ..old(self)@ }).bump_view(), true)
            }),
            final(self).inv(),
    {
        proof {
            lemma_view(&*self);
        }
        if self.scroll_offset == 0 {
            return false;
        }
        self.set_scroll_offset(0);
        self.bump_view();
        true
    }

    /// Jump to an absolute scroll offset (0 = live bottom). No-op on the
    /// alternate screen.
    #[verifier::spinoff_prover]
    #[verifier::rlimit(50)]
    pub fn scroll_to_offset(&mut self, offset: usize) -> (changed: bool)
        requires
            old(self).inv(),
        ensures
            (final(self)@, changed) === old(self)@.scroll_to_offset_spec(offset),
            final(self).inv(),
    {
        proof {
            lemma_view(&*self);
            lemma_view_lens(&*self);
        }
        if self.in_alt {
            return false;
        }
        let next = if offset < self.scrollback.len() { offset } else { self.scrollback.len() };
        if next == self.scroll_offset {
            return false;
        }
        self.set_scroll_offset(next);
        self.bump_view();
        true
    }

    /// Drop all history and return to the live view.
    #[verifier::rlimit(40)]
    pub fn clear_scrollback(&mut self)
        requires
            old(self).inv(),
        ensures
            final(self)@ === old(self)@.clear_scrollback_spec(),
            final(self).inv(),
    {
        proof {
            lemma_view(&*self);
            lemma_view_lens(&*self);
        }
        if self.scrollback.len() == 0 && self.scroll_offset == 0 {
            return;
        }
        let _ = self.take_scrollback();
        self.set_scroll_offset(0);
        self.bump();
    }
}

} // verus!
