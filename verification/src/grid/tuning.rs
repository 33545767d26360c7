//! Live changes of the grid's frame: theme switch, terminal tuning and
//! resize.

use std::collections::VecDeque;

use vstd::prelude::*;

use super::edit::{fix_row_wide_spec, lemma_fix_row_wide_pairs};
use super::modes::{clamp_cursor, clamp_cursor_exec};
use super::{
    Cell, CellView, Cursor, Grid, GridView, TerminalConfig, keep_last, lemma_view, lemma_view_lens,
    max_nat, min_nat, row_view, rows_view,
};
use crate::theme::{Theme, same_theme};

verus! {

/// Row `y` of a `cols`-wide copy of `src`, whose rows are `src_cols` wide;
/// cells beyond the source are `blank`.
pub open spec fn resized_row(
    src: Seq<Seq<CellView>>,
    src_cols: int,
    y: int,
    cols: int,
    blank: CellView,
) -> Seq<CellView> {
    Seq::new(cols as nat, |x: int| if y < src.len() && x < src_cols { src[y][x] } else { blank })
}

/// A `cols` x `rows` copy of `src`, split wide halves repaired.
pub open spec fn resized_screen(
    src: Seq<Seq<CellView>>,
    src_cols: int,
    cols: int,
    rows: int,
    blank: CellView,
) -> Seq<Seq<CellView>> {
    Seq::new(
        rows as nat,
        |y: int| fix_row_wide_spec(resized_row(src, src_cols, y, cols, blank), blank),
    )
}

/// `row` cut or padded with `blank` to `cols` cells.
pub open spec fn fit_row(row: Seq<CellView>, cols: int, blank: CellView) -> Seq<CellView> {
    Seq::new(cols as nat, |x: int| if x < row.len() { row[x] } else { blank })
}

impl GridView {
    /// A theme change: fresh cells use the new colors, existing cells keep
    /// theirs.
    pub open spec fn set_theme_spec(self, theme: Theme) -> GridView {
        if same_theme(self.theme, theme) {
            self
        } else {
            GridView { theme, ..self }.bump()
        }
    }

    /// Terminal tuning applied live: a smaller history cap drops the oldest
    /// lines at once; the dimension bounds are repaired.
    pub open spec fn apply_terminal_config_spec(self, config: TerminalConfig) -> GridView {
        let sb = keep_last(self.scrollback, config.scrollback_lines as int);
        let min_dim = max_nat(config.min_dim as int, 1);
        let max_dim = max_nat(config.max_dim as int, min_dim);
        GridView {
            max_scrollback: config.scrollback_lines,
            scrollback: sb,
            scroll_offset: min_nat(self.scroll_offset as int, sb.len() as int) as usize,
            tab_stop: max_nat(config.tab_stop as int, 1) as usize,
            min_dim: min_dim as usize,
            max_dim: max_dim as usize,
            ..self
        }.bump()
    }

    /// The requested size clamped into the dimension bounds.
    pub open spec fn clamp_dim(self, n: usize) -> usize {
        let lo = max_nat(self.min_dim as int, 1);
        let hi = max_nat(self.max_dim as int, lo);
        min_nat(max_nat(n as int, lo), hi) as usize
    }

    /// The visible screen resized to `c` x `r`.
    #[verifier::opaque]
    pub open spec fn resized_cells(self, c: usize, r: usize) -> Seq<Seq<CellView>> {
        resized_screen(self.cells, self.cols as int, c as int, r as int, self.blank_cell())
    }

    /// The kept-aside main screen resized to `c` x `r`.
    #[verifier::opaque]
    pub open spec fn resized_main(self, c: usize, r: usize) -> Option<Seq<Seq<CellView>>> {
        match self.saved_main_cells {
            Some(m) => Some(
                resized_screen(
                    m,
                    if m.len() > 0 {
                        m[0].len() as int
                    } else {
                        0
                    },
                    c as int,
                    r as int,
                    self.blank_cell(),
                ),
            ),
            None => None,
        }
    }

    /// The history fitted to `c` columns (unchanged when already so wide).
    #[verifier::opaque]
    pub open spec fn resized_history(self, c: usize) -> Seq<Seq<CellView>> {
        if self.scrollback.len() > 0 && self.scrollback[0].len() != c {
            Seq::new(
                self.scrollback.len(),
                |i: int|
                    fix_row_wide_spec(fit_row(self.scrollback[i], c as int, self.blank_cell()), self.blank_cell()),
            )
        } else {
            self.scrollback
        }
    }

    /// Every field a resize to `c` x `r` changes, before the cursor snaps
    /// to a wide lead.
    pub open spec fn resize_fields(self, c: usize, r: usize) -> GridView {
        GridView {
            cols: c,
            rows: r,
            cells: self.resized_cells(c, r),
            saved_main_cells: self.resized_main(c, r),
            scrollback: self.resized_history(c),
            scroll_top: 0,
            scroll_bottom: (r - 1) as usize,
            saved_main_scroll_top: if self.saved_main_scroll_top is Some {
                Some(0)
            } else {
                self.saved_main_scroll_top
            },
            saved_main_scroll_bottom: if self.saved_main_scroll_top is Some {
                Some((r - 1) as usize)
            } else {
                self.saved_main_scroll_bottom
            },
            scroll_offset: min_nat(self.scroll_offset as int, self.scrollback.len() as int) as usize,
            cursor: clamp_cursor(self.cursor, c, r),
            saved_main_cursor: match self.saved_main_cursor {
                Some(cc) => Some(clamp_cursor(cc, c, r)),
                None => None,
            },
            ..self
        }
    }

    /// Resize: contents kept top-left, new cells blank (theme colors),
    /// split wide halves repaired, margins reset to the full screen, the
    /// cursor clamped and snapped to a lead. No change at the same size.
    pub open spec fn resize_spec(self, cols: usize, rows: usize) -> GridView {
        let c = self.clamp_dim(cols);
        let r = self.clamp_dim(rows);
        if c == self.cols && r == self.rows {
            self
        } else {
            self.resize_fields(c, r).snap_cursor_to_lead().bump()
        }
    }
}

/// The oldest lines dropped until at most `m` remain.
fn trim_history(sb: &mut VecDeque<Vec<Cell>>, m: usize)
    ensures
        rows_view(final(sb)@) == keep_last(rows_view(old(sb)@), m as int),
{
    broadcast use vstd::std_specs::vecdeque::group_vec_dequeue_axioms;

    let ghost s0 = rows_view(sb@);
    while sb.len() > m
        invariant
            keep_last(s0, m as int) == keep_last(rows_view(sb@), m as int),
        decreases sb@.len(),
    {
        let ghost sb_before = sb@;
        let ghost before = rows_view(sb@);
        let _ = sb.pop_front();
        proof {
            super::lemma_rows_view_subrange(sb_before, 1, sb_before.len() as int);
            assert(sb@ == sb_before.subrange(1, sb_before.len() as int));
            assert(keep_last(before, m as int) =~= keep_last(rows_view(sb@), m as int));
        }
    }
    proof {
        assert(keep_last(rows_view(sb@), m as int) == rows_view(sb@));
    }
}

/// Keeping the last lines keeps every line's width.
proof fn lemma_keep_last_width(s: Seq<Seq<CellView>>, m: int, cols: usize)
    requires
        m >= 0,
        super::rows_have_width(s, cols),
    ensures
        super::rows_have_width(keep_last(s, m), cols),
        keep_last(s, m).len() <= s.len(),
        m >= 0 ==> keep_last(s, m).len() <= m,
{
    let k = keep_last(s, m);
    assert forall|i: int| 0 <= i < k.len() implies (#[trigger] k[i]).len() == cols by {
        if s.len() > m {
            assert(k[i] == s[i + s.len() - m]);
        }
    }
}

/// A resize keeps the grid well-formed.
proof fn lemma_resize_fields_wf(v: GridView, c: usize, r: usize)
    requires
        v.wf(),
        c >= 1,
        r >= 1,
    ensures
        v.resize_fields(c, r).wf(),
{
    reveal(GridView::resized_cells);
    reveal(GridView::resized_main);
    reveal(GridView::resized_history);
    let w = v.resize_fields(c, r);
    assert forall|i: int| 0 <= i < w.cells.len() implies (#[trigger] w.cells[i]).len() == c by {
        lemma_fix_row_wide_pairs(
            resized_row(v.cells, v.cols as int, i, c as int, v.blank_cell()),
            v.blank_cell(),
        );
    }
    assert forall|i: int| 0 <= i < w.scrollback.len() implies (#[trigger] w.scrollback[i]).len() == c by {
        if v.scrollback.len() > 0 && v.scrollback[0].len() != c {
            lemma_fix_row_wide_pairs(fit_row(v.scrollback[i], c as int, v.blank_cell()), v.blank_cell());
        } else {
            assert(v.scrollback[i].len() == v.cols);
            assert(v.scrollback[0].len() == v.cols);
        }
    }
    match v.saved_main_cells {
        Some(m) => {
            let mc = if m.len() > 0 {
                m[0].len() as int
            } else {
                0
            };
            let nm = w.saved_main_cells->0;
            assert forall|i: int| 0 <= i < nm.len() implies (#[trigger] nm[i]).len() == c by {
                lemma_fix_row_wide_pairs(resized_row(m, mc, i, c as int, v.blank_cell()), v.blank_cell());
            }
        },
        None => {},
    }
}

/// A `cols` x `rows` copy of `src` (see [`resized_screen`]).
fn resize_rows(src: &Vec<Vec<Cell>>, src_cols: usize, cols: usize, rows: usize, blank: &Cell) -> (r:
    Vec<Vec<Cell>>)
    requires
        blank@.width == 1,
        forall|y: int| 0 <= y < src@.len() ==> (#[trigger] src@[y])@.len() >= src_cols,
    ensures
        rows_view(r@) == resized_screen(rows_view(src@), src_cols as int, cols as int, rows as int, blank@),
{
    let ghost s = rows_view(src@);
    let mut out: Vec<Vec<Cell>> = Vec::with_capacity(rows);
    let mut y: usize = 0;
    while y < rows
        invariant
            s == rows_view(src@),
            blank@.width == 1,
            forall|k: int| 0 <= k < src@.len() ==> (#[trigger] src@[k])@.len() >= src_cols,
            y <= rows,
            out@.len() == y,
            forall|k: int|
                0 <= k < y ==> row_view((#[trigger] out@[k])@) == fix_row_wide_spec(
                    resized_row(s, src_cols as int, k, cols as int, blank@),
                    blank@,
                ),
        decreases rows - y,
    {
        let mut row: Vec<Cell> = Vec::with_capacity(cols);
        let mut x: usize = 0;
        while x < cols
            invariant
                s == rows_view(src@),
                forall|k: int| 0 <= k < src@.len() ==> (#[trigger] src@[k])@.len() >= src_cols,
                y < rows,
                x <= cols,
                row@.len() == x,
                forall|k: int|
                    0 <= k < x ==> (#[trigger] row@[k])@ == resized_row(
                        s,
                        src_cols as int,
                        y as int,
                        cols as int,
                        blank@,
                    )[k],
            decreases cols - x,
        {
            if y < src.len() && x < src_cols {
                proof {
                    assert(s[y as int] == row_view(src@[y as int]@));
                }
                row.push(src[y][x].copy());
            } else {
                row.push(blank.copy());
            }
            x += 1;
        }
        proof {
            assert(row_view(row@) =~= resized_row(s, src_cols as int, y as int, cols as int, blank@));
        }
        Grid::fix_row_wide(&mut row, blank);
        out.push(row);
        y += 1;
    }
    proof {
        assert(rows_view(out@) =~= resized_screen(s, src_cols as int, cols as int, rows as int, blank@));
    }
    out
}

/// Every history row cut or padded to `cols` and repaired.
fn resize_history(sb: &VecDeque<Vec<Cell>>, cols: usize, blank: &Cell) -> (r: VecDeque<Vec<Cell>>)
    requires
        blank@.width == 1,
    ensures
        rows_view(r@) == Seq::new(
            sb@.len(),
            |i: int| fix_row_wide_spec(fit_row(rows_view(sb@)[i], cols as int, blank@), blank@),
        ),
{
    broadcast use vstd::std_specs::vecdeque::group_vec_dequeue_axioms;

    let ghost s = rows_view(sb@);
    let mut out: VecDeque<Vec<Cell>> = VecDeque::new();
    let mut i: usize = 0;
    while i < sb.len()
        invariant
            s == rows_view(sb@),
            blank@.width == 1,
            i <= sb@.len(),
            out@.len() == i,
            forall|k: int|
                0 <= k < i ==> row_view((#[trigger] out@[k])@) == fix_row_wide_spec(
                    fit_row(s[k], cols as int, blank@),
                    blank@,
                ),
        decreases sb@.len() - i,
    {
        let src = &sb[i];
        proof {
            assert(s[i as int] == row_view(src@));
        }
        let mut row: Vec<Cell> = Vec::with_capacity(cols);
        let mut x: usize = 0;
        while x < cols
            invariant
                s[i as int] == row_view(src@),
                x <= cols,
                row@.len() == x,
                forall|k: int|
                    0 <= k < x ==> (#[trigger] row@[k])@ == fit_row(s[i as int], cols as int, blank@)[k],
            decreases cols - x,
        {
            if x < src.len() {
                row.push(src[x].copy());
            } else {
                row.push(blank.copy());
            }
            x += 1;
        }
        proof {
            assert(row_view(row@) =~= fit_row(s[i as int], cols as int, blank@));
        }
        Grid::fix_row_wide(&mut row, blank);
        out.push_back(row);
        i += 1;
    }
    proof {
        assert(rows_view(out@) =~= Seq::new(
            sb@.len(),
            |k: int| fix_row_wide_spec(fit_row(s[k], cols as int, blank@), blank@),
        ));
    }
    out
}

impl Grid {
    /// Live-apply a theme change: fresh cells use the new colors while
    /// existing cells keep their resolved colors.
    pub fn set_theme(&mut self, theme: Theme)
        requires
            old(self).inv(),
        ensures
            final(self)@ === old(self)@.set_theme_spec(theme),
            final(self).inv(),
    {
        let cur = self.theme();
        if !cur.same(&theme) {
            self.put_theme(theme);
            self.bump();
        }
    }

    fn put_theme(&mut self, theme: Theme)
        requires
            old(self).inv(),
        ensures
            final(self)@ === (GridView { theme, ..old(self)@ }),
            final(self).inv(),
    {
        proof {
            reveal(<Grid as View>::view);
        }
        self.theme = theme;
        proof {
            assert(self@ =~= (GridView { theme, ..old(self)@ }));
        }
    }

    /// Live-apply terminal tuning without respawning the session: a
    /// smaller history cap drops the oldest rows immediately, a larger one
    /// takes effect as new output scrolls in.
    #[verifier::spinoff_prover]
    #[verifier::rlimit(100)]
    pub fn apply_terminal_config(&mut self, config: &TerminalConfig)
        requires
            old(self).inv(),
        ensures
            final(self)@ === old(self)@.apply_terminal_config_spec(*config),
            final(self).inv(),
    {
        let ghost v = self@;
        let mut sb = self.take_scrollback();
        trim_history(&mut sb, config.scrollback_lines);
        let len = sb.len();
        let ghost k = rows_view(sb@);
        self.put_scrollback(sb);
        let ghost v1 = self@;
        self.put_tuning(config, len);
        let ghost v2 = self@;
        self.bump();
        proof {
            assert(v1 === (GridView { scrollback: k, ..v }));
            assert(v2 === (GridView {
                max_scrollback: config.scrollback_lines,
                scroll_offset: min_nat(v.scroll_offset as int, len as int) as usize,
                tab_stop: max_nat(config.tab_stop as int, 1) as usize,
                min_dim: max_nat(config.min_dim as int, 1) as usize,
                max_dim: max_nat(config.max_dim as int, max_nat(config.min_dim as int, 1)) as usize,
                ..v1
            }));
        }
        proof {
            lemma_keep_last_width(v.scrollback, config.scrollback_lines as int, v.cols);
        }
    }

    #[verifier::spinoff_prover]
    #[verifier::rlimit(100)]
    fn put_tuning(&mut self, config: &TerminalConfig, len: usize)
        ensures
            final(self)@ === (GridView {
                max_scrollback: config.scrollback_lines,
                scroll_offset: min_nat(old(self)@.scroll_offset as int, len as int) as usize,
                tab_stop: max_nat(config.tab_stop as int, 1) as usize,
                min_dim: max_nat(config.min_dim as int, 1) as usize,
                max_dim: max_nat(config.max_dim as int, max_nat(config.min_dim as int, 1)) as usize,
                ..old(self)@
            }),
    {
        proof {
            reveal(<Grid as View>::view);
        }
        let off = if self.scroll_offset > len {
            len
        } else {
            self.scroll_offset
        };
        let tab = if config.tab_stop > 1 {
            config.tab_stop
        } else {
            1
        };
        let min_dim = if config.min_dim > 1 {
            config.min_dim
        } else {
            1
        };
        let max_dim = if config.max_dim > min_dim {
            config.max_dim
        } else {
            min_dim
        };
        self.max_scrollback = config.scrollback_lines;
        self.scroll_offset = off;
        self.tab_stop = tab;
        self.max_dim = max_dim;
        self.min_dim = min_dim;
    }

    /// Resize (see [`GridView::resize_spec`]); rows whose wide halves were
    /// in pairs stay so.
    #[verifier::spinoff_prover]
    #[verifier::rlimit(100)]
    pub fn resize(&mut self, cols: usize, rows: usize)
        requires
            old(self).inv(),
        ensures
            final(self)@ === old(self)@.resize_spec(cols, rows),
            final(self).inv(),
            super::wide::screen_wide_ok(old(self)@) ==> super::wide::screen_wide_ok(final(self)@),
    {
        proof {
            lemma_view(&*self);
            if super::wide::screen_wide_ok(self@) {
                super::wide::lemma_resize_wide_ok(self@, cols, rows);
            }
        }
        let lo = if self.min_dim > 1 {
            self.min_dim
        } else {
            1
        };
        let hi = if self.max_dim > lo {
            self.max_dim
        } else {
            lo
        };
        let c = if cols < lo {
            lo
        } else if cols > hi {
            hi
        } else {
            cols
        };
        let r = if rows < lo {
            lo
        } else if rows > hi {
            hi
        } else {
            rows
        };
        if c == self.cols && r == self.rows {
            return;
        }
        self.resize_to(c, r);
        self.snap_cursor_to_lead();
        self.bump();
    }

    /// The resized screen, kept-aside main screen and history.
    fn resized_parts(&self, c: usize, r: usize) -> (p: (
        Vec<Vec<Cell>>,
        Option<Vec<Vec<Cell>>>,
        Option<VecDeque<Vec<Cell>>>,
    ))
        requires
            self.inv(),
        ensures
            ({
                let w = self@.resize_fields(c, r);
                &&& rows_view(p.0@) == w.cells
                &&& match p.1 {
                    Some(m) => w.saved_main_cells == Some(rows_view(m@)),
                    None => w.saved_main_cells is None,
                }
                &&& match p.2 {
                    Some(sb) => w.scrollback == rows_view(sb@),
                    None => w.scrollback == self@.scrollback,
                }
            }),
    {
        proof {
            super::lemma_view_rows(self);
            lemma_view(self);
            reveal(GridView::resized_cells);
            reveal(GridView::resized_main);
            reveal(GridView::resized_history);
        }
        let ghost v = self@;
        let blank = self.blank_cell();
        proof {
            assert forall|y: int| 0 <= y < self.cells@.len() implies (#[trigger] self.cells@[y])@.len()
                >= self.cols by {
                assert(v.cells[y] == row_view(self.cells@[y]@));
            }
        }
        let new_cells = resize_rows(&self.cells, self.cols, c, r, &blank);
        let new_main = match &self.saved_main_cells {
            Some(m) => {
                let mc = if m.len() > 0 {
                    m[0].len()
                } else {
                    0
                };
                proof {
                    assert(rows_view(m@) == v.saved_main_cells->0);
                    if m@.len() > 0 {
                        assert(rows_view(m@)[0] == row_view(m@[0]@));
                    }
                    assert forall|y: int| 0 <= y < m@.len() implies (#[trigger] m@[y])@.len() >= mc by {
                        assert(rows_view(m@)[y] == row_view(m@[y]@));
                    }
                }
                Some(resize_rows(m, mc, c, r, &blank))
            },
            None => None,
        };
        let differs = self.scrollback.len() > 0 && self.scrollback[0].len() != c;
        proof {
            if self.scrollback@.len() > 0 {
                assert(v.scrollback[0] == row_view(self.scrollback@[0]@));
            }
        }
        let new_sb = if differs {
            Some(resize_history(&self.scrollback, c, &blank))
        } else {
            None
        };
        (new_cells, new_main, new_sb)
    }

    /// The cursor, kept-aside cursor, view offset and kept-aside margins
    /// after a resize to `c` x `r`.
    fn resize_values(&self, c: usize, r: usize) -> (p: (
        Cursor,
        Option<Cursor>,
        usize,
        Option<usize>,
        Option<usize>,
    ))
        requires
            self.inv(),
            c >= 1,
            r >= 1,
        ensures
            p.0 == self@.resize_fields(c, r).cursor,
            p.1 == self@.resize_fields(c, r).saved_main_cursor,
            p.2 == self@.resize_fields(c, r).scroll_offset,
            p.3 == self@.resize_fields(c, r).saved_main_scroll_top,
            p.4 == self@.resize_fields(c, r).saved_main_scroll_bottom,
    {
        proof {
            lemma_view(self);
            lemma_view_lens(self);
        }
        let cursor = clamp_cursor_exec(self.cursor, c, r);
        let main_cursor = match self.saved_main_cursor {
            Some(cc) => Some(clamp_cursor_exec(cc, c, r)),
            None => None,
        };
        let (main_top, main_bottom) = if self.saved_main_scroll_top.is_some() {
            (Some(0), Some(r - 1))
        } else {
            (self.saved_main_scroll_top, self.saved_main_scroll_bottom)
        };
        let off = if self.scroll_offset < self.scrollback.len() {
            self.scroll_offset
        } else {
            self.scrollback.len()
        };
        (cursor, main_cursor, off, main_top, main_bottom)
    }

    /// The resized parts and the new size, margins, offset and cursors
    /// installed.
    #[verifier::spinoff_prover]
    #[verifier::rlimit(100)]
    fn put_resized(
        &mut self,
        cells: Vec<Vec<Cell>>,
        main: Option<Vec<Vec<Cell>>>,
        c: usize,
        r: usize,
        cursor: Cursor,
        main_cursor: Option<Cursor>,
        off: usize,
        main_top: Option<usize>,
        main_bottom: Option<usize>,
    )
        requires
            r >= 1,
        ensures
            final(self)@ === (GridView {
                cols: c,
                rows: r,
                cells: rows_view(cells@),
                saved_main_cells: match main {
                    Some(m) => Some(rows_view(m@)),
                    None => None,
                },
                scroll_top: 0,
                scroll_bottom: (r - 1) as usize,
                saved_main_scroll_top: main_top,
                saved_main_scroll_bottom: main_bottom,
                scroll_offset: off,
                cursor,
                saved_main_cursor: main_cursor,
                ..old(self)@
            }),
    {
        proof {
            reveal(<Grid as View>::view);
        }
        self.cells = cells;
        self.saved_main_cells = main;
        self.cols = c;
        self.rows = r;
        self.scroll_top = 0;
        self.scroll_bottom = r - 1;
        self.saved_main_scroll_top = main_top;
        self.saved_main_scroll_bottom = main_bottom;
        self.scroll_offset = off;
        self.cursor = cursor;
        self.saved_main_cursor = main_cursor;
    }

    /// Every field of a resize to `c` x `r` (see
    /// [`GridView::resize_fields`]).
    #[verifier::spinoff_prover]
    #[verifier::rlimit(100)]
    fn resize_to(&mut self, c: usize, r: usize)
        requires
            old(self).inv(),
            c >= 1,
            r >= 1,
        ensures
            final(self)@ === old(self)@.resize_fields(c, r),
            final(self).inv(),
    {
        let ghost v = self@;
        let (cursor, main_cursor, off0, main_top, main_bottom) = self.resize_values(c, r);
        let (cells, main, sb) = self.resized_parts(c, r);
        match sb {
            Some(h) => {
                self.put_scrollback(h);
            },
            None => {},
        }
        self.put_resized(cells, main, c, r, cursor, main_cursor, off0, main_top, main_bottom);
        proof {
            lemma_resize_fields_wf(v, c, r);
            assert(self@ =~= v.resize_fields(c, r));
        }
    }
}

} // verus!
