//! The alternate screen, saved cursor state and the terminal mode flags
//! (cursor visibility, bracketed paste, application modes, DECOM / IRM /
//! DECAWM, mouse reporting, synchronized output).

use vstd::prelude::*;

use super::{
    Cursor, CursorStyle, Grid, GridView, MouseMode, filled_rows, lemma_view, min_nat, rows_view,
};

verus! {

/// `c` clamped into a `cols` x `rows` screen.
pub open spec fn clamp_cursor(c: Cursor, cols: usize, rows: usize) -> Cursor {
    Cursor { x: min_nat(c.x as int, cols - 1) as usize, y: min_nat(c.y as int, rows - 1) as usize }
}

pub(crate) fn clamp_cursor_exec(c: Cursor, cols: usize, rows: usize) -> (r: Cursor)
    requires
        cols >= 1,
        rows >= 1,
    ensures
        r == clamp_cursor(c, cols, rows),
{
    Cursor {
        x: if c.x < cols - 1 {
            c.x
        } else {
            cols - 1
        },
        y: if c.y < rows - 1 {
            c.y
        } else {
            rows - 1
        },
    }
}

impl GridView {
    /// `DECSC`: cursor, pen, cursor style and origin mode remembered.
    pub open spec fn save_cursor_spec(self) -> GridView {
        GridView {
            saved_cursor: Some(self.cursor),
            saved_pen: Some(self.pen),
            saved_style: Some(self.cursor_style),
            saved_origin: Some(self.origin_mode),
            ..self
        }
    }

    /// The saved fields of `DECRC` put back (the cursor clamped into the
    /// screen).
    pub open spec fn restore_fields_spec(self) -> GridView {
        let cursor = match self.saved_cursor {
            Some(c) => clamp_cursor(c, self.cols, self.rows),
            None => self.cursor,
        };
        let pen = match self.saved_pen {
            Some(p) => p,
            None => self.pen,
        };
        let style = match self.saved_style {
            Some(s) => s,
            None => self.cursor_style,
        };
        let origin = match self.saved_origin {
            Some(o) => o,
            None => self.origin_mode,
        };
        GridView { cursor, pen, cursor_style: style, origin_mode: origin, ..self }
    }

    /// `DECRC`: what was saved comes back, then the cursor is snapped to a
    /// lead and clamped into the margins.
    pub open spec fn restore_cursor_spec(self) -> GridView {
        self.restore_fields_spec().snap_cursor_to_lead().clamp_cursor_to_margins().bump()
    }

    /// Margins to the full screen, origin and insert mode off, auto-wrap on.
    pub open spec fn reset_margins_and_modes_spec(self) -> GridView {
        GridView {
            origin_mode: false,
            insert_mode: false,
            auto_wrap: true,
            ..self.reset_scroll_region()
        }
    }

    /// A screen of blank (theme-colored) rows.
    pub open spec fn blank_screen(self) -> Seq<Seq<super::CellView>> {
        Seq::new(self.rows as nat, |i: int| self.blank_row())
    }

    /// Switch to the alternate screen: the main screen and its cursor
    /// state, margins and modes are kept aside; the alternate screen starts
    /// blank with the cursor home, default margins and modes. Already on
    /// it, `clear` only clears it and homes the cursor.
    pub open spec fn enter_alt_spec(self, clear: bool) -> GridView {
        if self.in_alt {
            if clear {
                self.clear_all_spec().set_cursor_spec(0, 0)
            } else {
                self
            }
        } else {
            GridView {
                saved_main_cells: Some(self.cells),
                saved_main_cursor: Some(self.cursor),
                saved_main_saved_cursor: self.saved_cursor,
                saved_main_saved_pen: self.saved_pen,
                saved_main_saved_style: self.saved_style,
                saved_main_saved_origin: self.saved_origin,
                saved_main_scroll_top: Some(self.scroll_top),
                saved_main_scroll_bottom: Some(self.scroll_bottom),
                saved_main_origin: Some(self.origin_mode),
                saved_main_insert: Some(self.insert_mode),
                saved_main_wrap: Some(self.auto_wrap),
                cells: self.blank_screen(),
                cursor: Cursor { x: 0, y: 0 },
                saved_cursor: None,
                saved_pen: None,
                saved_style: None,
                saved_origin: None,
                scroll_top: 0,
                scroll_bottom: (self.rows - 1) as usize,
                origin_mode: false,
                insert_mode: false,
                auto_wrap: true,
                in_alt: true,
                scroll_offset: 0,
                ..self
            }.bump()
        }
    }

    /// Margins coming back from the main screen: clamped into the screen,
    /// and reset to full when they no longer form a region.
    pub open spec fn restored_margins(self, top: usize, bottom: usize) -> (usize, usize) {
        let t = min_nat(top as int, self.rows - 1) as usize;
        let b = min_nat(bottom as int, self.rows - 1) as usize;
        if t >= b && self.rows > 1 {
            (0, (self.rows - 1) as usize)
        } else {
            (t, b)
        }
    }

    /// The main screen state put back with the given cells, cursor and
    /// margins; the alternate screen is left.
    pub open spec fn with_main_state(
        self,
        cells: Seq<Seq<super::CellView>>,
        cursor: Cursor,
        top: usize,
        bottom: usize,
    ) -> GridView {
        GridView {
            cells,
            cursor,
            saved_main_cells: None,
            saved_main_cursor: None,
            saved_cursor: self.saved_main_saved_cursor,
            saved_pen: self.saved_main_saved_pen,
            saved_style: self.saved_main_saved_style,
            saved_origin: self.saved_main_saved_origin,
            saved_main_saved_cursor: None,
            saved_main_saved_pen: None,
            saved_main_saved_style: None,
            saved_main_saved_origin: None,
            scroll_top: top,
            scroll_bottom: bottom,
            saved_main_scroll_top: None,
            saved_main_scroll_bottom: None,
            origin_mode: match self.saved_main_origin {
                Some(o) => o,
                None => self.origin_mode,
            },
            insert_mode: match self.saved_main_insert {
                Some(i) => i,
                None => self.insert_mode,
            },
            auto_wrap: match self.saved_main_wrap {
                Some(w) => w,
                None => self.auto_wrap,
            },
            saved_main_origin: None,
            saved_main_insert: None,
            saved_main_wrap: None,
            in_alt: false,
            scroll_offset: 0,
            ..self
        }
    }

    /// Everything `enter_alt_spec` kept aside put back (the cursor and
    /// margins clamped into the screen), before the margin clamp.
    pub open spec fn exit_fields_spec(self) -> GridView {
        let cells = match self.saved_main_cells {
            Some(m) => m,
            None => self.blank_screen(),
        };
        let cursor = match self.saved_main_cursor {
            Some(c) => clamp_cursor(c, self.cols, self.rows),
            None => self.cursor,
        };
        let margins = match (self.saved_main_scroll_top, self.saved_main_scroll_bottom) {
            (Some(t), Some(b)) => self.restored_margins(t, b),
            _ => (self.scroll_top, self.scroll_bottom),
        };
        self.with_main_state(cells, cursor, margins.0, margins.1)
    }

    /// Leave the alternate screen: everything `enter_alt_spec` kept aside
    /// comes back (the cursor and margins clamped into the screen).
    pub open spec fn exit_alt_spec(self) -> GridView {
        if !self.in_alt {
            self
        } else {
            self.exit_fields_spec().clamp_cursor_to_margins().bump()
        }
    }

    /// The mouse tracking mode in force: the most inclusive one enabled.
    pub open spec fn mouse_mode_spec(self) -> MouseMode {
        if self.mouse_any {
            MouseMode::Any
        } else if self.mouse_drag {
            MouseMode::Drag
        } else if self.mouse_press {
            MouseMode::Press
        } else {
            MouseMode::Off
        }
    }
}

/// Entering the alternate screen and leaving it again brings back the main
/// screen, its cursor, saved cursor state, margins and modes, and the
/// history (only the change counters move on). The cursor must not rest in
/// the pending-wrap column, and in origin mode the cursor must lie inside
/// the margins.
pub proof fn lemma_alt_round_trip(v: GridView, clear: bool)
    requires
        v.wf(),
        !v.in_alt,
        v.cursor.x < v.cols,
        v.origin_mode ==> v.top() <= v.cursor.y <= v.bottom(),
    ensures
        ({
            let w = v.enter_alt_spec(clear).exit_alt_spec();
            &&& w.cells == v.cells
            &&& w.scrollback == v.scrollback
            &&& w.cursor == v.cursor
            &&& w.saved_cursor == v.saved_cursor
            &&& w.saved_pen == v.saved_pen
            &&& w.saved_style == v.saved_style
            &&& w.saved_origin == v.saved_origin
            &&& w.scroll_top == v.scroll_top
            &&& w.scroll_bottom == v.scroll_bottom
            &&& w.origin_mode == v.origin_mode
            &&& w.insert_mode == v.insert_mode
            &&& w.auto_wrap == v.auto_wrap
            &&& w.pen == v.pen
            &&& w.cursor_style == v.cursor_style
            &&& !w.in_alt
            &&& w.saved_main_cells is None
        }),
{
}

impl Grid {
    pub fn is_alt(&self) -> (r: bool)
        ensures
            r == self@.in_alt,
    {
        proof {
            lemma_view(self);
        }
        self.in_alt
    }

    pub fn cursor_enabled(&self) -> (r: bool)
        ensures
            r == self@.cursor_enabled,
    {
        proof {
            lemma_view(self);
        }
        self.cursor_enabled
    }

    pub fn bracketed_paste(&self) -> (r: bool)
        ensures
            r == self@.bracketed_paste,
    {
        proof {
            lemma_view(self);
        }
        self.bracketed_paste
    }

    pub fn cursor_app_mode(&self) -> (r: bool)
        ensures
            r == self@.cursor_app,
    {
        proof {
            lemma_view(self);
        }
        self.cursor_app
    }

    pub fn keypad_app_mode(&self) -> (r: bool)
        ensures
            r == self@.keypad_app,
    {
        proof {
            lemma_view(self);
        }
        self.keypad_app
    }

    pub fn cursor_style(&self) -> (r: CursorStyle)
        ensures
            r == self@.cursor_style,
    {
        proof {
            lemma_view(self);
        }
        self.cursor_style
    }

    pub fn origin_mode(&self) -> (r: bool)
        ensures
            r == self@.origin_mode,
    {
        proof {
            lemma_view(self);
        }
        self.origin_mode
    }

    pub fn insert_mode(&self) -> (r: bool)
        ensures
            r == self@.insert_mode,
    {
        proof {
            lemma_view(self);
        }
        self.insert_mode
    }

    pub fn auto_wrap(&self) -> (r: bool)
        ensures
            r == self@.auto_wrap,
    {
        proof {
            lemma_view(self);
        }
        self.auto_wrap
    }

    pub fn mouse_sgr(&self) -> (r: bool)
        ensures
            r == self@.mouse_sgr,
    {
        proof {
            lemma_view(self);
        }
        self.mouse_sgr
    }

    pub fn focus_report(&self) -> (r: bool)
        ensures
            r == self@.focus_report,
    {
        proof {
            lemma_view(self);
        }
        self.focus_report
    }

    /// The mouse tracking mode in force.
    pub fn mouse_mode(&self) -> (r: MouseMode)
        ensures
            r == self@.mouse_mode_spec(),
    {
        proof {
            lemma_view(self);
        }
        if self.mouse_any {
            MouseMode::Any
        } else if self.mouse_drag {
            MouseMode::Drag
        } else if self.mouse_press {
            MouseMode::Press
        } else {
            MouseMode::Off
        }
    }

    /// True while a synchronized-output frame is open.
    pub fn in_sync(&self) -> (r: bool)
        ensures
            r == (self@.sync_depth > 0),
    {
        proof {
            lemma_view(self);
        }
        self.sync_depth > 0
    }

    pub fn set_cursor_enabled(&mut self, enabled: bool)
        requires
            old(self).inv(),
        ensures
            final(self)@ === (if old(self)@.cursor_enabled == enabled {
                old(self)@
            } else {
                (GridView { cursor_enabled: enabled, ..old(self)@ }).bump()
            }),
            final(self).inv(),
    {
        if self.cursor_enabled() != enabled {
            self.put_cursor_enabled(enabled);
            self.bump();
        }
    }

    pub fn set_bracketed_paste(&mut self, enabled: bool)
        requires
            old(self).inv(),
        ensures
            final(self)@ === (if old(self)@.bracketed_paste == enabled {
                old(self)@
            } else {
                (GridView { bracketed_paste: enabled, ..old(self)@ }).bump()
            }),
            final(self).inv(),
    {
        if self.bracketed_paste() != enabled {
            self.put_bracketed_paste(enabled);
            self.bump();
        }
    }

    pub fn set_cursor_app_mode(&mut self, enabled: bool)
        requires
            old(self).inv(),
        ensures
            final(self)@ === (if old(self)@.cursor_app == enabled {
                old(self)@
            } else {
                (GridView { cursor_app: enabled, ..old(self)@ }).bump()
            }),
            final(self).inv(),
    {
        if self.cursor_app_mode() != enabled {
            self.put_cursor_app(enabled);
            self.bump();
        }
    }

    pub fn set_keypad_app_mode(&mut self, enabled: bool)
        requires
            old(self).inv(),
        ensures
            final(self)@ === (if old(self)@.keypad_app == enabled {
                old(self)@
            } else {
                (GridView { keypad_app: enabled, ..old(self)@ }).bump()
            }),
            final(self).inv(),
    {
        if self.keypad_app_mode() != enabled {
            self.put_keypad_app(enabled);
            self.bump();
        }
    }

    pub fn set_cursor_style(&mut self, style: CursorStyle)
        requires
            old(self).inv(),
        ensures
            final(self)@ === (if old(self)@.cursor_style == style {
                old(self)@
            } else {
                (GridView { cursor_style: style, ..old(self)@ }).bump()
            }),
            final(self).inv(),
    {
        let cur = self.cursor_style();
        if cur.shape != style.shape || cur.blinking != style.blinking {
            self.put_cursor_style(style);
            self.bump();
        }
    }

    /// `DECOM`: a change homes the cursor (origin-aware).
    pub fn set_origin_mode(&mut self, enabled: bool)
        requires
            old(self).inv(),
        ensures
            final(self)@ === (if old(self)@.origin_mode == enabled {
                old(self)@
            } else {
                (GridView { origin_mode: enabled, ..old(self)@ }).home_cursor().bump()
            }),
            final(self).inv(),
    {
        if self.origin_mode() != enabled {
            self.put_origin_mode(enabled);
            self.home_cursor();
            self.bump();
        }
    }

    /// `IRM`.
    pub fn set_insert_mode(&mut self, enabled: bool)
        requires
            old(self).inv(),
        ensures
            final(self)@ === (if old(self)@.insert_mode == enabled {
                old(self)@
            } else {
                (GridView { insert_mode: enabled, ..old(self)@ }).bump()
            }),
            final(self).inv(),
    {
        if self.insert_mode() != enabled {
            self.put_insert_mode(enabled);
            self.bump();
        }
    }

    /// `DECAWM`.
    pub fn set_auto_wrap(&mut self, enabled: bool)
        requires
            old(self).inv(),
        ensures
            final(self)@ === (if old(self)@.auto_wrap == enabled {
                old(self)@
            } else {
                (GridView { auto_wrap: enabled, ..old(self)@ }).bump()
            }),
            final(self).inv(),
    {
        if self.auto_wrap() != enabled {
            self.put_auto_wrap(enabled);
            self.bump();
        }
    }

    /// Mouse button press reporting (`?1000`).
    pub fn set_mouse_press(&mut self, enabled: bool)
        requires
            old(self).inv(),
        ensures
            final(self)@ === (GridView { mouse_press: enabled, ..old(self)@ }),
            final(self).inv(),
    {
        proof {
            reveal(<Grid as View>::view);
        }
        self.mouse_press = enabled;
        proof {
            assert(self@ =~= (GridView { mouse_press: enabled, ..old(self)@ }));
        }
    }

    /// Button-event (drag) tracking (`?1002`).
    pub fn set_mouse_drag(&mut self, enabled: bool)
        requires
            old(self).inv(),
        ensures
            final(self)@ === (GridView { mouse_drag: enabled, ..old(self)@ }),
            final(self).inv(),
    {
        proof {
            reveal(<Grid as View>::view);
        }
        self.mouse_drag = enabled;
        proof {
            assert(self@ =~= (GridView { mouse_drag: enabled, ..old(self)@ }));
        }
    }

    /// Any-event tracking (`?1003`).
    pub fn set_mouse_any(&mut self, enabled: bool)
        requires
            old(self).inv(),
        ensures
            final(self)@ === (GridView { mouse_any: enabled, ..old(self)@ }),
            final(self).inv(),
    {
        proof {
            reveal(<Grid as View>::view);
        }
        self.mouse_any = enabled;
        proof {
            assert(self@ =~= (GridView { mouse_any: enabled, ..old(self)@ }));
        }
    }

    /// SGR mouse encoding (`?1006`).
    pub fn set_mouse_sgr(&mut self, enabled: bool)
        requires
            old(self).inv(),
        ensures
            final(self)@ === (GridView { mouse_sgr: enabled, ..old(self)@ }),
            final(self).inv(),
    {
        proof {
            reveal(<Grid as View>::view);
        }
        self.mouse_sgr = enabled;
        proof {
            assert(self@ =~= (GridView { mouse_sgr: enabled, ..old(self)@ }));
        }
    }

    /// Focus in/out reporting (`?1004`).
    pub fn set_focus_report(&mut self, enabled: bool)
        requires
            old(self).inv(),
        ensures
            final(self)@ === (GridView { focus_report: enabled, ..old(self)@ }),
            final(self).inv(),
    {
        proof {
            reveal(<Grid as View>::view);
        }
        self.focus_report = enabled;
        proof {
            assert(self@ =~= (GridView { focus_report: enabled, ..old(self)@ }));
        }
    }

    /// All mouse reporting, SGR encoding and focus reporting off.
    pub fn reset_mouse_and_focus(&mut self)
        requires
            old(self).inv(),
        ensures
            final(self)@ === (GridView {
                mouse_press: false,
                mouse_drag: false,
                mouse_any: false,
                mouse_sgr: false,
                focus_report: false,
                ..old(self)@
            }),
            final(self).inv(),
    {
        proof {
            reveal(<Grid as View>::view);
        }
        self.mouse_press = false;
        self.mouse_drag = false;
        self.mouse_any = false;
        self.mouse_sgr = false;
        self.focus_report = false;
        proof {
            assert(self@ =~= (GridView {
                mouse_press: false,
                mouse_drag: false,
                mouse_any: false,
                mouse_sgr: false,
                focus_report: false,
                ..old(self)@
            }));
        }
    }

    /// Open a synchronized-output frame (nesting counted, saturating).
    pub fn sync_begin(&mut self)
        requires
            old(self).inv(),
        ensures
            final(self)@ === (GridView {
                sync_depth: if old(self)@.sync_depth == u32::MAX {
                    u32::MAX
                } else {
                    (old(self)@.sync_depth + 1) as u32
                },
                ..old(self)@
            }),
            final(self).inv(),
    {
        proof {
            reveal(<Grid as View>::view);
        }
        self.sync_depth = self.sync_depth.saturating_add(1);
        proof {
            assert(self@ =~= (GridView {
                sync_depth: if old(self)@.sync_depth == u32::MAX {
                    u32::MAX
                } else {
                    (old(self)@.sync_depth + 1) as u32
                },
                ..old(self)@
            }));
        }
    }

    /// Close one synchronized-output frame (no-op when none is open).
    pub fn sync_end(&mut self)
        requires
            old(self).inv(),
        ensures
            final(self)@ === (GridView {
                sync_depth: if old(self)@.sync_depth == 0 {
                    0
                } else {
                    (old(self)@.sync_depth - 1) as u32
                },
                ..old(self)@
            }),
            final(self).inv(),
    {
        proof {
            reveal(<Grid as View>::view);
        }
        self.sync_depth = self.sync_depth.saturating_sub(1);
        proof {
            assert(self@ =~= (GridView {
                sync_depth: if old(self)@.sync_depth == 0 {
                    0
                } else {
                    (old(self)@.sync_depth - 1) as u32
                },
                ..old(self)@
            }));
        }
    }

    /// `DECSC`.
    pub fn save_cursor(&mut self)
        requires
            old(self).inv(),
        ensures
            final(self)@ === old(self)@.save_cursor_spec(),
            final(self).inv(),
    {
        proof {
            reveal(<Grid as View>::view);
        }
        self.saved_cursor = Some(self.cursor);
        self.saved_pen = Some(self.pen);
        self.saved_style = Some(self.cursor_style);
        self.saved_origin = Some(self.origin_mode);
        proof {
            assert(self@ =~= old(self)@.save_cursor_spec());
        }
    }

    /// `DECRC`.
    pub fn restore_cursor(&mut self)
        requires
            old(self).inv(),
        ensures
            final(self)@ === old(self)@.restore_cursor_spec(),
            final(self).inv(),
    {
        self.restore_fields();
        self.snap_cursor_to_lead();
        self.clamp_cursor_to_margins();
        self.bump();
    }

    /// What `DECRC` puts back: cursor (clamped), pen, style, origin mode.
    fn restore_values(&self) -> (r: (Cursor, super::Pen, CursorStyle, bool))
        requires
            self.inv(),
        ensures
            r.0 == self@.restore_fields_spec().cursor,
            r.1 == self@.restore_fields_spec().pen,
            r.2 == self@.restore_fields_spec().cursor_style,
            r.3 == self@.restore_fields_spec().origin_mode,
            r.0.x <= self@.cols,
            r.0.y < self@.rows,
    {
        proof {
            lemma_view(self);
        }
        let c = match self.saved_cursor {
            Some(c) => clamp_cursor_exec(c, self.cols, self.rows),
            None => self.cursor,
        };
        let pen = match self.saved_pen {
            Some(p) => p,
            None => self.pen,
        };
        let style = match self.saved_style {
            Some(st) => st,
            None => self.cursor_style,
        };
        let origin = match self.saved_origin {
            Some(o) => o,
            None => self.origin_mode,
        };
        (c, pen, style, origin)
    }

    /// The saved fields of `DECRC` put back, before snapping and clamping.
    fn restore_fields(&mut self)
        requires
            old(self).inv(),
        ensures
            final(self).inv(),
            final(self)@ === old(self)@.restore_fields_spec(),
    {
        let (c, pen, style, origin) = self.restore_values();
        self.put_restored(c, pen, style, origin);
    }

    /// Cursor, pen, style and origin mode set together.
    fn put_restored(&mut self, c: Cursor, pen: super::Pen, style: CursorStyle, origin: bool)
        requires
            old(self).inv(),
            c.x <= old(self)@.cols,
            c.y < old(self)@.rows,
        ensures
            final(self)@ === (GridView {
                cursor: c,
                pen,
                cursor_style: style,
                origin_mode: origin,
                ..old(self)@
            }),
            final(self).inv(),
    {
        proof {
            reveal(<Grid as View>::view);
        }
        self.cursor = c;
        self.pen = pen;
        self.cursor_style = style;
        self.origin_mode = origin;
        proof {
            assert(self@ =~= (GridView {
                cursor: c,
                pen,
                cursor_style: style,
                origin_mode: origin,
                ..old(self)@
            }));
        }
    }

    /// Full DEC reset for `ESC c`: margins and origin / insert / wrap back
    /// to their defaults (the caller homes the cursor).
    pub fn reset_margins_and_modes(&mut self)
        requires
            old(self).inv(),
        ensures
            final(self)@ === old(self)@.reset_margins_and_modes_spec(),
            final(self).inv(),
    {
        self.reset_scroll_region();
        self.put_default_modes();
    }

    /// Switch to the alternate screen (see [`GridView::enter_alt_spec`]).
    pub fn enter_alt(&mut self, clear: bool)
        requires
            old(self).inv(),
        ensures
            final(self)@ === old(self)@.enter_alt_spec(clear),
            final(self).inv(),
    {
        if self.is_alt() {
            if clear {
                self.clear_all();
                self.set_cursor(0, 0);
            }
            return;
        }
        let blank = self.blank_cell();
        let cols = self.cols();
        let rows = self.rows();
        let fresh = filled_rows(&blank, cols, rows);
        self.swap_in_alt(fresh);
        self.bump();
    }

    /// The main screen state set aside and `fresh` installed as the
    /// alternate screen.
    fn swap_in_alt(&mut self, fresh: Vec<Vec<super::Cell>>)
        requires
            old(self).inv(),
            !old(self)@.in_alt,
            rows_view(fresh@) == old(self)@.blank_screen(),
        ensures
            final(self)@.bump() === old(self)@.enter_alt_spec(false),
            final(self).inv(),
    {
        proof {
            reveal(<Grid as View>::view);
        }
        let ghost v = self@;
        let mut main = fresh;
        std::mem::swap(&mut main, &mut self.cells);
        self.saved_main_cells = Some(main);
        self.saved_main_cursor = Some(self.cursor);
        self.saved_main_saved_cursor = self.saved_cursor;
        self.saved_main_saved_pen = self.saved_pen;
        self.saved_main_saved_style = self.saved_style;
        self.saved_main_saved_origin = self.saved_origin;
        self.saved_main_scroll_top = Some(self.scroll_top);
        self.saved_main_scroll_bottom = Some(self.scroll_bottom);
        self.saved_main_origin = Some(self.origin_mode);
        self.saved_main_insert = Some(self.insert_mode);
        self.saved_main_wrap = Some(self.auto_wrap);
        self.cursor = Cursor { x: 0, y: 0 };
        self.saved_cursor = None;
        self.saved_pen = None;
        self.saved_style = None;
        self.saved_origin = None;
        self.scroll_top = 0;
        self.scroll_bottom = self.rows - 1;
        self.origin_mode = false;
        self.insert_mode = false;
        self.auto_wrap = true;
        self.in_alt = true;
        self.scroll_offset = 0;
        proof {
            assert(self@.bump() =~= v.enter_alt_spec(false));
        }
    }

    /// Leave the alternate screen (see [`GridView::exit_alt_spec`]).
    pub fn exit_alt(&mut self)
        requires
            old(self).inv(),
        ensures
            final(self)@ === old(self)@.exit_alt_spec(),
            final(self).inv(),
    {
        if !self.is_alt() {
            return;
        }
        self.swap_out_alt();
        self.clamp_cursor_to_margins();
        self.bump();
    }

    /// The cursor and margins that leaving the alternate screen restores.
    fn exit_values(&self) -> (r: (Cursor, usize, usize))
        requires
            self.inv(),
        ensures
            r.0 == self@.exit_fields_spec().cursor,
            r.1 == self@.exit_fields_spec().scroll_top,
            r.2 == self@.exit_fields_spec().scroll_bottom,
            r.0.x <= self@.cols,
            r.0.y < self@.rows,
            r.1 <= r.2 < self@.rows,
    {
        proof {
            lemma_view(self);
        }
        let rows = self.rows;
        let (st, sb) = match (self.saved_main_scroll_top, self.saved_main_scroll_bottom) {
            (Some(t), Some(b)) => {
                let st = if t < rows - 1 {
                    t
                } else {
                    rows - 1
                };
                let sb = if b < rows - 1 {
                    b
                } else {
                    rows - 1
                };
                if st >= sb && rows > 1 {
                    (0, rows - 1)
                } else {
                    (st, sb)
                }
            },
            _ => (self.scroll_top, self.scroll_bottom),
        };
        let cursor = match self.saved_main_cursor {
            Some(c) => clamp_cursor_exec(c, self.cols, rows),
            None => self.cursor,
        };
        (cursor, st, sb)
    }

    /// The main screen state put back, before the cursor is clamped into
    /// the margins.
    fn swap_out_alt(&mut self)
        requires
            old(self).inv(),
            old(self)@.in_alt,
        ensures
            final(self)@ === old(self)@.exit_fields_spec(),
            final(self).inv(),
    {
        let ghost v = self@;
        let (cursor, st, sb) = self.exit_values();
        let main = self.take_saved_main();
        let cells = match main {
            Some(m) => m,
            None => {
                proof {
                    assert(false);
                }
                Vec::new()
            },
        };
        let (sc, sp, ss, so, mo, mi, mw) = self.saved_main_state();
        let origin = match mo {
            Some(o) => o,
            None => self.origin_mode(),
        };
        let insert = match mi {
            Some(i) => i,
            None => self.insert_mode(),
        };
        let wrap = match mw {
            Some(w) => w,
            None => self.auto_wrap(),
        };
        let ghost cv = rows_view(cells@);
        self.put_main_state(cells, cursor, sc, sp, ss, so, st, sb, origin, insert, wrap);
        proof {
            assert(self@ === v.with_main_state(cv, cursor, st, sb));
            let m = v.saved_main_cells->0;
            assert(m.len() == v.rows && super::rows_have_width(m, v.cols));
        }
    }

    /// Takes the kept-aside main screen out.
    fn take_saved_main(&mut self) -> (r: Option<Vec<Vec<super::Cell>>>)
        ensures
            match old(self)@.saved_main_cells {
                Some(m) => r is Some && rows_view(r->0@) == m,
                None => r is None,
            },
            final(self)@ === (GridView { saved_main_cells: None, ..old(self)@ }),
    {
        proof {
            reveal(<Grid as View>::view);
        }
        let r = self.saved_main_cells.take();
        proof {
            assert(self@ =~= (GridView { saved_main_cells: None, ..old(self)@ }));
        }
        r
    }

    /// The kept-aside saved cursor state and modes of the main screen.
    fn saved_main_state(&self) -> (r: (
        Option<Cursor>,
        Option<super::Pen>,
        Option<CursorStyle>,
        Option<bool>,
        Option<bool>,
        Option<bool>,
        Option<bool>,
    ))
        ensures
            r == (
                self@.saved_main_saved_cursor,
                self@.saved_main_saved_pen,
                self@.saved_main_saved_style,
                self@.saved_main_saved_origin,
                self@.saved_main_origin,
                self@.saved_main_insert,
                self@.saved_main_wrap,
            ),
    {
        proof {
            lemma_view(self);
        }
        (
            self.saved_main_saved_cursor,
            self.saved_main_saved_pen,
            self.saved_main_saved_style,
            self.saved_main_saved_origin,
            self.saved_main_origin,
            self.saved_main_insert,
            self.saved_main_wrap,
        )
    }

    /// Installs the main screen state and leaves the alternate screen.
    #[verifier::rlimit(60)]
    fn put_main_state(
        &mut self,
        cells: Vec<Vec<super::Cell>>,
        cursor: Cursor,
        sc: Option<Cursor>,
        sp: Option<super::Pen>,
        ss: Option<CursorStyle>,
        so: Option<bool>,
        st: usize,
        sb: usize,
        origin: bool,
        insert: bool,
        wrap: bool,
    )
        ensures
            final(self)@ === (GridView {
                cells: rows_view(cells@),
                cursor,
                saved_main_cells: None,
                saved_main_cursor: None,
                saved_cursor: sc,
                saved_pen: sp,
                saved_style: ss,
                saved_origin: so,
                saved_main_saved_cursor: None,
                saved_main_saved_pen: None,
                saved_main_saved_style: None,
                saved_main_saved_origin: None,
                scroll_top: st,
                scroll_bottom: sb,
                saved_main_scroll_top: None,
                saved_main_scroll_bottom: None,
                origin_mode: origin,
                insert_mode: insert,
                auto_wrap: wrap,
                saved_main_origin: None,
                saved_main_insert: None,
                saved_main_wrap: None,
                in_alt: false,
                scroll_offset: 0,
                ..old(self)@
            }),
    {
        proof {
            reveal(<Grid as View>::view);
        }
        self.cells = cells;
        self.cursor = cursor;
        self.saved_main_cells = None;
        self.saved_main_cursor = None;
        self.saved_cursor = sc;
        self.saved_pen = sp;
        self.saved_style = ss;
        self.saved_origin = so;
        self.saved_main_saved_cursor = None;
        self.saved_main_saved_pen = None;
        self.saved_main_saved_style = None;
        self.saved_main_saved_origin = None;
        self.scroll_top = st;
        self.scroll_bottom = sb;
        self.saved_main_scroll_top = None;
        self.saved_main_scroll_bottom = None;
        self.origin_mode = origin;
        self.insert_mode = insert;
        self.auto_wrap = wrap;
        self.saved_main_origin = None;
        self.saved_main_insert = None;
        self.saved_main_wrap = None;
        self.in_alt = false;
        self.scroll_offset = 0;
    }

    pub(crate) fn put_pen(&mut self, pen: super::Pen)
        requires
            old(self).inv(),
        ensures
            final(self)@ === (GridView { pen, ..old(self)@ }),
            final(self).inv(),
    {
        proof {
            reveal(<Grid as View>::view);
        }
        self.pen = pen;
        proof {
            assert(self@ =~= (GridView { pen, ..old(self)@ }));
        }
    }

    fn put_cursor_enabled(&mut self, enabled: bool)
        requires
            old(self).inv(),
        ensures
            final(self)@ === (GridView { cursor_enabled: enabled, ..old(self)@ }),
            final(self).inv(),
    {
        proof {
            reveal(<Grid as View>::view);
        }
        self.cursor_enabled = enabled;
        proof {
            assert(self@ =~= (GridView { cursor_enabled: enabled, ..old(self)@ }));
        }
    }

    fn put_bracketed_paste(&mut self, enabled: bool)
        requires
            old(self).inv(),
        ensures
            final(self)@ === (GridView { bracketed_paste: enabled, ..old(self)@ }),
            final(self).inv(),
    {
        proof {
            reveal(<Grid as View>::view);
        }
        self.bracketed_paste = enabled;
        proof {
            assert(self@ =~= (GridView { bracketed_paste: enabled, ..old(self)@ }));
        }
    }

    fn put_cursor_app(&mut self, enabled: bool)
        requires
            old(self).inv(),
        ensures
            final(self)@ === (GridView { cursor_app: enabled, ..old(self)@ }),
            final(self).inv(),
    {
        proof {
            reveal(<Grid as View>::view);
        }
        self.cursor_app = enabled;
        proof {
            assert(self@ =~= (GridView { cursor_app: enabled, ..old(self)@ }));
        }
    }

    fn put_keypad_app(&mut self, enabled: bool)
        requires
            old(self).inv(),
        ensures
            final(self)@ === (GridView { keypad_app: enabled, ..old(self)@ }),
            final(self).inv(),
    {
        proof {
            reveal(<Grid as View>::view);
        }
        self.keypad_app = enabled;
        proof {
            assert(self@ =~= (GridView { keypad_app: enabled, ..old(self)@ }));
        }
    }

    fn put_insert_mode(&mut self, enabled: bool)
        requires
            old(self).inv(),
        ensures
            final(self)@ === (GridView { insert_mode: enabled, ..old(self)@ }),
            final(self).inv(),
    {
        proof {
            reveal(<Grid as View>::view);
        }
        self.insert_mode = enabled;
        proof {
            assert(self@ =~= (GridView { insert_mode: enabled, ..old(self)@ }));
        }
    }

    fn put_auto_wrap(&mut self, enabled: bool)
        requires
            old(self).inv(),
        ensures
            final(self)@ === (GridView { auto_wrap: enabled, ..old(self)@ }),
            final(self).inv(),
    {
        proof {
            reveal(<Grid as View>::view);
        }
        self.auto_wrap = enabled;
        proof {
            assert(self@ =~= (GridView { auto_wrap: enabled, ..old(self)@ }));
        }
    }

    fn put_cursor_style(&mut self, style: CursorStyle)
        requires
            old(self).inv(),
        ensures
            final(self)@ === (GridView { cursor_style: style, ..old(self)@ }),
            final(self).inv(),
    {
        proof {
            reveal(<Grid as View>::view);
        }
        self.cursor_style = style;
        proof {
            assert(self@ =~= (GridView { cursor_style: style, ..old(self)@ }));
        }
    }

    fn put_origin_mode(&mut self, enabled: bool)
        requires
            old(self).inv(),
        ensures
            final(self)@ === (GridView { origin_mode: enabled, ..old(self)@ }),
            final(self).inv(),
    {
        proof {
            reveal(<Grid as View>::view);
        }
        self.origin_mode = enabled;
        proof {
            assert(self@ =~= (GridView { origin_mode: enabled, ..old(self)@ }));
        }
    }

    fn put_default_modes(&mut self)
        requires
            old(self).inv(),
        ensures
            final(self)@ === (GridView {
                origin_mode: false,
                insert_mode: false,
                auto_wrap: true,
                ..old(self)@
            }),
            final(self).inv(),
    {
        proof {
            reveal(<Grid as View>::view);
        }
        self.origin_mode = false;
        self.insert_mode = false;
        self.auto_wrap = true;
        proof {
            assert(self@ =~= (GridView {
                origin_mode: false,
                insert_mode: false,
                auto_wrap: true,
                ..old(self)@
            }));
        }
    }
}

} // verus!
