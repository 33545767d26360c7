use cometty::grid::{Cell, Cursor, CursorShape, CursorStyle, Grid, MouseMode, TerminalConfig};
use cometty::theme::Theme;

fn test_theme() -> Theme {
    Theme::default()
}

#[test]
fn grid_put_and_wrap() {
    let mut g = Grid::new(3, 2, test_theme());
    g.put_char('a');
    g.put_char('b');
    g.put_char('c');
    assert_eq!(g.cursor(), Cursor { x: 3, y: 0 });
    g.handle_wrap_if_needed();
    assert_eq!(g.cursor(), Cursor { x: 0, y: 1 });
    g.put_char('d');
    assert_eq!(
        g.cell(0, 0),
        Some(Cell {
            ch: 'a',
            ..Default::default()
        })
    );
    assert_eq!(g.cell(0, 1).unwrap().ch, 'd');
}

#[test]
fn mod_put_and_wrap() {
    let mut g = Grid::new(3, 2, test_theme());
    g.put_char('a');
    g.put_char('b');
    g.put_char('c');
    assert_eq!(g.cursor(), Cursor { x: 3, y: 0 });
    g.handle_wrap_if_needed();
    assert_eq!(g.cursor(), Cursor { x: 0, y: 1 });
    g.put_char('d');
    assert_eq!(
        g.cell(0, 0),
        Some(Cell {
            ch: 'a',
            ..Default::default()
        })
    );
    assert_eq!(g.cell(0, 1).unwrap().ch, 'd');
}

#[test]
fn grid_newline_scrolls_with_scrollback() {
    let mut g = Grid::new(2, 2, test_theme());
    g.put_char('a');
    g.newline();
    g.put_char('b');
    g.newline();
    // scrolled once (a moved to scrollback)
    assert_eq!(g.scrollback_len(), 1);
    // next newline scrolls again
    g.newline();
    assert_eq!(g.scrollback_len(), 2);
}

#[test]
fn mod_newline_scrolls_with_scrollback() {
    let mut g = Grid::new(2, 2, test_theme());
    g.put_char('a');
    g.newline();
    g.put_char('b');
    g.newline();
    // scrolled once (a moved to scrollback)
    assert_eq!(g.scrollback_len(), 1);
    // next newline scrolls again
    g.newline();
    assert_eq!(g.scrollback_len(), 2);
}

#[test]
fn grid_sgr_basic() {
    let theme = test_theme();
    let mut g = Grid::new(5, 2, theme);
    g.sgr(&[31]);
    assert_eq!(g.pen().fg, theme.ansi(1));
    g.sgr(&[0]);
    assert_eq!(g.pen().fg, theme.foreground);
    assert_eq!(g.pen().bg, theme.background);
}

#[test]
fn mod_sgr_basic() {
    let theme = test_theme();
    let mut g = Grid::new(5, 2, theme);
    g.sgr(&[31]);
    assert_eq!(g.pen().fg, theme.ansi(1));
    g.sgr(&[0]);
    assert_eq!(g.pen().fg, theme.foreground);
    assert_eq!(g.pen().bg, theme.background);
}

#[test]
fn grid_erase_display() {
    let mut g = Grid::new(3, 2, test_theme());
    g.put_char('x');
    g.erase_in_display(2);
    assert_eq!(g.cell(0, 0).unwrap().ch, ' ');
}

#[test]
fn mod_erase_display() {
    let mut g = Grid::new(3, 2, test_theme());
    g.put_char('x');
    g.erase_in_display(2);
    assert_eq!(g.cell(0, 0).unwrap().ch, ' ');
}

#[test]
fn set_theme_bumps_version_only_on_change() {
    let mut g = Grid::new(3, 2, test_theme());
    let v = g.version;
    g.set_theme(test_theme());
    assert_eq!(g.version, v);
    g.set_theme(Theme::vscode());
    assert_ne!(g.version, v);
    assert_eq!(g.theme(), Theme::vscode());
}

#[test]
fn apply_terminal_config_truncates_scrollback() {
    let mut cfg = TerminalConfig::default();
    cfg.scrollback_lines = 10;
    let mut g = Grid::new_with_config(2, 2, test_theme(), &cfg, CursorStyle::default());
    for _ in 0..5 {
        g.newline();
    }
    // 2-row grid: first newline moves within the viewport, the rest scroll.
    assert_eq!(g.scrollback_len(), 4);
    cfg.scrollback_lines = 2;
    cfg.tab_stop = 4;
    g.apply_terminal_config(&cfg);
    assert_eq!(g.scrollback_len(), 2);
}

#[test]
fn apply_terminal_config_repairs_dims() {
    let mut g = Grid::new(4, 2, test_theme());
    let mut t = TerminalConfig::default();
    t.min_dim = 9999;
    t.max_dim = 10;
    t.tab_stop = 0;
    g.apply_terminal_config(&t);
    g.resize(100_000, 100_000);
    assert!(g.cols() <= 9999);
    assert!(g.cols() >= 10);
}

#[test]
fn grid_resize_preserves() {
    let mut g = Grid::new(4, 2, test_theme());
    g.put_char('h');
    g.put_char('i');
    g.resize(2, 2);
    assert_eq!(g.cell(0, 0).unwrap().ch, 'h');
    assert_eq!(g.cell(1, 0).unwrap().ch, 'i');
    g.resize(6, 3);
    assert_eq!(g.cell(0, 0).unwrap().ch, 'h');
}

#[test]
fn mod_resize_preserves() {
    let mut g = Grid::new(4, 2, test_theme());
    g.put_char('h');
    g.put_char('i');
    g.resize(2, 2);
    assert_eq!(g.cell(0, 0).unwrap().ch, 'h');
    assert_eq!(g.cell(1, 0).unwrap().ch, 'i');
    g.resize(6, 3);
    assert_eq!(g.cell(0, 0).unwrap().ch, 'h');
}

#[test]
fn grid_alt_buffer_isolates_and_restores() {
    let mut g = Grid::new(4, 2, test_theme());
    g.put_char('a');
    g.enter_alt(true);
    assert!(g.is_alt());
    assert_eq!(g.cell(0, 0).unwrap().ch, ' ');
    g.put_char('b');
    assert_eq!(g.cell(0, 0).unwrap().ch, 'b');
    g.exit_alt();
    assert!(!g.is_alt());
    assert_eq!(g.cell(0, 0).unwrap().ch, 'a');
}

#[test]
fn mod_alt_buffer_isolates_and_restores() {
    let mut g = Grid::new(4, 2, test_theme());
    g.put_char('a');
    g.enter_alt(true);
    assert!(g.is_alt());
    assert_eq!(g.cell(0, 0).unwrap().ch, ' ');
    g.put_char('b');
    assert_eq!(g.cell(0, 0).unwrap().ch, 'b');
    g.exit_alt();
    assert!(!g.is_alt());
    assert_eq!(g.cell(0, 0).unwrap().ch, 'a');
}

#[test]
fn grid_alt_buffer_suppresses_scrollback() {
    let mut g = Grid::new(2, 2, test_theme());
    g.enter_alt(true);
    g.put_char('x');
    g.newline();
    g.put_char('y');
    g.newline();
    assert_eq!(g.scrollback_len(), 0);
    g.exit_alt();
    assert_eq!(g.scrollback_len(), 0);
}

#[test]
fn mod_alt_buffer_suppresses_scrollback() {
    let mut g = Grid::new(2, 2, test_theme());
    g.enter_alt(true);
    g.put_char('x');
    g.newline();
    g.put_char('y');
    g.newline();
    assert_eq!(g.scrollback_len(), 0);
    g.exit_alt();
    assert_eq!(g.scrollback_len(), 0);
}

#[test]
fn grid_cursor_and_bracketed_flags_toggle() {
    let mut g = Grid::new(2, 2, test_theme());
    assert!(g.cursor_enabled());
    assert!(!g.bracketed_paste());
    g.set_cursor_enabled(false);
    g.set_bracketed_paste(true);
    assert!(!g.cursor_enabled());
    assert!(g.bracketed_paste());
}

#[test]
fn mod_cursor_and_bracketed_flags_toggle() {
    let mut g = Grid::new(2, 2, test_theme());
    assert!(g.cursor_enabled());
    assert!(!g.bracketed_paste());
    g.set_cursor_enabled(false);
    g.set_bracketed_paste(true);
    assert!(!g.cursor_enabled());
    assert!(g.bracketed_paste());
}

#[test]
fn grid_scroll_offset_clamps_and_views_history() {
    let mut g = Grid::new(2, 2, test_theme());
    g.put_char('a');
    g.newline();
    g.put_char('b');
    g.newline();
    g.put_char('c');
    assert_eq!(g.scrollback_len(), 1);
    assert_eq!(g.scroll_offset(), 0);
    // Live view: b, c rows
    assert_eq!(g.view_rows()[0][0].ch, 'b');
    assert!(g.scroll_by(5));
    assert_eq!(g.scroll_offset(), 1);
    // Scrolled up one: a, b rows
    let view = g.view_rows();
    assert_eq!(view[0][0].ch, 'a');
    assert_eq!(view[1][0].ch, 'b');
    assert!(!g.scroll_by(5));
    assert!(g.scroll_to_bottom());
    assert_eq!(g.scroll_offset(), 0);
    assert!(!g.scroll_to_bottom());
}

#[test]
fn mod_scroll_offset_clamps_and_views_history() {
    let mut g = Grid::new(2, 2, test_theme());
    g.put_char('a');
    g.newline();
    g.put_char('b');
    g.newline();
    g.put_char('c');
    assert_eq!(g.scrollback_len(), 1);
    assert_eq!(g.scroll_offset(), 0);
    // Live view: b, c rows
    assert_eq!(g.view_rows()[0][0].ch, 'b');
    assert!(g.scroll_by(5));
    assert_eq!(g.scroll_offset(), 1);
    // Scrolled up one: a, b rows
    let view = g.view_rows();
    assert_eq!(view[0][0].ch, 'a');
    assert_eq!(view[1][0].ch, 'b');
    assert!(!g.scroll_by(5));
    assert!(g.scroll_to_bottom());
    assert_eq!(g.scroll_offset(), 0);
    assert!(!g.scroll_to_bottom());
}

#[test]
fn grid_new_output_sticks_to_bottom() {
    let mut g = Grid::new(2, 2, test_theme());
    g.put_char('a');
    g.newline();
    g.put_char('b');
    g.newline();
    assert!(g.scroll_by(1));
    g.put_char('z');
    assert_eq!(g.scroll_offset(), 0);
}

#[test]
fn mod_new_output_sticks_to_bottom() {
    let mut g = Grid::new(2, 2, test_theme());
    g.put_char('a');
    g.newline();
    g.put_char('b');
    g.newline();
    assert!(g.scroll_by(1));
    g.put_char('z');
    assert_eq!(g.scroll_offset(), 0);
}

#[test]
fn grid_scroll_disabled_in_alt() {
    let mut g = Grid::new(2, 2, test_theme());
    g.put_char('a');
    g.newline();
    g.put_char('b');
    g.newline();
    g.enter_alt(true);
    assert!(!g.scroll_by(1));
    assert_eq!(g.scroll_offset(), 0);
    g.exit_alt();
    assert!(g.scroll_by(1));
}

#[test]
fn mod_scroll_disabled_in_alt() {
    let mut g = Grid::new(2, 2, test_theme());
    g.put_char('a');
    g.newline();
    g.put_char('b');
    g.newline();
    g.enter_alt(true);
    assert!(!g.scroll_by(1));
    assert_eq!(g.scroll_offset(), 0);
    g.exit_alt();
    assert!(g.scroll_by(1));
}

#[test]
fn grid_ed3_clears_scrollback() {
    let mut g = Grid::new(2, 2, test_theme());
    g.put_char('a');
    g.newline();
    g.put_char('b');
    g.newline();
    assert_eq!(g.scrollback_len(), 1);
    g.scroll_by(1);
    g.erase_in_display(3);
    assert_eq!(g.scrollback_len(), 0);
    assert_eq!(g.scroll_offset(), 0);
}

#[test]
fn mod_ed3_clears_scrollback() {
    let mut g = Grid::new(2, 2, test_theme());
    g.put_char('a');
    g.newline();
    g.put_char('b');
    g.newline();
    assert_eq!(g.scrollback_len(), 1);
    g.scroll_by(1);
    g.erase_in_display(3);
    assert_eq!(g.scrollback_len(), 0);
    assert_eq!(g.scroll_offset(), 0);
}

#[test]
fn erase_uses_pen_bg_consistently() {
    let theme = test_theme();
    let red = theme.ansi(1);
    let mut g = Grid::new(4, 3, theme);
    g.sgr(&[41, 1]);
    // ED 2 clears everything with pen bg, dropping bold.
    g.erase_in_display(2);
    let c = g.cell(0, 0).unwrap();
    assert_eq!(c.bg, red);
    assert_eq!(c.fg, theme.foreground);
    assert!(!c.bold);

    // EL 2 clears the cursor row with pen bg.
    g.sgr(&[0]);
    g.sgr(&[44, 1]);
    let blue = theme.ansi(4);
    g.set_cursor(1, 1);
    g.erase_in_line(2);
    let c = g.cell(0, 1).unwrap();
    assert_eq!(c.bg, blue);
    assert!(!c.bold);

    // ED 1 (start to cursor) matches ED 0 / EL behavior.
    g.set_cursor(2, 1);
    g.erase_in_display(1);
    assert_eq!(g.cell(0, 0).unwrap().bg, blue);
    assert_eq!(g.cell(2, 1).unwrap().bg, blue);
    // Below-cursor rows are untouched by ED 1.
    assert_eq!(g.cell(0, 2).unwrap().bg, red);

    // IL / DL fill with pen bg.
    g.set_cursor(0, 0);
    g.insert_lines(1);
    assert_eq!(g.cell(0, 0).unwrap().bg, blue);
    g.delete_lines(1);
    assert_eq!(g.cell(0, 2).unwrap().bg, blue);

    // Scroll fill uses pen bg.
    g.scroll_up(1);
    assert_eq!(g.cell(0, 2).unwrap().bg, blue);
    g.scroll_down(1);
    assert_eq!(g.cell(0, 0).unwrap().bg, blue);

    // Structural resize growth stays theme-default, not pen bg.
    g.resize(5, 4);
    assert_eq!(g.cell(4, 0).unwrap().bg, theme.background);
    assert_eq!(g.cell(0, 3).unwrap().bg, theme.background);
}

#[test]
fn cursor_style_save_restore_across_alt() {
    let mut g = Grid::new(2, 2, test_theme());
    assert_eq!(g.cursor_style(), CursorStyle::default());
    g.set_cursor_style(CursorStyle {
        shape: CursorShape::Bar,
        blinking: false,
    });
    g.save_cursor();
    g.set_cursor_style(CursorStyle {
        shape: CursorShape::Underline,
        blinking: true,
    });
    g.restore_cursor();
    assert_eq!(
        g.cursor_style(),
        CursorStyle {
            shape: CursorShape::Bar,
            blinking: false,
        }
    );
    // Style persists across alt; saved state is isolated per buffer.
    g.save_cursor();
    g.enter_alt(true);
    assert_eq!(
        g.cursor_style(),
        CursorStyle {
            shape: CursorShape::Bar,
            blinking: false,
        }
    );
    g.set_cursor_style(CursorStyle {
        shape: CursorShape::Block,
        blinking: true,
    });
    g.exit_alt();
    // Exiting restores the main saved state, not the alt edit.
    g.restore_cursor();
    assert_eq!(
        g.cursor_style(),
        CursorStyle {
            shape: CursorShape::Bar,
            blinking: false,
        }
    );
}

#[test]
fn wide_char_occupies_two_cells() {
    let mut g = Grid::new(5, 2, test_theme());
    g.put_char('中');
    assert_eq!(g.cursor(), Cursor { x: 2, y: 0 });
    let lead = g.cell(0, 0).unwrap();
    let cont = g.cell(1, 0).unwrap();
    assert_eq!(lead.width, 2);
    assert_eq!(lead.ch, '中');
    assert_eq!(cont.width, 0);
    assert_eq!(g.cell(2, 0).unwrap().ch, ' ');
}

#[test]
fn wide_char_wraps_at_margin() {
    // 4 cols: `ab` fills 0-1, wide needs 2-3, next wide must wrap.
    let mut g = Grid::new(4, 2, test_theme());
    g.put_char('a');
    g.put_char('b');
    g.put_char('中');
    assert_eq!(g.cursor(), Cursor { x: 4, y: 0 });
    // Only one column left on row 0 is impossible for wide: next wide
    // pads and wraps to row 1.
    g.handle_wrap_if_needed();
    g.put_char('あ');
    assert_eq!(g.cell(0, 1).unwrap().ch, 'あ');
    assert_eq!(g.cell(1, 1).unwrap().width, 0);
}

#[test]
fn wide_at_last_column_pads_and_wraps() {
    let mut g = Grid::new(3, 2, test_theme());
    g.put_char('a');
    g.put_char('b');
    // Cursor at last column (2); wide doesn't fit.
    g.put_char('中');
    assert_eq!(g.cell(2, 0).unwrap().ch, ' ');
    assert_eq!(g.cell(0, 1).unwrap().ch, '中');
    assert_eq!(g.cell(1, 1).unwrap().width, 0);
}

#[test]
fn narrow_overwrites_wide_clears_continuation() {
    let mut g = Grid::new(4, 1, test_theme());
    g.put_char('中');
    g.set_cursor(0, 0);
    g.put_char('x');
    assert_eq!(g.cell(0, 0).unwrap().ch, 'x');
    assert_eq!(g.cell(0, 0).unwrap().width, 1);
    assert_eq!(g.cell(1, 0).unwrap().ch, ' ');
    assert_eq!(g.cell(1, 0).unwrap().width, 1);
}

#[test]
fn overwrite_continuation_clears_lead() {
    let mut g = Grid::new(4, 1, test_theme());
    g.put_char('中');
    g.set_cursor(1, 0);
    // Cursor snaps to lead via set_cursor, so force the split case by
    // writing at the continuation through direct positioning is not
    // possible; instead verify a narrow write at 0 clears, and a wide
    // write splitting a neighbor clears correctly.
    g.set_cursor(0, 0);
    g.put_char('a');
    g.put_char('b');
    // Row: a b _ _ ; write wide at 1 (splits nothing, fits 1-2).
    g.set_cursor(1, 0);
    g.put_char('あ');
    assert_eq!(g.cell(1, 0).unwrap().ch, 'あ');
    assert_eq!(g.cell(2, 0).unwrap().width, 0);
}

#[test]
fn combining_appends_without_advance() {
    let mut g = Grid::new(5, 1, test_theme());
    g.put_char('e');
    assert_eq!(g.cursor(), Cursor { x: 1, y: 0 });
    g.put_char('\u{0301}');
    assert_eq!(g.cursor(), Cursor { x: 1, y: 0 });
    let c = g.cell(0, 0).unwrap();
    assert_eq!(c.cluster(), "e\u{0301}");
    assert_eq!(c.width, 1);
}

#[test]
fn zwj_sequence_stays_in_one_wide_cell() {
    let mut g = Grid::new(6, 1, test_theme());
    for c in "👨\u{200D}👩\u{200D}👧".chars() {
        g.put_char(c);
    }
    let lead = g.cell(0, 0).unwrap();
    assert_eq!(lead.width, 2);
    assert_eq!(lead.cluster(), "👨\u{200D}👩\u{200D}👧");
    assert_eq!(g.cell(1, 0).unwrap().width, 0);
    // Whole family took one wide cell: cursor advanced once.
    assert_eq!(g.cursor(), Cursor { x: 2, y: 0 });
}

#[test]
fn flag_pair_is_single_wide_cell() {
    let mut g = Grid::new(6, 1, test_theme());
    for c in "🇺🇸".chars() {
        g.put_char(c);
    }
    let lead = g.cell(0, 0).unwrap();
    assert_eq!(lead.width, 2);
    assert_eq!(lead.cluster(), "🇺🇸");
    assert_eq!(g.cursor(), Cursor { x: 2, y: 0 });
}

#[test]
fn backspace_steps_over_wide() {
    let mut g = Grid::new(5, 1, test_theme());
    g.put_char('中');
    assert_eq!(g.cursor().x, 2);
    g.backspace();
    assert_eq!(g.cursor().x, 0);
}

#[test]
fn erase_repairs_split_wide() {
    let mut g = Grid::new(4, 1, test_theme());
    g.put_char('中');
    // Erase only the lead half; the continuation must not dangle.
    g.set_cursor(0, 0);
    g.erase_in_line(0);
    assert_eq!(g.cell(0, 0).unwrap().width, 1);
    assert_eq!(g.cell(1, 0).unwrap().width, 1);
}

#[test]
fn resize_repairs_stranded_wide() {
    let mut g = Grid::new(4, 1, test_theme());
    g.put_char('a');
    g.put_char('b');
    g.put_char('中'); // occupies cols 2-3
    g.resize(3, 1);
    // Lead at col 2 lost its continuation: repaired to space.
    assert_eq!(g.cell(2, 0).unwrap().width, 1);
    assert_eq!(g.cell(2, 0).unwrap().ch, ' ');
}

#[test]
fn scroll_region_newline_preserves_outside() {
    let mut g = Grid::new(3, 5, test_theme());
    for (y, ch) in [(0, 'a'), (1, 'b'), (2, 'c'), (3, 'd'), (4, 'e')] {
        g.set_cursor(0, y);
        g.put_char(ch);
    }
    assert!(g.set_scroll_region(1, 3));
    assert_eq!(g.scroll_region(), (1, 3));
    // Cursor homes to region top (origin off).
    assert_eq!(g.cursor(), Cursor { x: 0, y: 0 });
    g.set_cursor(0, 3);
    g.newline();
    // Region [b,c,d] scrolled to [c,d,blank]; outside untouched.
    assert_eq!(g.cell(0, 0).unwrap().ch, 'a');
    assert_eq!(g.cell(0, 1).unwrap().ch, 'c');
    assert_eq!(g.cell(0, 2).unwrap().ch, 'd');
    assert_eq!(g.cell(0, 3).unwrap().ch, ' ');
    assert_eq!(g.cell(0, 4).unwrap().ch, 'e');
    // Partial-region scroll never touches scrollback.
    assert_eq!(g.scrollback_len(), 0);
}

#[test]
fn scroll_region_invalid_is_ignored() {
    let mut g = Grid::new(3, 4, test_theme());
    assert!(!g.set_scroll_region(2, 2));
    assert!(!g.set_scroll_region(3, 1));
    assert_eq!(g.scroll_region(), (0, 3));
}

#[test]
fn newline_outside_region_does_not_scroll() {
    let mut g = Grid::new(2, 4, test_theme());
    assert!(g.set_scroll_region(0, 1));
    g.set_cursor(0, 3);
    g.newline();
    // Stays on the last row, region untouched, no scrollback.
    assert_eq!(g.cursor().y, 3);
    assert_eq!(g.scrollback_len(), 0);
}

#[test]
fn reverse_index_at_region_top_scrolls_down() {
    let mut g = Grid::new(2, 4, test_theme());
    for (y, ch) in [(0, 'a'), (1, 'b'), (2, 'c'), (3, 'd')] {
        g.set_cursor(0, y);
        g.put_char(ch);
    }
    assert!(g.set_scroll_region(1, 2));
    g.set_cursor(0, 1);
    g.reverse_index();
    assert_eq!(g.cell(0, 1).unwrap().ch, ' ');
    assert_eq!(g.cell(0, 2).unwrap().ch, 'b');
    assert_eq!(g.cell(0, 0).unwrap().ch, 'a');
    assert_eq!(g.cell(0, 3).unwrap().ch, 'd');
}

#[test]
fn insert_delete_lines_constrained_to_region() {
    let mut g = Grid::new(2, 4, test_theme());
    for (y, ch) in [(0, 'a'), (1, 'b'), (2, 'c'), (3, 'd')] {
        g.set_cursor(0, y);
        g.put_char(ch);
    }
    assert!(g.set_scroll_region(1, 2));
    g.set_cursor(0, 1);
    g.insert_lines(1);
    assert_eq!(g.cell(0, 1).unwrap().ch, ' ');
    assert_eq!(g.cell(0, 2).unwrap().ch, 'b');
    assert_eq!(g.cell(0, 0).unwrap().ch, 'a');
    assert_eq!(g.cell(0, 3).unwrap().ch, 'd');
    g.delete_lines(1);
    assert_eq!(g.cell(0, 1).unwrap().ch, 'b');
    assert_eq!(g.cell(0, 2).unwrap().ch, ' ');
    // Outside the margins IL/DL are no-ops.
    g.set_cursor(0, 0);
    g.insert_lines(1);
    assert_eq!(g.cell(0, 0).unwrap().ch, 'a');
    g.delete_lines(1);
    assert_eq!(g.cell(0, 0).unwrap().ch, 'a');
}

#[test]
fn origin_mode_clamps_cursor_to_margins() {
    let mut g = Grid::new(3, 5, test_theme());
    assert!(g.set_scroll_region(1, 3));
    g.set_origin_mode(true);
    // DECOM homes to the region top.
    assert_eq!(g.cursor(), Cursor { x: 0, y: 1 });
    g.set_cursor(0, 0);
    assert_eq!(g.cursor().y, 1);
    g.set_cursor(0, 4);
    assert_eq!(g.cursor().y, 3);
    g.set_cursor(0, 2);
    g.move_cursor(0, -5);
    assert_eq!(g.cursor().y, 1);
    g.move_cursor(0, 5);
    assert_eq!(g.cursor().y, 3);
    g.set_origin_mode(false);
    g.set_cursor(0, 0);
    assert_eq!(g.cursor().y, 0);
}

#[test]
fn insert_mode_shifts_line_right() {
    let mut g = Grid::new(4, 1, test_theme());
    g.set_cursor(0, 0);
    g.put_char('a');
    g.put_char('b');
    g.put_char('c');
    g.set_cursor(1, 0);
    g.set_insert_mode(true);
    g.put_char('X');
    assert_eq!(g.cell(0, 0).unwrap().ch, 'a');
    assert_eq!(g.cell(1, 0).unwrap().ch, 'X');
    assert_eq!(g.cell(2, 0).unwrap().ch, 'b');
    assert_eq!(g.cell(3, 0).unwrap().ch, 'c');
}

#[test]
fn no_wrap_overwrites_last_column() {
    let mut g = Grid::new(3, 2, test_theme());
    g.set_auto_wrap(false);
    g.set_cursor(0, 0);
    g.put_char('a');
    g.put_char('b');
    g.put_char('c');
    g.put_char('d');
    assert_eq!(g.cell(0, 0).unwrap().ch, 'a');
    assert_eq!(g.cell(1, 0).unwrap().ch, 'b');
    assert_eq!(g.cell(2, 0).unwrap().ch, 'd');
    assert_eq!(g.cursor(), Cursor { x: 2, y: 0 });
    assert_eq!(g.cell(0, 1).unwrap().ch, ' ');
}

#[test]
fn save_restore_keeps_origin_mode() {
    let mut g = Grid::new(3, 4, test_theme());
    assert!(g.set_scroll_region(1, 2));
    g.set_origin_mode(true);
    g.set_cursor(1, 1);
    g.save_cursor();
    g.set_origin_mode(false);
    g.set_cursor(0, 0);
    g.restore_cursor();
    assert!(g.origin_mode());
    assert_eq!(g.cursor(), Cursor { x: 1, y: 1 });
}

#[test]
fn alt_buffer_saves_and_restores_margins_and_modes() {
    let mut g = Grid::new(3, 4, test_theme());
    assert!(g.set_scroll_region(1, 2));
    g.set_origin_mode(true);
    g.set_insert_mode(true);
    g.set_auto_wrap(false);
    g.enter_alt(true);
    assert_eq!(g.scroll_region(), (0, 3));
    assert!(!g.origin_mode());
    assert!(!g.insert_mode());
    assert!(g.auto_wrap());
    g.exit_alt();
    assert_eq!(g.scroll_region(), (1, 2));
    assert!(g.origin_mode());
    assert!(g.insert_mode());
    assert!(!g.auto_wrap());
}

#[test]
fn resize_resets_margins_to_full() {
    let mut g = Grid::new(3, 4, test_theme());
    assert!(g.set_scroll_region(1, 2));
    g.resize(3, 5);
    assert_eq!(g.scroll_region(), (0, 4));
}

#[test]
fn mouse_mode_reports_motion_only_when_expected() {
    assert!(!MouseMode::Off.reports_motion(false));
    assert!(!MouseMode::Off.reports_motion(true));
    assert!(!MouseMode::Press.reports_motion(true));
    assert!(!MouseMode::Drag.reports_motion(false));
    assert!(MouseMode::Drag.reports_motion(true));
    assert!(MouseMode::Any.reports_motion(false));
    assert!(MouseMode::Any.reports_motion(true));

    let mut g = Grid::new(4, 2, test_theme());
    assert_eq!(g.mouse_mode(), MouseMode::Off);
    g.set_mouse_press(true);
    g.set_mouse_drag(true);
    assert_eq!(g.mouse_mode(), MouseMode::Drag);
    g.set_mouse_any(true);
    assert_eq!(g.mouse_mode(), MouseMode::Any);
    g.set_mouse_any(false);
    assert_eq!(g.mouse_mode(), MouseMode::Drag);
    g.reset_mouse_and_focus();
    assert_eq!(g.mouse_mode(), MouseMode::Off);
    assert!(!g.in_sync());
    g.sync_begin();
    g.sync_begin();
    assert!(g.in_sync());
    g.sync_end();
    assert!(g.in_sync());
    g.sync_end();
    assert!(!g.in_sync());
}


#[test]
fn tab_uses_the_configured_tab_stop() {
    let cfg = TerminalConfig { tab_stop: 4, ..TerminalConfig::default() };
    let mut g = Grid::new_with_config(20, 2, Theme::default(), &cfg, CursorStyle::default());
    g.tab();
    assert_eq!(g.cursor(), Cursor { x: 4, y: 0 });
    g.tab();
    assert_eq!(g.cursor(), Cursor { x: 8, y: 0 });
    g.set_cursor(17, 0);
    g.tab();
    assert_eq!(g.cursor(), Cursor { x: 19, y: 0 });
    // The default stays every 8 columns.
    let mut d = Grid::new(20, 2, Theme::default());
    d.tab();
    assert_eq!(d.cursor(), Cursor { x: 8, y: 0 });
}

#[test]
fn wide_characters_stay_whole_after_writes() {
    let mut g = Grid::new(4, 2, test_theme());
    g.put_char('a');
    g.put_char('\u{4e2d}');
    g.put_char('\u{6587}');
    // 'a', a wide character over columns 1-2; the second wide character
    // does not fit in column 3 and moves to the next line.
    assert!(g.cell(1, 0).unwrap().is_wide_lead());
    assert!(g.cell(2, 0).unwrap().is_continuation());
    assert!(!g.cell(3, 0).unwrap().is_continuation());
    assert!(g.cell(0, 1).unwrap().is_wide_lead());
    assert!(g.cell(1, 1).unwrap().is_continuation());
    // Overwriting the lead of a wide character blanks its orphaned half.
    g.set_cursor(1, 0);
    g.put_char('b');
    assert_eq!(g.cell(1, 0).unwrap().ch, 'b');
    assert!(!g.cell(2, 0).unwrap().is_continuation());
    assert_eq!(g.cell(2, 0).unwrap().ch, ' ');
}

#[test]
fn restore_cursor_after_intervening_edits() {
    let mut g = Grid::new(6, 4, test_theme());
    g.set_cursor(2, 1);
    g.sgr(&[1]);
    g.save_cursor();
    let saved_pen = g.pen();
    g.put_char('x');
    g.newline();
    g.sgr(&[0]);
    g.move_cursor(3, 2);
    g.set_cursor_style(CursorStyle {
        shape: CursorShape::Bar,
        blinking: false,
    });
    g.restore_cursor();
    assert_eq!(g.cursor(), Cursor { x: 2, y: 1 });
    assert_eq!(g.pen(), saved_pen);
    assert!(!g.origin_mode());
}

#[test]
fn alt_screen_round_trip_after_edits() {
    let mut g = Grid::new(4, 3, test_theme());
    g.put_char('m');
    g.set_cursor(1, 1);
    let main_rows = g.visible_rows().to_vec();
    g.enter_alt(true);
    g.put_char('z');
    g.newline();
    g.newline();
    g.newline();
    g.sgr(&[7]);
    g.erase_in_line(2);
    assert!(g.set_scroll_region(0, 1));
    g.set_origin_mode(true);
    g.set_insert_mode(true);
    g.set_auto_wrap(false);
    g.exit_alt();
    assert!(!g.is_alt());
    assert_eq!(g.visible_rows().to_vec(), main_rows);
    assert_eq!(g.cursor(), Cursor { x: 1, y: 1 });
    assert_eq!(g.scroll_region(), (0, 2));
    assert!(!g.origin_mode());
    assert!(!g.insert_mode());
    assert!(g.auto_wrap());
    assert_eq!(g.scrollback_len(), 0);
    assert_eq!(g.scroll_offset(), 0);
}

#[test]
fn resize_repairs_split_wide_characters() {
    let mut g = Grid::new(4, 2, test_theme());
    g.set_cursor(2, 0);
    g.put_char('\u{4e2d}');
    assert!(g.cell(2, 0).unwrap().is_wide_lead());
    g.resize(3, 2);
    assert!(!g.cell(2, 0).unwrap().is_wide_lead());
    assert!(!g.cell(2, 0).unwrap().is_continuation());
}
