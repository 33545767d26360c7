use cometty::grid::{CursorShape, CursorStyle, TerminalConfig};
use cometty::term::{Terminal, clip_title_text, osc_title, osc_title_capped};
use cometty::theme::Theme;

/// Forwards the parser's callbacks to the terminal.
struct Dispatch<'a>(&'a mut Terminal);

impl vte::Perform for Dispatch<'_> {
    fn print(&mut self, c: char) {
        self.0.print(c);
    }

    fn execute(&mut self, byte: u8) {
        self.0.execute(byte);
    }

    fn csi_dispatch(&mut self, params: &vte::Params, intermediates: &[u8], ignore: bool, action: char) {
        let groups: Vec<Vec<u16>> = params.iter().map(|p| p.to_vec()).collect();
        self.0.csi_dispatch(&groups, intermediates, ignore, action);
    }

    fn esc_dispatch(&mut self, intermediates: &[u8], ignore: bool, byte: u8) {
        self.0.esc_dispatch(intermediates, ignore, byte);
    }

    fn osc_dispatch(&mut self, params: &[&[u8]], bell_terminated: bool) {
        let pieces: Vec<Vec<u8>> = params.iter().map(|p| p.to_vec()).collect();
        self.0.osc_dispatch(&pieces, bell_terminated);
    }
}

fn feed_str(t: &mut Terminal, s: &str) {
    let mut parser = vte::Parser::new();
    parser.advance(&mut Dispatch(t), s.as_bytes());
}

fn test_terminal(cols: usize, rows: usize) -> Terminal {
    Terminal::new(cols, rows, Theme::default())
}

#[test]
fn prints_simple_text() {
    let mut t = test_terminal(10, 5);
    feed_str(&mut t, "hi");
    assert_eq!(t.grid().cell(0, 0).unwrap().ch, 'h');
    assert_eq!(t.grid().cell(1, 0).unwrap().ch, 'i');
}

#[test]
fn handles_crlf() {
    let mut t = test_terminal(10, 5);
    feed_str(&mut t, "a\r\nb");
    assert_eq!(t.grid().cell(0, 0).unwrap().ch, 'a');
    assert_eq!(t.grid().cell(0, 1).unwrap().ch, 'b');
}

#[test]
fn handles_sgr_color() {
    let mut t = test_terminal(10, 5);
    feed_str(&mut t, "\x1b[31mR\x1b[0mN");
    let r = t.grid().cell(0, 0).unwrap();
    let n = t.grid().cell(1, 0).unwrap();
    let theme = t.theme();
    assert_eq!(r.ch, 'R');
    assert_eq!(r.fg, theme.ansi(1));
    assert_eq!(n.ch, 'N');
    assert_eq!(n.fg, theme.foreground);
}

#[test]
fn handles_cup_and_ed() {
    let mut t = test_terminal(10, 5);
    feed_str(&mut t, "hello");
    feed_str(&mut t, "\x1b[1;1H");
    assert_eq!(t.grid().cursor().x, 0);
    feed_str(&mut t, "\x1b[2J");
    assert_eq!(t.grid().cell(0, 0).unwrap().ch, ' ');
}

#[test]
fn handles_wrap() {
    let mut t = test_terminal(3, 2);
    feed_str(&mut t, "abcd");
    assert_eq!(t.grid().cell(0, 0).unwrap().ch, 'a');
    assert_eq!(t.grid().cell(2, 0).unwrap().ch, 'c');
    assert_eq!(t.grid().cell(0, 1).unwrap().ch, 'd');
}

#[test]
fn handles_truecolor() {
    let mut t = test_terminal(10, 2);
    feed_str(&mut t, "\x1b[38;2;10;20;30mX");
    let c = t.grid().cell(0, 0).unwrap();
    assert_eq!((c.fg.r, c.fg.g, c.fg.b), (10, 20, 30));
}

#[test]
fn alt_screen_1049_swaps_and_restores() {
    let mut t = test_terminal(5, 3);
    feed_str(&mut t, "hi");
    feed_str(&mut t, "\x1b[?1049h");
    assert!(t.is_alt());
    assert_eq!(t.grid().cell(0, 0).unwrap().ch, ' ');
    feed_str(&mut t, "X");
    assert_eq!(t.grid().cell(0, 0).unwrap().ch, 'X');
    assert_eq!(t.grid().scrollback_len(), 0);
    feed_str(&mut t, "\x1b[?1049l");
    assert!(!t.is_alt());
    assert_eq!(t.grid().cell(0, 0).unwrap().ch, 'h');
    assert_eq!(t.grid().cell(1, 0).unwrap().ch, 'i');
}

#[test]
fn alt_screen_1047_and_cursor_save_restore() {
    let mut t = test_terminal(5, 3);
    feed_str(&mut t, "ab");
    feed_str(&mut t, "\x1b[?1048h\x1b[?1047h");
    assert!(t.is_alt());
    feed_str(&mut t, "\x1b[?1047l\x1b[?1048l");
    assert!(!t.is_alt());
    assert_eq!(t.grid().cell(0, 0).unwrap().ch, 'a');
}

#[test]
fn decset_cursor_and_bracketed_modes() {
    let mut t = test_terminal(5, 3);
    assert!(t.cursor_visible());
    assert!(!t.bracketed_paste());
    feed_str(&mut t, "\x1b[?25l");
    assert!(!t.cursor_visible());
    feed_str(&mut t, "\x1b[?25h");
    assert!(t.cursor_visible());
    feed_str(&mut t, "\x1b[?2004h");
    assert!(t.bracketed_paste());
    feed_str(&mut t, "\x1b[?2004l");
    assert!(!t.bracketed_paste());
}

#[test]
fn unknown_private_mode_ignored() {
    let mut t = test_terminal(5, 3);
    feed_str(&mut t, "ok\x1b[?9999h");
    assert_eq!(t.grid().cell(0, 0).unwrap().ch, 'o');
    assert!(!t.is_alt());
}

#[test]
fn cnl_and_cpl_move_to_column_zero() {
    let mut t = test_terminal(5, 4);
    feed_str(&mut t, "\x1b[3;3H"); // row 3, col 3 (1-based)
    feed_str(&mut t, "\x1b[1E");
    assert_eq!((t.grid().cursor().x, t.grid().cursor().y), (0, 3));
    feed_str(&mut t, "\x1b[2F");
    assert_eq!((t.grid().cursor().x, t.grid().cursor().y), (0, 1));
    // Clamped at the margins, never panics.
    feed_str(&mut t, "\x1b[99F");
    assert_eq!((t.grid().cursor().x, t.grid().cursor().y), (0, 0));
    feed_str(&mut t, "\x1b[99E");
    assert_eq!((t.grid().cursor().x, t.grid().cursor().y), (0, 3));
}

#[test]
fn insert_and_delete_lines_shift_rows() {
    let mut t = test_terminal(3, 3);
    feed_str(&mut t, "a\r\nb\r\nc");
    feed_str(&mut t, "\x1b[1;1H\x1b[1L");
    assert_eq!(t.grid().cell(0, 0).unwrap().ch, ' ');
    assert_eq!(t.grid().cell(0, 1).unwrap().ch, 'a');
    feed_str(&mut t, "\x1b[1;1H\x1b[1M");
    assert_eq!(t.grid().cell(0, 0).unwrap().ch, 'a');
}

#[test]
fn ed1_and_el_modes_clear() {
    let mut t = test_terminal(4, 2);
    feed_str(&mut t, "abcd\r\nwxyz\x1b[1;3H");
    feed_str(&mut t, "\x1b[1K");
    assert_eq!(t.grid().cell(0, 0).unwrap().ch, ' ');
    assert_eq!(t.grid().cell(2, 0).unwrap().ch, ' ');
    assert_eq!(t.grid().cell(3, 0).unwrap().ch, 'd');
    feed_str(&mut t, "\x1b[1J");
    assert_eq!(t.grid().cell(3, 0).unwrap().ch, 'd');
    assert_eq!(t.grid().cell(0, 1).unwrap().ch, 'w');
}

#[test]
fn malformed_extended_sgr_is_ignored() {
    let mut t = test_terminal(5, 2);
    let before = t.grid().pen();
    // Truncated tails must not panic or change the pen.
    // (Note: leftover values that ARE real codes, e.g. the `1` in
    // `38;2;1`, still apply as usual — only the truncated prefix is skipped.)
    feed_str(&mut t, "\x1b[38;5mX\x1b[38;2;10mY\x1b[48mZ");
    assert_eq!(t.grid().pen(), before);
    assert_eq!(t.grid().cell(0, 0).unwrap().ch, 'X');
}

#[test]
fn osc_title_is_stored_for_tab_labels() {
    let mut t = test_terminal(10, 2);
    assert_eq!(t.title(), "");
    feed_str(&mut t, "\x1b]0;nvim | ~/dev\x07");
    assert_eq!(t.title(), "nvim | ~/dev");
    // Icon title (1) and window title (2) also update.
    feed_str(&mut t, "\x1b]2;second\x07");
    assert_eq!(t.title(), "second");
    // Titles containing ';' survive vte's param splitting.
    feed_str(&mut t, "\x1b]0;a;b\x07");
    assert_eq!(t.title(), "a;b");
}

#[test]
fn osc_non_title_is_ignored() {
    let mut t = test_terminal(10, 2);
    feed_str(&mut t, "\x1b]0;kept\x07");
    // OSC 4 (palette) must not clobber the title.
    feed_str(&mut t, "\x1b]4;1;red\x07");
    assert_eq!(t.title(), "kept");
}

#[test]
fn osc_title_parser_shapes() {
    assert_eq!(osc_title(&[]), None);
    assert_eq!(osc_title(&[b"4".to_vec(), b"1;red".to_vec()]), None);
    assert_eq!(osc_title(&[b"0".to_vec(), b"hi".to_vec()]), Some("hi".to_string()));
    assert_eq!(
        osc_title(&[b"2;split;title".to_vec()]),
        Some("split;title".to_string())
    );
    assert_eq!(osc_title(&[b"0".to_vec()]), None);
}

#[test]
fn sgr_underline_is_stored_on_cells() {
    let mut t = test_terminal(5, 2);
    feed_str(&mut t, "\x1b[4mU\x1b[24mN");
    assert!(t.grid().cell(0, 0).unwrap().underline);
    assert!(!t.grid().cell(1, 0).unwrap().underline);
    // Default cursor style is blinking block.
    assert_eq!(t.cursor_style(), CursorStyle::default());
    assert_eq!(
        t.cursor_style(),
        CursorStyle {
            shape: CursorShape::Block,
            blinking: true,
        }
    );
}

#[test]
fn decscusr_sets_shape_and_blink() {
    let mut t = test_terminal(5, 2);
    feed_str(&mut t, "\x1b[0 q");
    assert_eq!(t.cursor_style().shape, CursorShape::Block);
    assert!(t.cursor_style().blinking);
    feed_str(&mut t, "\x1b[2 q");
    assert_eq!(t.cursor_style().shape, CursorShape::Block);
    assert!(!t.cursor_style().blinking);
    feed_str(&mut t, "\x1b[3 q");
    assert_eq!(t.cursor_style().shape, CursorShape::Underline);
    assert!(t.cursor_style().blinking);
    feed_str(&mut t, "\x1b[4 q");
    assert_eq!(t.cursor_style().shape, CursorShape::Underline);
    assert!(!t.cursor_style().blinking);
    feed_str(&mut t, "\x1b[5 q");
    assert_eq!(t.cursor_style().shape, CursorShape::Bar);
    assert!(t.cursor_style().blinking);
    feed_str(&mut t, "\x1b[6 q");
    assert_eq!(t.cursor_style().shape, CursorShape::Bar);
    assert!(!t.cursor_style().blinking);
    // Unknown Ps is ignored, keeping the previous style.
    feed_str(&mut t, "\x1b[9 q");
    assert_eq!(t.cursor_style().shape, CursorShape::Bar);
    assert!(!t.cursor_style().blinking);
}

#[test]
fn decscusr_save_restore_and_reset() {
    let mut t = test_terminal(5, 2);
    feed_str(&mut t, "\x1b[5 q");
    feed_str(&mut t, "\x1b7");
    feed_str(&mut t, "\x1b[3 q");
    assert_eq!(t.cursor_style().shape, CursorShape::Underline);
    feed_str(&mut t, "\x1b8");
    assert_eq!(t.cursor_style().shape, CursorShape::Bar);
    // Full reset restores blinking block.
    feed_str(&mut t, "\x1bc");
    assert_eq!(t.cursor_style(), cometty::grid::CursorStyle::default());
}

#[test]
fn erase_uses_pen_bg_and_reset_clears_to_default() {
    let mut t = test_terminal(4, 2);
    let theme = t.theme();
    feed_str(&mut t, "\x1b[41m\x1b[2J");
    let c = t.grid().cell(0, 0).unwrap();
    assert_eq!(c.bg, theme.ansi(1));
    assert_eq!(c.fg, theme.foreground);
    // Full reset clears pen first, so BCE fill lands on default bg.
    feed_str(&mut t, "\x1bc");
    let c = t.grid().cell(0, 0).unwrap();
    assert_eq!(c.bg, theme.background);
}

#[test]
fn documented_modes_reach_the_grid() {
    let mut t = test_terminal(10, 6);
    feed_str(&mut t, "\x1b[?1h\x1b[?7l\x1b[4h\x1b=");
    assert!(t.grid().cursor_app_mode());
    assert!(!t.grid().auto_wrap());
    assert!(t.grid().insert_mode());
    assert!(t.grid().keypad_app_mode());
    feed_str(&mut t, "\x1b[?1000h\x1b[?1006h\x1b[?1004h\x1b[?2026h");
    assert!(t.grid().mouse_sgr());
    assert!(t.grid().focus_report());
    assert!(t.grid().in_sync());
    feed_str(&mut t, "\x1b[?2026l\x1b[?1l\x1b[?7h\x1b[4l\x1b>");
    assert!(!t.grid().in_sync());
    assert!(!t.grid().cursor_app_mode());
    assert!(t.grid().auto_wrap());
    assert!(!t.grid().insert_mode());
    assert!(!t.grid().keypad_app_mode());
}

#[test]
fn scroll_margins_and_origin_mode() {
    let mut t = test_terminal(5, 6);
    feed_str(&mut t, "\x1b[2;4r");
    assert_eq!(t.grid().scroll_region(), (1, 3));
    // Invalid margins are ignored.
    feed_str(&mut t, "\x1b[4;2r");
    assert_eq!(t.grid().scroll_region(), (1, 3));
    feed_str(&mut t, "\x1b[?6h");
    assert!(t.grid().origin_mode());
    feed_str(&mut t, "\x1b[r");
    assert_eq!(t.grid().scroll_region(), (0, 5));
    // A full reset restores margins and modes.
    feed_str(&mut t, "\x1b[2;4r\x1b[?1000h\x1bc");
    assert_eq!(t.grid().scroll_region(), (0, 5));
    assert!(!t.grid().origin_mode());
    assert!(!t.grid().mouse_sgr());
}

#[test]
fn long_osc_titles_are_clipped() {
    let mut t = test_terminal(10, 2);
    let long = "x".repeat(300);
    feed_str(&mut t, &format!("\x1b]2;{long}\x07"));
    assert_eq!(t.title().chars().count(), 256);
}

#[test]
fn osc_titles_follow_the_configured_cap() {
    let config = TerminalConfig {
        max_title_chars: 10,
        ..TerminalConfig::default()
    };
    let mut t = Terminal::new_with_config(
        10,
        2,
        Theme::default(),
        &config,
        CursorStyle {
            shape: CursorShape::Block,
            blinking: true,
        },
    );
    assert_eq!(t.max_title_chars(), 10);
    let long = "y".repeat(300);
    feed_str(&mut t, &format!("\x1b]2;{long}\x07"));
    assert_eq!(t.title(), "yyyyyyyyyy");
    assert_eq!(
        osc_title_capped(&[b"0".to_vec(), b"  abcdef  ".to_vec()], 3),
        Some("abc".to_string())
    );
    assert_eq!(Terminal::new(10, 2, Theme::default()).max_title_chars(), 256);
}

#[test]
fn clip_title_text_keeps_the_first_characters() {
    assert_eq!(clip_title_text("h\u{e9}llo", 2), "h\u{e9}");
    assert_eq!(clip_title_text("short", 10), "short");
    assert_eq!(clip_title_text("abc", 0), "");
}
