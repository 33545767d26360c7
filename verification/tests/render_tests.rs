use cometty::mouse::MouseState;
use cometty::render::{
    clamp_surface_size, effective_cursor, in_view_selection, is_drawable, shrink_fullscreen_surface,
    sync_alt_screen,
};
use cometty::selection::{CellPos, Selection};

#[test]
fn renderer_clamp_surface_size_caps_at_limit() {
    assert_eq!(clamp_surface_size(2204, 1200, 2048), (2048, 1200));
    assert_eq!(clamp_surface_size(800, 600, 2048), (800, 600));
    assert_eq!(clamp_surface_size(0, 0, 2048), (1, 1));
}

#[test]
fn mod_clamp_surface_size_caps_at_limit() {
    assert_eq!(clamp_surface_size(2204, 1200, 2048), (2048, 1200));
    assert_eq!(clamp_surface_size(800, 600, 2048), (800, 600));
    assert_eq!(clamp_surface_size(0, 0, 2048), (1, 1));
}

#[test]
fn fullscreen_surface_shrinks_one_pixel_on_macos() {
    // Windowed drawables are never display-sized: untouched everywhere.
    assert_eq!(shrink_fullscreen_surface(2560, 1600, false, true), (2560, 1600));
    assert_eq!(shrink_fullscreen_surface(2560, 1600, false, false), (2560, 1600));
    // Fullscreen: one column cropped on the Metal backend, untouched elsewhere.
    assert_eq!(shrink_fullscreen_surface(2560, 1600, true, true), (2559, 1600));
    assert_eq!(shrink_fullscreen_surface(2560, 1600, true, false), (2560, 1600));
    // Never shrink below a usable surface.
    assert_eq!(shrink_fullscreen_surface(1, 1, true, true), (1, 1));
    assert_eq!(shrink_fullscreen_surface(1, 1, true, false), (1, 1));
}

#[test]
fn shades_and_text_keep_their_glyphs() {
    assert!(!is_drawable('\u{2591}'));
    assert!(!is_drawable('\u{2592}'));
    assert!(!is_drawable('\u{2593}'));
    assert!(!is_drawable('a'));
    assert!(!is_drawable(' '));
    assert!(!is_drawable('\u{2502}'));
    for ch in '\u{2580}'..='\u{258F}' {
        assert!(is_drawable(ch), "{ch:?}");
    }
    assert!(is_drawable('\u{2590}'));
    for ch in '\u{2594}'..='\u{259F}' {
        assert!(is_drawable(ch), "{ch:?}");
    }
}

#[test]
fn zero_limit_still_allows_one_pixel() {
    assert_eq!(clamp_surface_size(5, 7, 0), (1, 1));
}

#[test]
fn view_selection_hit_test_spans_rows_in_reading_order() {
    let sel = Some(((5, 3), (2, 1)));
    assert!(!in_view_selection(None, 0, 0));
    assert!(!in_view_selection(sel, 1, 1));
    assert!(in_view_selection(sel, 2, 1));
    assert!(in_view_selection(sel, 79, 1));
    assert!(in_view_selection(sel, 0, 2));
    assert!(in_view_selection(sel, 5, 3));
    assert!(!in_view_selection(sel, 6, 3));
    assert!(!in_view_selection(sel, 0, 4));
    let one_row = Some(((4, 0), (1, 0)));
    assert!(in_view_selection(one_row, 1, 0) && in_view_selection(one_row, 4, 0));
    assert!(!in_view_selection(one_row, 5, 0));
}

#[test]
fn cursor_drawn_only_live_and_in_blink_phase() {
    assert!(effective_cursor(true, 0, false, false));
    assert!(effective_cursor(true, 0, true, true));
    assert!(!effective_cursor(true, 0, true, false));
    assert!(!effective_cursor(true, 3, false, true));
    assert!(!effective_cursor(false, 0, false, true));
}

#[test]
fn alt_screen_switch_drops_selection() {
    let sel = Selection {
        anchor: CellPos { x: 1, y: 2 },
        active: CellPos { x: 4, y: 2 },
    };
    let s = MouseState {
        pressed_mask: 1,
        last_click: None,
        selection: Some(sel),
        selecting: true,
    };
    let (after, alt) = sync_alt_screen(s, false, true);
    assert!(alt);
    assert_eq!(after.selection, None);
    assert!(!after.selecting);
    assert_eq!(after.pressed_mask, 1);
    let (same, alt) = sync_alt_screen(s, true, true);
    assert!(alt);
    assert_eq!(same, s);
}
