//! Renderer decisions that do not depend on the GPU: the drawable size a
//! window may request, which characters are painted as geometry, and what
//! a redraw shows of the cursor and the selection.

use vstd::prelude::*;

use crate::mouse::MouseState;

verus! {

/// `v` clamped into `[lo, hi]` (with `hi` winning when `lo > hi`).
pub open spec fn clamp_dim(v: u32, hi: u32) -> u32 {
    let lo_v = if v < 1 {
        1
    } else {
        v
    };
    if lo_v > hi {
        hi
    } else {
        lo_v
    }
}

/// Both dimensions raised to at least 1 and capped at `max_dim` (itself at
/// least 1), the GPU's texture limit.
pub fn clamp_surface_size(width: u32, height: u32, max_dim: u32) -> (r: (u32, u32))
    ensures
        r == (
            clamp_dim(width, if max_dim < 1 { 1 } else { max_dim }),
            clamp_dim(height, if max_dim < 1 { 1 } else { max_dim }),
        ),
        1 <= r.0 && 1 <= r.1,
{
    let cap = if max_dim < 1 {
        1
    } else {
        max_dim
    };
    let w = if width < 1 {
        1
    } else {
        width
    };
    let h = if height < 1 {
        1
    } else {
        height
    };
    (if w > cap {
        cap
    } else {
        w
    }, if h > cap {
        cap
    } else {
        h
    })
}

/// Metal's fullscreen stripe workaround: on the Metal backend a
/// fullscreen drawable is made one pixel narrower (never below 1);
/// elsewhere, and for windowed drawables, the size is unchanged.
pub fn shrink_fullscreen_surface(width: u32, height: u32, fullscreen: bool, metal: bool) -> (r: (
    u32,
    u32,
))
    ensures
        r == (if metal && fullscreen && width > 1 {
            ((width - 1) as u32, height)
        } else {
            (width, height)
        }),
{
    if metal && fullscreen && width > 1 {
        return (width - 1, height);
    }
    (width, height)
}

/// The block elements painted as rectangles: halves and eighths
/// (U+2580..U+2590), the upper/right eighths (U+2594, U+2595) and the
/// quadrants (U+2596..U+259F).
pub open spec fn drawable_spec(ch: char) -> bool {
    ('\u{2580}' <= ch <= '\u{2590}') || ('\u{2594}' <= ch <= '\u{259F}')
}

/// True when the renderer paints the cell itself instead of shaping the
/// glyph.
pub fn is_drawable(ch: char) -> (r: bool)
    ensures
        r == drawable_spec(ch),
{
    ('\u{2580}' <= ch && ch <= '\u{2590}') || ('\u{2594}' <= ch && ch <= '\u{259F}')
}

/// Whether view cell `(x, y)` lies in the selection spanning `a` to `b`
/// (either order) in reading order: whole rows between the end rows,
/// from the start column on the first row, through the end column on the
/// last.
pub open spec fn in_view_selection_spec(sel: Option<((usize, usize), (usize, usize))>, x: usize, y: usize) -> bool {
    match sel {
        None => false,
        Some(((ax, ay), (bx, by))) => {
            let (s, e) = if by < ay || (by == ay && bx < ax) {
                ((bx, by), (ax, ay))
            } else {
                ((ax, ay), (bx, by))
            };
            if y < s.1 || y > e.1 {
                false
            } else if s.1 == e.1 {
                s.0 <= x <= e.0
            } else if y == s.1 {
                x >= s.0
            } else if y == e.1 {
                x <= e.0
            } else {
                true
            }
        },
    }
}

/// Hit-test a view-space selection `((x0, y0), (x1, y1))`.
pub fn in_view_selection(sel: Option<((usize, usize), (usize, usize))>, x: usize, y: usize) -> (r: bool)
    ensures
        r == in_view_selection_spec(sel, x, y),
{
    let ((ax, ay), (bx, by)) = match sel {
        Some(p) => p,
        None => {
            return false;
        },
    };
    let (s, e) = if by < ay || (by == ay && bx < ax) {
        ((bx, by), (ax, ay))
    } else {
        ((ax, ay), (bx, by))
    };
    if y < s.1 || y > e.1 {
        return false;
    }
    if s.1 == e.1 {
        return x >= s.0 && x <= e.0;
    }
    if y == s.1 {
        return x >= s.0;
    }
    if y == e.1 {
        return x <= e.0;
    }
    true
}

/// Whether a redraw shows the cursor: the terminal has it enabled, the
/// view is at the live screen, and a blinking shape is in the visible half
/// of its blink (a steady shape ignores the blink).
pub fn effective_cursor(enabled: bool, scroll_offset: usize, blinking: bool, blink_on: bool) -> (r: bool)
    ensures
        r == (enabled && scroll_offset == 0 && (!blinking || blink_on)),
{
    enabled && scroll_offset == 0 && (!blinking || blink_on)
}

/// A redraw that finds the grid switched between the main and the
/// alternate screen since the tab last looked drops the selection (and
/// any drag in progress) and remembers the new screen; otherwise nothing
/// changes. Returns the tab's mouse state and the screen it now records.
pub fn sync_alt_screen(s: MouseState, was_alt: bool, alt_now: bool) -> (r: (MouseState, bool))
    ensures
        r.1 == alt_now,
        was_alt != alt_now ==> r.0 == (MouseState { selection: None, selecting: false, ..s }),
        was_alt == alt_now ==> r.0 == s,
{
    if was_alt != alt_now {
        (MouseState { selection: None, selecting: false, ..s }, alt_now)
    } else {
        (s, alt_now)
    }
}

} // verus!
