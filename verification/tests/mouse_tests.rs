use cometty::grid::MouseMode;
use cometty::mouse::{MouseAction, MouseButtonKind, MouseState, mouse_button_step};
use cometty::selection::{CellPos, SelCell, Selection};

fn idle() -> MouseState {
    MouseState { pressed_mask: 0, last_click: None, selection: None, selecting: false }
}

fn row(s: &str) -> Vec<SelCell> {
    s.chars().map(|c| SelCell::narrow(&c.to_string())).collect()
}

#[test]
fn click_drag_release_and_double_click_select_locally() {
    let line = row("foo bar baz");
    let (s, a) = mouse_button_step(idle(), MouseButtonKind::Left, true, false, MouseMode::Off,
        Some((5, 0)), Some(10), None, 400, &line, 11);
    assert_eq!(a, MouseAction::StartSelection(CellPos { x: 5, y: 10 }));
    assert!(s.selecting && s.pressed_mask == 1);
    // Releasing without a drag drops the empty selection.
    let (s, a) = mouse_button_step(s, MouseButtonKind::Left, false, false, MouseMode::Off,
        Some((5, 0)), Some(10), None, 400, &line, 11);
    assert_eq!(a, MouseAction::EndSelection);
    assert_eq!(s.selection, None);
    assert_eq!(s.pressed_mask, 0);
    // A second click on the same cell in time selects the word.
    let (s, a) = mouse_button_step(s, MouseButtonKind::Left, true, false, MouseMode::Off,
        Some((5, 0)), Some(10), Some(120), 400, &line, 11);
    let word = Selection { anchor: CellPos { x: 4, y: 10 }, active: CellPos { x: 6, y: 10 } };
    assert_eq!(a, MouseAction::SelectWord(word));
    assert!(!s.selecting && s.last_click.is_none());
    // Too late: a fresh selection instead.
    let (_, a) = mouse_button_step(idle(), MouseButtonKind::Left, true, false, MouseMode::Off,
        Some((5, 0)), Some(10), Some(900), 400, &line, 11);
    assert_eq!(a, MouseAction::StartSelection(CellPos { x: 5, y: 10 }));
}

#[test]
fn reporting_mode_forwards_buttons_unless_shift_is_held() {
    let line = row("abc");
    let (s, a) = mouse_button_step(idle(), MouseButtonKind::Right, true, false, MouseMode::Press,
        Some((2, 1)), Some(1), None, 400, &line, 3);
    assert_eq!(a, MouseAction::Report { press: true, button: MouseButtonKind::Right, col: 2, row: 1 });
    assert_eq!(s.pressed_mask, 4);
    let (_, a) = mouse_button_step(idle(), MouseButtonKind::Left, true, true, MouseMode::Press,
        Some((2, 1)), Some(1), None, 400, &line, 3);
    assert_eq!(a, MouseAction::StartSelection(CellPos { x: 2, y: 1 }));
    // Without reporting, only the left button selects.
    let (_, a) = mouse_button_step(idle(), MouseButtonKind::Middle, true, false, MouseMode::Off,
        Some((2, 1)), Some(1), None, 400, &line, 3);
    assert_eq!(a, MouseAction::Nothing);
}
