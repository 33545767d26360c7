//! Mouse buttons over the grid: reporting to the application when it
//! asked for mouse events (unless Shift is held), otherwise local
//! selection with the left button, where a second click on the same cell
//! within the double-click time selects the word under it.

use vstd::prelude::*;

use crate::grid::MouseMode;
use crate::selection::{
    CellPos, SelCell, SelCellView, Selection, ascii_word_char, cells_view, chars_as_cells, expand_word,
    expand_word_spec, lemma_word_is_maximal_run,
};

verus! {

/// A mouse button.
#[derive(Clone, Copy, Debug, PartialEq, Eq, Structural)]
pub enum MouseButtonKind {
    Left,
    Middle,
    Right,
    Other,
}

/// Mouse state of the active tab.
#[derive(Clone, Copy, Debug, PartialEq, Eq, Structural)]
pub struct MouseState {
    /// Held grid buttons: bit 1 left, 2 middle, 4 right.
    pub pressed_mask: u8,
    /// View cell `(col, row)` of the last single left click, while a
    /// second click there can still make it a double click.
    pub last_click: Option<CellPos>,
    pub selection: Option<Selection>,
    /// A drag selection is in progress.
    pub selecting: bool,
}

/// What the application does after a button event.
#[derive(Clone, Copy, Debug, PartialEq, Eq, Structural)]
pub enum MouseAction {
    Nothing,
    /// Report a press or release at view cell `(col, row)` to the shell.
    Report { press: bool, button: MouseButtonKind, col: usize, row: usize },
    /// A selection started at this global cell.
    StartSelection(CellPos),
    /// A double click selected a word.
    SelectWord(Selection),
    /// The drag selection ended.
    EndSelection,
}

/// The mask bit of a grid button.
pub open spec fn button_bit(b: MouseButtonKind) -> u8 {
    match b {
        MouseButtonKind::Left => 1,
        MouseButtonKind::Middle => 2,
        MouseButtonKind::Right => 4,
        MouseButtonKind::Other => 0,
    }
}

/// Events go to the application: it enabled mouse reporting and Shift
/// (the local override) is not held.
pub open spec fn reporting(shift: bool, mode: MouseMode) -> bool {
    !shift && mode != MouseMode::Off
}

/// `v` clamped to the last of `cols` columns.
pub open spec fn clamp_col(v: int, cols: usize) -> usize {
    let last = if cols >= 1 {
        cols - 1
    } else {
        0
    };
    if v < 0 {
        0
    } else if v < last {
        v as usize
    } else {
        last as usize
    }
}

/// The state and action after a left press at view `cell`, global row
/// `global_row`, without reporting.
pub open spec fn left_press_spec(
    s: MouseState,
    cell: Option<(usize, usize)>,
    global_row: Option<usize>,
    since_last_click_ms: Option<u64>,
    double_click_ms: u64,
    row: Seq<SelCellView>,
    cols: usize,
) -> (MouseState, MouseAction) {
    match (cell, global_row) {
        (Some((col, vrow)), Some(g)) => {
            let double = s.last_click == Some(CellPos { x: col, y: vrow }) && (since_last_click_ms matches Some(ms)
                && ms <= double_click_ms);
            if double {
                let (sx, ex) = expand_word_spec(row, col);
                let sel = Selection {
                    anchor: CellPos { x: clamp_col(sx, cols), y: g },
                    active: CellPos { x: clamp_col(ex, cols), y: g },
                };
                (
                    MouseState { selection: Some(sel), selecting: false, last_click: None, ..s },
                    MouseAction::SelectWord(sel),
                )
            } else {
                let p = CellPos { x: col, y: g };
                (
                    MouseState {
                        selection: Some(Selection { anchor: p, active: p }),
                        selecting: true,
                        last_click: Some(CellPos { x: col, y: vrow }),
                        ..s
                    },
                    MouseAction::StartSelection(p),
                )
            }
        },
        _ => (s, MouseAction::Nothing),
    }
}

/// The state and action after a button event (see [`mouse_button_step`]).
pub open spec fn mouse_button_spec(
    s: MouseState,
    button: MouseButtonKind,
    pressed: bool,
    shift: bool,
    mode: MouseMode,
    cell: Option<(usize, usize)>,
    global_row: Option<usize>,
    since_last_click_ms: Option<u64>,
    double_click_ms: u64,
    row: Seq<SelCellView>,
    cols: usize,
) -> (MouseState, MouseAction) {
    let grid_button = button != MouseButtonKind::Other;
    let mask = if !grid_button {
        s.pressed_mask
    } else if pressed {
        s.pressed_mask | button_bit(button)
    } else {
        s.pressed_mask & !button_bit(button)
    };
    let s1 = MouseState { pressed_mask: mask, ..s };
    if grid_button && reporting(shift, mode) {
        match cell {
            Some((col, vrow)) => (s1, MouseAction::Report { press: pressed, button, col, row: vrow }),
            None => (s1, MouseAction::Nothing),
        }
    } else if button != MouseButtonKind::Left {
        (s1, MouseAction::Nothing)
    } else if pressed {
        left_press_spec(s1, cell, global_row, since_last_click_ms, double_click_ms, row, cols)
    } else if !s1.selecting {
        (s1, MouseAction::Nothing)
    } else {
        (
            MouseState {
                selecting: false,
                selection: match s1.selection {
                    Some(sel) => if sel.anchor == sel.active {
                        None
                    } else {
                        Some(sel)
                    },
                    None => None,
                },
                ..s1
            },
            MouseAction::EndSelection,
        )
    }
}

/// One button press or release over the grid. `cell` is the view cell
/// under the pointer and `global_row` its global line; `row` holds the
/// cells of that view row, `cols` the screen width. The application
/// measures `since_last_click_ms` and performs the returned action.
pub fn mouse_button_step(
    s: MouseState,
    button: MouseButtonKind,
    pressed: bool,
    shift: bool,
    mode: MouseMode,
    cell: Option<(usize, usize)>,
    global_row: Option<usize>,
    since_last_click_ms: Option<u64>,
    double_click_ms: u64,
    row: &[SelCell],
    cols: usize,
) -> (r: (MouseState, MouseAction))
    ensures
        r == mouse_button_spec(
            s,
            button,
            pressed,
            shift,
            mode,
            cell,
            global_row,
            since_last_click_ms,
            double_click_ms,
            cells_view(row@),
            cols,
        ),
{
    let grid_button = match button {
        MouseButtonKind::Other => false,
        _ => true,
    };
    let bit: u8 = match button {
        MouseButtonKind::Left => 1,
        MouseButtonKind::Middle => 2,
        MouseButtonKind::Right => 4,
        MouseButtonKind::Other => 0,
    };
    let mask = if !grid_button {
        s.pressed_mask
    } else if pressed {
        s.pressed_mask | bit
    } else {
        s.pressed_mask & !bit
    };
    let s1 = MouseState { pressed_mask: mask, ..s };
    let report = !shift && match mode {
        MouseMode::Off => false,
        _ => true,
    };
    if grid_button && report {
        return match cell {
            Some((col, vrow)) => (s1, MouseAction::Report { press: pressed, button, col, row: vrow }),
            None => (s1, MouseAction::Nothing),
        };
    }
    let left = match button {
        MouseButtonKind::Left => true,
        _ => false,
    };
    if !left {
        return (s1, MouseAction::Nothing);
    }
    if pressed {
        return left_press(s1, cell, global_row, since_last_click_ms, double_click_ms, row, cols);
    }
    if !s1.selecting {
        return (s1, MouseAction::Nothing);
    }
    let selection = match s1.selection {
        Some(sel) => if sel.anchor.x == sel.active.x && sel.anchor.y == sel.active.y {
            None
        } else {
            Some(sel)
        },
        None => None,
    };
    (MouseState { selecting: false, selection, ..s1 }, MouseAction::EndSelection)
}

fn left_press(
    s: MouseState,
    cell: Option<(usize, usize)>,
    global_row: Option<usize>,
    since_last_click_ms: Option<u64>,
    double_click_ms: u64,
    row: &[SelCell],
    cols: usize,
) -> (r: (MouseState, MouseAction))
    ensures
        r == left_press_spec(
            s,
            cell,
            global_row,
            since_last_click_ms,
            double_click_ms,
            cells_view(row@),
            cols,
        ),
{
    let (col, vrow) = match cell {
        Some(c) => c,
        None => {
            return (s, MouseAction::Nothing);
        },
    };
    let g = match global_row {
        Some(g) => g,
        None => {
            return (s, MouseAction::Nothing);
        },
    };
    let same_cell = match s.last_click {
        Some(pc) => pc.x == col && pc.y == vrow,
        None => false,
    };
    let in_time = match since_last_click_ms {
        Some(ms) => ms <= double_click_ms,
        None => false,
    };
    if same_cell && in_time {
        let (sx, ex) = expand_word(row, col);
        let last = if cols >= 1 {
            cols - 1
        } else {
            0
        };
        let csx = if sx < last {
            sx
        } else {
            last
        };
        let cex = if ex < last {
            ex
        } else {
            last
        };
        let sel = Selection { anchor: CellPos { x: csx, y: g }, active: CellPos { x: cex, y: g } };
        return (
            MouseState { selection: Some(sel), selecting: false, last_click: None, ..s },
            MouseAction::SelectWord(sel),
        );
    }
    let p = CellPos { x: col, y: g };
    (
        MouseState {
            selection: Some(Selection { anchor: p, active: p }),
            selecting: true,
            last_click: Some(CellPos { x: col, y: vrow }),
            ..s
        },
        MouseAction::StartSelection(p),
    )
}

/// A press followed by its release leaves no button held.
pub proof fn lemma_press_release_clears_button(
    s: MouseState,
    button: MouseButtonKind,
    shift: bool,
    mode: MouseMode,
    cell: Option<(usize, usize)>,
    global_row: Option<usize>,
    since: Option<u64>,
    double_click_ms: u64,
    row: Seq<SelCellView>,
    cols: usize,
)
    requires
        button != MouseButtonKind::Other,
    ensures
        ({
            let (s1, _) = mouse_button_spec(s, button, true, shift, mode, cell, global_row, since, double_click_ms, row, cols);
            let (s2, _) = mouse_button_spec(s1, button, false, shift, mode, cell, global_row, since, double_click_ms, row, cols);
            s2.pressed_mask & button_bit(button) == 0
        }),
{
    let b = button_bit(button);
    assert(forall|m: u8, x: u8| #![auto] (m & !x) & x == 0) by (bit_vector);
}

/// With Shift held, button events never go to the application: Shift
/// keeps local selection.
pub proof fn lemma_shift_keeps_selection_local(
    s: MouseState,
    button: MouseButtonKind,
    pressed: bool,
    mode: MouseMode,
    cell: Option<(usize, usize)>,
    global_row: Option<usize>,
    since: Option<u64>,
    double_click_ms: u64,
    row: Seq<SelCellView>,
    cols: usize,
)
    ensures
        !(mouse_button_spec(s, button, pressed, true, mode, cell, global_row, since, double_click_ms, row, cols).1 is Report),
{
}

/// A word selected by a double click lies on the clicked line, within
/// the screen.
pub proof fn lemma_word_selection_on_screen(
    s: MouseState,
    mode: MouseMode,
    shift: bool,
    cell: Option<(usize, usize)>,
    global_row: Option<usize>,
    since: Option<u64>,
    double_click_ms: u64,
    row: Seq<SelCellView>,
    cols: usize,
)
    requires
        cols >= 1,
    ensures
        mouse_button_spec(s, MouseButtonKind::Left, true, shift, mode, cell, global_row, since, double_click_ms, row, cols).1 matches MouseAction::SelectWord(sel)
            ==> sel.anchor.x < cols && sel.active.x < cols && global_row == Some(sel.anchor.y)
            && sel.anchor.y == sel.active.y,
{
}

/// What a button event does: with reporting on (mouse mode enabled, Shift
/// not held) a grid button over a cell is reported with its press or
/// release, button and cell; otherwise a single left click starts a
/// selection at the clicked cell, a second left click on the same cell
/// within the double-click time selects the word there (on a row of narrow
/// characters: the longest run of ASCII letters, digits and `_` around the
/// click), and releasing the left button after a drag ends the selection.
/// A press holds its button.
pub proof fn lemma_button_actions(
    s: MouseState,
    button: MouseButtonKind,
    pressed: bool,
    shift: bool,
    mode: MouseMode,
    col: usize,
    vrow: usize,
    g: usize,
    since: Option<u64>,
    double_click_ms: u64,
    cs: Seq<char>,
)
    ensures
        ({
            let cols = cs.len() as usize;
            let r = mouse_button_spec(
                s, button, pressed, shift, mode, Some((col, vrow)), Some(g), since, double_click_ms,
                chars_as_cells(cs), cols,
            );
            let grid_button = button != MouseButtonKind::Other;
            let double = s.last_click == Some(CellPos { x: col, y: vrow }) && (since matches Some(ms)
                && ms <= double_click_ms);
            &&& grid_button && !shift && mode != MouseMode::Off ==> r.1 == MouseAction::Report {
                press: pressed,
                button,
                col,
                row: vrow,
            }
            &&& grid_button && pressed ==> r.0.pressed_mask & button_bit(button) == button_bit(button)
            &&& (shift || mode == MouseMode::Off) && button == MouseButtonKind::Left && pressed && !double
                ==> r.1 == MouseAction::StartSelection(CellPos { x: col, y: g }) && r.0.selecting
            &&& (shift || mode == MouseMode::Off) && button == MouseButtonKind::Left && !pressed
                && s.selecting ==> r.1 == MouseAction::EndSelection && !r.0.selecting
            &&& (shift || mode == MouseMode::Off) && button == MouseButtonKind::Left && pressed && double
                && col < cs.len() && cs.len() <= usize::MAX && ascii_word_char(cs[col as int])
                ==> (r.1 matches MouseAction::SelectWord(sel) && sel.anchor.y == g && sel.active.y == g
                && sel.anchor.x <= col <= sel.active.x && sel.active.x < cs.len() && (forall|i: int|
                sel.anchor.x <= i <= sel.active.x ==> ascii_word_char(#[trigger] cs[i])) && (sel.anchor.x
                == 0 || !ascii_word_char(cs[sel.anchor.x - 1])) && (sel.active.x == cs.len() - 1
                || !ascii_word_char(cs[sel.active.x + 1])))
        }),
{
    let b = button_bit(button);
    assert(forall|m: u8, x: u8| #![auto] (m | x) & x == x) by (bit_vector);
    if col < cs.len() && cs.len() <= usize::MAX {
        lemma_word_is_maximal_run(cs, col);
    }
}

} // verus!
