//! What a key press does: panel toggles, local shortcuts, local
//! scrolling, or bytes for the shell, in that order of precedence.

use vstd::prelude::*;

use crate::input::{
    Key, KeyBindings, KeyLocation, Modifiers, NamedKey, clipboard_shortcut_spec, is_copy_shortcut,
    is_logs_toggle, is_new_tab_shortcut, is_paste_shortcut, is_settings_toggle,
    is_tab_switch_shortcut, key_is, key_text, map_key, map_key_spec, one_of_ctrl_super,
    opt_text, tab_switch_spec,
};

verus! {

/// The application state a key press depends on.
#[derive(Clone, Copy, Debug, PartialEq, Eq, Structural)]
pub struct KeyContext {
    pub pressed: bool,
    pub settings_open: bool,
    /// The settings/log windows took the event.
    pub egui_consumed: bool,
    /// `Shift+PgUp/PgDn/Home/End` scroll the view locally.
    pub shift_page_scroll: bool,
    /// Rows of the active tab, when there is one.
    pub active_rows: Option<usize>,
    pub cursor_app: bool,
    pub keypad_app: bool,
}

/// What the application does with a key press.
#[derive(Clone, Debug, PartialEq, Eq)]
pub enum KeyAction {
    ToggleSettings,
    ToggleLogs,
    CloseSettings,
    /// Consumed with nothing to do.
    Ignore,
    Copy,
    Paste,
    NewTab,
    /// Cycle tabs by this many (`+1` next, `-1` previous).
    CycleTab(isize),
    /// Scroll the view this many lines into history (negative: back toward
    /// the live screen).
    ScrollLines(isize),
    ScrollTop,
    ScrollBottom,
    Send(Vec<u8>),
}

/// Value model of a [`KeyAction`].
pub enum KeyActionView {
    ToggleSettings,
    ToggleLogs,
    CloseSettings,
    Ignore,
    Copy,
    Paste,
    NewTab,
    CycleTab(isize),
    ScrollLines(isize),
    ScrollTop,
    ScrollBottom,
    Send(Seq<u8>),
}

impl View for KeyAction {
    type V = KeyActionView;

    open spec fn view(&self) -> KeyActionView {
        match self {
            KeyAction::ToggleSettings => KeyActionView::ToggleSettings,
            KeyAction::ToggleLogs => KeyActionView::ToggleLogs,
            KeyAction::CloseSettings => KeyActionView::CloseSettings,
            KeyAction::Ignore => KeyActionView::Ignore,
            KeyAction::Copy => KeyActionView::Copy,
            KeyAction::Paste => KeyActionView::Paste,
            KeyAction::NewTab => KeyActionView::NewTab,
            KeyAction::CycleTab(d) => KeyActionView::CycleTab(*d),
            KeyAction::ScrollLines(n) => KeyActionView::ScrollLines(*n),
            KeyAction::ScrollTop => KeyActionView::ScrollTop,
            KeyAction::ScrollBottom => KeyActionView::ScrollBottom,
            KeyAction::Send(v) => KeyActionView::Send(v@),
        }
    }
}

/// The local page size for a tab of `rows` rows: one line of overlap,
/// at least one line (one without a tab).
pub open spec fn page_lines(rows: Option<usize>) -> int {
    match rows {
        Some(r) => if r >= 2 {
            r - 1
        } else {
            1
        },
        None => 1,
    }
}

/// Plain Shift (no Ctrl, Alt or Super).
pub open spec fn plain_shift(m: Modifiers) -> bool {
    m.shift && !m.control && !m.alt && !m.super_key
}

/// The action for a key press (see [`keyboard_action`]).
pub open spec fn keyboard_action_spec(
    logical: Key,
    without: Key,
    text: Option<Seq<char>>,
    text_with_ctrl: Option<Seq<char>>,
    location: KeyLocation,
    m: Modifiers,
    ctx: KeyContext,
    b: KeyBindings,
) -> KeyActionView {
    let settings_key = (key_text(logical) == Some(","@) || key_text(logical) == Some("<"@))
        && !m.alt && one_of_ctrl_super(m, true, true);
    let logs_key = key_is(logical, "l"@) && m.shift && !m.alt && one_of_ctrl_super(m, true, true);
    if ctx.pressed && settings_key {
        KeyActionView::ToggleSettings
    } else if ctx.pressed && logs_key {
        KeyActionView::ToggleLogs
    } else if ctx.settings_open {
        if ctx.pressed && logical == Key::Named(NamedKey::Escape) {
            KeyActionView::CloseSettings
        } else {
            KeyActionView::Ignore
        }
    } else if ctx.egui_consumed {
        KeyActionView::Ignore
    } else if ctx.pressed && clipboard_shortcut_spec(logical, m, b.copy_key@, b.copy_super, b.copy_ctrl_shift) {
        KeyActionView::Copy
    } else if ctx.pressed && clipboard_shortcut_spec(logical, m, b.paste_key@, b.paste_super, b.paste_ctrl_shift) {
        KeyActionView::Paste
    } else if ctx.pressed && key_is(logical, b.new_tab_key@) && !m.shift && !m.alt
        && one_of_ctrl_super(m, b.new_tab_ctrl, b.new_tab_super) {
        KeyActionView::NewTab
    } else if ctx.pressed && tab_switch_spec(logical, m, b) {
        KeyActionView::CycleTab(if m.shift { -1isize } else { 1isize })
    } else if ctx.pressed && ctx.shift_page_scroll && plain_shift(m) && (logical == Key::Named(
        NamedKey::PageUp,
    ) || logical == Key::Named(NamedKey::PageDown) || logical == Key::Named(NamedKey::Home)
        || logical == Key::Named(NamedKey::End)) {
        if logical == Key::Named(NamedKey::PageUp) {
            KeyActionView::ScrollLines(page_lines(ctx.active_rows) as isize)
        } else if logical == Key::Named(NamedKey::PageDown) {
            KeyActionView::ScrollLines(-page_lines(ctx.active_rows) as isize)
        } else if logical == Key::Named(NamedKey::Home) {
            KeyActionView::ScrollTop
        } else {
            KeyActionView::ScrollBottom
        }
    } else if ctx.pressed && ctx.active_rows is Some {
        match map_key_spec(logical, without, text, text_with_ctrl, location, true, m, ctx.cursor_app, ctx.keypad_app, b) {
            Some(bytes) => KeyActionView::Send(bytes),
            None => KeyActionView::Ignore,
        }
    } else {
        KeyActionView::Ignore
    }
}

/// The action for a key press, by precedence: the settings and log
/// toggles; while settings are open only `Esc` (closing them); keys the
/// panels took; copy, paste, new tab and tab cycling; plain `Shift`
/// paging through history; else the bytes for the active tab's shell.
pub fn keyboard_action(
    logical: &Key,
    without: &Key,
    text: Option<&str>,
    text_with_ctrl: Option<&str>,
    location: KeyLocation,
    m: &Modifiers,
    ctx: &KeyContext,
    bindings: &KeyBindings,
) -> (r: KeyAction)
    requires
        ctx.active_rows matches Some(rows) ==> rows <= isize::MAX,
    ensures
        r@ == keyboard_action_spec(
            *logical,
            *without,
            opt_text(text),
            opt_text(text_with_ctrl),
            location,
            *m,
            *ctx,
            *bindings,
        ),
{
    if ctx.pressed && is_settings_toggle(logical, m) {
        return KeyAction::ToggleSettings;
    }
    if ctx.pressed && is_logs_toggle(logical, m) {
        return KeyAction::ToggleLogs;
    }
    if ctx.settings_open {
        let esc = match logical {
            Key::Named(NamedKey::Escape) => true,
            _ => false,
        };
        if ctx.pressed && esc {
            return KeyAction::CloseSettings;
        }
        return KeyAction::Ignore;
    }
    if ctx.egui_consumed {
        return KeyAction::Ignore;
    }
    if ctx.pressed {
        if is_copy_shortcut(logical, m, bindings) {
            return KeyAction::Copy;
        }
        if is_paste_shortcut(logical, m, bindings) {
            return KeyAction::Paste;
        }
        if is_new_tab_shortcut(logical, m, bindings) {
            return KeyAction::NewTab;
        }
        if is_tab_switch_shortcut(logical, m, bindings) {
            return KeyAction::CycleTab(
                if m.shift {
                    -1
                } else {
                    1
                },
            );
        }
        if ctx.shift_page_scroll && m.shift && !m.control && !m.alt && !m.super_key {
            let page: usize = match ctx.active_rows {
                Some(rows) => if rows >= 2 {
                    rows - 1
                } else {
                    1
                },
                None => 1,
            };
            match logical {
                Key::Named(NamedKey::PageUp) => {
                    return KeyAction::ScrollLines(page as isize);
                },
                Key::Named(NamedKey::PageDown) => {
                    return KeyAction::ScrollLines(-(page as isize));
                },
                Key::Named(NamedKey::Home) => {
                    return KeyAction::ScrollTop;
                },
                Key::Named(NamedKey::End) => {
                    return KeyAction::ScrollBottom;
                },
                _ => {},
            }
        }
        if ctx.active_rows.is_some() {
            return match map_key(
                logical,
                without,
                text,
                text_with_ctrl,
                location,
                true,
                m,
                ctx.cursor_app,
                ctx.keypad_app,
                bindings,
            ) {
                Some(bytes) => KeyAction::Send(bytes),
                None => KeyAction::Ignore,
            };
        }
    }
    KeyAction::Ignore
}

/// Tab switching and local paging: Ctrl+Tab (when enabled) goes to the
/// next tab and Ctrl+Shift+Tab to the previous one; with local paging on,
/// Shift+Page Up scrolls a page (one row less than the screen, at least
/// one) into history and Shift+Page Down the same page back, Shift+Home to
/// the top and Shift+End to the live screen; with the settings window open,
/// Escape closes it.
pub proof fn lemma_tab_and_page_keys(
    without: Key,
    text: Option<Seq<char>>,
    location: KeyLocation,
    ctx: KeyContext,
    b: KeyBindings,
)
    requires
        ctx.pressed,
        !ctx.egui_consumed,
    ensures
        ({
            let ctrl = Modifiers { shift: false, alt: false, control: true, super_key: false };
            let ctrl_shift = Modifiers { shift: true, alt: false, control: true, super_key: false };
            let shift = Modifiers { shift: true, alt: false, control: false, super_key: false };
            let plain = Modifiers { shift: false, alt: false, control: false, super_key: false };
            let act = |k: NamedKey, m: Modifiers|
                keyboard_action_spec(Key::Named(k), without, text, None, location, m, ctx, b);
            let page = page_lines(ctx.active_rows);
            &&& !ctx.settings_open && b.tab_switch_ctrl ==> act(NamedKey::Tab, ctrl) == KeyActionView::CycleTab(1isize)
                && act(NamedKey::Tab, ctrl_shift) == KeyActionView::CycleTab(-1isize)
            &&& !ctx.settings_open && ctx.shift_page_scroll ==> {
                &&& page >= 1
                &&& act(NamedKey::PageUp, shift) == KeyActionView::ScrollLines(page as isize)
                &&& act(NamedKey::PageDown, shift) == KeyActionView::ScrollLines(-page as isize)
                &&& act(NamedKey::Home, shift) == KeyActionView::ScrollTop
                &&& act(NamedKey::End, shift) == KeyActionView::ScrollBottom
            }
            &&& ctx.settings_open ==> act(NamedKey::Escape, plain) == KeyActionView::CloseSettings
        }),
{
}

/// While the settings panel is open no key reaches the shell: the
/// toggles still work and `Esc` closes the panel.
pub proof fn lemma_open_panel_keeps_keys_from_shell(
    logical: Key,
    without: Key,
    text: Option<Seq<char>>,
    text_with_ctrl: Option<Seq<char>>,
    location: KeyLocation,
    m: Modifiers,
    ctx: KeyContext,
    b: KeyBindings,
)
    requires
        ctx.settings_open,
    ensures
        !(keyboard_action_spec(logical, without, text, text_with_ctrl, location, m, ctx, b) is Send),
{
}

/// A key release never sends anything to the shell.
pub proof fn lemma_release_sends_nothing_to_shell(
    logical: Key,
    without: Key,
    text: Option<Seq<char>>,
    text_with_ctrl: Option<Seq<char>>,
    location: KeyLocation,
    m: Modifiers,
    ctx: KeyContext,
    b: KeyBindings,
)
    requires
        !ctx.pressed,
    ensures
        keyboard_action_spec(logical, without, text, text_with_ctrl, location, m, ctx, b) is Ignore,
{
}

} // verus!
