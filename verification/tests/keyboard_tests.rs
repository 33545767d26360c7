use cometty::input::{Key, KeyBindings, KeyLocation, Modifiers, NamedKey};
use cometty::keyboard::{KeyAction, KeyContext, keyboard_action};

const NONE: Modifiers = Modifiers { shift: false, alt: false, control: false, super_key: false };
const SHIFT: Modifiers = Modifiers { shift: true, alt: false, control: false, super_key: false };
const CTRL: Modifiers = Modifiers { shift: false, alt: false, control: true, super_key: false };
const CTRL_SHIFT: Modifiers = Modifiers { shift: true, alt: false, control: true, super_key: false };

fn ctx() -> KeyContext {
    KeyContext {
        pressed: true,
        settings_open: false,
        egui_consumed: false,
        shift_page_scroll: true,
        active_rows: Some(24),
        cursor_app: false,
        keypad_app: false,
    }
}

fn act(key: &Key, text: Option<&str>, m: &Modifiers, c: &KeyContext) -> KeyAction {
    keyboard_action(key, key, text, text, KeyLocation::Standard, m, c, &KeyBindings::default())
}

#[test]
fn toggles_win_over_the_shell_and_the_open_panel() {
    let comma = Key::Character(",".into());
    assert_eq!(act(&comma, None, &CTRL, &ctx()), KeyAction::ToggleSettings);
    let open = KeyContext { settings_open: true, ..ctx() };
    assert_eq!(act(&comma, None, &CTRL, &open), KeyAction::ToggleSettings);
    assert_eq!(act(&Key::Character("L".into()), None, &CTRL_SHIFT, &open), KeyAction::ToggleLogs);
    // With the panel open, Esc closes it and everything else stays local.
    assert_eq!(act(&Key::Named(NamedKey::Escape), None, &NONE, &open), KeyAction::CloseSettings);
    assert_eq!(act(&Key::Character("a".into()), Some("a"), &NONE, &open), KeyAction::Ignore);
}

#[test]
fn shortcuts_and_local_paging() {
    let c = ctx();
    assert_eq!(act(&Key::Character("c".into()), None, &CTRL_SHIFT, &c), KeyAction::Copy);
    assert_eq!(act(&Key::Character("v".into()), None, &CTRL_SHIFT, &c), KeyAction::Paste);
    assert_eq!(act(&Key::Character("t".into()), None, &CTRL, &c), KeyAction::NewTab);
    assert_eq!(act(&Key::Named(NamedKey::Tab), None, &CTRL, &c), KeyAction::CycleTab(1));
    assert_eq!(act(&Key::Named(NamedKey::Tab), None, &CTRL_SHIFT, &c), KeyAction::CycleTab(-1));
    assert_eq!(act(&Key::Named(NamedKey::PageUp), None, &SHIFT, &c), KeyAction::ScrollLines(23));
    assert_eq!(act(&Key::Named(NamedKey::PageDown), None, &SHIFT, &c), KeyAction::ScrollLines(-23));
    assert_eq!(act(&Key::Named(NamedKey::Home), None, &SHIFT, &c), KeyAction::ScrollTop);
    assert_eq!(act(&Key::Named(NamedKey::End), None, &SHIFT, &c), KeyAction::ScrollBottom);
    // Ctrl+Shift+PgUp still goes to the shell.
    assert_eq!(
        act(&Key::Named(NamedKey::PageUp), None, &CTRL_SHIFT, &c),
        KeyAction::Send(b"\x1b[5;6~".to_vec())
    );
    // Paging disabled: Shift+PgUp is sent too.
    let no_paging = KeyContext { shift_page_scroll: false, ..c };
    assert_eq!(
        act(&Key::Named(NamedKey::PageUp), None, &SHIFT, &no_paging),
        KeyAction::Send(b"\x1b[5;2~".to_vec())
    );
}

#[test]
fn plain_keys_reach_the_active_shell_only() {
    let c = ctx();
    assert_eq!(act(&Key::Character("a".into()), Some("a"), &NONE, &c), KeyAction::Send(b"a".to_vec()));
    let no_tab = KeyContext { active_rows: None, ..c };
    assert_eq!(act(&Key::Character("a".into()), Some("a"), &NONE, &no_tab), KeyAction::Ignore);
    let released = KeyContext { pressed: false, ..c };
    assert_eq!(act(&Key::Character("a".into()), Some("a"), &NONE, &released), KeyAction::Ignore);
    let panel_took_it = KeyContext { egui_consumed: true, ..c };
    assert_eq!(act(&Key::Character("a".into()), Some("a"), &NONE, &panel_took_it), KeyAction::Ignore);
    let one_row = KeyContext { active_rows: Some(1), ..c };
    assert_eq!(act(&Key::Named(NamedKey::PageUp), None, &SHIFT, &one_row), KeyAction::ScrollLines(1));
}
