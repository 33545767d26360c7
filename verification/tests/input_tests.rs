use cometty::input::{
    Key, KeyBindings, KeyLocation, Modifiers, NamedKey, is_copy_shortcut, is_logs_toggle,
    is_new_tab_shortcut, is_paste_shortcut, is_search_toggle, is_settings_toggle,
    is_tab_switch_shortcut, map_key, wrap_bracketed_paste,
};

const NONE: Modifiers = Modifiers { shift: false, alt: false, control: false, super_key: false };
const SHIFT: Modifiers = Modifiers { shift: true, alt: false, control: false, super_key: false };
const ALT: Modifiers = Modifiers { shift: false, alt: true, control: false, super_key: false };
const CTRL: Modifiers = Modifiers { shift: false, alt: false, control: true, super_key: false };
const SUPER: Modifiers = Modifiers { shift: false, alt: false, control: false, super_key: true };

/// Both sets of modifiers held.
fn or(a: Modifiers, b: Modifiers) -> Modifiers {
    Modifiers {
        shift: a.shift || b.shift,
        alt: a.alt || b.alt,
        control: a.control || b.control,
        super_key: a.super_key || b.super_key,
    }
}

fn cfg() -> KeyBindings {
    KeyBindings::default()
}

fn plain(logical: &Key, text: Option<&str>, modifiers: &Modifiers) -> Option<Vec<u8>> {
    map_key(
        logical,
        logical,
        text,
        text,
        KeyLocation::Standard,
        true,
        modifiers,
        false,
        false,
        &cfg(),
    )
}

#[test]
fn enter_maps_to_cr() {
    let out = plain(
        &Key::Named(NamedKey::Enter),
        Some("\r"),
        &NONE,
    );
    assert_eq!(out, Some(b"\r".to_vec()));
}

#[test]
fn arrows_map() {
    let out = plain(
        &Key::Named(NamedKey::ArrowUp),
        None,
        &NONE,
    );
    assert_eq!(out, Some(b"\x1b[A".to_vec()));
}

#[test]
fn text_passthrough() {
    let out = plain(
        &Key::Character("a".into()),
        Some("a"),
        &NONE,
    );
    assert_eq!(out, Some(b"a".to_vec()));
}

#[test]
fn release_ignored() {
    let out = map_key(
        &Key::Character("a".into()),
        &Key::Character("a".into()),
        Some("a"),
        Some("a"),
        KeyLocation::Standard,
        false,
        &NONE,
        false,
        false,
        &cfg(),
    );
    assert_eq!(out, None);
}

#[test]
fn bracketed_wrap_adds_sentinels_when_enabled() {
    assert_eq!(wrap_bracketed_paste("hi", false), b"hi".to_vec());
    assert_eq!(
        wrap_bracketed_paste("hi", true),
        b"\x1b[200~hi\x1b[201~".to_vec()
    );
}

#[test]
fn copy_paste_shortcuts() {
        let cfg = cfg();
    let c: Key = Key::Character("c".into());
    let v: Key = Key::Character("v".into());
    let ctrl_shift = or(CTRL, SHIFT);
    assert!(is_copy_shortcut(&c, &ctrl_shift, &cfg));
    assert!(!is_copy_shortcut(&v, &ctrl_shift, &cfg));
    assert!(is_paste_shortcut(&v, &ctrl_shift, &cfg));
    assert!(!is_paste_shortcut(&c, &ctrl_shift, &cfg));
    assert!(!is_copy_shortcut(&c, &CTRL, &cfg));
    let cmd = SUPER;
    assert!(is_copy_shortcut(&c, &cmd, &cfg));
    assert!(is_paste_shortcut(&v, &cmd, &cfg));
}

#[test]
fn new_tab_shortcut() {
        let cfg = cfg();
    let t: Key = Key::Character("t".into());
    let t_upper: Key = Key::Character("T".into());
    let c: Key = Key::Character("c".into());
    assert!(is_new_tab_shortcut(&t, &CTRL, &cfg));
    assert!(is_new_tab_shortcut(&t, &SUPER, &cfg));
    assert!(is_new_tab_shortcut(
        &t_upper,
        &CTRL,
        &cfg
    ));
    assert!(!is_new_tab_shortcut(&c, &CTRL, &cfg));
    assert!(!is_new_tab_shortcut(&t, &NONE, &cfg));
    // Shift / Alt variants stay free for future bindings.
    assert!(!is_new_tab_shortcut(
        &t,
        &or(CTRL, SHIFT),
        &cfg
    ));
    assert!(!is_new_tab_shortcut(
        &t,
        &or(CTRL, ALT),
        &cfg
    ));
    // Both modifiers at once is not a tab shortcut.
    assert!(!is_new_tab_shortcut(
        &t,
        &or(CTRL, SUPER),
        &cfg
    ));
}

#[test]
fn f_keys_plain() {
    assert_eq!(
        plain(&Key::Named(NamedKey::F1), None, &NONE),
        Some(b"\x1bOP".to_vec())
    );
    assert_eq!(
        plain(&Key::Named(NamedKey::F5), None, &NONE),
        Some(b"\x1b[15~".to_vec())
    );
    assert_eq!(
        plain(&Key::Named(NamedKey::F12), None, &NONE),
        Some(b"\x1b[24~".to_vec())
    );
}

#[test]
fn modified_arrows_and_home() {
    let shift = SHIFT;
    let ctrl = CTRL;
    let alt = ALT;
    assert_eq!(
        plain(&Key::Named(NamedKey::ArrowUp), None, &shift),
        Some(b"\x1b[1;2A".to_vec())
    );
    assert_eq!(
        plain(&Key::Named(NamedKey::ArrowLeft), None, &ctrl),
        Some(b"\x1b[1;5D".to_vec())
    );
    assert_eq!(
        plain(&Key::Named(NamedKey::ArrowUp), None, &alt),
        Some(b"\x1b[1;3A".to_vec())
    );
    assert_eq!(
        plain(&Key::Named(NamedKey::Home), None, &shift),
        Some(b"\x1b[1;2H".to_vec())
    );
    assert_eq!(
        plain(&Key::Named(NamedKey::PageUp), None, &shift),
        Some(b"\x1b[5;2~".to_vec())
    );
    assert_eq!(
        plain(&Key::Named(NamedKey::F1), None, &ctrl),
        Some(b"\x1b[1;5P".to_vec())
    );
    assert_eq!(
        plain(&Key::Named(NamedKey::F5), None, &shift),
        Some(b"\x1b[15;2~".to_vec())
    );
}

#[test]
fn shift_tab_is_backtab() {
    assert_eq!(
        plain(
            &Key::Named(NamedKey::Tab),
            Some("\t"),
            &SHIFT
        ),
        Some(b"\x1b[Z".to_vec())
    );
}

#[test]
fn tab_switch_is_reserved() {
    let cfg = cfg();
    let tab: Key = Key::Named(NamedKey::Tab);
    assert!(is_tab_switch_shortcut(&tab, &CTRL, &cfg));
    assert!(is_tab_switch_shortcut(
        &tab,
        &or(CTRL, SHIFT),
        &cfg
    ));
    assert!(!is_tab_switch_shortcut(
        &tab,
        &NONE,
        &cfg
    ));
    assert!(!is_tab_switch_shortcut(&tab, &SHIFT, &cfg));
    assert_eq!(plain(&tab, Some("\t"), &CTRL), None);
}

#[test]
fn alt_prefixes_printable() {
    let a: Key = Key::Character("a".into());
    assert_eq!(
        plain(&a, None, &ALT),
        Some(vec![0x1b, b'a'])
    );
    let upper: Key = Key::Character("A".into());
    assert_eq!(
        plain(&upper, None, &ALT),
        Some(vec![0x1b, b'A'])
    );
    // Option+Left/Right move by word (`ESC b/f`).
    assert_eq!(
        plain(&Key::Named(NamedKey::ArrowLeft), None, &ALT),
        Some(b"\x1bb".to_vec())
    );
    assert_eq!(
        plain(
            &Key::Named(NamedKey::ArrowRight),
            None,
            &ALT
        ),
        Some(b"\x1bf".to_vec())
    );
    // Alt+Enter is ESC + CR.
    assert_eq!(
        plain(
            &Key::Named(NamedKey::Enter),
            Some("\r"),
            &ALT
        ),
        Some(vec![0x1b, b'\r'])
    );
}

#[test]
fn alt_uses_modifierless_base_for_option_chars() {
    let composed: Key = Key::Character("å".into());
    let base: Key = Key::Character("a".into());
    let out = map_key(
        &composed,
        &base,
        None,
        None,
        KeyLocation::Standard,
        true,
        &ALT,
        false,
        false,
        &cfg(),
    );
    assert_eq!(out, Some(vec![0x1b, b'a']));
}

#[test]
fn cursor_app_sends_ss3_for_plain_arrows() {
    let up = Key::Named(NamedKey::ArrowUp);
    let out = map_key(
        &up,
        &up,
        None,
        None,
        KeyLocation::Standard,
        true,
        &NONE,
        true,
        false,
        &cfg(),
    );
    assert_eq!(out, Some(b"\x1bOA".to_vec()));
    // Modified arrows stay CSI even in app mode.
    let out = map_key(
        &up,
        &up,
        None,
        None,
        KeyLocation::Standard,
        true,
        &SHIFT,
        true,
        false,
        &cfg(),
    );
    assert_eq!(out, Some(b"\x1b[1;2A".to_vec()));
}

#[test]
fn keypad_app_sends_ss3() {
    let one: Key = Key::Character("1".into());
    let out = map_key(
        &one,
        &one,
        Some("1"),
        Some("1"),
        KeyLocation::Numpad,
        true,
        &NONE,
        false,
        true,
        &cfg(),
    );
    assert_eq!(out, Some(b"\x1bOq".to_vec()));
    // Normal mode passes ASCII through.
    let out = map_key(
        &one,
        &one,
        Some("1"),
        Some("1"),
        KeyLocation::Numpad,
        true,
        &NONE,
        false,
        false,
        &cfg(),
    );
    assert_eq!(out, Some(b"1".to_vec()));
    // Keypad Enter in app mode is SS3 M.
    let enter = Key::Named(NamedKey::Enter);
    let out = map_key(
        &enter,
        &enter,
        Some("\r"),
        Some("\r"),
        KeyLocation::Numpad,
        true,
        &NONE,
        false,
        true,
        &cfg(),
    );
    assert_eq!(out, Some(b"\x1bOM".to_vec()));
}

#[test]
fn super_is_ignored() {
    let a: Key = Key::Character("a".into());
    assert_eq!(plain(&a, Some("a"), &SUPER), None);
}

#[test]
fn cmd_arrows_move_to_line_edges() {
    assert_eq!(
        plain(
            &Key::Named(NamedKey::ArrowLeft),
            None,
            &SUPER
        ),
        Some(vec![0x01])
    );
    assert_eq!(
        plain(
            &Key::Named(NamedKey::ArrowRight),
            None,
            &SUPER
        ),
        Some(vec![0x05])
    );
    // Cmd+Up/Down stay ignored.
    assert_eq!(
        plain(&Key::Named(NamedKey::ArrowUp), None, &SUPER),
        None
    );
}

#[test]
fn cmd_backspace_kills_to_line_start() {
    assert_eq!(
        plain(
            &Key::Named(NamedKey::Backspace),
            Some("\x7f"),
            &SUPER
        ),
        Some(vec![0x15])
    );
}

#[test]
fn logs_toggle_shortcut() {
    let lower: Key = Key::Character("l".into());
    let upper: Key = Key::Character("L".into());
    let ctrl_shift = or(CTRL, SHIFT);
    let sup_shift = or(SUPER, SHIFT);
    // Both cases: Shift makes the logical key layout-dependent.
    assert!(is_logs_toggle(&lower, &ctrl_shift));
    assert!(is_logs_toggle(&upper, &ctrl_shift));
    assert!(is_logs_toggle(&lower, &sup_shift));
    assert!(is_logs_toggle(&upper, &sup_shift));
    // Shift is mandatory: Ctrl+L belongs to the shell.
    assert!(!is_logs_toggle(&lower, &CTRL));
    assert!(!is_logs_toggle(&lower, &SHIFT));
    assert!(!is_logs_toggle(&lower, &NONE));
    // One of Ctrl/Super, never both, and never with Alt.
    assert!(!is_logs_toggle(&lower, &or(ctrl_shift, SUPER)));
    assert!(!is_logs_toggle(&lower, &or(ctrl_shift, ALT)));
    // Other keys and non-character keys stay out.
    assert!(!is_logs_toggle(&Key::Character("k".into()), &ctrl_shift));
    assert!(!is_logs_toggle(&Key::Named(NamedKey::Escape), &ctrl_shift));
}

#[test]
fn settings_toggle_shortcut() {
    let comma: Key = Key::Character(",".into());
    let lt: Key = Key::Character("<".into());
    let c: Key = Key::Character("c".into());
    assert!(is_settings_toggle(&comma, &CTRL));
    assert!(is_settings_toggle(&comma, &SUPER));
    assert!(is_settings_toggle(&lt, &CTRL));
    assert!(!is_settings_toggle(&c, &CTRL));
    assert!(!is_settings_toggle(&comma, &NONE));
    assert!(!is_settings_toggle(&comma, &or(CTRL, ALT)));
    assert!(!is_settings_toggle(&comma, &or(CTRL, SUPER)));
}

#[test]
fn shortcut_matches_ctrl_and_super_only() {
    let cfg = KeyBindings::default();
    let f: Key = Key::Character("f".into());
    let upper: Key = Key::Character("F".into());
    assert!(is_search_toggle(&f, &CTRL, &cfg));
    assert!(is_search_toggle(&f, &SUPER, &cfg));
    assert!(is_search_toggle(&upper, &CTRL, &cfg));
    assert!(!is_search_toggle(&f, &NONE, &cfg));
    assert!(!is_search_toggle(&f, &or(CTRL, SHIFT), &cfg));
    assert!(!is_search_toggle(&f, &or(CTRL, ALT), &cfg));
    assert!(!is_search_toggle(&f, &or(CTRL, SUPER), &cfg));
    assert!(!is_search_toggle(&Key::Named(NamedKey::Escape), &CTRL, &cfg));
    // Config gates each modifier and the key itself.
    let mut off = cfg.clone();
    off.search_ctrl = false;
    assert!(!is_search_toggle(&f, &CTRL, &off));
    assert!(is_search_toggle(&f, &SUPER, &off));
    let mut custom = cfg.clone();
    custom.search_key = "s".to_string();
    let s: Key = Key::Character("s".into());
    assert!(is_search_toggle(&s, &CTRL, &custom));
    assert!(!is_search_toggle(&f, &CTRL, &custom));
}

#[test]
fn ctrl_letters_and_space_map_to_control_bytes() {
    let c: Key = Key::Character("c".into());
    assert_eq!(plain(&c, None, &CTRL), Some(vec![0x03]));
    let upper: Key = Key::Character("Z".into());
    assert_eq!(plain(&upper, None, &CTRL), Some(vec![0x1a]));
    assert_eq!(plain(&Key::Named(NamedKey::Space), None, &CTRL), Some(vec![0x00]));
    // A control byte the platform already produced is sent as is.
    assert_eq!(plain(&Key::Character("[".into()), Some("\x1b"), &CTRL), Some(vec![0x1b]));
}

#[test]
fn tilde_keys_and_keypad_operators() {
    assert_eq!(plain(&Key::Named(NamedKey::Delete), None, &NONE), Some(b"\x1b[3~".to_vec()));
    assert_eq!(
        plain(&Key::Named(NamedKey::Insert), None, &or(CTRL, SHIFT)),
        Some(b"\x1b[2;6~".to_vec())
    );
    let plus: Key = Key::Character("+".into());
    let out = map_key(
        &plus,
        &plus,
        Some("+"),
        Some("+"),
        KeyLocation::Numpad,
        true,
        &ALT,
        false,
        true,
        &cfg(),
    );
    assert_eq!(out, Some(b"\x1b\x1bOk".to_vec()));
    assert_eq!(plain(&Key::Named(NamedKey::Other), Some("x"), &NONE), Some(b"x".to_vec()));
    assert_eq!(plain(&Key::Named(NamedKey::Other), None, &ALT), None);
}
