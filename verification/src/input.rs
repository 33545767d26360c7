//! Keyboard input: the bytes a key press sends to the shell (xterm
//! conventions, application cursor/keypad modes, Alt as an ESC prefix),
//! the local shortcuts that never reach the shell, and bracketed paste.

use vstd::prelude::*;
use vstd::utf8::{encode_utf8, is_ascii_chars};

use crate::text::{ascii_lower_chars, ascii_lower_seq, ascii_lower_spec, chars_of};

verus! {

broadcast use vstd::string::group_string_axioms;

/// Non-character keys the terminal distinguishes; every other named key
/// is `Other`.
#[derive(Clone, Copy, Debug, PartialEq, Eq, Structural)]
pub enum NamedKey {
    Enter,
    Backspace,
    Tab,
    Escape,
    Space,
    ArrowUp,
    ArrowDown,
    ArrowLeft,
    ArrowRight,
    Home,
    End,
    PageUp,
    PageDown,
    Insert,
    Delete,
    F1,
    F2,
    F3,
    F4,
    F5,
    F6,
    F7,
    F8,
    F9,
    F10,
    F11,
    F12,
    Other,
}

/// A logical key: a named key, the text a character key produces, or a
/// key the platform could not identify (or a dead key).
#[derive(Clone, Debug, PartialEq, Eq)]
pub enum Key {
    Named(NamedKey),
    Character(String),
    Unidentified,
    Dead,
}

/// Where on the keyboard the key sits.
#[derive(Clone, Copy, Debug, PartialEq, Eq, Structural)]
pub enum KeyLocation {
    Standard,
    Left,
    Right,
    Numpad,
}

/// Modifier keys held during a press.
#[derive(Clone, Copy, Debug, Default, PartialEq, Eq, Structural)]
pub struct Modifiers {
    pub shift: bool,
    pub alt: bool,
    pub control: bool,
    pub super_key: bool,
}

/// Which local shortcuts are enabled, and their keys.
#[derive(Clone, Debug, PartialEq, Eq)]
pub struct KeyBindings {
    pub copy_key: String,
    pub paste_key: String,
    pub new_tab_key: String,
    pub copy_ctrl_shift: bool,
    pub copy_super: bool,
    pub paste_ctrl_shift: bool,
    pub paste_super: bool,
    pub new_tab_ctrl: bool,
    pub new_tab_super: bool,
    pub tab_switch_ctrl: bool,
    pub tab_switch_super: bool,
    pub search_key: String,
    pub search_ctrl: bool,
    pub search_super: bool,
}

impl Default for KeyBindings {
    fn default() -> (b: Self)
        ensures
            b.copy_key@ == "c"@,
            b.paste_key@ == "v"@,
            b.new_tab_key@ == "t"@,
            b.copy_ctrl_shift && b.copy_super && b.paste_ctrl_shift && b.paste_super,
            b.new_tab_ctrl && b.new_tab_super && b.tab_switch_ctrl && b.tab_switch_super,
            b.search_key@ == "f"@,
            b.search_ctrl && b.search_super,
    {
        KeyBindings {
            copy_key: crate::text::string_of("c"),
            paste_key: crate::text::string_of("v"),
            new_tab_key: crate::text::string_of("t"),
            copy_ctrl_shift: true,
            copy_super: true,
            paste_ctrl_shift: true,
            paste_super: true,
            new_tab_ctrl: true,
            new_tab_super: true,
            tab_switch_ctrl: true,
            tab_switch_super: true,
            search_key: crate::text::string_of("f"),
            search_ctrl: true,
            search_super: true,
        }
    }
}

/// The xterm modifier parameter: `1 + shift + 2 alt + 4 ctrl + 8 super`.
pub open spec fn xterm_mod_spec(m: Modifiers) -> u8 {
    (1 + (if m.shift {
        1int
    } else {
        0
    }) + (if m.alt {
        2int
    } else {
        0
    }) + (if m.control {
        4int
    } else {
        0
    }) + (if m.super_key {
        8int
    } else {
        0
    })) as u8
}

pub fn xterm_mod(m: &Modifiers) -> (r: u8)
    ensures
        r == xterm_mod_spec(*m),
        1 <= r <= 16,
{
    let mut r: u8 = 1;
    if m.shift {
        r += 1;
    }
    if m.alt {
        r += 2;
    }
    if m.control {
        r += 4;
    }
    if m.super_key {
        r += 8;
    }
    r
}

/// ASCII decimal digits of `n`.
pub open spec fn decimal(n: nat) -> Seq<u8>
    decreases n,
{
    if n < 10 {
        seq![(0x30 + n) as u8]
    } else {
        decimal(n / 10) + seq![(0x30 + n % 10) as u8]
    }
}

/// The decimal digits of a number below 100.
fn push_decimal(out: &mut Vec<u8>, n: u8)
    requires
        n < 100,
    ensures
        final(out)@ == old(out)@ + decimal(n as nat),
{
    if n < 10 {
        out.push(0x30 + n);
    } else {
        assert(decimal(n as nat) == decimal((n / 10) as nat) + seq![(0x30 + n % 10) as u8]);
        out.push(0x30 + n / 10);
        out.push(0x30 + n % 10);
    }
}

/// `CSI num ~`, or `CSI num ; mod ~` with modifiers.
pub open spec fn tilde_seq_spec(num: u8, mod_code: u8) -> Seq<u8> {
    if mod_code == 1 {
        seq![0x1bu8, 0x5bu8] + decimal(num as nat) + seq![0x7eu8]
    } else {
        seq![0x1bu8, 0x5bu8] + decimal(num as nat) + seq![0x3bu8] + decimal(mod_code as nat)
            + seq![0x7eu8]
    }
}

fn tilde_seq(num: u8, mod_code: u8) -> (r: Vec<u8>)
    requires
        num < 100,
        mod_code < 100,
    ensures
        r@ == tilde_seq_spec(num, mod_code),
{
    let mut out: Vec<u8> = vec![0x1b, 0x5b];
    push_decimal(&mut out, num);
    if mod_code != 1 {
        out.push(0x3b);
        push_decimal(&mut out, mod_code);
    }
    out.push(0x7e);
    assert(out@ =~= tilde_seq_spec(num, mod_code));
    out
}

/// `CSI 1 ; mod suffix` (the modifier as one byte past `'0'`).
pub open spec fn mod_letter_spec(suffix: u8, mod_code: u8) -> Seq<u8> {
    seq![0x1bu8, 0x5bu8, 0x31u8, 0x3bu8, (0x30 + mod_code) as u8, suffix]
}

fn mod_letter(suffix: u8, mod_code: u8) -> (r: Vec<u8>)
    requires
        mod_code <= 16,
    ensures
        r@ == mod_letter_spec(suffix, mod_code),
{
    let r = vec![0x1b, 0x5b, 0x31, 0x3b, 0x30 + mod_code, suffix];
    assert(r@ =~= mod_letter_spec(suffix, mod_code));
    r
}

/// The SS3 final byte of a numpad character in application keypad mode.
pub open spec fn keypad_app_final(ch: char) -> Option<u8> {
    if '0' <= ch <= '9' {
        Some((0x70 + (ch as u32 - 0x30)) as u8)
    } else if ch == '-' {
        Some(0x6d)
    } else if ch == ',' {
        Some(0x6c)
    } else if ch == '.' {
        Some(0x6e)
    } else if ch == '+' {
        Some(0x6b)
    } else if ch == '*' {
        Some(0x6a)
    } else if ch == '/' {
        Some(0x6f)
    } else if ch == '=' {
        Some(0x58)
    } else {
        None
    }
}

fn keypad_app_byte(ch: char) -> (r: Option<u8>)
    ensures
        r == keypad_app_final(ch),
{
    if '0' <= ch && ch <= '9' {
        Some((0x70 + (ch as u32 - 0x30)) as u8)
    } else if ch == '-' {
        Some(0x6d)
    } else if ch == ',' {
        Some(0x6c)
    } else if ch == '.' {
        Some(0x6e)
    } else if ch == '+' {
        Some(0x6b)
    } else if ch == '*' {
        Some(0x6a)
    } else if ch == '/' {
        Some(0x6f)
    } else if ch == '=' {
        Some(0x58)
    } else {
        None
    }
}

/// The text of a character key.
pub open spec fn key_text(k: Key) -> Option<Seq<char>> {
    match k {
        Key::Character(s) => Some(s@),
        _ => None,
    }
}

/// The first character of a character key's text.
pub open spec fn key_first_char(k: Key) -> Option<char> {
    match k {
        Key::Character(s) => if s@.len() > 0 {
            Some(s@[0])
        } else {
            None
        },
        _ => None,
    }
}

/// Base bytes for `Alt+character`: the shifted logical text when it is
/// the modifierless one or plain ASCII, else the modifierless key (upper-
/// cased with Shift when it is one ASCII lowercase byte), else any
/// logical text.
pub open spec fn alt_base_spec(logical: Key, without: Key, shift: bool) -> Option<Seq<u8>> {
    let l = key_text(logical);
    let p = key_text(without);
    if l is Some && p is Some && l->0 == p->0 {
        Some(encode_utf8(l->0))
    } else if l is Some && is_ascii_chars(l->0) && l->0.len() > 0 {
        Some(encode_utf8(l->0))
    } else if p is Some && p->0.len() > 0 {
        let pb = encode_utf8(p->0);
        if shift && pb.len() == 1 && 0x61 <= pb[0] <= 0x7a {
            Some(seq![(pb[0] - 32) as u8])
        } else {
            Some(pb)
        }
    } else if l is Some && l->0.len() > 0 {
        Some(encode_utf8(l->0))
    } else {
        None
    }
}

/// The UTF-8 bytes of `s`.
fn utf8_bytes(s: &str) -> (r: Vec<u8>)
    ensures
        r@ == encode_utf8(s@),
{
    let b = s.as_bytes();
    let mut out: Vec<u8> = Vec::new();
    let mut i: usize = 0;
    while i < b.len()
        invariant
            i <= b@.len(),
            b@ == encode_utf8(s@),
            out@ == b@.subrange(0, i as int),
        decreases b@.len() - i,
    {
        out.push(b[i]);
        i += 1;
        assert(out@ =~= b@.subrange(0, i as int));
    }
    assert(b@.subrange(0, b@.len() as int) =~= b@);
    out
}

/// Whether `a` and `b` hold the same characters.
fn same_text(a: &str, b: &str) -> (r: bool)
    ensures
        r == (a@ == b@),
{
    crate::text::str_eq(a, b)
}

fn alt_base_bytes(logical: &Key, without: &Key, shift: bool) -> (r: Option<Vec<u8>>)
    ensures
        opt_bytes(r) == alt_base_spec(*logical, *without, shift),
{
    let l: Option<&str> = match logical {
        Key::Character(s) => Some(s.as_str()),
        _ => None,
    };
    let p: Option<&str> = match without {
        Key::Character(s) => Some(s.as_str()),
        _ => None,
    };
    if let (Some(ls), Some(ps)) = (l, p) {
        if same_text(ls, ps) {
            return Some(utf8_bytes(ls));
        }
    }
    if let Some(ls) = l {
        if ls.is_ascii() && chars_of(ls).len() > 0 {
            return Some(utf8_bytes(ls));
        }
    }
    if let Some(ps) = p {
        if chars_of(ps).len() > 0 {
            let pb = utf8_bytes(ps);
            if shift && pb.len() == 1 && 0x61 <= pb[0] && pb[0] <= 0x7a {
                let up: Vec<u8> = vec![pb[0] - 32];
                assert(up@ =~= seq![(pb@[0] - 32) as u8]);
                return Some(up);
            }
            return Some(pb);
        }
    }
    if let Some(ls) = l {
        if chars_of(ls).len() > 0 {
            return Some(utf8_bytes(ls));
        }
    }
    None
}

/// The bytes held by an optional byte vector.
pub open spec fn opt_bytes(r: Option<Vec<u8>>) -> Option<Seq<u8>> {
    match r {
        Some(v) => Some(v@),
        None => None,
    }
}

/// `ESC` followed by `b`.
pub open spec fn esc_then(b: Seq<u8>) -> Seq<u8> {
    seq![0x1bu8] + b
}

/// The bytes of a named key that has a fixed encoding; `None` for the
/// named keys that fall through to the keypad, Alt and text rules.
pub open spec fn named_key_spec(
    named: NamedKey,
    m: Modifiers,
    location: KeyLocation,
    cursor_app: bool,
    keypad_app: bool,
) -> Option<Seq<u8>> {
    let mod_code = xterm_mod_spec(m);
    let alt_prefix = m.alt && !m.control;
    match named {
        NamedKey::Enter => Some(
            if location == KeyLocation::Numpad && keypad_app && !m.control {
                if alt_prefix {
                    seq![0x1bu8, 0x1bu8, 0x4fu8, 0x4du8]
                } else {
                    seq![0x1bu8, 0x4fu8, 0x4du8]
                }
            } else if alt_prefix {
                seq![0x1bu8, 0x0du8]
            } else {
                seq![0x0du8]
            },
        ),
        NamedKey::Backspace => Some(
            if m.super_key {
                seq![0x15u8]
            } else if alt_prefix {
                seq![0x1bu8, 0x7fu8]
            } else {
                seq![0x7fu8]
            },
        ),
        NamedKey::Tab => Some(
            if m.shift && !m.alt {
                seq![0x1bu8, 0x5bu8, 0x5au8]
            } else if alt_prefix {
                if m.shift {
                    seq![0x1bu8, 0x1bu8, 0x5bu8, 0x5au8]
                } else {
                    seq![0x1bu8, 0x09u8]
                }
            } else {
                seq![0x09u8]
            },
        ),
        NamedKey::Escape => Some(
            if alt_prefix {
                seq![0x1bu8, 0x1bu8]
            } else {
                seq![0x1bu8]
            },
        ),
        NamedKey::Space => Some(
            if alt_prefix {
                seq![0x1bu8, 0x20u8]
            } else {
                seq![0x20u8]
            },
        ),
        NamedKey::ArrowUp => Some(arrow_spec(0x41, mod_code, cursor_app)),
        NamedKey::ArrowDown => Some(arrow_spec(0x42, mod_code, cursor_app)),
        NamedKey::ArrowRight => Some(
            if m.super_key {
                seq![0x05u8]
            } else if mod_code == 3 {
                seq![0x1bu8, 0x66u8]
            } else {
                arrow_spec(0x43, mod_code, cursor_app)
            },
        ),
        NamedKey::ArrowLeft => Some(
            if m.super_key {
                seq![0x01u8]
            } else if mod_code == 3 {
                seq![0x1bu8, 0x62u8]
            } else {
                arrow_spec(0x44, mod_code, cursor_app)
            },
        ),
        NamedKey::Home => Some(csi_letter_spec(0x48, mod_code)),
        NamedKey::End => Some(csi_letter_spec(0x46, mod_code)),
        NamedKey::PageUp => Some(tilde_seq_spec(5, mod_code)),
        NamedKey::PageDown => Some(tilde_seq_spec(6, mod_code)),
        NamedKey::Insert => Some(tilde_seq_spec(2, mod_code)),
        NamedKey::Delete => Some(tilde_seq_spec(3, mod_code)),
        NamedKey::F1 => Some(ss3_letter_spec(0x50, mod_code)),
        NamedKey::F2 => Some(ss3_letter_spec(0x51, mod_code)),
        NamedKey::F3 => Some(ss3_letter_spec(0x52, mod_code)),
        NamedKey::F4 => Some(ss3_letter_spec(0x53, mod_code)),
        NamedKey::F5 => Some(tilde_seq_spec(15, mod_code)),
        NamedKey::F6 => Some(tilde_seq_spec(17, mod_code)),
        NamedKey::F7 => Some(tilde_seq_spec(18, mod_code)),
        NamedKey::F8 => Some(tilde_seq_spec(19, mod_code)),
        NamedKey::F9 => Some(tilde_seq_spec(20, mod_code)),
        NamedKey::F10 => Some(tilde_seq_spec(21, mod_code)),
        NamedKey::F11 => Some(tilde_seq_spec(23, mod_code)),
        NamedKey::F12 => Some(tilde_seq_spec(24, mod_code)),
        NamedKey::Other => None,
    }
}

/// An arrow key: `CSI x` (SS3 `x` in application cursor mode) without
/// modifiers, else `CSI 1 ; mod x`.
pub open spec fn arrow_spec(letter: u8, mod_code: u8, cursor_app: bool) -> Seq<u8> {
    if mod_code == 1 {
        if cursor_app {
            seq![0x1bu8, 0x4fu8, letter]
        } else {
            seq![0x1bu8, 0x5bu8, letter]
        }
    } else {
        mod_letter_spec(letter, mod_code)
    }
}

/// `CSI x` without modifiers, else `CSI 1 ; mod x`.
pub open spec fn csi_letter_spec(letter: u8, mod_code: u8) -> Seq<u8> {
    if mod_code == 1 {
        seq![0x1bu8, 0x5bu8, letter]
    } else {
        mod_letter_spec(letter, mod_code)
    }
}

/// `SS3 x` without modifiers, else `CSI 1 ; mod x`.
pub open spec fn ss3_letter_spec(letter: u8, mod_code: u8) -> Seq<u8> {
    if mod_code == 1 {
        seq![0x1bu8, 0x4fu8, letter]
    } else {
        mod_letter_spec(letter, mod_code)
    }
}

fn arrow(letter: u8, mod_code: u8, cursor_app: bool) -> (r: Vec<u8>)
    requires
        mod_code <= 16,
    ensures
        r@ == arrow_spec(letter, mod_code, cursor_app),
{
    if mod_code == 1 {
        let r = if cursor_app {
            vec![0x1b, 0x4f, letter]
        } else {
            vec![0x1b, 0x5b, letter]
        };
        assert(r@ =~= arrow_spec(letter, mod_code, cursor_app));
        r
    } else {
        mod_letter(letter, mod_code)
    }
}

fn csi_letter(letter: u8, mod_code: u8) -> (r: Vec<u8>)
    requires
        mod_code <= 16,
    ensures
        r@ == csi_letter_spec(letter, mod_code),
{
    if mod_code == 1 {
        let r = vec![0x1b, 0x5b, letter];
        assert(r@ =~= csi_letter_spec(letter, mod_code));
        r
    } else {
        mod_letter(letter, mod_code)
    }
}

fn ss3_letter(letter: u8, mod_code: u8) -> (r: Vec<u8>)
    requires
        mod_code <= 16,
    ensures
        r@ == ss3_letter_spec(letter, mod_code),
{
    if mod_code == 1 {
        let r = vec![0x1b, 0x4f, letter];
        assert(r@ =~= ss3_letter_spec(letter, mod_code));
        r
    } else {
        mod_letter(letter, mod_code)
    }
}

fn named_key_bytes(
    named: NamedKey,
    m: &Modifiers,
    location: KeyLocation,
    cursor_app: bool,
    keypad_app: bool,
) -> (r: Option<Vec<u8>>)
    ensures
        opt_bytes(r) == named_key_spec(named, *m, location, cursor_app, keypad_app),
{
    let mod_code = xterm_mod(m);
    let alt_prefix = m.alt && !m.control;
    let out: Vec<u8> = match named {
        NamedKey::Enter => {
            if location == KeyLocation::Numpad && keypad_app && !m.control {
                if alt_prefix {
                    vec![0x1b, 0x1b, 0x4f, 0x4d]
                } else {
                    vec![0x1b, 0x4f, 0x4d]
                }
            } else if alt_prefix {
                vec![0x1b, 0x0d]
            } else {
                vec![0x0d]
            }
        },
        NamedKey::Backspace => {
            if m.super_key {
                vec![0x15]
            } else if alt_prefix {
                vec![0x1b, 0x7f]
            } else {
                vec![0x7f]
            }
        },
        NamedKey::Tab => {
            if m.shift && !m.alt {
                vec![0x1b, 0x5b, 0x5a]
            } else if alt_prefix {
                if m.shift {
                    vec![0x1b, 0x1b, 0x5b, 0x5a]
                } else {
                    vec![0x1b, 0x09]
                }
            } else {
                vec![0x09]
            }
        },
        NamedKey::Escape => {
            if alt_prefix {
                vec![0x1b, 0x1b]
            } else {
                vec![0x1b]
            }
        },
        NamedKey::Space => {
            if alt_prefix {
                vec![0x1b, 0x20]
            } else {
                vec![0x20]
            }
        },
        NamedKey::ArrowUp => arrow(0x41, mod_code, cursor_app),
        NamedKey::ArrowDown => arrow(0x42, mod_code, cursor_app),
        NamedKey::ArrowRight => {
            if m.super_key {
                vec![0x05]
            } else if mod_code == 3 {
                vec![0x1b, 0x66]
            } else {
                arrow(0x43, mod_code, cursor_app)
            }
        },
        NamedKey::ArrowLeft => {
            if m.super_key {
                vec![0x01]
            } else if mod_code == 3 {
                vec![0x1b, 0x62]
            } else {
                arrow(0x44, mod_code, cursor_app)
            }
        },
        NamedKey::Home => csi_letter(0x48, mod_code),
        NamedKey::End => csi_letter(0x46, mod_code),
        NamedKey::PageUp => tilde_seq(5, mod_code),
        NamedKey::PageDown => tilde_seq(6, mod_code),
        NamedKey::Insert => tilde_seq(2, mod_code),
        NamedKey::Delete => tilde_seq(3, mod_code),
        NamedKey::F1 => ss3_letter(0x50, mod_code),
        NamedKey::F2 => ss3_letter(0x51, mod_code),
        NamedKey::F3 => ss3_letter(0x52, mod_code),
        NamedKey::F4 => ss3_letter(0x53, mod_code),
        NamedKey::F5 => tilde_seq(15, mod_code),
        NamedKey::F6 => tilde_seq(17, mod_code),
        NamedKey::F7 => tilde_seq(18, mod_code),
        NamedKey::F8 => tilde_seq(19, mod_code),
        NamedKey::F9 => tilde_seq(20, mod_code),
        NamedKey::F10 => tilde_seq(21, mod_code),
        NamedKey::F11 => tilde_seq(23, mod_code),
        NamedKey::F12 => tilde_seq(24, mod_code),
        NamedKey::Other => {
            return None;
        },
    };
    proof {
        let s = named_key_spec(named, *m, location, cursor_app, keypad_app);
        assert(s is Some);
        assert(out@ =~= s->0);
    }
    Some(out)
}

/// Exactly one of Ctrl and Super, each only where enabled.
pub open spec fn one_of_ctrl_super(m: Modifiers, ctrl_ok: bool, super_ok: bool) -> bool {
    (ctrl_ok && m.control && !m.super_key) != (super_ok && m.super_key && !m.control)
}

/// The reserved tab-switch shortcut: `Tab` with exactly one of Ctrl and
/// Super (as enabled), without Alt.
pub open spec fn tab_switch_spec(k: Key, m: Modifiers, b: KeyBindings) -> bool {
    k == Key::Named(NamedKey::Tab) && !m.alt && one_of_ctrl_super(m, b.tab_switch_ctrl, b.tab_switch_super)
}

pub fn is_tab_switch_shortcut(logical_key: &Key, m: &Modifiers, config: &KeyBindings) -> (r: bool)
    ensures
        r == tab_switch_spec(*logical_key, *m, *config),
{
    let is_tab = match logical_key {
        Key::Named(NamedKey::Tab) => true,
        _ => false,
    };
    if !is_tab {
        return false;
    }
    if m.alt {
        return false;
    }
    let ctrl = config.tab_switch_ctrl && m.control && !m.super_key;
    let sup = config.tab_switch_super && m.super_key && !m.control;
    ctrl != sup
}

/// Whether a character key's text equals `key`, ignoring ASCII case.
pub open spec fn key_is(k: Key, key: Seq<char>) -> bool {
    match k {
        Key::Character(s) => ascii_lower_seq(s@) == ascii_lower_seq(key),
        _ => false,
    }
}

fn key_matches(k: &Key, key: &str) -> (r: bool)
    ensures
        r == key_is(*k, key@),
{
    match k {
        Key::Character(s) => {
            let a = ascii_lower_chars(chars_of(s.as_str()).as_slice());
            let b = ascii_lower_chars(chars_of(key).as_slice());
            crate::text::chars_eq(a.as_slice(), b.as_slice())
        },
        _ => false,
    }
}

/// Copy (or paste) shortcut: the key with Super alone, or with Ctrl+Shift
/// alone, each as enabled.
pub open spec fn clipboard_shortcut_spec(
    k: Key,
    m: Modifiers,
    key: Seq<char>,
    super_ok: bool,
    ctrl_shift_ok: bool,
) -> bool {
    key_is(k, key) && ((super_ok && m.super_key && !m.control && !m.alt) || (ctrl_shift_ok
        && m.control && m.shift && !m.super_key && !m.alt))
}

/// Explicit-copy shortcut.
pub fn is_copy_shortcut(logical_key: &Key, m: &Modifiers, config: &KeyBindings) -> (r: bool)
    ensures
        r == clipboard_shortcut_spec(
            *logical_key,
            *m,
            config.copy_key@,
            config.copy_super,
            config.copy_ctrl_shift,
        ),
{
    if !key_matches(logical_key, config.copy_key.as_str()) {
        return false;
    }
    if config.copy_super && m.super_key && !m.control && !m.alt {
        return true;
    }
    config.copy_ctrl_shift && m.control && m.shift && !m.super_key && !m.alt
}

/// Explicit-paste shortcut.
pub fn is_paste_shortcut(logical_key: &Key, m: &Modifiers, config: &KeyBindings) -> (r: bool)
    ensures
        r == clipboard_shortcut_spec(
            *logical_key,
            *m,
            config.paste_key@,
            config.paste_super,
            config.paste_ctrl_shift,
        ),
{
    if !key_matches(logical_key, config.paste_key.as_str()) {
        return false;
    }
    if config.paste_super && m.super_key && !m.control && !m.alt {
        return true;
    }
    config.paste_ctrl_shift && m.control && m.shift && !m.super_key && !m.alt
}

/// New-tab shortcut: the key with exactly one of Ctrl and Super (as
/// enabled), without Shift or Alt.
pub fn is_new_tab_shortcut(logical_key: &Key, m: &Modifiers, config: &KeyBindings) -> (r: bool)
    ensures
        r == (key_is(*logical_key, config.new_tab_key@) && !m.shift && !m.alt && one_of_ctrl_super(
            *m,
            config.new_tab_ctrl,
            config.new_tab_super,
        )),
{
    if !key_matches(logical_key, config.new_tab_key.as_str()) {
        return false;
    }
    if m.shift || m.alt {
        return false;
    }
    let ctrl = config.new_tab_ctrl && m.control && !m.super_key;
    let sup = config.new_tab_super && m.super_key && !m.control;
    ctrl != sup
}

/// Find-bar shortcut: the search key with exactly one of Ctrl and Super
/// (as enabled), without Shift or Alt.
pub fn is_search_toggle(logical_key: &Key, m: &Modifiers, config: &KeyBindings) -> (r: bool)
    ensures
        r == (key_is(*logical_key, config.search_key@) && !m.shift && !m.alt && one_of_ctrl_super(
            *m,
            config.search_ctrl,
            config.search_super,
        )),
{
    if !key_matches(logical_key, config.search_key.as_str()) {
        return false;
    }
    if m.shift || m.alt {
        return false;
    }
    let ctrl = config.search_ctrl && m.control && !m.super_key;
    let sup = config.search_super && m.super_key && !m.control;
    ctrl != sup
}

/// Settings shortcut: `,` (or `<`, Shift+comma on some layouts) with
/// exactly one of Ctrl and Super, without Alt.
pub fn is_settings_toggle(logical_key: &Key, m: &Modifiers) -> (r: bool)
    ensures
        r == ((key_text(*logical_key) == Some(","@) || key_text(*logical_key) == Some("<"@))
            && !m.alt && one_of_ctrl_super(*m, true, true)),
{
    let hit = match logical_key {
        Key::Character(s) => crate::text::str_eq(s.as_str(), ",") || crate::text::str_eq(
            s.as_str(),
            "<",
        ),
        _ => false,
    };
    if !hit {
        return false;
    }
    if m.alt {
        return false;
    }
    let ctrl = m.control && !m.super_key;
    let sup = m.super_key && !m.control;
    ctrl != sup
}

/// Log-window shortcut: `L` (either case) with Shift and exactly one of
/// Ctrl and Super, without Alt.
pub fn is_logs_toggle(logical_key: &Key, m: &Modifiers) -> (r: bool)
    ensures
        r == (key_is(*logical_key, "l"@) && m.shift && !m.alt && one_of_ctrl_super(*m, true, true)),
{
    if !key_matches(logical_key, "l") {
        return false;
    }
    if m.alt || !m.shift {
        return false;
    }
    let ctrl = m.control && !m.super_key;
    let sup = m.super_key && !m.control;
    ctrl != sup
}

/// The text of an optional string slice.
pub open spec fn opt_text(t: Option<&str>) -> Option<Seq<char>> {
    match t {
        Some(s) => Some(s@),
        None => None,
    }
}

/// `Ctrl` (without Alt): a one-byte control character the platform
/// already produced, else `Ctrl+letter` as its control byte, or
/// `Ctrl+Space` as NUL.
pub open spec fn ctrl_spec(k: Key, text_with_ctrl: Option<Seq<char>>, m: Modifiers) -> Option<Seq<u8>> {
    if m.control && !m.alt {
        let tb = match text_with_ctrl {
            Some(t) => encode_utf8(t),
            None => Seq::empty(),
        };
        if text_with_ctrl is Some && tb.len() == 1 && (tb[0] < 0x20 || tb[0] == 0x7f) {
            Some(tb)
        } else {
            match k {
                Key::Character(s) => if s@.len() > 0 && 0x61 <= ctrl_letter_byte(s@[0]) <= 0x7a {
                    Some(seq![(ctrl_letter_byte(s@[0]) - 0x61 + 1) as u8])
                } else {
                    None
                },
                Key::Named(NamedKey::Space) => Some(seq![0x00u8]),
                _ => None,
            }
        }
    } else {
        None
    }
}

/// The low byte of the ASCII-lowercased character.
pub open spec fn ctrl_letter_byte(c: char) -> u8 {
    ((ascii_lower_spec(c) as u32) % 256) as u8
}

fn ctrl_bytes(k: &Key, text_with_ctrl: Option<&str>, m: &Modifiers) -> (r: Option<Vec<u8>>)
    ensures
        opt_bytes(r) == ctrl_spec(*k, opt_text(text_with_ctrl), *m),
{
    if !(m.control && !m.alt) {
        return None;
    }
    if let Some(t) = text_with_ctrl {
        let tb = utf8_bytes(t);
        if tb.len() == 1 && (tb[0] < 0x20 || tb[0] == 0x7f) {
            return Some(tb);
        }
    }
    match k {
        Key::Character(s) => {
            let cs = chars_of(s.as_str());
            if cs.len() > 0 {
                let lower = crate::text::ascii_lower(cs[0]);
                let code: u32 = lower as u32;
                let b: u8 = (code % 256) as u8;
                if 0x61 <= b && b <= 0x7a {
                    let out: Vec<u8> = vec![b - 0x61 + 1];
                    assert(out@ =~= seq![(b - 0x61 + 1) as u8]);
                    return Some(out);
                }
            }
            None
        },
        Key::Named(NamedKey::Space) => {
            let out: Vec<u8> = vec![0x00];
            assert(out@ =~= seq![0x00u8]);
            Some(out)
        },
        _ => None,
    }
}

/// The character the numpad rule looks at: the logical key's, else the
/// modifierless key's, else the text's first character.
pub open spec fn keypad_candidate(logical: Key, without: Key, text: Option<Seq<char>>) -> Option<char> {
    if key_first_char(logical) is Some {
        key_first_char(logical)
    } else if key_first_char(without) is Some {
        key_first_char(without)
    } else {
        match text {
            Some(t) => if t.len() > 0 {
                Some(t[0])
            } else {
                None
            },
            None => None,
        }
    }
}

/// After the fixed encodings: application-keypad SS3, then Alt as an ESC
/// prefix to a character key's base bytes (Alt with other named keys
/// sends nothing), then the key's text.
pub open spec fn rest_spec(
    logical: Key,
    without: Key,
    text: Option<Seq<char>>,
    location: KeyLocation,
    m: Modifiers,
    keypad_app: bool,
) -> Option<Seq<u8>> {
    let alt_prefix = m.alt && !m.control;
    let kp = if location == KeyLocation::Numpad && keypad_app && !m.control {
        match keypad_candidate(logical, without, text) {
            Some(ch) => keypad_app_final(ch),
            None => None,
        }
    } else {
        None
    };
    if kp is Some {
        Some(
            if alt_prefix {
                seq![0x1bu8, 0x1bu8, 0x4fu8, kp->0]
            } else {
                seq![0x1bu8, 0x4fu8, kp->0]
            },
        )
    } else if alt_prefix && logical is Character && alt_base_spec(logical, without, m.shift) is Some {
        Some(esc_then(alt_base_spec(logical, without, m.shift)->0))
    } else if alt_prefix && logical is Named {
        None
    } else {
        match text {
            Some(t) => if t.len() > 0 {
                Some(encode_utf8(t))
            } else {
                None
            },
            None => None,
        }
    }
}

fn first_char(k: &Key) -> (r: Option<char>)
    ensures
        r == key_first_char(*k),
{
    match k {
        Key::Character(s) => {
            let cs = chars_of(s.as_str());
            if cs.len() > 0 {
                Some(cs[0])
            } else {
                None
            }
        },
        _ => None,
    }
}

fn rest_bytes(
    logical: &Key,
    without: &Key,
    text: Option<&str>,
    location: KeyLocation,
    m: &Modifiers,
    keypad_app: bool,
) -> (r: Option<Vec<u8>>)
    ensures
        opt_bytes(r) == rest_spec(*logical, *without, opt_text(text), location, *m, keypad_app),
{
    let alt_prefix = m.alt && !m.control;
    if location == KeyLocation::Numpad && keypad_app && !m.control {
        let mut candidate = first_char(logical);
        if candidate.is_none() {
            candidate = first_char(without);
        }
        if candidate.is_none() {
            if let Some(t) = text {
                let cs = chars_of(t);
                if cs.len() > 0 {
                    candidate = Some(cs[0]);
                }
            }
        }
        if let Some(ch) = candidate {
            if let Some(f) = keypad_app_byte(ch) {
                let out: Vec<u8> = if alt_prefix {
                    vec![0x1b, 0x1b, 0x4f, f]
                } else {
                    vec![0x1b, 0x4f, f]
                };
                assert(alt_prefix ==> out@ =~= seq![0x1bu8, 0x1bu8, 0x4fu8, f]);
                assert(!alt_prefix ==> out@ =~= seq![0x1bu8, 0x4fu8, f]);
                return Some(out);
            }
        }
    }
    if alt_prefix {
        let is_char = match logical {
            Key::Character(_) => true,
            _ => false,
        };
        if is_char {
            if let Some(base) = alt_base_bytes(logical, without, m.shift) {
                let mut out: Vec<u8> = vec![0x1b];
                let mut i: usize = 0;
                while i < base.len()
                    invariant
                        i <= base@.len(),
                        out@ == seq![0x1bu8] + base@.subrange(0, i as int),
                    decreases base@.len() - i,
                {
                    out.push(base[i]);
                    i += 1;
                    assert(out@ =~= seq![0x1bu8] + base@.subrange(0, i as int));
                }
                assert(base@.subrange(0, base@.len() as int) =~= base@);
                return Some(out);
            }
        }
        let is_named = match logical {
            Key::Named(_) => true,
            _ => false,
        };
        if is_named {
            return None;
        }
    }
    if let Some(t) = text {
        let tb = utf8_bytes(t);
        if chars_of(t).len() > 0 {
            return Some(tb);
        }
    }
    None
}

/// The bytes a key press sends to the shell; `None` for releases, local
/// shortcuts and keys without an encoding.
pub open spec fn map_key_spec(
    logical: Key,
    without: Key,
    text: Option<Seq<char>>,
    text_with_ctrl: Option<Seq<char>>,
    location: KeyLocation,
    pressed: bool,
    m: Modifiers,
    cursor_app: bool,
    keypad_app: bool,
    b: KeyBindings,
) -> Option<Seq<u8>> {
    let cmd_edit = (logical == Key::Named(NamedKey::ArrowLeft) || logical == Key::Named(
        NamedKey::ArrowRight,
    ) || logical == Key::Named(NamedKey::Backspace)) && !m.alt && !m.control;
    if !pressed {
        None
    } else if tab_switch_spec(logical, m, b) {
        None
    } else if m.super_key && !cmd_edit {
        None
    } else if ctrl_spec(logical, text_with_ctrl, m) is Some {
        ctrl_spec(logical, text_with_ctrl, m)
    } else {
        match logical {
            Key::Named(n) => if named_key_spec(n, m, location, cursor_app, keypad_app) is Some {
                named_key_spec(n, m, location, cursor_app, keypad_app)
            } else {
                rest_spec(logical, without, text, location, m, keypad_app)
            },
            _ => rest_spec(logical, without, text, location, m, keypad_app),
        }
    }
}

/// Map a logical key plus its text to the bytes for the shell.
pub fn map_key(
    logical_key: &Key,
    key_without_modifiers: &Key,
    text: Option<&str>,
    text_with_ctrl: Option<&str>,
    location: KeyLocation,
    pressed: bool,
    modifiers: &Modifiers,
    cursor_app: bool,
    keypad_app: bool,
    input_config: &KeyBindings,
) -> (r: Option<Vec<u8>>)
    ensures
        opt_bytes(r) == map_key_spec(
            *logical_key,
            *key_without_modifiers,
            opt_text(text),
            opt_text(text_with_ctrl),
            location,
            pressed,
            *modifiers,
            cursor_app,
            keypad_app,
            *input_config,
        ),
{
    if !pressed {
        return None;
    }
    if is_tab_switch_shortcut(logical_key, modifiers, input_config) {
        return None;
    }
    if modifiers.super_key {
        let edit_key = match logical_key {
            Key::Named(NamedKey::ArrowLeft) => true,
            Key::Named(NamedKey::ArrowRight) => true,
            Key::Named(NamedKey::Backspace) => true,
            _ => false,
        };
        if !(edit_key && !modifiers.alt && !modifiers.control) {
            return None;
        }
    }
    if let Some(v) = ctrl_bytes(logical_key, text_with_ctrl, modifiers) {
        return Some(v);
    }
    if let Key::Named(n) = logical_key {
        if let Some(v) = named_key_bytes(*n, modifiers, location, cursor_app, keypad_app) {
            return Some(v);
        }
    }
    rest_bytes(logical_key, key_without_modifiers, text, location, modifiers, keypad_app)
}

/// The bracketed-paste start and end markers around `text`.
pub open spec fn bracketed_spec(text: Seq<char>, enabled: bool) -> Seq<u8> {
    if enabled {
        seq![0x1bu8, 0x5bu8, 0x32u8, 0x30u8, 0x30u8, 0x7eu8] + encode_utf8(text) + seq![
            0x1bu8,
            0x5bu8,
            0x32u8,
            0x30u8,
            0x31u8,
            0x7eu8,
        ]
    } else {
        encode_utf8(text)
    }
}

/// Wrap pasted text in bracketed-paste markers when the mode is enabled.
pub fn wrap_bracketed_paste(text: &str, enabled: bool) -> (r: Vec<u8>)
    ensures
        r@ == bracketed_spec(text@, enabled),
{
    let body = utf8_bytes(text);
    if !enabled {
        return body;
    }
    let mut out: Vec<u8> = vec![0x1b, 0x5b, 0x32, 0x30, 0x30, 0x7e];
    let ghost start = out@;
    let mut i: usize = 0;
    while i < body.len()
        invariant
            i <= body@.len(),
            out@ == start + body@.subrange(0, i as int),
        decreases body@.len() - i,
    {
        out.push(body[i]);
        i += 1;
        assert(out@ =~= start + body@.subrange(0, i as int));
    }
    assert(body@.subrange(0, body@.len() as int) =~= body@);
    out.push(0x1b);
    out.push(0x5b);
    out.push(0x32);
    out.push(0x30);
    out.push(0x31);
    out.push(0x7e);
    assert(out@ =~= bracketed_spec(text@, enabled));
    out
}

/// The bytes an arrow key sends, with `letter` its direction (`A` up, `B`
/// down, `C` right, `D` left): `ESC [ letter` without modifiers (`ESC O
/// letter` in application cursor mode), else `ESC [ 1 ; m letter` with `m`
/// the xterm modifier digit 1 + Shift + 2·Alt + 4·Ctrl.
pub open spec fn arrow_bytes_expected(letter: u8, m: Modifiers, cursor_app: bool) -> Seq<u8> {
    if !m.shift && !m.alt && !m.control {
        seq![0x1bu8, if cursor_app { 0x4fu8 } else { 0x5bu8 }, letter]
    } else {
        seq![
            0x1bu8,
            0x5bu8,
            0x31u8,
            0x3bu8,
            (0x31 + (if m.shift { 1int } else { 0 }) + (if m.alt { 2int } else { 0 }) + (if m.control {
                4int
            } else {
                0
            })) as u8,
            letter,
        ]
    }
}

/// Arrow keys send their own direction: without Super held (which turns
/// Left/Right into line editing) the Up, Down, Right and Left arrows send
/// the sequences ending in `A`, `B`, `C` and `D`, so no two arrows send the
/// same bytes; Alt alone on Left/Right sends the word-motion keys instead.
pub proof fn lemma_arrow_keys_send_their_direction(
    without: Key,
    text: Option<Seq<char>>,
    location: KeyLocation,
    m: Modifiers,
    cursor_app: bool,
    keypad_app: bool,
    b: KeyBindings,
)
    requires
        !m.super_key,
    ensures
        map_key_spec(Key::Named(NamedKey::ArrowUp), without, text, None, location, true, m, cursor_app, keypad_app, b)
            == Some(arrow_bytes_expected(0x41, m, cursor_app)),
        map_key_spec(Key::Named(NamedKey::ArrowDown), without, text, None, location, true, m, cursor_app, keypad_app, b)
            == Some(arrow_bytes_expected(0x42, m, cursor_app)),
        !(m.alt && !m.shift && !m.control) ==> map_key_spec(
            Key::Named(NamedKey::ArrowRight), without, text, None, location, true, m, cursor_app, keypad_app, b,
        ) == Some(arrow_bytes_expected(0x43, m, cursor_app)),
        !(m.alt && !m.shift && !m.control) ==> map_key_spec(
            Key::Named(NamedKey::ArrowLeft), without, text, None, location, true, m, cursor_app, keypad_app, b,
        ) == Some(arrow_bytes_expected(0x44, m, cursor_app)),
        arrow_bytes_expected(0x41, m, cursor_app).last() == 0x41,
        arrow_bytes_expected(0x42, m, cursor_app).last() == 0x42,
        arrow_bytes_expected(0x43, m, cursor_app).last() == 0x43,
        arrow_bytes_expected(0x44, m, cursor_app).last() == 0x44,
{
    assert(arrow_bytes_expected(0x41, m, cursor_app) =~= arrow_spec(0x41, xterm_mod_spec(m), cursor_app));
    assert(arrow_bytes_expected(0x42, m, cursor_app) =~= arrow_spec(0x42, xterm_mod_spec(m), cursor_app));
    assert(arrow_bytes_expected(0x43, m, cursor_app) =~= arrow_spec(0x43, xterm_mod_spec(m), cursor_app));
    assert(arrow_bytes_expected(0x44, m, cursor_app) =~= arrow_spec(0x44, xterm_mod_spec(m), cursor_app));
}

/// A named key pressed without modifiers on the main keyboard.
pub open spec fn plain_named_key(k: NamedKey, without: Key, cursor_app: bool, keypad_app: bool, b: KeyBindings) -> Option<
    Seq<u8>,
> {
    map_key_spec(
        Key::Named(k),
        without,
        None,
        None,
        KeyLocation::Standard,
        true,
        Modifiers { shift: false, alt: false, control: false, super_key: false },
        cursor_app,
        keypad_app,
        b,
    )
}

/// The bytes of the editing and function keys without modifiers: Enter CR,
/// Backspace DEL, Tab HT, Escape ESC, Space a space; Home and End `CSI H`
/// and `CSI F`; Insert, Delete, Page Up and Page Down `CSI 2 ~`, `CSI 3 ~`,
/// `CSI 5 ~` and `CSI 6 ~`; F1 to F4 `SS3 P` to `SS3 S`; F5 to F12
/// `CSI 15 ~`, `17`, `18`, `19`, `20`, `21`, `23` and `24 ~`.
pub proof fn lemma_plain_named_keys(without: Key, cursor_app: bool, keypad_app: bool, b: KeyBindings)
    ensures
        plain_named_key(NamedKey::Enter, without, cursor_app, keypad_app, b) == Some(seq![0x0du8]),
        plain_named_key(NamedKey::Backspace, without, cursor_app, keypad_app, b) == Some(seq![0x7fu8]),
        plain_named_key(NamedKey::Tab, without, cursor_app, keypad_app, b) == Some(seq![0x09u8]),
        plain_named_key(NamedKey::Escape, without, cursor_app, keypad_app, b) == Some(seq![0x1bu8]),
        plain_named_key(NamedKey::Space, without, cursor_app, keypad_app, b) == Some(seq![0x20u8]),
        plain_named_key(NamedKey::Home, without, cursor_app, keypad_app, b) == Some(seq![0x1bu8, 0x5bu8, 0x48u8]),
        plain_named_key(NamedKey::End, without, cursor_app, keypad_app, b) == Some(seq![0x1bu8, 0x5bu8, 0x46u8]),
        plain_named_key(NamedKey::Insert, without, cursor_app, keypad_app, b) == Some(seq![0x1bu8, 0x5bu8, 0x32u8, 0x7eu8]),
        plain_named_key(NamedKey::Delete, without, cursor_app, keypad_app, b) == Some(seq![0x1bu8, 0x5bu8, 0x33u8, 0x7eu8]),
        plain_named_key(NamedKey::PageUp, without, cursor_app, keypad_app, b) == Some(seq![0x1bu8, 0x5bu8, 0x35u8, 0x7eu8]),
        plain_named_key(NamedKey::PageDown, without, cursor_app, keypad_app, b) == Some(seq![0x1bu8, 0x5bu8, 0x36u8, 0x7eu8]),
        plain_named_key(NamedKey::F1, without, cursor_app, keypad_app, b) == Some(seq![0x1bu8, 0x4fu8, 0x50u8]),
        plain_named_key(NamedKey::F2, without, cursor_app, keypad_app, b) == Some(seq![0x1bu8, 0x4fu8, 0x51u8]),
        plain_named_key(NamedKey::F3, without, cursor_app, keypad_app, b) == Some(seq![0x1bu8, 0x4fu8, 0x52u8]),
        plain_named_key(NamedKey::F4, without, cursor_app, keypad_app, b) == Some(seq![0x1bu8, 0x4fu8, 0x53u8]),
        plain_named_key(NamedKey::F5, without, cursor_app, keypad_app, b) == Some(seq![0x1bu8, 0x5bu8, 0x31u8, 0x35u8, 0x7eu8]),
        plain_named_key(NamedKey::F6, without, cursor_app, keypad_app, b) == Some(seq![0x1bu8, 0x5bu8, 0x31u8, 0x37u8, 0x7eu8]),
        plain_named_key(NamedKey::F7, without, cursor_app, keypad_app, b) == Some(seq![0x1bu8, 0x5bu8, 0x31u8, 0x38u8, 0x7eu8]),
        plain_named_key(NamedKey::F8, without, cursor_app, keypad_app, b) == Some(seq![0x1bu8, 0x5bu8, 0x31u8, 0x39u8, 0x7eu8]),
        plain_named_key(NamedKey::F9, without, cursor_app, keypad_app, b) == Some(seq![0x1bu8, 0x5bu8, 0x32u8, 0x30u8, 0x7eu8]),
        plain_named_key(NamedKey::F10, without, cursor_app, keypad_app, b) == Some(seq![0x1bu8, 0x5bu8, 0x32u8, 0x31u8, 0x7eu8]),
        plain_named_key(NamedKey::F11, without, cursor_app, keypad_app, b) == Some(seq![0x1bu8, 0x5bu8, 0x32u8, 0x33u8, 0x7eu8]),
        plain_named_key(NamedKey::F12, without, cursor_app, keypad_app, b) == Some(seq![0x1bu8, 0x5bu8, 0x32u8, 0x34u8, 0x7eu8]),
{
    reveal_with_fuel(decimal, 3);
    assert(decimal(2) == seq![0x32u8]);
    assert(decimal(3) == seq![0x33u8]);
    assert(decimal(5) == seq![0x35u8]);
    assert(decimal(6) == seq![0x36u8]);
    assert(decimal(15) =~= seq![0x31u8, 0x35u8]);
    assert(decimal(17) =~= seq![0x31u8, 0x37u8]);
    assert(decimal(18) =~= seq![0x31u8, 0x38u8]);
    assert(decimal(19) =~= seq![0x31u8, 0x39u8]);
    assert(decimal(20) =~= seq![0x32u8, 0x30u8]);
    assert(decimal(21) =~= seq![0x32u8, 0x31u8]);
    assert(decimal(23) =~= seq![0x32u8, 0x33u8]);
    assert(decimal(24) =~= seq![0x32u8, 0x34u8]);
    assert(seq![0x1bu8, 0x5bu8] + seq![0x32u8] + seq![0x7eu8] =~= seq![0x1bu8, 0x5bu8, 0x32u8, 0x7eu8]);
    assert(seq![0x1bu8, 0x5bu8] + seq![0x33u8] + seq![0x7eu8] =~= seq![0x1bu8, 0x5bu8, 0x33u8, 0x7eu8]);
    assert(seq![0x1bu8, 0x5bu8] + seq![0x35u8] + seq![0x7eu8] =~= seq![0x1bu8, 0x5bu8, 0x35u8, 0x7eu8]);
    assert(seq![0x1bu8, 0x5bu8] + seq![0x36u8] + seq![0x7eu8] =~= seq![0x1bu8, 0x5bu8, 0x36u8, 0x7eu8]);
    assert(seq![0x1bu8, 0x5bu8] + seq![0x31u8, 0x35u8] + seq![0x7eu8] =~= seq![0x1bu8, 0x5bu8, 0x31u8, 0x35u8, 0x7eu8]);
    assert(seq![0x1bu8, 0x5bu8] + seq![0x31u8, 0x37u8] + seq![0x7eu8] =~= seq![0x1bu8, 0x5bu8, 0x31u8, 0x37u8, 0x7eu8]);
    assert(seq![0x1bu8, 0x5bu8] + seq![0x31u8, 0x38u8] + seq![0x7eu8] =~= seq![0x1bu8, 0x5bu8, 0x31u8, 0x38u8, 0x7eu8]);
    assert(seq![0x1bu8, 0x5bu8] + seq![0x31u8, 0x39u8] + seq![0x7eu8] =~= seq![0x1bu8, 0x5bu8, 0x31u8, 0x39u8, 0x7eu8]);
    assert(seq![0x1bu8, 0x5bu8] + seq![0x32u8, 0x30u8] + seq![0x7eu8] =~= seq![0x1bu8, 0x5bu8, 0x32u8, 0x30u8, 0x7eu8]);
    assert(seq![0x1bu8, 0x5bu8] + seq![0x32u8, 0x31u8] + seq![0x7eu8] =~= seq![0x1bu8, 0x5bu8, 0x32u8, 0x31u8, 0x7eu8]);
    assert(seq![0x1bu8, 0x5bu8] + seq![0x32u8, 0x33u8] + seq![0x7eu8] =~= seq![0x1bu8, 0x5bu8, 0x32u8, 0x33u8, 0x7eu8]);
    assert(seq![0x1bu8, 0x5bu8] + seq![0x32u8, 0x34u8] + seq![0x7eu8] =~= seq![0x1bu8, 0x5bu8, 0x32u8, 0x34u8, 0x7eu8]);
}

/// Ctrl with a letter key sends that letter's control code, the same for
/// either case: Ctrl+A and Ctrl+a send 0x01, up to Ctrl+Z sending 0x1A.
pub proof fn lemma_ctrl_letter_code(
    s: String,
    without: Key,
    text: Option<Seq<char>>,
    location: KeyLocation,
    cursor_app: bool,
    keypad_app: bool,
    b: KeyBindings,
)
    requires
        s@.len() == 1,
        ('a' <= s@[0] && s@[0] <= 'z') || ('A' <= s@[0] && s@[0] <= 'Z'),
    ensures
        map_key_spec(
            Key::Character(s),
            without,
            text,
            None,
            location,
            true,
            Modifiers { shift: false, alt: false, control: true, super_key: false },
            cursor_app,
            keypad_app,
            b,
        ) == Some(
            seq![
                (if s@[0] <= 'Z' { (s@[0] as u32) - 0x40 } else { (s@[0] as u32) - 0x60 }) as u8,
            ],
        ),
{
    let c = s@[0];
    let m = Modifiers { shift: false, alt: false, control: true, super_key: false };
    assert(!tab_switch_spec(Key::Character(s), m, b));
    assert(ctrl_letter_byte(c) as int == (if c <= 'Z' { (c as u32) + 32 } else { c as u32 as int }));
}

/// A key release never sends anything.
pub proof fn lemma_release_sends_nothing(
    logical: Key,
    without: Key,
    text: Option<Seq<char>>,
    text_with_ctrl: Option<Seq<char>>,
    location: KeyLocation,
    m: Modifiers,
    cursor_app: bool,
    keypad_app: bool,
    b: KeyBindings,
)
    ensures
        map_key_spec(
            logical,
            without,
            text,
            text_with_ctrl,
            location,
            false,
            m,
            cursor_app,
            keypad_app,
            b,
        ) is None,
{
}

/// The reserved tab-switch shortcut never reaches the shell.
pub proof fn lemma_tab_switch_never_sent(
    logical: Key,
    without: Key,
    text: Option<Seq<char>>,
    text_with_ctrl: Option<Seq<char>>,
    location: KeyLocation,
    pressed: bool,
    m: Modifiers,
    cursor_app: bool,
    keypad_app: bool,
    b: KeyBindings,
)
    requires
        tab_switch_spec(logical, m, b),
    ensures
        map_key_spec(
            logical,
            without,
            text,
            text_with_ctrl,
            location,
            pressed,
            m,
            cursor_app,
            keypad_app,
            b,
        ) is None,
{
}

/// With Super held, only the line-editing keys (Left, Right, Backspace,
/// without Alt or Ctrl) reach the shell, as `Ctrl+A`, `Ctrl+E` and
/// `Ctrl+U`.
pub proof fn lemma_super_only_line_edits(
    logical: Key,
    without: Key,
    text: Option<Seq<char>>,
    text_with_ctrl: Option<Seq<char>>,
    location: KeyLocation,
    pressed: bool,
    m: Modifiers,
    cursor_app: bool,
    keypad_app: bool,
    b: KeyBindings,
)
    requires
        m.super_key,
        map_key_spec(
            logical,
            without,
            text,
            text_with_ctrl,
            location,
            pressed,
            m,
            cursor_app,
            keypad_app,
            b,
        ) is Some,
    ensures
        !m.alt && !m.control,
        logical == Key::Named(NamedKey::ArrowLeft) ==> map_key_spec(
            logical,
            without,
            text,
            text_with_ctrl,
            location,
            pressed,
            m,
            cursor_app,
            keypad_app,
            b,
        ) == Some(seq![0x01u8]),
        logical == Key::Named(NamedKey::ArrowRight) ==> map_key_spec(
            logical,
            without,
            text,
            text_with_ctrl,
            location,
            pressed,
            m,
            cursor_app,
            keypad_app,
            b,
        ) == Some(seq![0x05u8]),
        logical == Key::Named(NamedKey::Backspace) ==> map_key_spec(
            logical,
            without,
            text,
            text_with_ctrl,
            location,
            pressed,
            m,
            cursor_app,
            keypad_app,
            b,
        ) == Some(seq![0x15u8]),
        logical == Key::Named(NamedKey::ArrowLeft) || logical == Key::Named(NamedKey::ArrowRight)
            || logical == Key::Named(NamedKey::Backspace),
{
}

/// Bracketed paste only adds the start and end markers around the text's
/// bytes.
pub proof fn lemma_bracketed_adds_only_markers(text: Seq<char>)
    ensures
        bracketed_spec(text, false) == encode_utf8(text),
        bracketed_spec(text, true) == seq![0x1bu8, 0x5bu8, 0x32u8, 0x30u8, 0x30u8, 0x7eu8]
            + bracketed_spec(text, false) + seq![0x1bu8, 0x5bu8, 0x32u8, 0x30u8, 0x31u8, 0x7eu8],
{
}

} // verus!
