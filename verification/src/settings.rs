//! Settings panel state and the validation helpers that repair edited
//! configuration values.

use vstd::prelude::*;

use crate::text::{
    append_str, ascii_lower, ascii_lower_chars, ascii_lower_seq, ascii_lower_spec, chars_of,
    is_ascii_alnum, is_ascii_alnum_spec, push_char, str_eq, string_from_chars, string_of, trim_of,
    trim_str,
};

verus! {

broadcast use vstd::string::group_string_axioms;

/// Sidebar sections, in display order.
#[derive(Clone, Copy, Debug, PartialEq, Eq, Structural)]
pub enum SettingsSection {
    Theme,
    Font,
    Window,
    Terminal,
    Shell,
    Cursor,
    Selection,
    Scrollbar,
    Tabbar,
    Input,
    Logs,
}

impl SettingsSection {
    /// The heading shown for a section.
    pub open spec fn title_spec(self) -> Seq<char> {
        match self {
            SettingsSection::Theme => "Theme"@,
            SettingsSection::Font => "Font"@,
            SettingsSection::Window => "Window"@,
            SettingsSection::Terminal => "Terminal"@,
            SettingsSection::Shell => "Shell"@,
            SettingsSection::Cursor => "Cursor"@,
            SettingsSection::Selection => "Selection"@,
            SettingsSection::Scrollbar => "Scrollbar"@,
            SettingsSection::Tabbar => "Tab bar"@,
            SettingsSection::Input => "Input"@,
            SettingsSection::Logs => "Logs"@,
        }
    }

    pub fn title(self) -> (t: &'static str)
        ensures
            t@ == self.title_spec(),
    {
        match self {
            SettingsSection::Theme => "Theme",
            SettingsSection::Font => "Font",
            SettingsSection::Window => "Window",
            SettingsSection::Terminal => "Terminal",
            SettingsSection::Shell => "Shell",
            SettingsSection::Cursor => "Cursor",
            SettingsSection::Selection => "Selection",
            SettingsSection::Scrollbar => "Scrollbar",
            SettingsSection::Tabbar => "Tab bar",
            SettingsSection::Input => "Input",
            SettingsSection::Logs => "Logs",
        }
    }
}

/// Startup context captured before the application takes over.
pub struct AppStartup {
    pub config_path_override: Option<String>,
    pub cli_theme: Option<String>,
    pub config_corrupt: bool,
}

/// In-app settings overlay state.
pub struct SettingsPanel {
    pub open: bool,
    pub section: SettingsSection,
    pub cli_theme_override: Option<String>,
    pub custom_config_path: Option<String>,
    pub corrupt_at_startup: bool,
    pub last_error: Option<String>,
    /// Transient inline hint (e.g. "font size reset to default"), cleared
    /// on section switch or close.
    pub notice: Option<String>,
}

/// Which subsystems a configuration change touches.
#[derive(Debug, Default)]
pub struct ApplyActions {
    pub theme: bool,
    pub font: bool,
    pub window_size: bool,
    pub terminal: bool,
    pub chrome: bool,
    pub log: bool,
    pub any: bool,
}

/// The banner shown while `--theme` overrides the file for this session.
pub open spec fn banner_spec(theme: Seq<char>) -> Seq<char> {
    "CLI override active: --theme "@ + theme + " (session only; file edits apply on relaunch)"@
}

/// The footer label when no save path is known.
pub open spec fn no_path_label() -> Seq<char> {
    "<no HOME; cannot save>"@
}

impl SettingsPanel {
    pub fn new(startup: AppStartup) -> (p: Self)
        ensures
            !p.open,
            p.section == SettingsSection::Theme,
            p.cli_theme_override == startup.cli_theme,
            p.custom_config_path == startup.config_path_override,
            p.corrupt_at_startup == startup.config_corrupt,
            p.last_error is None,
            p.notice is None,
    {
        SettingsPanel {
            open: false,
            section: SettingsSection::Theme,
            cli_theme_override: startup.cli_theme,
            custom_config_path: startup.config_path_override,
            corrupt_at_startup: startup.config_corrupt,
            last_error: None,
            notice: None,
        }
    }

    /// Show or hide the panel; any notice is dropped.
    pub fn toggle(&mut self)
        ensures
            final(self).open == !old(self).open,
            final(self).notice is None,
            final(self).section == old(self).section,
            final(self).cli_theme_override == old(self).cli_theme_override,
            final(self).custom_config_path == old(self).custom_config_path,
            final(self).corrupt_at_startup == old(self).corrupt_at_startup,
            final(self).last_error == old(self).last_error,
    {
        self.open = !self.open;
        self.notice = None;
    }

    pub fn close(&mut self)
        ensures
            !final(self).open,
            final(self).notice is None,
            final(self).section == old(self).section,
            final(self).cli_theme_override == old(self).cli_theme_override,
            final(self).custom_config_path == old(self).custom_config_path,
            final(self).corrupt_at_startup == old(self).corrupt_at_startup,
            final(self).last_error == old(self).last_error,
    {
        self.open = false;
        self.notice = None;
    }

    /// Session-only override notice, present while `--theme` was given.
    pub fn cli_banner(&self) -> (b: Option<String>)
        ensures
            b is Some <==> self.cli_theme_override is Some,
            b matches Some(s) ==> s@ == banner_spec(self.cli_theme_override->0@),
    {
        match &self.cli_theme_override {
            Some(t) => {
                let mut s = string_of("CLI override active: --theme ");
                append_str(&mut s, t.as_str());
                append_str(&mut s, " (session only; file edits apply on relaunch)");
                Some(s)
            },
            None => None,
        }
    }

    /// Where auto-save writes: the `--config` path when given, else
    /// `default_path` (the per-user default, when one exists).
    pub fn effective_save_path(&self, default_path: Option<String>) -> (p: Option<String>)
        ensures
            p == (match self.custom_config_path {
                Some(c) => Some(c),
                None => default_path,
            }),
    {
        match &self.custom_config_path {
            Some(c) => Some(c.clone()),
            None => default_path,
        }
    }

    /// Human-readable save target for the panel footer.
    pub fn config_path_label(&self, default_path: Option<String>) -> (l: String)
        ensures
            l@ == (match self.custom_config_path {
                Some(c) => c@,
                None => match default_path {
                    Some(d) => d@,
                    None => no_path_label(),
                },
            }),
    {
        match self.effective_save_path(default_path) {
            Some(p) => p,
            None => string_of("<no HOME; cannot save>"),
        }
    }

    /// A save succeeded: the error line goes away.
    pub fn report_saved(&mut self)
        ensures
            final(self).last_error is None,
            final(self).open == old(self).open,
            final(self).notice == old(self).notice,
            final(self).section == old(self).section,
    {
        self.last_error = None;
    }

    /// A save failed with `err`.
    pub fn report_error(&mut self, err: String)
        ensures
            final(self).last_error == Some(err),
            final(self).open == old(self).open,
            final(self).notice == old(self).notice,
            final(self).section == old(self).section,
    {
        self.last_error = Some(err);
    }
}

/// The theme names the settings panel offers.
pub open spec fn known_theme_spec(name: Seq<char>) -> bool {
    name == "tokyo-night"@ || name == "vscode"@ || name == "tomorrow-night"@
}

pub fn is_known_theme(name: &str) -> (r: bool)
    ensures
        r == known_theme_spec(name@),
{
    str_eq(name, "tokyo-night") || str_eq(name, "vscode") || str_eq(name, "tomorrow-night")
}

/// Keep `value` when it is at least `min`, else `fallback`; the flag says
/// whether it was repaired.
pub fn repair_min_usize(value: usize, min: usize, fallback: usize) -> (r: (usize, bool))
    ensures
        r == (if value >= min {
            (value, false)
        } else {
            (fallback, true)
        }),
{
    if value >= min {
        (value, false)
    } else {
        (fallback, true)
    }
}

/// [`repair_min_usize`] for `u32`.
pub fn repair_min_u32(value: u32, min: u32, fallback: u32) -> (r: (u32, bool))
    ensures
        r == (if value >= min {
            (value, false)
        } else {
            (fallback, true)
        }),
{
    if value >= min {
        (value, false)
    } else {
        (fallback, true)
    }
}

/// [`repair_min_usize`] for `u64`.
pub fn repair_min_u64(value: u64, min: u64, fallback: u64) -> (r: (u64, bool))
    ensures
        r == (if value >= min {
            (value, false)
        } else {
            (fallback, true)
        }),
{
    if value >= min {
        (value, false)
    } else {
        (fallback, true)
    }
}

/// The pair [`normalize_min_max`] returns: a zero bound takes its default,
/// an inverted pair is swapped, and the flag says whether anything changed.
pub open spec fn normalize_spec(min: usize, max: usize, dmin: usize, dmax: usize) -> (
    usize,
    usize,
    bool,
) {
    let lo = if min == 0 {
        dmin
    } else {
        min
    };
    let hi = if max == 0 {
        dmax
    } else {
        max
    };
    if lo > hi {
        (hi, lo, true)
    } else {
        (lo, hi, min == 0 || max == 0)
    }
}

/// Repairing a configured range: zeros take the defaults (themselves
/// nonzero), the two bounds come back in order, and the repair is flagged
/// exactly when the range changed.
pub proof fn lemma_normalize_range(min: usize, max: usize, dmin: usize, dmax: usize)
    requires
        dmin >= 1,
        dmax >= 1,
    ensures
        ({
            let r = normalize_spec(min, max, dmin, dmax);
            let lo = if min == 0 { dmin } else { min };
            let hi = if max == 0 { dmax } else { max };
            &&& r.0 <= r.1
            &&& (r.0 == lo && r.1 == hi) || (r.0 == hi && r.1 == lo)
            &&& r.0 >= 1
            &&& r.2 <==> !(r.0 == min && r.1 == max)
        }),
{
}

pub fn normalize_min_max(min: usize, max: usize, default_min: usize, default_max: usize) -> (r: (
    usize,
    usize,
    bool,
))
    ensures
        r == normalize_spec(min, max, default_min, default_max),
        r.0 <= r.1,
{
    let mut repaired = false;
    let mut lo = if min == 0 {
        repaired = true;
        default_min
    } else {
        min
    };
    let mut hi = if max == 0 {
        repaired = true;
        default_max
    } else {
        max
    };
    if lo > hi {
        let t = lo;
        lo = hi;
        hi = t;
        repaired = true;
    }
    (lo, hi, repaired)
}

/// The first ASCII letter or digit of `s` at or after `i`.
pub open spec fn first_alnum_from(s: Seq<char>, i: int) -> Option<char>
    decreases s.len() - i,
{
    if i < 0 || i >= s.len() {
        None
    } else if is_ascii_alnum_spec(s[i]) {
        Some(s[i])
    } else {
        first_alnum_from(s, i + 1)
    }
}

/// Keep the first alphanumeric char of a shortcut label (lowercased),
/// else `fallback`.
pub fn sanitize_key_label(raw: &str, fallback: &str) -> (r: String)
    ensures
        r@ == (match first_alnum_from(raw@, 0) {
            Some(c) => seq![ascii_lower_spec(c)],
            None => fallback@,
        }),
{
    let cs = chars_of(raw);
    let mut i: usize = 0;
    while i < cs.len()
        invariant
            i <= cs@.len(),
            cs@ == raw@,
            first_alnum_from(raw@, 0) == first_alnum_from(raw@, i as int),
        decreases cs@.len() - i,
    {
        if is_ascii_alnum(cs[i]) {
            let mut out = String::new();
            push_char(&mut out, ascii_lower(cs[i]));
            assert(out@ =~= seq![ascii_lower_spec(cs@[i as int])]);
            return out;
        }
        i += 1;
    }
    string_of(fallback)
}

/// The cursor shapes a configuration may name.
pub open spec fn cursor_shape_known(s: Seq<char>) -> bool {
    s == "block"@ || s == "underline"@ || s == "bar"@
}

/// The cursor shape a trimmed configuration value names: `block`,
/// `underline` or `bar` (ASCII case ignored), else `block`, flagged
/// repaired.
pub fn cursor_shape_from_trimmed(trimmed: &str) -> (r: (String, bool))
    ensures
        ({
            let lower = ascii_lower_seq(trimmed@);
            if cursor_shape_known(lower) {
                r.0@ == lower && !r.1
            } else {
                r.0@ == "block"@ && r.1
            }
        }),
{
    let tc = chars_of(trimmed);
    let lower = ascii_lower_chars(tc.as_slice());
    let s = string_from_chars(lower.as_slice());
    if str_eq(s.as_str(), "block") || str_eq(s.as_str(), "underline") || str_eq(
        s.as_str(),
        "bar",
    ) {
        (s, false)
    } else {
        (string_of("block"), true)
    }
}

/// Accept only `block | underline | bar` (case-insensitive, surrounding
/// whitespace ignored); anything else becomes `block`, flagged repaired.
pub fn sanitize_cursor_shape(raw: &str) -> (r: (String, bool))
    ensures
        ({
            let lower = ascii_lower_seq(trim_of(raw@));
            if cursor_shape_known(lower) {
                r.0@ == lower && !r.1
            } else {
                r.0@ == "block"@ && r.1
            }
        }),
{
    let trimmed = trim_str(raw);
    cursor_shape_from_trimmed(trimmed)
}

} // verus!
