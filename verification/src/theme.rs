//! Color themes. All color decisions live here; the grid and the renderer
//! only read colors through [`Theme`].

use vstd::prelude::*;

use crate::text::str_eq;

verus! {

#[derive(Clone, Copy, Debug, PartialEq, Eq, Structural)]
pub struct Rgb {
    pub r: u8,
    pub g: u8,
    pub b: u8,
}

pub open spec fn rgb(r: u8, g: u8, b: u8) -> Rgb {
    Rgb { r, g, b }
}

impl Rgb {
    pub fn new(r: u8, g: u8, b: u8) -> (c: Self)
        ensures
            c == rgb(r, g, b),
    {
        Rgb { r, g, b }
    }
}

/// A full terminal color scheme. `palette[0..8]` are the normal ANSI
/// colors, `palette[8..16]` the bright variants.
#[derive(Clone, Copy, Debug, PartialEq, Eq)]
pub struct Theme {
    pub name: &'static str,
    pub foreground: Rgb,
    pub background: Rgb,
    pub cursor_bg: Rgb,
    pub cursor_fg: Rgb,
    pub palette: [Rgb; 16],
    pub scrollbar_track: Rgb,
    pub scrollbar_thumb: Rgb,
    pub scrollbar_hover: Rgb,
}

/// Two themes are the same scheme: equal colors and equal names.
pub open spec fn same_theme(a: Theme, b: Theme) -> bool {
    &&& a.name@ == b.name@
    &&& a.foreground == b.foreground
    &&& a.background == b.background
    &&& a.cursor_bg == b.cursor_bg
    &&& a.cursor_fg == b.cursor_fg
    &&& a.palette@ == b.palette@
    &&& a.scrollbar_track == b.scrollbar_track
    &&& a.scrollbar_thumb == b.scrollbar_thumb
    &&& a.scrollbar_hover == b.scrollbar_hover
}

/// ANSI color `index` of `t`: the palette entry, or the foreground past it.
pub open spec fn ansi_spec(t: Theme, index: u8) -> Rgb {
    if index < 16 {
        t.palette@[index as int]
    } else {
        t.foreground
    }
}

pub open spec fn vscode_palette() -> Seq<Rgb> {
    seq![
        rgb(0x00, 0x00, 0x00), rgb(0xCD, 0x31, 0x31), rgb(0x0D, 0xBC, 0x79), rgb(0xE5, 0xE5, 0x10),
        rgb(0x24, 0x72, 0xC8), rgb(0xBC, 0x3F, 0xBC), rgb(0x11, 0xA8, 0xCD), rgb(0xE5, 0xE5, 0xE5),
        rgb(0x66, 0x66, 0x66), rgb(0xF1, 0x4C, 0x4C), rgb(0x23, 0xD1, 0x8B), rgb(0xF5, 0xF5, 0x43),
        rgb(0x3B, 0x8E, 0xEA), rgb(0xD6, 0x70, 0xD6), rgb(0x29, 0xB8, 0xDB), rgb(0xE5, 0xE5, 0xE5),
    ]
}

pub open spec fn tokyo_night_palette() -> Seq<Rgb> {
    seq![
        rgb(0x15, 0x16, 0x1E), rgb(0xF7, 0x76, 0x8E), rgb(0x9E, 0xCE, 0x6A), rgb(0xE0, 0xAF, 0x68),
        rgb(0x7A, 0xA2, 0xF7), rgb(0xBB, 0x9A, 0xF7), rgb(0x7D, 0xCF, 0xFF), rgb(0xA9, 0xB1, 0xD6),
        rgb(0x41, 0x48, 0x68), rgb(0xF7, 0x76, 0x8E), rgb(0x9E, 0xCE, 0x6A), rgb(0xE0, 0xAF, 0x68),
        rgb(0x7A, 0xA2, 0xF7), rgb(0xBB, 0x9A, 0xF7), rgb(0x7D, 0xCF, 0xFF), rgb(0xC0, 0xCA, 0xF5),
    ]
}

pub open spec fn tomorrow_night_palette() -> Seq<Rgb> {
    seq![
        rgb(0x1D, 0x1F, 0x21), rgb(0xCC, 0x66, 0x66), rgb(0xB5, 0xBD, 0x68), rgb(0xF0, 0xC6, 0x74),
        rgb(0x81, 0xA2, 0xBE), rgb(0xB2, 0x94, 0xBB), rgb(0x8A, 0xBE, 0xB7), rgb(0xC5, 0xC8, 0xC6),
        rgb(0x96, 0x98, 0x96), rgb(0xCC, 0x66, 0x66), rgb(0xB5, 0xBD, 0x68), rgb(0xF0, 0xC6, 0x74),
        rgb(0x81, 0xA2, 0xBE), rgb(0xB2, 0x94, 0xBB), rgb(0x8A, 0xBE, 0xB7), rgb(0xFF, 0xFF, 0xFF),
    ]
}

/// The VS Code Dark+ scheme.
pub open spec fn is_vscode(t: Theme) -> bool {
    &&& t.name@ == "vscode"@
    &&& t.foreground == rgb(0xCC, 0xCC, 0xCC)
    &&& t.background == rgb(0x1E, 0x1E, 0x1E)
    &&& t.cursor_bg == rgb(0xCC, 0xCC, 0xCC)
    &&& t.cursor_fg == rgb(0x1E, 0x1E, 0x1E)
    &&& t.scrollbar_track == rgb(0x2D, 0x2D, 0x2D)
    &&& t.scrollbar_thumb == rgb(0x5A, 0x5A, 0x5A)
    &&& t.scrollbar_hover == rgb(0xCC, 0xCC, 0xCC)
    &&& t.palette@ == vscode_palette()
}

/// The Tokyo Night scheme (the default).
pub open spec fn is_tokyo_night(t: Theme) -> bool {
    &&& t.name@ == "tokyo-night"@
    &&& t.foreground == rgb(0xC0, 0xCA, 0xF5)
    &&& t.background == rgb(0x1A, 0x1B, 0x26)
    &&& t.cursor_bg == rgb(0xC0, 0xCA, 0xF5)
    &&& t.cursor_fg == rgb(0x1A, 0x1B, 0x26)
    &&& t.scrollbar_track == rgb(0x1F, 0x23, 0x35)
    &&& t.scrollbar_thumb == rgb(0x41, 0x48, 0x68)
    &&& t.scrollbar_hover == rgb(0xC0, 0xCA, 0xF5)
    &&& t.palette@ == tokyo_night_palette()
}

/// The Tomorrow Night scheme.
pub open spec fn is_tomorrow_night(t: Theme) -> bool {
    &&& t.name@ == "tomorrow-night"@
    &&& t.foreground == rgb(0xC5, 0xC8, 0xC6)
    &&& t.background == rgb(0x1D, 0x1F, 0x21)
    &&& t.cursor_bg == rgb(0xC5, 0xC8, 0xC6)
    &&& t.cursor_fg == rgb(0x1D, 0x1F, 0x21)
    &&& t.scrollbar_track == rgb(0x28, 0x2A, 0x2E)
    &&& t.scrollbar_thumb == rgb(0x96, 0x98, 0x96)
    &&& t.scrollbar_hover == rgb(0xC5, 0xC8, 0xC6)
    &&& t.palette@ == tomorrow_night_palette()
}

impl Theme {
    /// VS Code Dark+ integrated terminal defaults.
    pub fn vscode() -> (t: Self)
        ensures
            is_vscode(t),
    {
        let t = Theme {
            name: "vscode",
            foreground: Rgb::new(0xCC, 0xCC, 0xCC),
            background: Rgb::new(0x1E, 0x1E, 0x1E),
            cursor_bg: Rgb::new(0xCC, 0xCC, 0xCC),
            cursor_fg: Rgb::new(0x1E, 0x1E, 0x1E),
            scrollbar_track: Rgb::new(0x2D, 0x2D, 0x2D),
            scrollbar_thumb: Rgb::new(0x5A, 0x5A, 0x5A),
            scrollbar_hover: Rgb::new(0xCC, 0xCC, 0xCC),
            palette: [
                Rgb::new(0x00, 0x00, 0x00),
                Rgb::new(0xCD, 0x31, 0x31),
                Rgb::new(0x0D, 0xBC, 0x79),
                Rgb::new(0xE5, 0xE5, 0x10),
                Rgb::new(0x24, 0x72, 0xC8),
                Rgb::new(0xBC, 0x3F, 0xBC),
                Rgb::new(0x11, 0xA8, 0xCD),
                Rgb::new(0xE5, 0xE5, 0xE5),
                Rgb::new(0x66, 0x66, 0x66),
                Rgb::new(0xF1, 0x4C, 0x4C),
                Rgb::new(0x23, 0xD1, 0x8B),
                Rgb::new(0xF5, 0xF5, 0x43),
                Rgb::new(0x3B, 0x8E, 0xEA),
                Rgb::new(0xD6, 0x70, 0xD6),
                Rgb::new(0x29, 0xB8, 0xDB),
                Rgb::new(0xE5, 0xE5, 0xE5),
            ],
        };
        assert(t.palette@ =~= vscode_palette());
        t
    }

    /// Tokyo Night: dark blue-grey background, high-contrast foreground.
    /// The default theme.
    pub fn tokyo_night() -> (t: Self)
        ensures
            is_tokyo_night(t),
    {
        let t = Theme {
            name: "tokyo-night",
            foreground: Rgb::new(0xC0, 0xCA, 0xF5),
            background: Rgb::new(0x1A, 0x1B, 0x26),
            cursor_bg: Rgb::new(0xC0, 0xCA, 0xF5),
            cursor_fg: Rgb::new(0x1A, 0x1B, 0x26),
            scrollbar_track: Rgb::new(0x1F, 0x23, 0x35),
            scrollbar_thumb: Rgb::new(0x41, 0x48, 0x68),
            scrollbar_hover: Rgb::new(0xC0, 0xCA, 0xF5),
            palette: [
                Rgb::new(0x15, 0x16, 0x1E),
                Rgb::new(0xF7, 0x76, 0x8E),
                Rgb::new(0x9E, 0xCE, 0x6A),
                Rgb::new(0xE0, 0xAF, 0x68),
                Rgb::new(0x7A, 0xA2, 0xF7),
                Rgb::new(0xBB, 0x9A, 0xF7),
                Rgb::new(0x7D, 0xCF, 0xFF),
                Rgb::new(0xA9, 0xB1, 0xD6),
                Rgb::new(0x41, 0x48, 0x68),
                Rgb::new(0xF7, 0x76, 0x8E),
                Rgb::new(0x9E, 0xCE, 0x6A),
                Rgb::new(0xE0, 0xAF, 0x68),
                Rgb::new(0x7A, 0xA2, 0xF7),
                Rgb::new(0xBB, 0x9A, 0xF7),
                Rgb::new(0x7D, 0xCF, 0xFF),
                Rgb::new(0xC0, 0xCA, 0xF5),
            ],
        };
        assert(t.palette@ =~= tokyo_night_palette());
        t
    }

    /// The previous built-in colors (Tomorrow Night).
    pub fn tomorrow_night() -> (t: Self)
        ensures
            is_tomorrow_night(t),
    {
        let t = Theme {
            name: "tomorrow-night",
            foreground: Rgb::new(0xC5, 0xC8, 0xC6),
            background: Rgb::new(0x1D, 0x1F, 0x21),
            cursor_bg: Rgb::new(0xC5, 0xC8, 0xC6),
            cursor_fg: Rgb::new(0x1D, 0x1F, 0x21),
            scrollbar_track: Rgb::new(0x28, 0x2A, 0x2E),
            scrollbar_thumb: Rgb::new(0x96, 0x98, 0x96),
            scrollbar_hover: Rgb::new(0xC5, 0xC8, 0xC6),
            palette: [
                Rgb::new(0x1D, 0x1F, 0x21),
                Rgb::new(0xCC, 0x66, 0x66),
                Rgb::new(0xB5, 0xBD, 0x68),
                Rgb::new(0xF0, 0xC6, 0x74),
                Rgb::new(0x81, 0xA2, 0xBE),
                Rgb::new(0xB2, 0x94, 0xBB),
                Rgb::new(0x8A, 0xBE, 0xB7),
                Rgb::new(0xC5, 0xC8, 0xC6),
                Rgb::new(0x96, 0x98, 0x96),
                Rgb::new(0xCC, 0x66, 0x66),
                Rgb::new(0xB5, 0xBD, 0x68),
                Rgb::new(0xF0, 0xC6, 0x74),
                Rgb::new(0x81, 0xA2, 0xBE),
                Rgb::new(0xB2, 0x94, 0xBB),
                Rgb::new(0x8A, 0xBE, 0xB7),
                Rgb::new(0xFF, 0xFF, 0xFF),
            ],
        };
        assert(t.palette@ =~= tomorrow_night_palette());
        t
    }

    /// Look up a built-in theme by name (with a few aliases).
    pub fn from_name(name: &str) -> (r: Option<Self>)
        ensures
            (name@ == "tokyo-night"@ || name@ == "tokyo_night"@ || name@ == "default"@) ==> (r
                is Some && is_tokyo_night(r->0)),
            (name@ == "vscode"@ || name@ == "dark-plus"@ || name@ == "dark_plus"@) ==> (r is Some
                && is_vscode(r->0)),
            (name@ == "tomorrow-night"@ || name@ == "tomorrow_night"@) ==> (r is Some
                && is_tomorrow_night(r->0)),
            !(name@ == "tokyo-night"@ || name@ == "tokyo_night"@ || name@ == "default"@ || name@
                == "vscode"@ || name@ == "dark-plus"@ || name@ == "dark_plus"@ || name@
                == "tomorrow-night"@ || name@ == "tomorrow_night"@) ==> r is None,
    {
        proof {
            reveal_strlit("tokyo-night");
            reveal_strlit("tokyo_night");
            reveal_strlit("default");
            reveal_strlit("vscode");
            reveal_strlit("dark-plus");
            reveal_strlit("dark_plus");
            reveal_strlit("tomorrow-night");
            reveal_strlit("tomorrow_night");
            assert("tokyo-night"@.len() == 11 && "tokyo_night"@.len() == 11 && "default"@.len()
                == 7);
            assert("vscode"@.len() == 6 && "dark-plus"@.len() == 9 && "dark_plus"@.len() == 9);
            assert("tomorrow-night"@.len() == 14 && "tomorrow_night"@.len() == 14);
        }
        if str_eq(name, "tokyo-night") || str_eq(name, "tokyo_night") || str_eq(name, "default") {
            Some(Self::tokyo_night())
        } else if str_eq(name, "vscode") || str_eq(name, "dark-plus") || str_eq(name, "dark_plus") {
            Some(Self::vscode())
        } else if str_eq(name, "tomorrow-night") || str_eq(name, "tomorrow_night") {
            Some(Self::tomorrow_night())
        } else {
            None
        }
    }

    /// All built-in themes.
    pub fn all() -> (r: [Self; 3])
        ensures
            is_vscode(r@[0]),
            is_tokyo_night(r@[1]),
            is_tomorrow_night(r@[2]),
    {
        [Self::vscode(), Self::tokyo_night(), Self::tomorrow_night()]
    }

    /// ANSI color `index`; indices past the palette fall back to the
    /// foreground.
    pub fn ansi(&self, index: u8) -> (c: Rgb)
        ensures
            c == ansi_spec(*self, index),
    {
        if index < 16 {
            self.palette[index as usize]
        } else {
            self.foreground
        }
    }

    /// Scheme equality (colors and name).
    pub fn same(&self, other: &Theme) -> (r: bool)
        ensures
            r == same_theme(*self, *other),
    {
        let mut i: usize = 0;
        while i < 16
            invariant
                i <= 16,
                forall|j: int| 0 <= j < i ==> self.palette@[j] == other.palette@[j],
            decreases 16 - i,
        {
            if self.palette[i] != other.palette[i] {
                return false;
            }
            i += 1;
        }
        assert(self.palette@ =~= other.palette@);
        str_eq(self.name, other.name) && self.foreground == other.foreground && self.background
            == other.background && self.cursor_bg == other.cursor_bg && self.cursor_fg
            == other.cursor_fg && self.scrollbar_track == other.scrollbar_track
            && self.scrollbar_thumb == other.scrollbar_thumb && self.scrollbar_hover
            == other.scrollbar_hover
    }
}

impl Default for Theme {
    fn default() -> (t: Self)
        ensures
            is_tokyo_night(t),
    {
        Self::tokyo_night()
    }
}

} // verus!

verus! {

pub open spec fn tokyo_night_fg() -> Rgb {
    rgb(0xC0, 0xCA, 0xF5)
}

pub open spec fn tokyo_night_bg() -> Rgb {
    rgb(0x1A, 0x1B, 0x26)
}

} // verus!
