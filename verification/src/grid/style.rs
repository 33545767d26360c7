//! SGR (select graphic rendition): the pen and the extended palette.

use vstd::prelude::*;

use super::{Grid, GridView, Pen, UnderlineStyle, plain_pen};
use crate::theme::{Rgb, Theme, ansi_spec, rgb};

verus! {

/// A parameter clamped into a color channel.
pub open spec fn chan(v: u16) -> u8 {
    if v > 255 {
        255
    } else {
        v as u8
    }
}

/// One axis of the 6x6x6 color cube.
pub open spec fn cube_level(v: int) -> u8 {
    if v == 0 {
        0
    } else {
        (55 + v * 40) as u8
    }
}

/// The 256-color palette: the theme's 16 colors, the color cube, then the
/// grayscale ramp.
pub open spec fn palette_spec(theme: Theme, idx: u8) -> Rgb {
    if idx < 16 {
        ansi_spec(theme, idx)
    } else if idx < 232 {
        let i = idx - 16;
        rgb(cube_level((i / 36) % 6), cube_level((i / 6) % 6), cube_level(i % 6))
    } else {
        let v = (8 + (idx - 232) * 10) as u8;
        rgb(v, v, v)
    }
}

/// The color of a colon tail after `38/48/58`: `5:n`, `2:r:g:b` or
/// `2:cs:r:g:b` (color space skipped).
pub open spec fn colon_color_spec(tail: Seq<u16>, theme: Theme) -> Option<Rgb> {
    if tail.len() == 0 {
        None
    } else if tail[0] == 5 {
        if tail.len() >= 2 {
            Some(palette_spec(theme, tail[1] as u8))
        } else {
            None
        }
    } else if tail[0] == 2 {
        if tail.len() == 4 {
            Some(rgb(chan(tail[1]), chan(tail[2]), chan(tail[3])))
        } else if tail.len() >= 5 {
            Some(rgb(chan(tail[2]), chan(tail[3]), chan(tail[4])))
        } else {
            None
        }
    } else {
        None
    }
}

/// `38` sets the foreground, `48` the background, `58` the underline color.
pub open spec fn apply_extended_spec(pen: Pen, target: u16, col: Rgb) -> Pen {
    if target == 38 {
        Pen { fg: col, ..pen }
    } else if target == 48 {
        Pen { bg: col, ..pen }
    } else if target == 58 {
        Pen { underline_color: Some(col), ..pen }
    } else {
        pen
    }
}

/// The underline style of `4:n`.
pub open spec fn underline_style_spec(n: u16) -> UnderlineStyle {
    if n == 0 {
        UnderlineStyle::Off
    } else if n == 2 {
        UnderlineStyle::Double
    } else if n == 3 {
        UnderlineStyle::Curly
    } else if n == 4 {
        UnderlineStyle::Dotted
    } else if n == 5 {
        UnderlineStyle::Dashed
    } else {
        UnderlineStyle::Single
    }
}

/// `38;5;n` / `38;2;r;g;b` (and `48` / `58`) from the groups after `idx`:
/// the new pen and the index past what was consumed, or `None`.
pub open spec fn consume_semicolon_spec(pen: Pen, theme: Theme, gs: Seq<Seq<u16>>, idx: int) -> Option<
    (Pen, int),
> {
    let target = gs[idx][0];
    if idx + 1 >= gs.len() || gs[idx + 1].len() == 0 {
        None
    } else {
        let ng = gs[idx + 1];
        let mode = ng[0];
        if ng.len() != 1 {
            if ng.len() >= 4 && ng[0] == 2 {
                let col = if ng.len() >= 5 {
                    rgb(chan(ng[2]), chan(ng[3]), chan(ng[4]))
                } else {
                    rgb(chan(ng[1]), chan(ng[2]), chan(ng[3]))
                };
                Some((apply_extended_spec(pen, target, col), idx + 2))
            } else if ng.len() >= 2 && ng[0] == 5 {
                Some((apply_extended_spec(pen, target, palette_spec(theme, chan(ng[1]))), idx + 2))
            } else {
                None
            }
        } else if mode == 5 {
            if idx + 2 < gs.len() && gs[idx + 2].len() == 1 {
                Some(
                    (
                        apply_extended_spec(pen, target, palette_spec(theme, chan(gs[idx + 2][0]))),
                        idx + 3,
                    ),
                )
            } else {
                None
            }
        } else if mode == 2 {
            if idx + 4 < gs.len() && gs[idx + 2].len() == 1 && gs[idx + 3].len() == 1 && gs[idx
                + 4].len() == 1 {
                Some(
                    (
                        apply_extended_spec(
                            pen,
                            target,
                            rgb(chan(gs[idx + 2][0]), chan(gs[idx + 3][0]), chan(gs[idx + 4][0])),
                        ),
                        idx + 5,
                    ),
                )
            } else {
                None
            }
        } else {
            None
        }
    }
}

/// A plain SGR code applied to the pen.
pub open spec fn sgr_code_spec(pen: Pen, theme: Theme, p: u16) -> Pen {
    if p == 0 {
        plain_pen(theme.foreground, theme.background)
    } else if p == 1 {
        Pen { bold: true, ..pen }
    } else if p == 2 {
        Pen { dim: true, ..pen }
    } else if p == 3 {
        Pen { italic: true, ..pen }
    } else if p == 4 {
        Pen { underline: UnderlineStyle::Single, ..pen }
    } else if p == 7 {
        Pen { inverse: true, ..pen }
    } else if p == 9 {
        Pen { strikethrough: true, ..pen }
    } else if p == 21 {
        Pen { bold: false, ..pen }
    } else if p == 22 {
        Pen { bold: false, dim: false, ..pen }
    } else if p == 23 {
        Pen { italic: false, ..pen }
    } else if p == 24 {
        Pen { underline: UnderlineStyle::Off, ..pen }
    } else if p == 27 {
        Pen { inverse: false, ..pen }
    } else if p == 29 {
        Pen { strikethrough: false, ..pen }
    } else if p == 53 {
        Pen { overline: true, ..pen }
    } else if p == 55 {
        Pen { overline: false, ..pen }
    } else if 30 <= p <= 37 {
        Pen { fg: ansi_spec(theme, (p - 30) as u8), ..pen }
    } else if p == 39 {
        Pen { fg: theme.foreground, ..pen }
    } else if 40 <= p <= 47 {
        Pen { bg: ansi_spec(theme, (p - 40) as u8), ..pen }
    } else if p == 49 {
        Pen { bg: theme.background, ..pen }
    } else if p == 59 {
        Pen { underline_color: None, ..pen }
    } else if 90 <= p <= 97 {
        Pen { fg: ansi_spec(theme, (p - 90 + 8) as u8), ..pen }
    } else if 100 <= p <= 107 {
        Pen { bg: ansi_spec(theme, (p - 100 + 8) as u8), ..pen }
    } else {
        pen
    }
}

/// One step of SGR over the groups: the new pen and the next group index.
pub open spec fn sgr_step_spec(pen: Pen, theme: Theme, gs: Seq<Seq<u16>>, idx: int) -> (Pen, int) {
    let g = gs[idx];
    if g.len() == 0 {
        (plain_pen(theme.foreground, theme.background), idx + 1)
    } else {
        let p = g[0];
        if p == 4 && g.len() > 1 {
            (Pen { underline: underline_style_spec(g[1]), ..pen }, idx + 1)
        } else if (p == 38 || p == 48 || p == 58) && g.len() > 1 {
            match colon_color_spec(g.subrange(1, g.len() as int), theme) {
                Some(col) => (apply_extended_spec(pen, p, col), idx + 1),
                None => if g[1] == 5 && g.len() == 2 && idx + 1 < gs.len() && gs[idx + 1].len() > 0 {
                    (apply_extended_spec(pen, p, palette_spec(theme, chan(gs[idx + 1][0]))), idx + 2)
                } else if g[1] == 2 && idx + 3 < gs.len() && gs[idx + 1].len() > 0 && gs[idx
                    + 2].len() > 0 && gs[idx + 3].len() > 0 {
                    (
                        apply_extended_spec(
                            pen,
                            p,
                            rgb(chan(gs[idx + 1][0]), chan(gs[idx + 2][0]), chan(gs[idx + 3][0])),
                        ),
                        idx + 4,
                    )
                } else {
                    (pen, idx + 1)
                },
            }
        } else if p == 38 || p == 48 || p == 58 {
            match consume_semicolon_spec(pen, theme, gs, idx) {
                Some(r) => r,
                None => {
                    let swallow = idx + 1 < gs.len() && gs[idx + 1].len() == 1 && (gs[idx + 1][0]
                        == 2 || gs[idx + 1][0] == 5);
                    (pen, if swallow {
                        idx + 2
                    } else {
                        idx + 1
                    })
                },
            }
        } else {
            (sgr_code_spec(pen, theme, p), idx + 1)
        }
    }
}

/// SGR over the groups from `idx` on.
pub open spec fn sgr_run(pen: Pen, theme: Theme, gs: Seq<Seq<u16>>, idx: int) -> Pen
    decreases gs.len() - idx,
{
    if idx < 0 || idx >= gs.len() {
        pen
    } else {
        let (p2, i2) = sgr_step_spec(pen, theme, gs, idx);
        if i2 <= idx {
            p2
        } else {
            sgr_run(p2, theme, gs, i2)
        }
    }
}

/// The groups as sequences.
pub open spec fn groups_view(gs: Seq<Vec<u16>>) -> Seq<Seq<u16>> {
    gs.map_values(|g: Vec<u16>| g@)
}

impl GridView {
    /// `SGR` with its groups: no groups resets the pen.
    pub open spec fn sgr_groups_spec(self, gs: Seq<Seq<u16>>) -> GridView {
        if gs.len() == 0 {
            GridView { pen: self.default_pen(), ..self }.bump()
        } else {
            GridView { pen: sgr_run(self.pen, self.theme, gs, 0), ..self }.bump()
        }
    }

    /// `SGR` with flat parameters: each parameter is a group of its own.
    pub open spec fn sgr_spec(self, params: Seq<u16>) -> GridView {
        self.sgr_groups_spec(Seq::new(params.len(), |i: int| seq![params[i]]))
    }
}

/// Entry `idx` of the 256-color palette.
pub fn palette_for(theme: &Theme, idx: u8) -> (c: Rgb)
    ensures
        c == palette_spec(*theme, idx),
{
    if idx < 16 {
        return theme.ansi(idx);
    }
    if idx < 232 {
        let i = idx - 16;
        let r = (i / 36) % 6;
        let g = (i / 6) % 6;
        let b = i % 6;
        return Rgb::new(cube(r), cube(g), cube(b));
    }
    let v = 8 + (idx - 232) * 10;
    Rgb::new(v, v, v)
}

fn cube(v: u8) -> (r: u8)
    requires
        v < 6,
    ensures
        r == cube_level(v as int),
{
    if v == 0 {
        0
    } else {
        55 + v * 40
    }
}

fn chan_of(v: u16) -> (r: u8)
    ensures
        r == chan(v),
{
    if v > 255 {
        255
    } else {
        v as u8
    }
}

/// The color of a colon tail (see [`colon_color_spec`]).
fn colon_color(tail: &[u16], theme: &Theme) -> (r: Option<Rgb>)
    ensures
        r == colon_color_spec(tail@, *theme),
{
    if tail.len() == 0 {
        return None;
    }
    if tail[0] == 5 {
        if tail.len() >= 2 {
            return Some(palette_for(theme, tail[1] as u8));
        }
        return None;
    }
    if tail[0] == 2 {
        if tail.len() == 4 {
            return Some(Rgb::new(chan_of(tail[1]), chan_of(tail[2]), chan_of(tail[3])));
        } else if tail.len() >= 5 {
            return Some(Rgb::new(chan_of(tail[2]), chan_of(tail[3]), chan_of(tail[4])));
        }
        return None;
    }
    None
}

fn apply_extended(pen: Pen, target: u16, col: Rgb) -> (r: Pen)
    ensures
        r == apply_extended_spec(pen, target, col),
{
    if target == 38 {
        Pen { fg: col, ..pen }
    } else if target == 48 {
        Pen { bg: col, ..pen }
    } else if target == 58 {
        Pen { underline_color: Some(col), ..pen }
    } else {
        pen
    }
}

fn underline_style(n: u16) -> (r: UnderlineStyle)
    ensures
        r == underline_style_spec(n),
{
    if n == 0 {
        UnderlineStyle::Off
    } else if n == 2 {
        UnderlineStyle::Double
    } else if n == 3 {
        UnderlineStyle::Curly
    } else if n == 4 {
        UnderlineStyle::Dotted
    } else if n == 5 {
        UnderlineStyle::Dashed
    } else {
        UnderlineStyle::Single
    }
}

/// `38;5;n` / `38;2;r;g;b` from the following groups (see
/// [`consume_semicolon_spec`]).
fn consume_semicolon_color(pen: Pen, theme: &Theme, groups: &[Vec<u16>], idx: usize) -> (r: Option<
    (Pen, usize),
>)
    requires
        idx < groups@.len(),
        groups@[idx as int]@.len() > 0,
    ensures
        match consume_semicolon_spec(pen, *theme, groups_view(groups@), idx as int) {
            Some((p, i)) => r == Some((p, i as usize)),
            None => r is None,
        },
{
    let ghost gs = groups_view(groups@);
    proof {
        assert(gs[idx as int] == groups@[idx as int]@);
    }
    let target = groups[idx][0];
    if idx + 1 >= groups.len() || groups[idx + 1].len() == 0 {
        return None;
    }
    proof {
        assert(gs[idx + 1] == groups@[idx + 1]@);
    }
    let ng = &groups[idx + 1];
    let mode = ng[0];
    if ng.len() != 1 {
        if ng.len() >= 4 && ng[0] == 2 {
            let col = if ng.len() >= 5 {
                Rgb::new(chan_of(ng[2]), chan_of(ng[3]), chan_of(ng[4]))
            } else {
                Rgb::new(chan_of(ng[1]), chan_of(ng[2]), chan_of(ng[3]))
            };
            return Some((apply_extended(pen, target, col), idx + 2));
        }
        if ng.len() >= 2 && ng[0] == 5 {
            let col = palette_for(theme, chan_of(ng[1]));
            return Some((apply_extended(pen, target, col), idx + 2));
        }
        return None;
    }
    if mode == 5 {
        if idx + 2 < groups.len() && groups[idx + 2].len() == 1 {
            proof {
                assert(gs[idx + 2] == groups@[idx + 2]@);
            }
            let col = palette_for(theme, chan_of(groups[idx + 2][0]));
            return Some((apply_extended(pen, target, col), idx + 3));
        }
        None
    } else if mode == 2 {
        if groups.len() - idx > 4 && groups[idx + 2].len() == 1 && groups[idx + 3].len() == 1
            && groups[idx + 4].len() == 1 {
            proof {
                assert(gs[idx + 2] == groups@[idx + 2]@);
                assert(gs[idx + 3] == groups@[idx + 3]@);
                assert(gs[idx + 4] == groups@[idx + 4]@);
            }
            let col = Rgb::new(
                chan_of(groups[idx + 2][0]),
                chan_of(groups[idx + 3][0]),
                chan_of(groups[idx + 4][0]),
            );
            return Some((apply_extended(pen, target, col), idx + 5));
        }
        None
    } else {
        None
    }
}

/// A plain SGR code applied to the pen (see [`sgr_code_spec`]).
fn sgr_code(pen: Pen, theme: &Theme, p: u16) -> (r: Pen)
    ensures
        r == sgr_code_spec(pen, *theme, p),
{
    if p == 0 {
        Pen {
            fg: theme.foreground,
            bg: theme.background,
            bold: false,
            dim: false,
            italic: false,
            underline: UnderlineStyle::Off,
            inverse: false,
            strikethrough: false,
            overline: false,
            underline_color: None,
        }
    } else if p == 1 {
        Pen { bold: true, ..pen }
    } else if p == 2 {
        Pen { dim: true, ..pen }
    } else if p == 3 {
        Pen { italic: true, ..pen }
    } else if p == 4 {
        Pen { underline: UnderlineStyle::Single, ..pen }
    } else if p == 7 {
        Pen { inverse: true, ..pen }
    } else if p == 9 {
        Pen { strikethrough: true, ..pen }
    } else if p == 21 {
        Pen { bold: false, ..pen }
    } else if p == 22 {
        Pen { bold: false, dim: false, ..pen }
    } else if p == 23 {
        Pen { italic: false, ..pen }
    } else if p == 24 {
        Pen { underline: UnderlineStyle::Off, ..pen }
    } else if p == 27 {
        Pen { inverse: false, ..pen }
    } else if p == 29 {
        Pen { strikethrough: false, ..pen }
    } else if p == 53 {
        Pen { overline: true, ..pen }
    } else if p == 55 {
        Pen { overline: false, ..pen }
    } else if 30 <= p && p <= 37 {
        Pen { fg: theme.ansi((p - 30) as u8), ..pen }
    } else if p == 39 {
        Pen { fg: theme.foreground, ..pen }
    } else if 40 <= p && p <= 47 {
        Pen { bg: theme.ansi((p - 40) as u8), ..pen }
    } else if p == 49 {
        Pen { bg: theme.background, ..pen }
    } else if p == 59 {
        Pen { underline_color: None, ..pen }
    } else if 90 <= p && p <= 97 {
        Pen { fg: theme.ansi((p - 90 + 8) as u8), ..pen }
    } else if 100 <= p && p <= 107 {
        Pen { bg: theme.ansi((p - 100 + 8) as u8), ..pen }
    } else {
        pen
    }
}

/// One SGR step (see [`sgr_step_spec`]).
fn sgr_step(pen: Pen, theme: &Theme, groups: &[Vec<u16>], idx: usize) -> (r: (Pen, usize))
    requires
        idx < groups@.len(),
    ensures
        (r.0, r.1 as int) == sgr_step_spec(pen, *theme, groups_view(groups@), idx as int),
        r.1 > idx,
{
    let ghost gs = groups_view(groups@);
    proof {
        assert(gs[idx as int] == groups@[idx as int]@);
    }
    let g = &groups[idx];
    if g.len() == 0 {
        return (sgr_code(pen, theme, 0), idx + 1);
    }
    let p = g[0];
    if p == 4 && g.len() > 1 {
        return (Pen { underline: underline_style(g[1]), ..pen }, idx + 1);
    }
    if (p == 38 || p == 48 || p == 58) && g.len() > 1 {
        let tail = vstd::slice::slice_subrange(g.as_slice(), 1, g.len());
        proof {
            assert(tail@ == gs[idx as int].subrange(1, gs[idx as int].len() as int));
        }
        match colon_color(tail, theme) {
            Some(col) => {
                return (apply_extended(pen, p, col), idx + 1);
            },
            None => {},
        }
        if g[1] == 5 && g.len() == 2 && idx + 1 < groups.len() && groups[idx + 1].len() > 0 {
            proof {
                assert(gs[idx + 1] == groups@[idx + 1]@);
            }
            let col = palette_for(theme, chan_of(groups[idx + 1][0]));
            return (apply_extended(pen, p, col), idx + 2);
        }
        if g[1] == 2 && groups.len() - idx > 3 && groups[idx + 1].len() > 0 && groups[idx
            + 2].len() > 0 && groups[idx + 3].len() > 0 {
            proof {
                assert(gs[idx + 1] == groups@[idx + 1]@);
                assert(gs[idx + 2] == groups@[idx + 2]@);
                assert(gs[idx + 3] == groups@[idx + 3]@);
            }
            let col = Rgb::new(
                chan_of(groups[idx + 1][0]),
                chan_of(groups[idx + 2][0]),
                chan_of(groups[idx + 3][0]),
            );
            return (apply_extended(pen, p, col), idx + 4);
        }
        return (pen, idx + 1);
    }
    if p == 38 || p == 48 || p == 58 {
        match consume_semicolon_color(pen, theme, groups, idx) {
            Some(r) => {
                return r;
            },
            None => {},
        }
        let swallow = idx + 1 < groups.len() && groups[idx + 1].len() == 1 && (groups[idx + 1][0]
            == 2 || groups[idx + 1][0] == 5);
        proof {
            if idx + 1 < groups.len() {
                assert(gs[idx + 1] == groups@[idx + 1]@);
            }
        }
        return (pen, if swallow {
            idx + 2
        } else {
            idx + 1
        });
    }
    (sgr_code(pen, theme, p), idx + 1)
}

/// SGR over all the groups, starting from `pen` (see [`sgr_run`]).
fn apply_sgr(pen: Pen, theme: &Theme, groups: &[Vec<u16>]) -> (r: Pen)
    ensures
        r == sgr_run(pen, *theme, groups_view(groups@), 0),
{
    let ghost gs = groups_view(groups@);
    let mut cur = pen;
    let mut idx: usize = 0;
    while idx < groups.len()
        invariant
            gs == groups_view(groups@),
            sgr_run(cur, *theme, gs, idx as int) == sgr_run(pen, *theme, gs, 0),
        decreases groups@.len() - idx,
    {
        let (p2, i2) = sgr_step(cur, theme, groups, idx);
        proof {
            assert(sgr_run(cur, *theme, gs, idx as int) == sgr_run(p2, *theme, gs, i2 as int));
        }
        cur = p2;
        idx = i2;
    }
    cur
}

impl Grid {
    /// `SGR` with flat parameters (each parameter a group of its own).
    pub fn sgr(&mut self, params: &[u16])
        requires
            old(self).inv(),
        ensures
            final(self)@ === old(self)@.sgr_spec(params@),
            final(self).inv(),
    {
        let mut groups: Vec<Vec<u16>> = Vec::new();
        let mut i: usize = 0;
        while i < params.len()
            invariant
                i <= params@.len(),
                groups_view(groups@) == Seq::new(i as nat, |k: int| seq![params@[k]]),
            decreases params@.len() - i,
        {
            let mut g: Vec<u16> = Vec::new();
            g.push(params[i]);
            proof {
                assert(g@ =~= seq![params@[i as int]]);
            }
            let ghost before = groups@;
            let ghost gv = g@;
            groups.push(g);
            proof {
                assert(groups_view(before).len() == before.len());
                assert(before.len() == i);
                assert(groups@ == before.push(g));
                assert forall|k: int| 0 <= k < i + 1 implies #[trigger] groups_view(groups@)[k]
                    == seq![params@[k]] by {
                    if k < i {
                        assert(groups@[k] == before[k]);
                        assert(groups_view(before)[k] == seq![params@[k]]);
                    } else {
                        assert(groups@[k]@ == gv);
                    }
                }
                assert(groups_view(groups@) =~= Seq::new((i + 1) as nat, |k: int| seq![params@[k]]));
            }
            i += 1;
        }
        self.sgr_groups(groups.as_slice());
    }

    /// `SGR` with subparameter grouping preserved (`:` stays in one group):
    /// `CSI 4:3 m` arrives as `[[4, 3]]` (curly underline) while
    /// `CSI 4;3 m` arrives as `[[4], [3]]` (underline, then italic).
    pub fn sgr_groups(&mut self, groups: &[Vec<u16>])
        requires
            old(self).inv(),
        ensures
            final(self)@ === old(self)@.sgr_groups_spec(groups_view(groups@)),
            final(self).inv(),
    {
        let theme = self.theme();
        let pen = if groups.len() == 0 {
            self.default_pen()
        } else {
            apply_sgr(self.pen(), &theme, groups)
        };
        self.put_pen(pen);
        self.bump();
    }

    /// Entry `idx` of the 256-color palette under the grid's theme.
    pub fn extended_palette(&self, idx: u8) -> (c: Rgb)
        ensures
            c == palette_spec(self@.theme, idx),
    {
        let theme = self.theme();
        palette_for(&theme, idx)
    }
}

} // verus!
