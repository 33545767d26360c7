//! Unicode width and grapheme-cluster helpers.
//!
//! Display width follows `unicode-width` (0 = combining / format, 1 =
//! narrow, 2 = wide). Regional Indicators are forced to 2 so flag pairs
//! occupy one wide cell. Grapheme boundaries follow `unicode-segmentation`
//! (UAX #29 extended clusters).

use unicode_segmentation::UnicodeSegmentation;
use unicode_width::UnicodeWidthChar;
use vstd::prelude::*;

use crate::text::push_char;

verus! {

/// Zero Width Joiner: joins emoji into a single grapheme (e.g. family).
pub const ZWJ: char = '\u{200D}';

/// What `UnicodeWidthChar::width` reports for `c`.
pub uninterp spec fn unicode_width_of(c: char) -> Option<usize>;

/// What `s.graphemes(true).count()` reports for a string holding `s`.
pub uninterp spec fn grapheme_count_of(s: Seq<char>) -> nat;

/// `unicode_width::UnicodeWidthChar::width`: the character's column width,
/// `None` for control characters. Stated as its named result, with what the
/// crate's source gives outright: printable ASCII is one column wide and the
/// C0 and C1 control codes have no width. The table lookup for the rest is
/// left unstated.
#[verifier::external_body]
fn unicode_width(c: char) -> (r: Option<usize>)
    ensures
        r == unicode_width_of(c),
        '\u{20}' <= c && c < '\u{7f}' ==> r == Some(1usize),
        c < '\u{20}' || ('\u{7f}' <= c && c < '\u{a0}') ==> r is None,
{
    UnicodeWidthChar::width(c)
}

/// `unicode_segmentation::UnicodeSegmentation::graphemes(s, true).count()`:
/// the number of extended grapheme clusters of `s`. Stated only as its
/// named result.
#[verifier::external_body]
fn grapheme_count(s: &str) -> (r: usize)
    ensures
        r == grapheme_count_of(s@),
{
    s.graphemes(true).count()
}

pub open spec fn is_regional_indicator(c: char) -> bool {
    '\u{1F1E6}' <= c && c <= '\u{1F1FF}'
}

pub open spec fn is_zero_width_format(c: char) -> bool {
    ('\u{FE00}' <= c && c <= '\u{FE0F}') || ('\u{E0100}' <= c && c <= '\u{E01FF}') || c == ZWJ
}

pub open spec fn is_skin_tone(c: char) -> bool {
    '\u{1F3FB}' <= c && c <= '\u{1F3FF}'
}

/// Display width of one char as the grid uses it.
pub open spec fn char_width_spec(c: char) -> usize {
    if c == '\0' {
        1
    } else if is_regional_indicator(c) {
        2
    } else if is_zero_width_format(c) {
        0
    } else {
        match unicode_width_of(c) {
            Some(w) => w,
            None => 1,
        }
    }
}

pub open spec fn is_joining_modifier_spec(c: char) -> bool {
    char_width_spec(c) == 0 || is_skin_tone(c) || c == '\u{20E3}'
}

pub open spec fn continues_cluster_spec(prev: Seq<char>, next: char) -> bool {
    prev.len() > 0 && grapheme_count_of(prev.push(next)) == 1
}

pub open spec fn cluster_width_spec(s: Seq<char>) -> usize {
    if exists|i: int|
        0 <= i < s.len() && (char_width_spec(#[trigger] s[i]) == 2 || is_skin_tone(s[i]) || s[i]
            == '\u{20E3}' || s[i] == ZWJ || s[i] == '\u{FE0F}') {
        2
    } else {
        1
    }
}

/// Display width of a single char: 0, 1 or 2 (wider widths reported by
/// `unicode-width` pass through). Controls count as 1.
pub fn char_width(c: char) -> (w: usize)
    ensures
        w == char_width_spec(c),
{
    if c == '\0' {
        return 1;
    }
    if '\u{1F1E6}' <= c && c <= '\u{1F1FF}' {
        return 2;
    }
    if ('\u{FE00}' <= c && c <= '\u{FE0F}') || ('\u{E0100}' <= c && c <= '\u{E01FF}') || c == ZWJ {
        return 0;
    }
    match unicode_width(c) {
        Some(w) => w,
        None => 1,
    }
}

/// True when `c` always joins the previous cluster (zero-width marks,
/// variation selectors, ZWJ, skin-tone modifiers, the keycap mark).
pub fn is_joining_modifier(c: char) -> (r: bool)
    ensures
        r == is_joining_modifier_spec(c),
{
    if char_width(c) == 0 {
        return true;
    }
    if '\u{1F3FB}' <= c && c <= '\u{1F3FF}' {
        return true;
    }
    c == '\u{20E3}'
}

/// True when `prev` followed by `next` is a single extended grapheme
/// cluster.
pub fn continues_cluster(prev: &str, next: char) -> (r: bool)
    ensures
        r == continues_cluster_spec(prev@, next),
{
    if prev.is_empty() {
        return false;
    }
    let mut combined = prev.to_owned();
    push_char(&mut combined, next);
    grapheme_count(combined.as_str()) == 1
}

/// Display width of a whole cluster: 2 when it holds anything wide (or an
/// emoji-presentation marker), otherwise 1; never 0.
pub fn cluster_width(s: &str) -> (w: usize)
    ensures
        w == cluster_width_spec(s@),
{
    let chars = crate::text::chars_of(s);
    let mut i: usize = 0;
    while i < chars.len()
        invariant
            chars@ == s@,
            i <= chars@.len(),
            forall|j: int|
                0 <= j < i ==> !(char_width_spec(#[trigger] chars@[j]) == 2 || is_skin_tone(
                    chars@[j],
                ) || chars@[j] == '\u{20E3}' || chars@[j] == ZWJ || chars@[j] == '\u{FE0F}'),
        decreases chars@.len() - i,
    {
        let c = chars[i];
        if char_width(c) == 2 || ('\u{1F3FB}' <= c && c <= '\u{1F3FF}') || c == '\u{20E3}' || c
            == ZWJ || c == '\u{FE0F}' {
            return 2;
        }
        i += 1;
    }
    1
}

} // verus!
