//! Tab labels: a title template with `$name` / `${name}` variables,
//! rendered from what the shell and the kernel report for a tab.

use vstd::prelude::*;

use crate::text::{
    chars_of, is_ascii_alnum, is_ascii_alnum_spec, is_ascii_alpha, is_ascii_alpha_spec,
    string_from_chars, string_of, trim_of, trim_str,
};

verus! {

broadcast use vstd::string::group_string_axioms;

/// Label inputs for one tab.
pub struct TitleVars<'a> {
    /// Shell-reported `OSC 0/1/2` title (empty when the shell sets none).
    pub title: &'a str,
    /// Foreground process basename, when the kernel could report one.
    pub command: Option<&'a str>,
    /// Working directory, `~`-shortened.
    pub cwd: Option<&'a str>,
    /// 0-based tab index; the `$tab` variable is 1-based.
    pub tab: usize,
}

/// Decimal digits of `n`.
pub open spec fn dec_digits(n: nat) -> Seq<char>
    decreases n,
{
    if n < 10 {
        seq![(('0' as u32) + n) as char]
    } else {
        dec_digits(n / 10) + seq![(('0' as u32) + n % 10) as char]
    }
}

fn push_dec(out: &mut Vec<char>, n: usize)
    ensures
        final(out)@ == old(out)@ + dec_digits(n as nat),
    decreases n,
{
    if n >= 10 {
        push_dec(out, n / 10);
    }
    out.push(digit_char(n % 10));
}

/// The ASCII digit for `d < 10`.
fn digit_char(d: usize) -> (c: char)
    requires
        d < 10,
    ensures
        c == (('0' as u32) + d) as char,
{
    if d == 0 {
        '0'
    } else if d == 1 {
        '1'
    } else if d == 2 {
        '2'
    } else if d == 3 {
        '3'
    } else if d == 4 {
        '4'
    } else if d == 5 {
        '5'
    } else if d == 6 {
        '6'
    } else if d == 7 {
        '7'
    } else if d == 8 {
        '8'
    } else {
        '9'
    }
}

/// Rendered template: text plus how many known variables it referenced
/// and how many of those had a non-empty value.
pub struct Rendered {
    pub text: Seq<char>,
    pub referenced: nat,
    pub filled: nat,
}

/// The value of the first variable named `name`.
pub open spec fn lookup_spec(vars: Seq<(Seq<char>, Seq<char>)>, name: Seq<char>) -> Option<Seq<char>>
    decreases vars.len(),
{
    if vars.len() == 0 {
        None
    } else if vars[0].0 == name {
        Some(vars[0].1)
    } else {
        lookup_spec(vars.subrange(1, vars.len() as int), name)
    }
}

/// Index of the first `}` at or after `k`.
pub open spec fn close_brace(t: Seq<char>, k: int) -> Option<int>
    decreases t.len() - k,
{
    if k < 0 || k >= t.len() {
        None
    } else if t[k] == '}' {
        Some(k)
    } else {
        close_brace(t, k + 1)
    }
}

/// Whether `c` may continue a variable name.
pub open spec fn ident_char(c: char) -> bool {
    c == '_' || is_ascii_alnum_spec(c)
}

/// End of the run of name characters starting at `k`.
pub open spec fn ident_end(t: Seq<char>, k: int) -> int
    decreases t.len() - k,
{
    if k < 0 || k >= t.len() || !ident_char(t[k]) {
        k
    } else {
        ident_end(t, k + 1)
    }
}

pub proof fn lemma_close_brace(t: Seq<char>, k: int)
    requires
        0 <= k,
    ensures
        close_brace(t, k) matches Some(j) ==> k <= j < t.len() && t[j] == '}',
    decreases t.len() - k,
{
    if k < t.len() && t[k] != '}' {
        lemma_close_brace(t, k + 1);
    }
}

pub proof fn lemma_ident_end(t: Seq<char>, k: int)
    requires
        0 <= k <= t.len(),
    ensures
        k <= ident_end(t, k) <= t.len(),
    decreases t.len() - k,
{
    if k < t.len() && ident_char(t[k]) {
        lemma_ident_end(t, k + 1);
    }
}

/// One token of the template at `i` (`i < t.len()`): where the next token
/// starts, the text it renders to, and whether it is a known variable
/// (with a non-empty value).
pub open spec fn token(t: Seq<char>, i: int, vars: Seq<(Seq<char>, Seq<char>)>) -> (int, Seq<char>, bool, bool) {
    if t[i] != '$' {
        (i + 1, seq![t[i]], false, false)
    } else if i + 1 >= t.len() {
        (i + 1, seq!['$'], false, false)
    } else if t[i + 1] == '$' {
        (i + 2, seq!['$'], false, false)
    } else if t[i + 1] == '{' {
        match close_brace(t, i + 2) {
            Some(j) => match lookup_spec(vars, t.subrange(i + 2, j)) {
                Some(v) => (j + 1, v, true, v.len() > 0),
                None => (j + 1, t.subrange(i, j + 1), false, false),
            },
            None => (i + 1, seq!['$'], false, false),
        }
    } else {
        let end = ident_end(t, i + 1);
        if end > i + 1 && (t[i + 1] == '_' || is_ascii_alpha_spec(t[i + 1])) {
            match lookup_spec(vars, t.subrange(i + 1, end)) {
                Some(v) => (end, v, true, v.len() > 0),
                None => (end, t.subrange(i, end), false, false),
            }
        } else {
            (i + 1, seq!['$'], false, false)
        }
    }
}

pub proof fn lemma_token_advances(t: Seq<char>, i: int, vars: Seq<(Seq<char>, Seq<char>)>)
    requires
        0 <= i < t.len(),
    ensures
        i < token(t, i, vars).0 <= t.len(),
{
    if t[i] == '$' && i + 1 < t.len() && t[i + 1] != '$' {
        if t[i + 1] == '{' {
            lemma_close_brace(t, i + 2);
        } else {
            lemma_ident_end(t, i + 1);
        }
    }
}

/// The template from `i` on, rendered: `$name` and `${name}` are replaced
/// by known variables' values, `$$` is a literal `$`, and unknown names,
/// lone `$` and an unterminated `${` stay literal. Values are never
/// re-scanned.
pub open spec fn interp(t: Seq<char>, i: int, vars: Seq<(Seq<char>, Seq<char>)>) -> Rendered
    decreases t.len() - i,
{
    if i < 0 || i >= t.len() {
        Rendered { text: Seq::empty(), referenced: 0, filled: 0 }
    } else {
        let (j, piece, is_var, has_value) = token(t, i, vars);
        proof {
            lemma_token_advances(t, i, vars);
        }
        let rest = interp(t, j, vars);
        Rendered {
            text: piece + rest.text,
            referenced: rest.referenced + if is_var {
                1nat
            } else {
                0nat
            },
            filled: rest.filled + if has_value {
                1nat
            } else {
                0nat
            },
        }
    }
}

/// The views of the variable pairs.
pub open spec fn pair_views(vars: Seq<(&str, &str)>) -> Seq<(Seq<char>, Seq<char>)> {
    vars.map_values(|p: (&str, &str)| (p.0@, p.1@))
}

fn lookup<'a>(vars: &[(&str, &'a str)], name: &[char]) -> (r: Option<&'a str>)
    ensures
        match r {
            Some(v) => lookup_spec(pair_views(vars@), name@) == Some(v@),
            None => lookup_spec(pair_views(vars@), name@) is None,
        },
{
    let mut k: usize = 0;
    assert(pair_views(vars@).subrange(0, vars@.len() as int) =~= pair_views(vars@));
    while k < vars.len()
        invariant
            k <= vars@.len(),
            lookup_spec(pair_views(vars@), name@) == lookup_spec(
                pair_views(vars@).subrange(k as int, vars@.len() as int),
                name@,
            ),
        decreases vars@.len() - k,
    {
        let ghost rest = pair_views(vars@).subrange(k as int, vars@.len() as int);
        assert(rest[0] == (vars@[k as int].0@, vars@[k as int].1@));
        let key = chars_of(vars[k].0);
        if crate::text::chars_eq(key.as_slice(), name) {
            return Some(vars[k].1);
        }
        assert(rest.subrange(1, rest.len() as int) =~= pair_views(vars@).subrange(
            k + 1,
            vars@.len() as int,
        ));
        k += 1;
    }
    assert(pair_views(vars@).subrange(vars@.len() as int, vars@.len() as int) =~= Seq::<
        (Seq<char>, Seq<char>),
    >::empty());
    None
}

/// Rendered text and counts, as built by [`interpolate`].
struct RenderedText {
    text: Vec<char>,
    referenced: usize,
    filled: usize,
}

/// `out` followed by `t[from..to]`.
fn push_range(out: &mut Vec<char>, t: &[char], from: usize, to: usize)
    requires
        from <= to <= t@.len(),
    ensures
        final(out)@ == old(out)@ + t@.subrange(from as int, to as int),
{
    let mut k = from;
    while k < to
        invariant
            from <= k <= to <= t@.len(),
            out@ == old(out)@ + t@.subrange(from as int, k as int),
        decreases to - k,
    {
        out.push(t[k]);
        k += 1;
        assert(out@ =~= old(out)@ + t@.subrange(from as int, k as int));
    }
}

/// The token at `i` (see [`token`]), appended to `out`.
fn take_token(t: &[char], i: usize, vars: &[(&str, &str)], out: &mut Vec<char>) -> (r: (
    usize,
    bool,
    bool,
))
    requires
        i < t@.len(),
    ensures
        ({
            let (j, piece, is_var, has_value) = token(t@, i as int, pair_views(vars@));
            r.0 == j && final(out)@ == old(out)@ + piece && r.1 == is_var && r.2 == has_value
        }),
{
    let n = t.len();
    if t[i] != '$' {
        out.push(t[i]);
        assert(out@ =~= old(out)@ + seq![t@[i as int]]);
        return (i + 1, false, false);
    }
    if i + 1 >= n {
        out.push('$');
        assert(out@ =~= old(out)@ + seq!['$']);
        return (i + 1, false, false);
    }
    if t[i + 1] == '$' {
        out.push('$');
        assert(out@ =~= old(out)@ + seq!['$']);
        return (i + 2, false, false);
    }
    if t[i + 1] == '{' {
        let mut j = i + 2;
        while j < n && t[j] != '}'
            invariant
                i + 2 <= j <= n,
                n == t@.len(),
                close_brace(t@, (i + 2) as int) == close_brace(t@, j as int),
            decreases n - j,
        {
            j += 1;
        }
        if j < n {
            let name = slice_chars(t, i + 2, j);
            match lookup(vars, name.as_slice()) {
                Some(v) => {
                    let vc = chars_of(v);
                    push_range(out, vc.as_slice(), 0, vc.len());
                    assert(vc@.subrange(0, vc@.len() as int) =~= vc@);
                    return (j + 1, true, vc.len() > 0);
                },
                None => {
                    push_range(out, t, i, j + 1);
                    return (j + 1, false, false);
                },
            }
        }
        out.push('$');
        assert(out@ =~= old(out)@ + seq!['$']);
        return (i + 1, false, false);
    }
    let mut end = i + 1;
    while end < n && (t[end] == '_' || is_ascii_alnum(t[end]))
        invariant
            i + 1 <= end <= n,
            n == t@.len(),
            ident_end(t@, (i + 1) as int) == ident_end(t@, end as int),
        decreases n - end,
    {
        end += 1;
    }
    if end > i + 1 && (t[i + 1] == '_' || is_ascii_alpha(t[i + 1])) {
        let name = slice_chars(t, i + 1, end);
        match lookup(vars, name.as_slice()) {
            Some(v) => {
                let vc = chars_of(v);
                push_range(out, vc.as_slice(), 0, vc.len());
                assert(vc@.subrange(0, vc@.len() as int) =~= vc@);
                return (end, true, vc.len() > 0);
            },
            None => {
                push_range(out, t, i, end);
                return (end, false, false);
            },
        }
    }
    out.push('$');
    assert(out@ =~= old(out)@ + seq!['$']);
    (i + 1, false, false)
}

/// The characters `t[from..to]`.
fn slice_chars(t: &[char], from: usize, to: usize) -> (r: Vec<char>)
    requires
        from <= to <= t@.len(),
    ensures
        r@ == t@.subrange(from as int, to as int),
{
    let mut out: Vec<char> = Vec::new();
    push_range(&mut out, t, from, to);
    assert(out@ =~= t@.subrange(from as int, to as int));
    out
}

/// Substitute `$name` and `${name}` tokens from `vars` (see [`interp`]).
fn interpolate(template: &str, vars: &[(&str, &str)]) -> (r: RenderedText)
    ensures
        r.text@ == interp(template@, 0, pair_views(vars@)).text,
        r.referenced == interp(template@, 0, pair_views(vars@)).referenced,
        r.filled == interp(template@, 0, pair_views(vars@)).filled,
{
    let t = chars_of(template);
    let ghost pv = pair_views(vars@);
    let mut out: Vec<char> = Vec::new();
    let mut referenced: usize = 0;
    let mut filled: usize = 0;
    let mut i: usize = 0;
    while i < t.len()
        invariant
            i <= t@.len(),
            t@ == template@,
            pv == pair_views(vars@),
            out@ + interp(t@, i as int, pv).text == interp(t@, 0, pv).text,
            referenced + interp(t@, i as int, pv).referenced == interp(t@, 0, pv).referenced,
            filled + interp(t@, i as int, pv).filled == interp(t@, 0, pv).filled,
            referenced <= i,
            filled <= referenced,
        decreases t@.len() - i,
    {
        let ghost before = out@;
        proof {
            lemma_token_advances(t@, i as int, pv);
        }
        let (j, is_var, has_value) = take_token(t.as_slice(), i, vars, &mut out);
        assert(out@ + interp(t@, j as int, pv).text =~= before + interp(t@, i as int, pv).text);
        if is_var {
            referenced += 1;
        }
        if has_value {
            filled += 1;
        }
        i = j;
    }
    RenderedText { text: out, referenced, filled }
}

/// `label` cut to `max_chars` characters (at least one), the last one an
/// ellipsis when it was cut.
pub open spec fn truncate_spec(label: Seq<char>, max_chars: usize) -> Seq<char> {
    let m = if max_chars < 1 {
        1
    } else {
        max_chars as int
    };
    if label.len() <= m {
        label
    } else {
        label.subrange(0, m - 1) + seq!['\u{2026}']
    }
}

/// A label is cut to at most `max_chars` characters (at least one): one
/// that fits is kept whole; a longer one keeps its first characters and
/// ends in an ellipsis, using the whole allowance.
pub proof fn lemma_truncate_label_shape(label: Seq<char>, max_chars: usize)
    ensures
        ({
            let r = truncate_spec(label, max_chars);
            let m: int = if max_chars < 1 { 1 } else { max_chars as int };
            &&& r.len() <= m
            &&& label.len() <= m ==> r == label
            &&& label.len() > m ==> r.len() == m && r.last() == '\u{2026}' && r.subrange(0, m - 1)
                == label.subrange(0, m - 1)
        }),
{
    let m: int = if max_chars < 1 { 1 } else { max_chars as int };
    if label.len() > m {
        let r = truncate_spec(label, max_chars);
        assert(r.subrange(0, m - 1) =~= label.subrange(0, m - 1));
    }
}

fn truncate_label(label: &[char], max_chars: usize) -> (r: String)
    ensures
        r@ == truncate_spec(label@, max_chars),
{
    let m = if max_chars < 1 {
        1
    } else {
        max_chars
    };
    if label.len() <= m {
        return string_from_chars(label);
    }
    let mut kept = slice_chars(label, 0, m - 1);
    kept.push('\u{2026}');
    assert(kept@ =~= truncate_spec(label@, max_chars));
    string_from_chars(kept.as_slice())
}

/// The optional text as a plain string (`""` when absent).
pub open spec fn or_empty(s: Option<&str>) -> Seq<char> {
    match s {
        Some(v) => v@,
        None => Seq::empty(),
    }
}

/// `Tab N` for the 0-based index `tab`.
pub open spec fn tab_label(tab: nat) -> Seq<char> {
    "Tab "@ + dec_digits(tab + 1)
}

/// The label [`format_title`] renders for `vars` with `template`: the
/// interpolated, trimmed text truncated to `max_label_chars`; `Tab N` when
/// that is blank or when the template referenced variables and none had a
/// value.
pub open spec fn title_spec(vars: TitleVars, template: Seq<char>, max_label_chars: usize) -> Seq<char> {
    let values = seq![
        ("title"@, vars.title@),
        ("command"@, or_empty(vars.command)),
        ("cwd"@, or_empty(vars.cwd)),
        ("tab"@, dec_digits((vars.tab + 1) as nat)),
    ];
    let r = interp(template, 0, values);
    label_from_trimmed_spec(trim_of(r.text), r.referenced, r.filled, vars.tab as nat, max_label_chars)
}

/// The label for tab `tab` from the trimmed rendered text: `Tab N` when it
/// is blank or when the template referenced variables and none had a value,
/// else the text truncated to `max_label_chars`.
pub open spec fn label_from_trimmed_spec(
    text: Seq<char>,
    referenced: nat,
    filled: nat,
    tab: nat,
    max_label_chars: usize,
) -> Seq<char> {
    if text.len() == 0 || (referenced > 0 && filled == 0) {
        tab_label(tab)
    } else {
        truncate_spec(text, max_label_chars)
    }
}

/// The label from the trimmed rendered text (see
/// [`label_from_trimmed_spec`]).
pub fn label_from_trimmed(
    trimmed: &str,
    referenced: usize,
    filled: usize,
    tab: usize,
    max_label_chars: usize,
) -> (r: String)
    requires
        tab < usize::MAX,
    ensures
        r@ == label_from_trimmed_spec(
            trimmed@,
            referenced as nat,
            filled as nat,
            tab as nat,
            max_label_chars,
        ),
{
    let tc = chars_of(trimmed);
    if tc.len() == 0 || (referenced > 0 && filled == 0) {
        let mut digits: Vec<char> = Vec::new();
        push_dec(&mut digits, tab + 1);
        assert(digits@ =~= dec_digits((tab + 1) as nat));
        let n = string_from_chars(digits.as_slice());
        let mut label = string_of("Tab ");
        crate::text::append_str(&mut label, n.as_str());
        return label;
    }
    truncate_label(tc.as_slice(), max_label_chars)
}

/// Render a title template for one tab (see [`title_spec`]).
pub fn format_title(vars: &TitleVars, title_format: &str, max_label_chars: usize) -> (r: String)
    requires
        vars.tab < usize::MAX,
    ensures
        r@ == title_spec(*vars, title_format@, max_label_chars),
{
    let mut digits: Vec<char> = Vec::new();
    push_dec(&mut digits, vars.tab + 1);
    assert(digits@ =~= dec_digits((vars.tab + 1) as nat));
    let tab = string_from_chars(digits.as_slice());
    let command: &str = match vars.command {
        Some(c) => c,
        None => "",
    };
    let cwd: &str = match vars.cwd {
        Some(c) => c,
        None => "",
    };
    proof {
        reveal_strlit("");
    }
    let mut pairs: Vec<(&str, &str)> = Vec::new();
    pairs.push(("title", vars.title));
    pairs.push(("command", command));
    pairs.push(("cwd", cwd));
    pairs.push(("tab", tab.as_str()));
    assert(command@ == or_empty(vars.command));
    assert(cwd@ == or_empty(vars.cwd));
    assert(pair_views(pairs@) =~= seq![
        ("title"@, vars.title@),
        ("command"@, or_empty(vars.command)),
        ("cwd"@, or_empty(vars.cwd)),
        ("tab"@, dec_digits((vars.tab + 1) as nat)),
    ]);
    let rendered = interpolate(title_format, pairs.as_slice());
    let text_s = string_from_chars(rendered.text.as_slice());
    let trimmed = trim_str(text_s.as_str());
    label_from_trimmed(trimmed, rendered.referenced, rendered.filled, vars.tab, max_label_chars)
}

/// OS window title for the active tab: the shell's OSC title when set,
/// otherwise the application title.
pub fn window_title_for<'a>(osc_title: &'a str, app_title: &'a str) -> (r: &'a str)
    ensures
        r@ == (if osc_title@.len() == 0 {
            app_title@
        } else {
            osc_title@
        }),
{
    if chars_of(osc_title).len() == 0 {
        app_title
    } else {
        osc_title
    }
}

/// A tab label is never empty, and unless it is the `Tab N` fallback it
/// has at most `max_label_chars` characters (at least one is kept).
pub proof fn lemma_title_shape(vars: TitleVars, template: Seq<char>, max_label_chars: usize)
    ensures
        title_spec(vars, template, max_label_chars).len() > 0,
        title_spec(vars, template, max_label_chars) == tab_label(vars.tab as nat) || title_spec(
            vars,
            template,
            max_label_chars,
        ).len() <= (if max_label_chars < 1 {
            1
        } else {
            max_label_chars as int
        }),
{
    lemma_dec_digits_nonempty((vars.tab + 1) as nat);
}

/// Every number has at least one digit.
pub proof fn lemma_dec_digits_nonempty(n: nat)
    ensures
        dec_digits(n).len() > 0,
    decreases n,
{
    if n >= 10 {
        lemma_dec_digits_nonempty(n / 10);
    }
}

} // verus!
