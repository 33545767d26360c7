//! Path text for tab labels: a home directory shortened to `~`, and the
//! name of an executable.

use vstd::prelude::*;

use crate::text::{chars_of, string_from_chars, string_of, trim_of, trim_str};

verus! {

broadcast use vstd::string::group_string_axioms;

/// `s` without its trailing `/` characters.
pub open spec fn trim_trailing_slashes(s: Seq<char>) -> Seq<char>
    decreases s.len(),
{
    if s.len() > 0 && s.last() == '/' {
        trim_trailing_slashes(s.drop_last())
    } else {
        s
    }
}

/// `path` with a leading home directory written `~`: the whole path when
/// it is the home, or a prefix ending at a `/` boundary. Other paths, and
/// every path when no (non-empty) home is known, are unchanged.
pub open spec fn shorten_home_spec(path: Seq<char>, home: Option<Seq<char>>) -> Seq<char> {
    match home {
        None => path,
        Some(h0) => {
            let h = trim_trailing_slashes(h0);
            if h.len() == 0 {
                path
            } else if path == h {
                seq!['~']
            } else if h.len() < path.len() && path.subrange(0, h.len() as int) == h && path[h.len() as int]
                == '/' {
                seq!['~'] + path.subrange(h.len() as int, path.len() as int)
            } else {
                path
            }
        },
    }
}

/// Shortening a path by its home directory `home` (given without trailing
/// `/`) loses nothing: either the path is returned unchanged, or it starts
/// with `~` and putting `home` back for that `~` gives the path. The home
/// directory itself and every path below it are shortened.
pub proof fn lemma_shorten_home_round_trip(path: Seq<char>, home: Seq<char>)
    requires
        home.len() > 0,
        home.last() != '/',
    ensures
        ({
            let r = shorten_home_spec(path, Some(home));
            &&& r == path || (r.len() >= 1 && r[0] == '~' && home + r.drop_first() == path)
            &&& (path == home || (home.len() < path.len() && path.subrange(0, home.len() as int) == home
                && path[home.len() as int] == '/')) ==> r.len() >= 1 && r[0] == '~' && r.len()
                == path.len() - home.len() + 1
        }),
{
    assert(trim_trailing_slashes(home) == home);
    let r = shorten_home_spec(path, Some(home));
    if r != path {
        if path == home {
            assert(r =~= seq!['~']);
            assert(home + r.drop_first() =~= path);
        } else {
            assert(r.drop_first() =~= path.subrange(home.len() as int, path.len() as int));
            assert(home + r.drop_first() =~= path);
        }
    }
}

/// The length of `s` once trailing `/` are dropped.
fn trimmed_len(s: &[char]) -> (n: usize)
    ensures
        n <= s@.len(),
        s@.subrange(0, n as int) == trim_trailing_slashes(s@),
{
    let mut n = s.len();
    assert(s@.subrange(0, n as int) =~= s@);
    while n > 0 && s[n - 1] == '/'
        invariant
            n <= s@.len(),
            trim_trailing_slashes(s@) == trim_trailing_slashes(s@.subrange(0, n as int)),
        decreases n,
    {
        assert(s@.subrange(0, n as int).drop_last() =~= s@.subrange(0, n - 1));
        n -= 1;
    }
    assert(trim_trailing_slashes(s@.subrange(0, n as int)) == s@.subrange(0, n as int));
    n
}

/// Rewrite a leading home directory (or the whole path) to `~`.
pub fn shorten_home_with(path: &str, home: Option<&str>) -> (r: String)
    ensures
        r@ == shorten_home_spec(
            path@,
            match home {
                Some(h) => Some(h@),
                None => None,
            },
        ),
{
    let h0 = match home {
        Some(h) => chars_of(h),
        None => {
            return string_of(path);
        },
    };
    let hn = trimmed_len(h0.as_slice());
    let ghost h = h0@.subrange(0, hn as int);
    if hn == 0 {
        return string_of(path);
    }
    let p = chars_of(path);
    if p.len() < hn {
        return string_of(path);
    }
    let mut i: usize = 0;
    while i < hn
        invariant
            i <= hn <= p@.len(),
            hn <= h0@.len(),
            h == h0@.subrange(0, hn as int),
            h == trim_trailing_slashes(h0@),
            hn > 0,
            p@ == path@,
            home matches Some(hh) && h0@ == hh@,
            p@.subrange(0, i as int) == h0@.subrange(0, i as int),
        decreases hn - i,
    {
        if p[i] != h0[i] {
            assert(p@.subrange(0, hn as int)[i as int] != h[i as int]);
            assert(p@.subrange(0, hn as int) != h);
            assert(path@ != h) by {
                if path@ == h {
                    assert(p@[i as int] == h[i as int]);
                }
            }
            return string_of(path);
        }
        i += 1;
        assert(p@.subrange(0, i as int) =~= h0@.subrange(0, i as int));
    }
    assert(p@.subrange(0, hn as int) =~= h);
    if p.len() == hn {
        assert(p@ =~= h);
        let mut out = String::new();
        crate::text::push_char(&mut out, '~');
        assert(out@ =~= seq!['~']);
        return out;
    }
    if p[hn] == '/' {
        let mut rest: Vec<char> = Vec::new();
        rest.push('~');
        let mut k = hn;
        while k < p.len()
            invariant
                hn <= k <= p@.len(),
                rest@ == seq!['~'] + p@.subrange(hn as int, k as int),
            decreases p@.len() - k,
        {
            rest.push(p[k]);
            k += 1;
            assert(rest@ =~= seq!['~'] + p@.subrange(hn as int, k as int));
        }
        return string_from_chars(rest.as_slice());
    }
    string_of(path)
}

/// The part of `s` after its last `/` (all of `s` without one).
pub open spec fn last_segment(s: Seq<char>) -> Seq<char>
    decreases s.len(),
{
    if s.len() == 0 {
        s
    } else if s.last() == '/' {
        Seq::empty()
    } else {
        last_segment(s.drop_last()).push(s.last())
    }
}

/// `s` without a trailing ` (deleted)` marker.
pub open spec fn strip_deleted(s: Seq<char>) -> Seq<char> {
    let marker = " (deleted)"@;
    if s.len() >= marker.len() && s.subrange(s.len() - marker.len(), s.len() as int) == marker {
        s.subrange(0, s.len() - marker.len())
    } else {
        s
    }
}

/// The executable name in `path`: its last segment (a ` (deleted)` marker
/// dropped), trimmed; `None` when that is empty.
pub open spec fn exe_name_spec(path: Seq<char>) -> Option<Seq<char>> {
    let name = trim_of(last_segment(strip_deleted(path)));
    if name.len() == 0 {
        None
    } else {
        Some(name)
    }
}

/// Start of the last segment of `s[..end]`.
fn segment_start(s: &[char], end: usize) -> (start: usize)
    requires
        end <= s@.len(),
    ensures
        start <= end,
        s@.subrange(start as int, end as int) == last_segment(s@.subrange(0, end as int)),
{
    let mut start = end;
    while start > 0 && s[start - 1] != '/'
        invariant
            start <= end <= s@.len(),
            last_segment(s@.subrange(0, end as int)) == last_segment(s@.subrange(0, start as int))
                + s@.subrange(start as int, end as int),
        decreases start,
    {
        let ghost pre = s@.subrange(0, start as int);
        assert(pre.drop_last() =~= s@.subrange(0, start - 1));
        assert(s@.subrange(start - 1, end as int) =~= seq![pre.last()] + s@.subrange(
            start as int,
            end as int,
        ));
        assert(last_segment(pre) == last_segment(pre.drop_last()).push(pre.last()));
        assert(last_segment(pre.drop_last()).push(pre.last()) + s@.subrange(start as int, end as int)
            =~= last_segment(pre.drop_last()) + s@.subrange(start - 1, end as int));
        start -= 1;
    }
    assert(last_segment(s@.subrange(0, start as int)) =~= Seq::<char>::empty()) by {
        if start > 0 {
            assert(s@.subrange(0, start as int).last() == '/');
        }
    }
    assert(last_segment(s@.subrange(0, end as int)) =~= s@.subrange(start as int, end as int));
    start
}

/// Name of an executable path, ignoring a ` (deleted)` suffix.
pub fn exe_name(path: &str) -> (r: Option<String>)
    ensures
        match r {
            Some(s) => exe_name_spec(path@) == Some(s@),
            None => exe_name_spec(path@) is None,
        },
{
    let p = chars_of(path);
    let marker = chars_of(" (deleted)");
    let mut end = p.len();
    if p.len() >= marker.len() {
        let off = p.len() - marker.len();
        let mut same = true;
        assert(p@.subrange(off as int, off as int) =~= marker@.subrange(0, 0));
        let mut i: usize = 0;
        while i < marker.len()
            invariant
                off + marker.len() == p.len(),
                i <= marker@.len(),
                same == (p@.subrange(off as int, off + i) == marker@.subrange(0, i as int)),
            decreases marker@.len() - i,
        {
            if same && p[off + i] != marker[i] {
                assert(p@.subrange(off as int, off + i + 1)[i as int] != marker@.subrange(
                    0,
                    i + 1,
                )[i as int]);
                same = false;
            } else if same {
                assert(p@.subrange(off as int, off + i + 1) =~= marker@.subrange(0, i + 1));
            } else {
                assert(p@.subrange(off as int, off + i + 1) != marker@.subrange(0, i + 1)) by {
                    if p@.subrange(off as int, off + i + 1) == marker@.subrange(0, i + 1) {
                        assert(p@.subrange(off as int, off + i) =~= p@.subrange(
                            off as int,
                            off + i + 1,
                        ).subrange(0, i as int));
                        assert(marker@.subrange(0, i as int) =~= marker@.subrange(0, i + 1).subrange(
                            0,
                            i as int,
                        ));
                    }
                }
            }
            i += 1;
        }
        assert(marker@.subrange(0, marker@.len() as int) =~= marker@);
        if same {
            end = off;
        }
    }
    assert(p@.subrange(0, end as int) == strip_deleted(path@));
    let start = segment_start(p.as_slice(), end);
    let mut seg: Vec<char> = Vec::new();
    let mut k = start;
    while k < end
        invariant
            start <= k <= end <= p@.len(),
            seg@ == p@.subrange(start as int, k as int),
        decreases end - k,
    {
        seg.push(p[k]);
        k += 1;
        assert(seg@ =~= p@.subrange(start as int, k as int));
    }
    let seg_s = string_from_chars(seg.as_slice());
    let name = trim_str(seg_s.as_str());
    name_from_trimmed(name)
}

/// An executable name from its trimmed last path segment: none when blank.
pub fn name_from_trimmed(name: &str) -> (r: Option<String>)
    ensures
        match r {
            Some(s) => name@.len() > 0 && s@ == name@,
            None => name@.len() == 0,
        },
{
    let nc = chars_of(name);
    if nc.len() == 0 {
        None
    } else {
        Some(string_of(name))
    }
}

} // verus!
