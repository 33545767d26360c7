//! Tab bookkeeping: which tab stays active when tabs close, and cycling
//! through tabs with wrap-around.

use vstd::prelude::*;
use vstd::arithmetic::div_mod::{
    lemma_add_mod_noop, lemma_mod_bound, lemma_small_mod, lemma_sub_mod_noop,
};

verus! {

/// How many of `removed` lie strictly before index `active`.
pub open spec fn removed_before(removed: Seq<usize>, active: usize) -> nat
    decreases removed.len(),
{
    if removed.len() == 0 {
        0
    } else {
        removed_before(removed.drop_last(), active) + if removed.last() < active {
            1nat
        } else {
            0nat
        }
    }
}

/// The active index after the tabs at `removed` are closed and `new_len`
/// remain: shifted down past the removed tabs before it and clamped to the
/// survivors (`0` when none survive).
pub open spec fn active_after_removals_spec(active: usize, removed: Seq<usize>, new_len: usize) -> usize {
    if new_len == 0 {
        0
    } else {
        let shifted = if active >= removed_before(removed, active) {
            active - removed_before(removed, active)
        } else {
            0
        };
        if shifted < new_len - 1 {
            shifted as usize
        } else {
            (new_len - 1) as usize
        }
    }
}

/// Map an old `active` tab index across the removal of `removed` indices.
/// When `active` itself was removed this lands on the tab that slid into
/// its slot, or on the new last tab when the old last tab went away.
pub fn active_after_removals(active: usize, removed: &[usize], new_len: usize) -> (r: usize)
    ensures
        r == active_after_removals_spec(active, removed@, new_len),
        new_len > 0 ==> r < new_len,
{
    if new_len == 0 {
        return 0;
    }
    let mut shift: usize = 0;
    let mut i: usize = 0;
    while i < removed.len()
        invariant
            i <= removed@.len(),
            shift == removed_before(removed@.subrange(0, i as int), active),
            shift <= i,
        decreases removed@.len() - i,
    {
        assert(removed@.subrange(0, i + 1).drop_last() =~= removed@.subrange(0, i as int));
        if removed[i] < active {
            shift += 1;
        }
        i += 1;
    }
    assert(removed@.subrange(0, removed@.len() as int) =~= removed@);
    let shifted = if active >= shift {
        active - shift
    } else {
        0
    };
    if shifted < new_len - 1 {
        shifted
    } else {
        new_len - 1
    }
}

/// The tab `delta` steps from `active` among `len` tabs, wrapping around
/// both ends; `active` itself when there is nothing to cycle (`len < 2`).
pub open spec fn next_tab_index_spec(active: usize, len: usize, delta: isize) -> usize {
    if len < 2 {
        active
    } else {
        ((active as int + delta as int) % (len as int)) as usize
    }
}

/// Next active index when cycling by `delta` (`+1` next, `-1` previous).
pub fn next_tab_index(active: usize, len: usize, delta: isize) -> (r: usize)
    ensures
        r == next_tab_index_spec(active, len, delta),
        len >= 2 ==> r < len,
{
    if len < 2 {
        return active;
    }
    let a: usize = active % len;
    proof {
        lemma_mod_bound(active as int, len as int);
    }
    if delta >= 0 {
        let step: usize = (delta as usize) % len;
        proof {
            lemma_mod_bound(delta as int, len as int);
            lemma_add_mod_noop(active as int, delta as int, len as int);
        }
        if a >= len - step {
            let r = a - (len - step);
            proof {
                assert(a + step == r + len);
                vstd::arithmetic::div_mod::lemma_mod_add_multiples_vanish(r as int, len as int);
                lemma_small_mod(r as nat, len as nat);
            }
            r
        } else {
            let r = a + step;
            proof {
                lemma_small_mod(r as nat, len as nat);
            }
            r
        }
    } else {
        let m: usize = if delta == isize::MIN {
            (isize::MAX as usize) + 1
        } else {
            (-delta) as usize
        };
        assert(m as int == -(delta as int));
        let step: usize = m % len;
        proof {
            lemma_mod_bound(m as int, len as int);
            lemma_sub_mod_noop(active as int, m as int, len as int);
        }
        if a >= step {
            let r = a - step;
            proof {
                lemma_small_mod(r as nat, len as nat);
            }
            r
        } else {
            let r = a + (len - step);
            proof {
                assert(a - step == r - len);
                vstd::arithmetic::div_mod::lemma_mod_sub_multiples_vanish(r as int, len as int);
                lemma_small_mod(r as nat, len as nat);
            }
            r
        }
    }
}

/// Cycling to the next tab and back to the previous one returns to the
/// tab you started on.
pub proof fn lemma_cycle_round_trip(active: usize, len: usize)
    requires
        len >= 2,
        active < len,
    ensures
        next_tab_index_spec(next_tab_index_spec(active, len, 1isize), len, -1isize) == active,
        next_tab_index_spec(next_tab_index_spec(active, len, -1isize), len, 1isize) == active,
{
    let n = len as int;
    let a = active as int;
    if a + 1 < n {
        lemma_small_mod((a + 1) as nat, n as nat);
        lemma_small_mod(a as nat, n as nat);
    } else {
        vstd::arithmetic::div_mod::lemma_mod_self_0(n);
        lemma_small_mod(0, n as nat);
        vstd::arithmetic::div_mod::lemma_mod_add_multiples_vanish(-1, n);
        lemma_small_mod((n - 1) as nat, n as nat);
    }
    if a >= 1 {
        lemma_small_mod((a - 1) as nat, n as nat);
        lemma_small_mod(a as nat, n as nat);
    } else {
        vstd::arithmetic::div_mod::lemma_mod_add_multiples_vanish(-1, n);
        lemma_small_mod((n - 1) as nat, n as nat);
        vstd::arithmetic::div_mod::lemma_mod_self_0(n);
    }
}

/// The active index after removals always names a surviving tab (or is
/// `0` when none survive), and is never past where it was.
pub proof fn lemma_active_after_removals_in_range(active: usize, removed: Seq<usize>, new_len: usize)
    ensures
        new_len > 0 ==> active_after_removals_spec(active, removed, new_len) < new_len,
        new_len == 0 ==> active_after_removals_spec(active, removed, new_len) == 0,
        active_after_removals_spec(active, removed, new_len) <= active || (new_len == 0),
{
}

} // verus!
