//! Find-bar state of one tab: the query, its matches in the grid, and the
//! current match, recomputed only when the grid content changed.

use vstd::prelude::*;

use crate::grid::{Grid, min_nat};
use crate::search::{
    self, Match, SearchView, built_view, find_matches_spec, pick_initial_spec, step_spec,
};

verus! {

/// Find-bar state for one tab.
pub struct SearchPanel {
    pub open: bool,
    pub query: String,
    pub matches: Vec<Match>,
    pub current: Option<usize>,
    /// Grid content version the matches were computed from
    /// (`u64::MAX` = stale). View-only scrolling does not bump it.
    pub searched_version: u64,
    /// Ask the overlay to focus the query field on the next frame.
    pub focus_requested: bool,
    /// The next recompute must re-pick `current` (query/open changed).
    pub needs_pick: bool,
}

/// The version that marks the cached matches stale.
pub open spec fn stale_version() -> u64 {
    u64::MAX
}

impl SearchPanel {
    /// The current match, when set, indexes the match list.
    pub open spec fn wf(&self) -> bool {
        self.current matches Some(i) ==> i < self.matches@.len()
    }

    /// Every field but `searched_version`, `needs_pick` and `focus_requested`
    /// is the same in `a` and `b`.
    pub open spec fn same_results(a: &Self, b: &Self) -> bool {
        &&& a.open == b.open
        &&& a.query@ == b.query@
        &&& a.matches@ == b.matches@
        &&& a.current == b.current
    }
}

impl Default for SearchPanel {
    fn default() -> (r: Self)
        ensures
            !r.open,
            r.query@ == Seq::<char>::empty(),
            r.matches@.len() == 0,
            r.current is None,
            r.searched_version == stale_version(),
            !r.focus_requested,
            !r.needs_pick,
    {
        SearchPanel {
            open: false,
            query: String::new(),
            matches: Vec::new(),
            current: None,
            searched_version: u64::MAX,
            focus_requested: false,
            needs_pick: false,
        }
    }
}

/// Stepping through the matches always lands on one of them (or on
/// none when there are none).
pub proof fn lemma_step_in_range(current: Option<usize>, len: usize, forward: bool)
    ensures
        step_spec(current, len, forward) matches Some(i) ==> i < len,
        len > 0 ==> step_spec(current, len, forward) is Some,
{
}

impl SearchPanel {
    /// Ctrl/Cmd+F: open and focus, or just re-focus an open bar (never
    /// closes). Returns true when it newly opened.
    pub fn focus_or_open(&mut self) -> (opened: bool)
        ensures
            opened == !old(self).open,
            final(self).open,
            final(self).focus_requested,
            final(self).query@ == old(self).query@,
            final(self).matches@ == old(self).matches@,
            final(self).current == old(self).current,
            opened ==> final(self).needs_pick && final(self).searched_version == stale_version(),
            !opened ==> final(self).needs_pick == old(self).needs_pick
                && final(self).searched_version == old(self).searched_version,
            old(self).wf() ==> final(self).wf(),
    {
        self.focus_requested = true;
        if self.open {
            return false;
        }
        self.open = true;
        self.needs_pick = true;
        self.searched_version = u64::MAX;
        true
    }

    /// Hide the bar and drop its matches.
    pub fn close(&mut self)
        ensures
            !final(self).open,
            final(self).matches@.len() == 0,
            final(self).current is None,
            !final(self).needs_pick,
            final(self).query@ == old(self).query@,
            final(self).focus_requested == old(self).focus_requested,
            final(self).searched_version == old(self).searched_version,
            final(self).wf(),
    {
        self.open = false;
        self.matches.clear();
        self.current = None;
        self.needs_pick = false;
    }

    /// Drop the cached matches (grid content or tab changed).
    pub fn invalidate(&mut self)
        ensures
            Self::same_results(&*final(self), &*old(self)),
            final(self).focus_requested == old(self).focus_requested,
            final(self).needs_pick == old(self).needs_pick,
            final(self).searched_version == stale_version(),
            old(self).wf() ==> final(self).wf(),
    {
        self.searched_version = u64::MAX;
    }

    /// The query was edited: re-match and re-anchor `current`.
    pub fn query_changed(&mut self)
        ensures
            Self::same_results(&*final(self), &*old(self)),
            final(self).focus_requested == old(self).focus_requested,
            final(self).needs_pick,
            final(self).searched_version == stale_version(),
            old(self).wf() ==> final(self).wf(),
    {
        self.needs_pick = true;
        self.invalidate();
    }

    /// Recompute the matches when stale. Returns true when `current` was
    /// re-picked (callers reveal it); a background refresh keeps the
    /// index, clamped to the new list.
    pub fn refresh(&mut self, grid: &Grid) -> (picked: bool)
        requires
            grid.inv(),
        ensures
            old(self).searched_version == grid@.content_version ==> !picked && *final(self) == *old(
                self,
            ),
            old(self).searched_version != grid@.content_version ==> {
                let ms = find_matches_spec(grid@, old(self).query@);
                &&& final(self).matches@ == ms
                &&& final(self).searched_version == grid@.content_version
                &&& final(self).open == old(self).open
                &&& final(self).query@ == old(self).query@
                &&& final(self).focus_requested == old(self).focus_requested
                &&& if ms.len() == 0 {
                    &&& final(self).current is None
                    &&& !final(self).needs_pick
                    &&& !picked
                } else if old(self).needs_pick || old(self).current is None {
                    &&& final(self).current == pick_initial_spec(
                        ms,
                        grid@.scrollback.len() as usize,
                        grid@.offset() as usize,
                    )
                    &&& !final(self).needs_pick
                    &&& picked
                } else {
                    &&& final(self).current == Some(
                        min_nat(old(self).current->0 as int, ms.len() - 1) as usize,
                    )
                    &&& final(self).needs_pick == old(self).needs_pick
                    &&& !picked
                }
            },
            old(self).searched_version != grid@.content_version ==> final(self).wf(),
            old(self).wf() ==> final(self).wf(),
    {
        let version = grid.content_version();
        if self.searched_version == version {
            return false;
        }
        self.matches = search::find_matches(grid, &self.query);
        let picked = if self.matches.len() == 0 {
            self.current = None;
            self.needs_pick = false;
            false
        } else if self.needs_pick || self.current.is_none() {
            self.needs_pick = false;
            proof {
                search::lemma_first_at_or_after_range(
                    self.matches@,
                    crate::search::view_base(grid@.scrollback.len() as usize, grid@.offset() as usize),
                    0,
                );
            }
            self.current = search::pick_initial(
                self.matches.as_slice(),
                grid.scrollback_len(),
                grid.scroll_offset(),
            );
            true
        } else {
            let last = self.matches.len() - 1;
            self.current = match self.current {
                Some(i) => Some(
                    if i < last {
                        i
                    } else {
                        last
                    },
                ),
                None => None,
            };
            false
        };
        self.searched_version = version;
        picked
    }

    /// Move to the next/previous match (wrap-around). Returns true when
    /// the current match changed.
    pub fn step(&mut self, forward: bool) -> (moved: bool)
        ensures
            final(self).current == step_spec(
                old(self).current,
                old(self).matches@.len() as usize,
                forward,
            ),
            moved == (final(self).current != old(self).current),
            final(self).open == old(self).open,
            final(self).query@ == old(self).query@,
            final(self).matches@ == old(self).matches@,
            final(self).focus_requested == old(self).focus_requested,
            final(self).searched_version == old(self).searched_version,
            final(self).needs_pick == old(self).needs_pick,
            final(self).wf(),
    {
        proof {
            lemma_step_in_range(self.current, self.matches@.len() as usize, forward);
        }
        let next = search::step(self.current, self.matches.len(), forward);
        if next == self.current {
            return false;
        }
        self.current = next;
        true
    }

    /// The current match, when it indexes the list.
    pub fn current_match(&self) -> (m: Option<Match>)
        ensures
            m == (match self.current {
                Some(i) => if i < self.matches@.len() {
                    Some(self.matches@[i as int])
                } else {
                    None
                },
                None => None,
            }),
    {
        match self.current {
            Some(i) => if i < self.matches.len() {
                Some(self.matches[i])
            } else {
                None
            },
            None => None,
        }
    }

    /// 1-based `(current, total)` for the counter; `(0, 0)` without matches.
    pub fn counter(&self) -> (c: (usize, usize))
        requires
            self.wf(),
        ensures
            c.0 == (match self.current {
                Some(i) => i + 1,
                None => 0,
            }),
            c.1 == self.matches@.len(),
    {
        let len = self.matches.len();
        let n = match self.current {
            Some(i) => i + 1,
            None => 0,
        };
        (n, len)
    }

    /// Highlight for the current frame: none while the bar is closed or
    /// nothing matched.
    pub fn view(&self, grid: &Grid) -> (v: Option<SearchView>)
        requires
            grid.inv(),
        ensures
            v is Some <==> self.open && self.matches@.len() > 0,
            v matches Some(sv) ==> built_view(
                sv,
                self.matches@,
                self.current,
                grid@.scrollback.len() as usize,
                grid@.offset() as usize,
                grid@.rows,
            ),
    {
        if !self.open || self.matches.len() == 0 {
            return None;
        }
        Some(
            SearchView::build(
                self.matches.as_slice(),
                self.current,
                grid.scrollback_len(),
                grid.scroll_offset(),
                grid.rows(),
            ),
        )
    }
}

} // verus!
