use cometty::tabs::{active_after_removals, next_tab_index};

#[test]
fn active_index_ignores_removals_after_it() {
    assert_eq!(active_after_removals(0, &[2], 2), 0);
    assert_eq!(active_after_removals(1, &[2], 2), 1);
}

#[test]
fn active_index_shifts_down_past_removed_tabs() {
    // Tab 0 exits while tab 1 is active: old tab 1 slides to 0.
    assert_eq!(active_after_removals(1, &[0], 2), 0);
    assert_eq!(active_after_removals(2, &[0], 2), 1);
    assert_eq!(active_after_removals(2, &[0, 1], 1), 0);
}

#[test]
fn active_index_lands_on_next_tab_when_it_is_removed() {
    // Active tab itself exits: focus the tab sliding into its slot.
    assert_eq!(active_after_removals(1, &[1], 2), 1);
    // ...or the new last tab when the old last tab went away.
    assert_eq!(active_after_removals(2, &[2], 2), 1);
    assert_eq!(active_after_removals(0, &[0], 1), 0);
}

#[test]
fn active_index_empty_tabs_stays_zero() {
    assert_eq!(active_after_removals(0, &[0], 0), 0);
}

#[test]
fn cycle_wraps_around_both_directions() {
    assert_eq!(next_tab_index(0, 3, 1), 1);
    assert_eq!(next_tab_index(2, 3, 1), 0);
    assert_eq!(next_tab_index(0, 3, -1), 2);
    assert_eq!(next_tab_index(1, 3, -1), 0);
    // Single tab (or none) stays put.
    assert_eq!(next_tab_index(0, 1, 1), 0);
    assert_eq!(next_tab_index(0, 1, -1), 0);
    assert_eq!(next_tab_index(0, 0, 1), 0);
}

#[test]
fn cycle_handles_large_steps() {
    assert_eq!(next_tab_index(1, 4, 9), 2);
    assert_eq!(next_tab_index(1, 4, -9), 0);
    assert_eq!(next_tab_index(3, 5, isize::MIN), (3 + 5 - ((isize::MAX as usize + 1) % 5)) % 5);
    assert_eq!(next_tab_index(0, 2, isize::MAX), 1);
}
