use cometty::grid::Grid;
use cometty::search_panel::SearchPanel;
use cometty::theme::Theme;

#[test]
fn focus_or_open_never_closes() {
    let mut panel = SearchPanel::default();
    assert!(panel.focus_or_open());
    assert!(panel.open && panel.focus_requested);
    // A second press only re-focuses.
    panel.focus_requested = false;
    assert!(!panel.focus_or_open());
    assert!(panel.focus_requested && panel.open);
    panel.close();
    assert!(!panel.open && panel.matches.is_empty() && panel.current.is_none());
}

#[test]
fn refresh_picks_the_first_visible_match_and_navigates() {
    let mut g = Grid::new(20, 3, Theme::default());
    for (i, line) in ["needle a", "other", "needle b"].iter().enumerate() {
        if i > 0 {
            g.newline();
        }
        for ch in line.chars() {
            g.put_char(ch);
        }
    }
    let mut panel = SearchPanel::default();
    panel.focus_or_open();
    panel.query = "needle".to_string();
    panel.query_changed();
    assert!(
        panel.refresh(&g),
        "a query change re-picks the current match"
    );
    assert_eq!(panel.matches.len(), 2);
    assert_eq!(panel.current, Some(0));
    assert_eq!(panel.counter(), (1, 2));

    let view = panel.view(&g).unwrap();
    assert_eq!(view.rows[0], vec![(0, 5)]);
    assert_eq!(view.active, Some((0, 0, 5)));

    // Next wraps around both ways.
    assert!(panel.step(true));
    assert_eq!(panel.counter(), (2, 2));
    assert!(panel.step(true));
    assert_eq!(panel.counter(), (1, 2));
    assert!(panel.step(false));
    assert_eq!(panel.counter(), (2, 2));

    // Same grid version: no recompute, no re-pick.
    assert!(!panel.refresh(&g));
    // New output (version bump) keeps the index but clamps to range.
    g.newline();
    assert!(!panel.refresh(&g));
    assert_eq!(panel.current, Some(1));
    // An empty result drops the current match.
    panel.query = "nope".to_string();
    panel.query_changed();
    assert!(!panel.refresh(&g));
    assert_eq!(panel.current, None);
    assert_eq!(panel.counter(), (0, 0));
    assert!(panel.view(&g).is_none());
    assert!(!panel.step(true));
}

#[test]
fn invalidate_forces_a_recompute_on_the_same_grid() {
    let mut g = Grid::new(10, 2, Theme::default());
    for ch in "ab ab".chars() {
        g.put_char(ch);
    }
    let mut panel = SearchPanel::default();
    panel.focus_or_open();
    panel.query = "ab".to_string();
    panel.query_changed();
    assert!(panel.refresh(&g));
    assert_eq!(panel.current_match().map(|m| (m.line, m.start, m.end)), Some((0, 0, 1)));
    assert!(panel.step(true));
    assert_eq!(panel.current_match().map(|m| (m.line, m.start, m.end)), Some((0, 3, 4)));
    assert!(!panel.refresh(&g));
    panel.invalidate();
    // Recomputed without a re-pick: the index is kept.
    assert!(!panel.refresh(&g));
    assert_eq!(panel.current, Some(1));
}
