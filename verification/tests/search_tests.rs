use cometty::grid::Grid;
use cometty::search::{Hit, Match, SearchView, find_matches, is_smart_case, pick_initial, reveal_offset, step};
use cometty::theme::Theme;
fn grid_with(lines: &[&str], cols: usize, rows: usize) -> Grid {
    let mut g = Grid::new(cols, rows, Theme::default());
    for (i, line) in lines.iter().enumerate() {
        if i > 0 {
            g.newline();
        }
        for ch in line.chars() {
            g.put_char(ch);
        }
    }
    g
}

#[test]
fn finds_matches_in_visible_rows() {
    let g = grid_with(&["alpha", "beta", "alpha"], 20, 3);
    assert_eq!(g.scrollback_len(), 0);
    assert_eq!(
        find_matches(&g, "alpha"),
        vec![
            Match {
                line: 0,
                start: 0,
                end: 4,
            },
            Match {
                line: 2,
                start: 0,
                end: 4,
            },
        ]
    );
    assert_eq!(find_matches(&g, "beta")[0].line, 1);
    assert!(find_matches(&g, "gamma").is_empty());
    assert!(find_matches(&g, "").is_empty());
}

#[test]
fn searches_scrollback() {
    // Two rows of scrollback ("one", "two") plus the visible rows.
    let g = grid_with(&["one", "two", "three", "four"], 8, 2);
    assert_eq!(g.scrollback_len(), 2);
    assert_eq!(
        find_matches(&g, "two"),
        vec![Match {
            line: 1,
            start: 0,
            end: 2,
        }]
    );
    assert_eq!(find_matches(&g, "three")[0].line, 2);
    assert_eq!(find_matches(&g, "four")[0].line, 3);
}

#[test]
fn smart_case_folds_lowercase_only() {
    let g = grid_with(&["Error: boom", "error: small"], 20, 2);
    assert!(!is_smart_case("error"));
    assert!(is_smart_case("Error"));
    assert!(is_smart_case("É"));
    assert_eq!(find_matches(&g, "error").len(), 2);
    assert_eq!(
        find_matches(&g, "Error"),
        vec![Match {
            line: 0,
            start: 0,
            end: 4,
        }]
    );
    // An all-caps query is case-sensitive too.
    assert!(find_matches(&g, "BOOM").is_empty());
    assert_eq!(find_matches(&g, "boom").len(), 1);
}

#[test]
fn folds_non_ascii_case_consistently() {
    let g = grid_with(&["ÉCOLE"], 10, 1);
    assert!(!is_smart_case("école"));
    assert_eq!(find_matches(&g, "école").len(), 1);
    // Uppercase in the query flips to case-sensitive.
    assert!(find_matches(&g, "École").is_empty());
    assert_eq!(find_matches(&g, "ÉCOLE").len(), 1);
}

#[test]
fn non_overlapping_matches() {
    let g = grid_with(&["aaaa"], 10, 1);
    assert_eq!(find_matches(&g, "aa").len(), 2);
}

#[test]
fn wide_clusters_map_to_whole_cells() {
    // 中 cols 0-1, 文 cols 2-3, x col 4.
    let g = grid_with(&["中文x"], 10, 1);
    assert_eq!(
        find_matches(&g, "中文"),
        vec![Match {
            line: 0,
            start: 0,
            end: 3,
        }]
    );
    assert_eq!(
        find_matches(&g, "文x"),
        vec![Match {
            line: 0,
            start: 2,
            end: 4,
        }]
    );
}

#[test]
fn trailing_blanks_are_not_searched() {
    let g = grid_with(&["hi"], 8, 1);
    assert!(find_matches(&g, " ").is_empty());
    // Inner spaces still match.
    let g = grid_with(&["a b"], 8, 1);
    assert_eq!(
        find_matches(&g, "a b"),
        vec![Match {
            line: 0,
            start: 0,
            end: 2,
        }]
    );
}

#[test]
fn alt_screen_searches_visible_rows_only() {
    let mut g = grid_with(&["old", "history"], 20, 2);
    assert_eq!(find_matches(&g, "old").len(), 1);
    g.enter_alt(true);
    for ch in "fresh target".chars() {
        g.put_char(ch);
    }
    // Main-buffer history is out of scope while the alt screen is up.
    assert!(find_matches(&g, "old").is_empty());
    let m = find_matches(&g, "target");
    assert_eq!(m.len(), 1);
    assert_eq!(m[0].line, g.scrollback_len());
}

#[test]
fn view_maps_to_visible_rows_and_marks_active() {
    let matches = vec![
        Match {
            line: 3,
            start: 0,
            end: 2,
        },
        Match {
            line: 4,
            start: 1,
            end: 1,
        },
        Match {
            line: 6,
            start: 5,
            end: 6,
        },
    ];
    // scrollback 5, offset 1: base = 4, rows 0..3 = lines 4..7.
    let view = SearchView::build(&matches, Some(1), 5, 1, 4);
    assert_eq!(view.rows[0], vec![(1, 1)]);
    assert_eq!(view.rows[2], vec![(5, 6)]);
    assert_eq!(view.rows[1], Vec::<(usize, usize)>::new());
    assert_eq!(view.active, Some((0, 1, 1)));
    assert_eq!(view.hit(0, 1, 1), Hit::Active);
    assert_eq!(view.hit(2, 5, 1), Hit::Match);
    assert_eq!(view.hit(1, 0, 1), Hit::Miss);
    // Live view with 2 rows: only line 6 (row 1) is on screen.
    let view = SearchView::build(&matches, None, 5, 0, 2);
    assert_eq!(view.rows.len(), 2);
    assert!(view.rows[0].is_empty());
    assert_eq!(view.rows[1], vec![(5, 6)]);
    // Scrolled up 2: base = 3, so line 3 is row 0 and the active one.
    let view = SearchView::build(&matches, Some(0), 5, 2, 2);
    assert_eq!(view.rows[0], vec![(0, 2)]);
    assert_eq!(view.active, Some((0, 0, 2)));
    // A wide cluster is hit from either half.
    let view = SearchView::build(
        &[Match {
            line: 0,
            start: 2,
            end: 3,
        }],
        None,
        0,
        0,
        1,
    );
    assert_eq!(view.hit(0, 2, 2), Hit::Match);
    assert_eq!(view.hit(0, 3, 1), Hit::Match);
    assert_eq!(view.hit(0, 1, 1), Hit::Miss);
}

#[test]
fn pick_initial_prefers_the_current_viewport() {
    let matches = vec![
        Match {
            line: 0,
            start: 0,
            end: 0,
        },
        Match {
            line: 10,
            start: 0,
            end: 0,
        },
        Match {
            line: 20,
            start: 0,
            end: 0,
        },
    ];
    // base = 5: first match at/after the viewport top.
    assert_eq!(pick_initial(&matches, 30, 25), Some(1));
    // All matches above the view: nearest one, not the oldest.
    assert_eq!(pick_initial(&matches, 30, 0), Some(2));
    assert_eq!(pick_initial(&[], 30, 0), None);
}

#[test]
fn step_wraps_both_ways() {
    assert_eq!(step(None, 3, true), Some(0));
    assert_eq!(step(None, 3, false), Some(2));
    assert_eq!(step(Some(2), 3, true), Some(0));
    assert_eq!(step(Some(0), 3, false), Some(2));
    assert_eq!(step(Some(1), 3, false), Some(0));
    assert_eq!(step(None, 0, true), None);
    assert_eq!(step(Some(0), 0, true), None);
}

#[test]
fn reveal_offset_moves_the_least_amount() {
    // 4 rows, 10 scrollback lines: the live view shows lines 10..13.
    assert_eq!(reveal_offset(10, 4, 10, 0), None);
    assert_eq!(reveal_offset(13, 4, 10, 0), None);
    // Above the view: pin to the top row.
    assert_eq!(reveal_offset(8, 4, 10, 0), Some(2));
    // Below the view (scrolled up 5): pin to the bottom row.
    assert_eq!(reveal_offset(9, 4, 10, 5), Some(4));
    // Never scrolls past the oldest line.
    assert_eq!(reveal_offset(0, 4, 10, 0), Some(10));
    assert_eq!(reveal_offset(0, 0, 10, 0), None);
}
