use cometty::selection::{CellPos, SelCell, Selection, expand_word, extract_text, extract_text_chars, global_to_view, selection_to_view, view_to_global};
fn sel(ax: usize, ay: usize, bx: usize, by: usize) -> Selection {
    Selection {
        anchor: CellPos { x: ax, y: ay },
        active: CellPos { x: bx, y: by },
    }
}

fn narrow_row(s: &str) -> Vec<SelCell> {
    s.chars().map(|c| SelCell::narrow(&c.to_string())).collect()
}

#[test]
fn normalizes_drag_direction() {
    let s = sel(5, 2, 1, 0);
    let (a, b) = s.normalized();
    assert_eq!((a.x, a.y), (1, 0));
    assert_eq!((b.x, b.y), (5, 2));
}

#[test]
fn empty_single_click() {
    let s = sel(2, 1, 2, 1);
    assert!(s.is_empty());
    assert!(s.contains(2, 1));
    assert!(!s.contains(3, 1));
    assert_eq!(extract_text(&s, |_| None), None);
}

#[test]
fn contains_spans_lines() {
    let s = sel(3, 0, 1, 2);
    assert!(s.contains(5, 0));
    assert!(!s.contains(2, 0));
    assert!(s.contains(0, 1));
    assert!(s.contains(0, 2));
    assert!(s.contains(1, 2));
    assert!(!s.contains(2, 2));
    assert!(!s.contains(0, 3));
}

#[test]
fn view_global_roundtrip() {
    // 10 scrollback lines, viewing 3 up: base = 7.
    assert_eq!(view_to_global(0, 10, 3), 7);
    assert_eq!(global_to_view(7, 10, 3), Some(0));
    assert_eq!(global_to_view(6, 10, 3), None);
}

#[test]
fn selection_to_view_clamps() {
    let s = sel(1, 5, 3, 50);
    // scrollback 10, live view of 4 rows: visible globals 10..14.
    let view = selection_to_view(&s, 10, 0, 4).unwrap();
    assert_eq!(view, ((1, 0), (3, 3)));
    // Fully off-screen above.
    let s2 = sel(0, 0, 2, 3);
    assert_eq!(selection_to_view(&s2, 10, 0, 4), None);
}

#[test]
fn extract_trims_and_joins() {
    let lines: Vec<Vec<SelCell>> = vec![narrow_row("hello   "), narrow_row("  hi    ")];
    let s = sel(1, 0, 3, 1);
    let text = extract_text(&s, |y| lines.get(y).cloned()).unwrap();
    assert_eq!(text, "ello\n  hi");
}

#[test]
fn expand_word_stops_at_delimiters() {
    let row = narrow_row("foo bar_baz-qux");
    assert_eq!(expand_word(&row, 1), (0, 2));
    assert_eq!(expand_word(&row, 5), (4, 10));
    // On a delimiter selects just that cell.
    assert_eq!(expand_word(&row, 3), (3, 3));
    assert_eq!(expand_word(&row, 11), (11, 11));
}

#[test]
fn expand_word_selects_wide_as_unit() {
    let row = vec![
        SelCell::wide("中"),
        SelCell::continuation(),
        SelCell::narrow("a"),
    ];
    assert_eq!(expand_word(&row, 0), (0, 1));
    assert_eq!(expand_word(&row, 1), (0, 1));
    assert_eq!(expand_word(&row, 2), (2, 2));
}

#[test]
fn extract_skips_continuations() {
    let row = vec![
        SelCell::wide("中"),
        SelCell::continuation(),
        SelCell::narrow("a"),
        SelCell::narrow(" "),
    ];
    let s = sel(0, 0, 2, 0);
    let text = extract_text(&s, |_| Some(row.clone())).unwrap();
    assert_eq!(text, "中a");
    // Starting on the continuation still copies the cluster.
    let s2 = sel(1, 0, 2, 0);
    let text2 = extract_text(&s2, |_| Some(row.clone())).unwrap();
    assert_eq!(text2, "中a");
}

#[test]
fn extract_text_chars_reads_plain_lines() {
    let rows: Vec<Vec<char>> = vec!["hello  ".chars().collect(), "world".chars().collect()];
    let s = sel(1, 0, 2, 1);
    let text = extract_text_chars(&s, |y| rows.get(y).cloned());
    assert_eq!(text.as_deref(), Some("ello\nwor"));
    // Missing lines read as blank, and an empty selection gives nothing.
    let past = sel(0, 1, 4, 3);
    assert_eq!(extract_text_chars(&past, |y| rows.get(y).cloned()).as_deref(), Some("world\n\n"));
    assert_eq!(extract_text_chars(&sel(2, 0, 2, 0), |y| rows.get(y).cloned()), None);
}
