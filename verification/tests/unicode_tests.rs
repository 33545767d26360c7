use cometty::unicode::{cluster_width, continues_cluster};
use unicode_segmentation::UnicodeSegmentation;

#[test]
fn zwj_sequence_is_single_grapheme() {
    let family = "👨\u{200D}👩\u{200D}👧";
    assert_eq!(family.graphemes(true).count(), 1);
    assert!(continues_cluster("👨\u{200D}", '👩'));
    assert_eq!(cluster_width(family), 2);
}

#[test]
fn flag_pair_is_single_grapheme() {
    let flag = "🇺🇸";
    assert_eq!(flag.graphemes(true).count(), 1);
    assert_eq!(cluster_width(flag), 2);
}

#[test]
fn distinct_chars_break() {
    assert!(!continues_cluster("a", 'b'));
    assert!(!continues_cluster("👨", '👩'));
}
