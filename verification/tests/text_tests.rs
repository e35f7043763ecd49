use capadvisors_backend::strings::{decimal_string, trim};
use capadvisors_backend::text::{sliding_window_chunks, word_count};

#[test]
fn single_chunk_when_text_fits() {
    let text = "one two three four five";
    let chunks = sliding_window_chunks(text, 10, 2);
    assert_eq!(chunks.len(), 1);
    assert_eq!(chunks[0], text);
}

#[test]
fn overlap_carries_trailing_words() {
    // 6 words, window=4, overlap=2 -> step=2
    // chunk 0: [0..4]  "a b c d"
    // chunk 1: [2..6]  "c d e f"
    let text = "a b c d e f";
    let chunks = sliding_window_chunks(text, 4, 2);
    assert_eq!(chunks.len(), 2);
    assert!(chunks[0].ends_with("c d"));
    assert!(chunks[1].starts_with("c d"));
}

#[test]
fn word_count_ignores_extra_whitespace() {
    assert_eq!(word_count("  hello   world  "), 2);
}

#[test]
fn chunks_of_empty_text_are_none() {
    assert!(sliding_window_chunks("", 5, 1).is_empty());
    assert!(sliding_window_chunks(" \t\n ", 5, 1).is_empty());
}

#[test]
fn chunks_rejoin_words_with_single_spaces() {
    let chunks = sliding_window_chunks("  alpha\tbeta\n\ngamma  ", 10, 0);
    assert_eq!(chunks, vec!["alpha beta gamma".to_string()]);
}

#[test]
fn chunks_without_overlap_partition_the_words() {
    let chunks = sliding_window_chunks("1 2 3 4 5 6 7", 3, 0);
    assert_eq!(chunks, vec!["1 2 3", "4 5 6", "7"]);
}

#[test]
fn overlapping_chunks_share_exactly_the_overlap() {
    let chunks = sliding_window_chunks("a b c d e f g h", 5, 2);
    // step 3: [0..5], [3..8]
    assert_eq!(chunks, vec!["a b c d e", "d e f g h"]);
    for c in &chunks {
        assert!(word_count(c) <= 5);
    }
}

#[test]
fn last_window_reaches_the_last_word() {
    let chunks = sliding_window_chunks("w1 w2 w3 w4 w5 w6 w7 w8 w9 w10", 4, 1);
    // step 3: [0..4], [3..7], [6..10]
    assert_eq!(chunks, vec!["w1 w2 w3 w4", "w4 w5 w6 w7", "w7 w8 w9 w10"]);
}

#[test]
fn unicode_whitespace_separates_words() {
    // no-break space, em space and ideographic space are all whitespace
    assert_eq!(word_count("a\u{00A0}b\u{2003}c\u{3000}d"), 4);
    assert_eq!(word_count("x\u{200B}y"), 1);
}

#[test]
fn word_count_of_blank_text_is_zero() {
    assert_eq!(word_count(""), 0);
    assert_eq!(word_count("   \r\n\t"), 0);
}

#[test]
fn trim_and_decimal_helpers() {
    assert_eq!(trim("  padded \n"), "padded");
    assert_eq!(trim("\u{3000}x y\u{00A0}"), "x y");
    assert_eq!(trim("   "), "");
    assert_eq!(decimal_string(0), "0");
    assert_eq!(decimal_string(2097153), "2097153");
}

#[test]
fn word_count_of_texts_joined_by_a_space_adds_up() {
    for (a, b) in [("one two", "three"), ("", "x y"), ("a  ", "  b"), ("", ""), ("p\tq\n", "r s t")] {
        assert_eq!(word_count(&format!("{} {}", a, b)), word_count(a) + word_count(b));
    }
}
