use tts_pipeline::chunker::{chunk_text, group_clusters};
use unicode_segmentation::UnicodeSegmentation;

#[test]
fn empty_input_yields_no_chunks() {
    let chunks = chunk_text("", 10);
    assert!(chunks.is_empty());
}

#[test]
fn short_input_yields_one_chunk() {
    let chunks = chunk_text("hello", 10);
    assert_eq!(chunks, vec!["hello".to_string()]);
}

#[test]
fn exact_multiple_splits_evenly() {
    let chunks = chunk_text("abcdef", 3);
    assert_eq!(chunks, vec!["abc".to_string(), "def".to_string()]);
}

#[test]
fn lossless_partition_concrete() {
    let input = "The quick brown fox jumps over the lazy dog.";
    for max in 1..10 {
        let chunks = chunk_text(input, max);
        let joined: String = chunks.concat();
        assert_eq!(joined, input);
    }
}

#[test]
fn size_bound_in_graphemes() {
    let input = "abcdefghijk";
    let chunks = chunk_text(input, 4);
    assert_eq!(chunks.len(), 3);
    for chunk in &chunks {
        assert!(chunk.chars().count() <= 4);
    }
}

#[test]
fn combining_marks_stay_whole() {
    // Three user-perceived characters, each of several code points.
    let input = "a\u{310}e\u{301}o\u{308}\u{332}";
    let chunks = chunk_text(input, 1);
    assert_eq!(
        chunks,
        vec![
            "a\u{310}".to_string(),
            "e\u{301}".to_string(),
            "o\u{308}\u{332}".to_string(),
        ]
    );
    let chunks = chunk_text(input, 2);
    assert_eq!(
        chunks,
        vec!["a\u{310}e\u{301}".to_string(), "o\u{308}\u{332}".to_string()]
    );
}

#[test]
fn flag_emoji_stay_whole() {
    // Two flags, each a pair of regional indicator code points.
    let input = "\u{1F1F7}\u{1F1FA}\u{1F1F8}\u{1F1F9}";
    let chunks = chunk_text(input, 1);
    assert_eq!(
        chunks,
        vec![
            "\u{1F1F7}\u{1F1FA}".to_string(),
            "\u{1F1F8}\u{1F1F9}".to_string(),
        ]
    );
    let joined: String = chunks.concat();
    assert_eq!(joined, input);
}

#[test]
fn zwj_family_emoji_stays_whole() {
    // One user-perceived character built from several emoji joined by ZWJ.
    let family = "\u{1F468}\u{200D}\u{1F469}\u{200D}\u{1F467}";
    let input = format!("x{family}y");
    let chunks = chunk_text(&input, 1);
    assert_eq!(
        chunks,
        vec!["x".to_string(), family.to_string(), "y".to_string()]
    );
}

#[test]
fn ten_thousand_chars_make_three_chunks() {
    let input: String = "abcdefghij".repeat(1000);
    assert_eq!(input.chars().count(), 10000);
    let chunks = chunk_text(&input, 4096);
    assert_eq!(chunks.len(), 3);
    assert_eq!(chunks[0].chars().count(), 4096);
    assert_eq!(chunks[1].chars().count(), 4096);
    assert_eq!(chunks[2].chars().count(), 1808);
    let joined: String = chunks.concat();
    assert_eq!(joined, input);
}

#[test]
fn size_bound_holds_in_grapheme_clusters() {
    // Mixed input: plain letters, combining marks and flag pairs.
    let input = "ab\u{310}cde\u{301}f\u{1F1F7}\u{1F1FA}gh\u{1F1F8}\u{1F1F9}ij";
    for max in 1..6 {
        let chunks = chunk_text(input, max);
        for chunk in &chunks {
            assert!(chunk.graphemes(true).count() <= max);
        }
        let joined: String = chunks.concat();
        assert_eq!(joined, input);
    }
}

#[test]
fn grouping_joins_whole_clusters() {
    let clusters = vec![
        "ab".to_string(),
        "c".to_string(),
        "d".to_string(),
        "ef".to_string(),
        "g".to_string(),
    ];
    let chunks = group_clusters(&clusters, 2);
    assert_eq!(
        chunks,
        vec!["abc".to_string(), "def".to_string(), "g".to_string()]
    );
}
