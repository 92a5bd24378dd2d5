use tts_pipeline::model::TimeFields;
use tts_pipeline::naming::{
    chunk_file_name, decimal_string, merged_file_name, padded_decimal_string, workspace_name,
};

#[test]
fn decimal_of_small_numbers() {
    assert_eq!(decimal_string(0), "0");
    assert_eq!(decimal_string(7), "7");
    assert_eq!(decimal_string(10), "10");
    assert_eq!(decimal_string(1234), "1234");
}

#[test]
fn decimal_of_largest_value() {
    assert_eq!(decimal_string(u64::MAX), "18446744073709551615");
}

#[test]
fn padding_fills_with_zeros() {
    assert_eq!(padded_decimal_string(5, 2), "05");
    assert_eq!(padded_decimal_string(12, 2), "12");
    assert_eq!(padded_decimal_string(123, 2), "123");
    assert_eq!(padded_decimal_string(0, 4), "0000");
    assert_eq!(padded_decimal_string(9, 0), "9");
}

#[test]
fn workspace_named_from_date_and_time() {
    let t = TimeFields { year: 2025, month: 3, day: 21, hour: 12, minute: 25 };
    assert_eq!(workspace_name(&t), "2025-03-21-12:25");
    let t = TimeFields { year: 2026, month: 10, day: 2, hour: 0, minute: 5 };
    assert_eq!(workspace_name(&t), "2026-10-02-00:05");
}

#[test]
fn chunk_files_numbered_from_one() {
    assert_eq!(
        chunk_file_name("2025-03-21-12:25", 0),
        "2025-03-21-12:25/speech-chunk-1.mp3"
    );
    assert_eq!(chunk_file_name("ws", 11), "ws/speech-chunk-12.mp3");
}

#[test]
fn merged_file_inside_workspace() {
    assert_eq!(merged_file_name("ws"), "ws/speech-merged.mp3");
}
