//! The source decoder: one opcode per line, counting `chicken` occurrences.

use chicken::decode::decode_source;

#[test]
fn empty_source_is_one_empty_line() {
    assert_eq!(decode_source(""), vec![0]);
}

#[test]
fn single_word() {
    assert_eq!(decode_source("chicken"), vec![1]);
}

#[test]
fn counts_per_line() {
    assert_eq!(
        decode_source("chicken chicken\n\nchicken chicken chicken"),
        vec![2, 0, 3]
    );
}

#[test]
fn trailing_newline_adds_an_empty_line() {
    assert_eq!(decode_source("chicken\n"), vec![1, 0]);
}

#[test]
fn other_text_is_ignored() {
    assert_eq!(decode_source("the chicken crossed the road"), vec![1]);
    assert_eq!(decode_source("chick chicke hicken"), vec![0]);
    assert_eq!(decode_source("chickenchicken ccchicken"), vec![3]);
}

#[test]
fn overlapping_prefixes_do_not_double_count() {
    assert_eq!(decode_source("chichickencken"), vec![1]);
}

#[test]
fn opcode_count_equals_line_count() {
    let src = "a\nb\nc\nchicken";
    assert_eq!(decode_source(src).len(), src.split('\n').count());
}
