use line_fanout::splitter::{split_line, PatternSplitter};

#[test]
fn literal_split_replaces_every_occurrence() {
    let line = b"a,b,c\n".to_vec();
    let delim = b",".to_vec();
    assert_eq!(split_line(&line, &delim), b"a\nb\nc\n".to_vec());
}

#[test]
fn literal_split_default_space_delimiter() {
    let line = b"one two three".to_vec();
    let delim = b" ".to_vec();
    assert_eq!(split_line(&line, &delim), b"one\ntwo\nthree".to_vec());
}

#[test]
fn literal_split_without_occurrence_keeps_line() {
    let line = b"abc\n".to_vec();
    let delim = b",".to_vec();
    assert_eq!(split_line(&line, &delim), b"abc\n".to_vec());
}

#[test]
fn literal_split_empty_line() {
    let line = Vec::new();
    let delim = b",".to_vec();
    assert_eq!(split_line(&line, &delim), Vec::<u8>::new());
}

#[test]
fn literal_split_empty_delimiter_matches_every_boundary() {
    let line = b"ab".to_vec();
    let delim = Vec::new();
    assert_eq!(split_line(&line, &delim), b"\na\nb\n".to_vec());
    assert_eq!("ab".replace("", "\n"), "\na\nb\n");
}

#[test]
fn literal_split_multi_byte_delimiter() {
    let line = b"a::b::c".to_vec();
    let delim = b"::".to_vec();
    assert_eq!(split_line(&line, &delim), b"a\nb\nc".to_vec());
}

#[test]
fn literal_split_finds_leftmost_non_overlapping_occurrences() {
    let line = b"aaa".to_vec();
    let delim = b"aa".to_vec();
    assert_eq!(split_line(&line, &delim), b"\na".to_vec());
    assert_eq!("aaa".replace("aa", "\n"), "\na");
}

#[test]
fn literal_split_agrees_with_str_replace() {
    let cases: &[(&str, &str)] = &[
        ("a,b,c\n", ","),
        ("x  y", " "),
        (",start,and,end,", ","),
        ("no delimiter here", "|"),
        ("runs,,of,,commas", ",,"),
    ];
    for (line, delim) in cases {
        let expected = line.replace(delim, "\n").into_bytes();
        let actual = split_line(&line.as_bytes().to_vec(), &delim.as_bytes().to_vec());
        assert_eq!(actual, expected);
    }
}

#[test]
fn pattern_split_replaces_every_match() {
    let sp = PatternSplitter::compile("[0-9]+").expect("pattern compiles");
    let payload = sp.split_line(&b"a1b22c".to_vec());
    assert_eq!(payload, b"a\nb\nc".to_vec());
}

#[test]
fn pattern_split_literal_pattern() {
    let sp = PatternSplitter::compile(",").expect("pattern compiles");
    let payload = sp.split_line(&b"a,b,c\n".to_vec());
    assert_eq!(payload, b"a\nb\nc\n".to_vec());
}

#[test]
fn pattern_split_decodes_invalid_utf8_lossily() {
    let sp = PatternSplitter::compile(" ").expect("pattern compiles");
    let payload = sp.split_line(&vec![0xFFu8, 0x20, 0x61]);
    assert_eq!(payload, "\u{FFFD}\na".as_bytes().to_vec());
}

#[test]
fn pattern_compile_rejects_invalid_pattern() {
    assert!(PatternSplitter::compile("[").is_none());
}
