use manifest_synthesis::logs::LogChunk;

#[test]
fn aggregates_interval_and_text_in_order() {
    let lines = vec![
        (300_i64, String::from("third\n")),
        (100_i64, String::from("first\n")),
        (200_i64, String::from("second\n")),
    ];
    let chunk = LogChunk::from(lines);
    assert_eq!(chunk.since(), 100);
    assert_eq!(chunk.until(), 300);
    assert_eq!(chunk.log_lines(), "third\nfirst\nsecond\n");
}

#[test]
fn single_line_gives_degenerate_interval() {
    let chunk = LogChunk::from(vec![(42_i64, String::from("only"))]);
    assert_eq!(chunk.since(), 42);
    assert_eq!(chunk.until(), 42);
    assert_eq!(chunk.log_lines(), "only");
}

#[test]
fn empty_input_yields_sentinel_interval() {
    let chunk = LogChunk::from(Vec::new());
    assert_eq!(chunk.since(), i64::MAX);
    assert_eq!(chunk.until(), i64::MIN);
    assert_eq!(chunk.log_lines(), "");
}

#[test]
fn since_never_exceeds_until_for_nonempty_input() {
    let lines = vec![
        (7_i64, String::from("a")),
        (7_i64, String::from("b")),
        (3_i64, String::from("c")),
    ];
    let chunk = LogChunk::from(lines);
    assert!(chunk.since() <= chunk.until());
    assert_eq!(chunk.since(), 3);
    assert_eq!(chunk.until(), 7);
    assert_eq!(chunk.log_lines(), "abc");
}
