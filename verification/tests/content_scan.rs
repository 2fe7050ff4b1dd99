use vecsim::content_search::search_in_text;

#[test]
fn hits_report_line_and_first_column() {
    let hits = search_in_text(
        "notes.txt".to_string(),
        "hello\nworld hello\nbye".to_string(),
        "hello".to_string(),
        true,
    );
    assert_eq!(hits.len(), 2);
    assert_eq!(
        (hits[0].line_number, hits[0].column_start, hits[0].column_end),
        (1, 0, 5)
    );
    assert_eq!(hits[0].line_content, "hello");
    assert_eq!(hits[0].match_text, "hello");
    assert_eq!(hits[0].path, "notes.txt");
    assert_eq!(
        (hits[1].line_number, hits[1].column_start, hits[1].column_end),
        (2, 6, 11)
    );
    assert_eq!(hits[1].line_content, "world hello");
}

#[test]
fn only_the_first_occurrence_per_line_is_reported() {
    let hits = search_in_text(
        "f".to_string(),
        "abab".to_string(),
        "ab".to_string(),
        true,
    );
    assert_eq!(hits.len(), 1);
    assert_eq!((hits[0].line_number, hits[0].column_start), (1, 0));
}

#[test]
fn case_insensitive_scan_folds_both_sides() {
    let hits = search_in_text(
        "f".to_string(),
        "Hello\nHELLO\nnope".to_string(),
        "hello".to_string(),
        false,
    );
    let lines: Vec<usize> = hits.iter().map(|h| h.line_number).collect();
    assert_eq!(lines, vec![1, 2]);
    assert!(hits.iter().all(|h| h.column_start == 0));
    // the case-sensitive scan finds neither
    let strict = search_in_text(
        "f".to_string(),
        "Hello\nHELLO\nnope".to_string(),
        "hello".to_string(),
        true,
    );
    assert!(strict.is_empty());
}

#[test]
fn carriage_returns_are_stripped_from_lines() {
    let hits = search_in_text(
        "f".to_string(),
        "xa\r\nax\r\n".to_string(),
        "a".to_string(),
        true,
    );
    assert_eq!(hits.len(), 2);
    assert_eq!(hits[0].line_content, "xa");
    assert_eq!((hits[0].line_number, hits[0].column_start), (1, 1));
    assert_eq!(hits[1].line_content, "ax");
    assert_eq!((hits[1].line_number, hits[1].column_start), (2, 0));
}

#[test]
fn unmatched_text_yields_no_hits() {
    let hits = search_in_text(
        "f".to_string(),
        "alpha\nbeta".to_string(),
        "gamma".to_string(),
        true,
    );
    assert!(hits.is_empty());
}
