use vecsim::text_processing::quick_substring_search;
use vecsim::text_processing::TextProcessingConfig;
use vecsim::text_processing::TextProcessor;

fn strings(items: &[&str]) -> Vec<String> {
    items.iter().map(|s| s.to_string()).collect()
}

#[test]
fn find_substrings_reports_spans_and_text() {
    let p = TextProcessor::new(None);
    let found = p
        .find_substrings("hello world hello".to_string(), strings(&["hello"]))
        .unwrap();
    assert_eq!(found.len(), 2);
    assert_eq!((found[0].start, found[0].end, found[0].text.as_str()), (0, 5, "hello"));
    assert_eq!((found[1].start, found[1].end, found[1].text.as_str()), (12, 17, "hello"));
    assert_eq!(found[0].pattern_index, 0);
}

#[test]
fn find_substrings_reports_pattern_indices_in_order() {
    let p = TextProcessor::new(None);
    let found = p
        .find_substrings("a big cat and a dog".to_string(), strings(&["dog", "cat"]))
        .unwrap();
    assert_eq!(found.len(), 2);
    assert_eq!((found[0].text.as_str(), found[0].pattern_index), ("cat", 1));
    assert_eq!((found[1].text.as_str(), found[1].pattern_index), ("dog", 0));
}

#[test]
fn find_substrings_honors_case_sensitivity() {
    let sensitive = TextProcessor::new(None);
    assert!(sensitive
        .find_substrings("Hello".to_string(), strings(&["hello"]))
        .unwrap()
        .is_empty());
    let insensitive = TextProcessor::new(Some(TextProcessingConfig {
        case_sensitive: false,
        ..TextProcessingConfig::default()
    }));
    let found = insensitive
        .find_substrings("Hello".to_string(), strings(&["hello"]))
        .unwrap();
    assert_eq!(found.len(), 1);
    assert_eq!(found[0].text, "Hello");
}

#[test]
fn find_substrings_caps_matches() {
    let p = TextProcessor::new(Some(TextProcessingConfig {
        max_matches: 2,
        ..TextProcessingConfig::default()
    }));
    let found = p.find_substrings("xaxaxaxa".to_string(), strings(&["a"])).unwrap();
    assert_eq!(found.len(), 2);
    assert_eq!((found[0].start, found[1].start), (1, 3));
}

#[test]
fn an_empty_pattern_matches_at_every_byte_without_aborting() {
    let p = TextProcessor::new(None);
    // an empty pattern matches at every byte offset, including offsets inside
    // a multi-byte character; the reported text is then empty
    let found = p.find_substrings("\u{e9}".to_string(), strings(&[""])).unwrap();
    let spans: Vec<(u32, u32, &str)> =
        found.iter().map(|m| (m.start, m.end, m.text.as_str())).collect();
    assert_eq!(spans, vec![(0, 0, ""), (1, 1, ""), (2, 2, "")]);
}

#[test]
fn find_substrings_with_no_patterns_finds_nothing() {
    let p = TextProcessor::new(None);
    assert!(p.find_substrings("anything".to_string(), Vec::new()).unwrap().is_empty());
}

#[test]
fn regex_matches_report_spans_in_order() {
    let p = TextProcessor::new(None);
    let found = p
        .find_regex_matches("a1b22c333".to_string(), "[0-9]+".to_string())
        .unwrap();
    let spans: Vec<(u32, u32, &str)> =
        found.iter().map(|m| (m.start, m.end, m.text.as_str())).collect();
    assert_eq!(spans, vec![(1, 2, "1"), (3, 5, "22"), (6, 9, "333")]);
    assert!(found.iter().all(|m| m.pattern_index == 0));
}

#[test]
fn regex_rejects_an_invalid_pattern() {
    let p = TextProcessor::new(None);
    assert!(p.find_regex_matches("text".to_string(), "(".to_string()).is_err());
}

#[test]
fn regex_honors_case_sensitivity() {
    let insensitive = TextProcessor::new(Some(TextProcessingConfig {
        case_sensitive: false,
        ..TextProcessingConfig::default()
    }));
    let found = insensitive
        .find_regex_matches("ABC abc".to_string(), "abc".to_string())
        .unwrap();
    assert_eq!(found.len(), 2);
}

#[test]
fn regex_caps_matches() {
    let p = TextProcessor::new(Some(TextProcessingConfig {
        max_matches: 1,
        ..TextProcessingConfig::default()
    }));
    let found = p.find_regex_matches("aa".to_string(), "a".to_string()).unwrap();
    assert_eq!(found.len(), 1);
}

#[test]
fn quick_search_defaults_to_case_sensitive() {
    let found = quick_substring_search("Hello hello".to_string(), strings(&["hello"]), None)
        .unwrap();
    assert_eq!(found.len(), 1);
    assert_eq!(found[0].start, 6);
    let found = quick_substring_search(
        "Hello hello".to_string(),
        strings(&["hello"]),
        Some(false),
    )
    .unwrap();
    assert_eq!(found.len(), 2);
}
