use modcheck::extract::extract_references;
use modcheck::reference::ReferencePattern;

fn lines(items: &[&str]) -> Vec<String> {
    items.iter().map(|s| s.to_string()).collect()
}

fn urls(pattern: &ReferencePattern, input: &[&str]) -> Vec<String> {
    extract_references(pattern, &lines(input))
        .iter()
        .map(|r| r.url().to_string())
        .collect()
}

#[test]
fn interleaved_invalid_line_keeps_both_repeats() {
    let pattern = ReferencePattern::new("https://cat.example/g/drg/m/");
    let input = [
        "https://cat.example/g/drg/m/foo",
        "not-a-url",
        "https://cat.example/g/drg/m/foo",
        "https://cat.example/g/drg/m/bar#123",
    ];
    let refs = extract_references(&pattern, &lines(&input));
    assert_eq!(refs.len(), 3);
    assert_eq!(refs[0].name_id(), "foo");
    assert_eq!(refs[1].name_id(), "foo");
    assert_eq!(refs[2].name_id(), "bar");
    assert_eq!(refs[2].entry_id(), Some("123"));
    assert_eq!(refs[2].file_id(), None);
    assert_eq!(refs[2].url(), "https://cat.example/g/drg/m/bar#123");
}

#[test]
fn non_matching_lines_are_dropped() {
    let pattern = ReferencePattern::mod_io();
    let got = urls(
        &pattern,
        &["", "hello", "https://mod.io/g/drg/m/", "http://mod.io/g/drg/m/a", "https://mod.io/g/drg/m/a"],
    );
    assert_eq!(got, vec!["https://mod.io/g/drg/m/a".to_string()]);
}

#[test]
fn adjacent_repeats_collapse() {
    let pattern = ReferencePattern::mod_io();
    let got = urls(
        &pattern,
        &[
            "https://mod.io/g/drg/m/a",
            "https://mod.io/g/drg/m/a",
            "https://mod.io/g/drg/m/a",
            "https://mod.io/g/drg/m/b",
            "https://mod.io/g/drg/m/a",
        ],
    );
    assert_eq!(
        got,
        vec![
            "https://mod.io/g/drg/m/a".to_string(),
            "https://mod.io/g/drg/m/b".to_string(),
            "https://mod.io/g/drg/m/a".to_string(),
        ]
    );
}

#[test]
fn empty_input_gives_no_references() {
    let pattern = ReferencePattern::mod_io();
    assert!(extract_references(&pattern, &Vec::new()).is_empty());
}

#[test]
fn all_invalid_input_gives_no_references() {
    let pattern = ReferencePattern::mod_io();
    assert!(urls(&pattern, &["x", "y", "y"]).is_empty());
}
