use modcheck::reference::ReferencePattern;

#[test]
fn parses_name_entry_and_file() {
    let pattern = ReferencePattern::mod_io();
    let r = pattern.parse("https://mod.io/g/drg/m/some-mod#1234/5678").unwrap();
    assert_eq!(r.name_id(), "some-mod");
    assert_eq!(r.entry_id(), Some("1234"));
    assert_eq!(r.file_id(), Some("5678"));
    assert_eq!(r.url(), "https://mod.io/g/drg/m/some-mod#1234/5678");
}

#[test]
fn parses_name_only() {
    let pattern = ReferencePattern::mod_io();
    let r = pattern.parse("https://mod.io/g/drg/m/x").unwrap();
    assert_eq!(r.name_id(), "x");
    assert_eq!(r.entry_id(), None);
    assert_eq!(r.file_id(), None);
}

#[test]
fn parses_non_ascii_name() {
    let pattern = ReferencePattern::mod_io();
    let r = pattern.parse("https://mod.io/g/drg/m/größe#7").unwrap();
    assert_eq!(r.name_id(), "größe");
    assert_eq!(r.entry_id(), Some("7"));
}

#[test]
fn rejects_malformed_tails() {
    let pattern = ReferencePattern::mod_io();
    for line in [
        "https://mod.io/g/drg/m/",
        "https://mod.io/g/drg/m/#12",
        "https://mod.io/g/drg/m/a/b",
        "https://mod.io/g/drg/m/a#",
        "https://mod.io/g/drg/m/a#12/",
        "https://mod.io/g/drg/m/a#1x",
        "https://mod.io/g/drg/m/a#12/3x",
        "https://mod.io/g/drg/m/a#12/3/4",
        "https://mod.io/g/drg/m/a#12#3",
        "https://mod.io/g/drg/m/a#1:/2",
        " https://mod.io/g/drg/m/a",
        "https://mod.io/g/drg/x/a",
    ] {
        assert!(pattern.parse(line).is_none(), "{line}");
        assert!(!pattern.is_match(line), "{line}");
    }
}

#[test]
fn accepts_other_prefix() {
    let pattern = ReferencePattern::new("https://cat.example/g/drg/m/");
    assert!(pattern.is_match("https://cat.example/g/drg/m/foo#1/2"));
    assert!(!pattern.is_match("https://mod.io/g/drg/m/foo"));
}

#[test]
fn colon_belongs_to_the_name() {
    let pattern = ReferencePattern::mod_io();
    let r = pattern.parse("https://mod.io/g/drg/m/a:#12").unwrap();
    assert_eq!(r.name_id(), "a:");
    assert_eq!(r.entry_id(), Some("12"));
}
