use modcheck::reference::{Reference, ReferencePattern};
use modcheck::validate::{check_url, Entry, FetchFailure, ValidationError};

fn reference(line: &str) -> Reference {
    ReferencePattern::mod_io().parse(line).unwrap()
}

fn entry(id: u32) -> Entry {
    Entry { id, visible: 1, profile_url: format!("https://mod.io/g/drg/m/m{id}") }
}

const URL: &str = "https://mod.io/g/drg/m/foo";

#[test]
fn no_entry_is_not_found() {
    let r = check_url(&reference(URL), Ok(vec![]));
    match r {
        Err(ValidationError::NotFound { url }) => assert_eq!(url, URL),
        _ => panic!("expected not found"),
    }
}

#[test]
fn one_entry_is_the_match() {
    let r = check_url(&reference(URL), Ok(vec![entry(7)]));
    match r {
        Ok(e) => {
            assert_eq!(e.id, 7);
            assert_eq!(e.visible, 1);
            assert_eq!(e.profile_url, "https://mod.io/g/drg/m/m7");
        }
        Err(_) => panic!("expected a match"),
    }
}

#[test]
fn two_entries_are_ambiguous() {
    let r = check_url(&reference(URL), Ok(vec![entry(1), entry(2)]));
    match r {
        Err(ValidationError::Ambiguous { url }) => assert_eq!(url, URL),
        _ => panic!("expected ambiguous"),
    }
}

#[test]
fn many_entries_are_ambiguous() {
    let r = check_url(&reference(URL), Ok((0..5).map(entry).collect()));
    assert!(matches!(r, Err(ValidationError::Ambiguous { .. })));
}

#[test]
fn timeout_is_service_error_without_status() {
    let r = check_url(&reference(URL), Err(FetchFailure { status: None }));
    match r {
        Err(e @ ValidationError::ServiceError { .. }) => {
            assert_eq!(e.url(), URL);
            assert_eq!(e.status_code(), None);
        }
        _ => panic!("expected a service error"),
    }
}

#[test]
fn rejected_lookup_keeps_status() {
    let r = check_url(&reference(URL), Err(FetchFailure { status: Some(429) }));
    match r {
        Err(e) => {
            assert!(matches!(e, ValidationError::ServiceError { status: Some(429), .. }));
            assert_eq!(e.status_code(), Some(429));
        }
        Ok(_) => panic!("expected a service error"),
    }
}

#[test]
fn status_codes_of_each_kind() {
    let nf = ValidationError::NotFound { url: URL.to_string() };
    let amb = ValidationError::Ambiguous { url: URL.to_string() };
    assert_eq!(nf.status_code(), Some(404));
    assert_eq!(amb.status_code(), None);
    assert_eq!(nf.url(), URL);
    assert_eq!(amb.url(), URL);
}
