use modcheck::catalog::mods_query_url;
use modcheck::reference::ReferencePattern;
use modcheck::report::{render_report, report_line};
use modcheck::validate::ValidationError;

#[test]
fn line_of_each_kind() {
    let u = "https://mod.io/g/drg/m/a";
    let nf = ValidationError::NotFound { url: u.to_string() };
    let se = ValidationError::ServiceError { url: u.to_string(), status: Some(503) };
    let none = ValidationError::ServiceError { url: u.to_string(), status: None };
    let amb = ValidationError::Ambiguous { url: u.to_string() };
    assert_eq!(report_line(&nf), "ERROR 404        https://mod.io/g/drg/m/a");
    assert_eq!(report_line(&se), format!("ERROR {:<10} {u}", 503));
    assert_eq!(report_line(&none), format!("ERROR {:<10} {u}", "---"));
    assert_eq!(report_line(&amb), format!("ERROR {:<10} {u}", "ambiguous"));
}

#[test]
fn report_has_one_line_per_failure_in_order() {
    let errors = vec![
        ValidationError::Ambiguous { url: "b".to_string() },
        ValidationError::NotFound { url: "a".to_string() },
        ValidationError::ServiceError { url: "c".to_string(), status: Some(65535) },
    ];
    let text = render_report(&errors);
    let lines: Vec<&str> = text.lines().collect();
    assert_eq!(lines.len(), 3);
    assert_eq!(lines[0], "ERROR ambiguous  b");
    assert_eq!(lines[1], "ERROR 404        a");
    assert_eq!(lines[2], "ERROR 65535      c");
    assert!(text.ends_with('\n'));
}

#[test]
fn report_of_no_failure_is_empty() {
    assert_eq!(render_report(&Vec::new()), "");
}

#[test]
fn query_url_of_reference() {
    let r = ReferencePattern::mod_io().parse("https://mod.io/g/drg/m/foo#1/2").unwrap();
    assert_eq!(
        mods_query_url(1234567, &r),
        "https://u-1234567.modapi.io/v1/games/2475/mods?visible=1&name_id=foo"
    );
    assert_eq!(
        mods_query_url(0, &r),
        "https://u-0.modapi.io/v1/games/2475/mods?visible=1&name_id=foo"
    );
    assert_eq!(
        mods_query_url(u64::MAX, &r),
        format!("https://u-{}.modapi.io/v1/games/2475/mods?visible=1&name_id=foo", u64::MAX)
    );
}
