use springboot::errors::AppError;
use springboot::strutil::join_dotted;
use springboot::strutil::str_eq;
use springboot::strutil::str_starts_with;

#[test]
fn string_equality_compares_characters() {
    assert!(str_eq("web.port", "web.port"));
    assert!(!str_eq("web.port", "web.Port"));
    assert!(!str_eq("web", "web.port"));
    assert!(str_eq("", ""));
}

#[test]
fn prefix_test_matches_leading_characters() {
    assert!(str_starts_with("web.port", "web."));
    assert!(!str_starts_with("web", "web."));
    assert!(str_starts_with("anything", ""));
}

#[test]
fn dotted_paths_join_under_a_prefix() {
    assert_eq!(join_dotted("web", "port"), "web.port");
    assert_eq!(join_dotted("", "port"), "port");
    assert_eq!(join_dotted("a.b", "c"), "a.b.c");
}

#[test]
fn app_error_carries_its_text() {
    let e = AppError::wrap("mongo connection refused".to_string());
    assert_eq!(e.message(), "mongo connection refused");
}
