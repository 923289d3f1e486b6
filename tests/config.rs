use crates_io::config::{cidr_prefix_allowed, parse_traffic_patterns, AllowedOrigins};
use crates_io::Env;

#[test]
fn parse_traffic_patterns_splits_on_comma_and_looks_for_equal_sign() {
    let pattern_string_1 = "Foo=BAR,Bar=BAZ";
    let pattern_string_2 = "Baz=QUX";
    let pattern_string_3 = "";

    let patterns_1 = parse_traffic_patterns(pattern_string_1).unwrap();
    assert_eq!(vec![("Foo", "BAR"), ("Bar", "BAZ")], patterns_1);

    let patterns_2 = parse_traffic_patterns(pattern_string_2).unwrap();
    assert_eq!(vec![("Baz", "QUX")], patterns_2);

    assert!(parse_traffic_patterns(pattern_string_3).unwrap().into_iter().next().is_none());
}

#[test]
fn traffic_patterns_allow_trailing_comma_and_cut_at_first_equal_sign() {
    let patterns = parse_traffic_patterns("A=B=C,").unwrap();
    assert_eq!(vec![("A", "B=C")], patterns);
}

#[test]
fn traffic_pattern_without_equal_sign_is_reported() {
    assert_eq!(parse_traffic_patterns("Foo=BAR,nonsense"), Err("nonsense"));
    assert_eq!(parse_traffic_patterns("Foo=BAR,,Bar=BAZ"), Err(""));
}

#[test]
fn allowed_origins_match_whole_entries() {
    let origins = AllowedOrigins::parse("https://a.example,https://b.example");
    assert_eq!(origins.0, vec!["https://a.example".to_string(), "https://b.example".to_string()]);
    assert!(origins.contains(b"https://b.example"));
    assert!(!origins.contains(b"https://b.exampl"));
    assert!(!origins.contains(b"https://c.example"));
}

#[test]
fn empty_origin_list_holds_one_empty_origin() {
    let origins = AllowedOrigins::parse("");
    assert!(origins.contains(b""));
    assert!(!AllowedOrigins::default().contains(b""));
}

#[test]
fn env_variants_compare() {
    assert_eq!(Env::Test, Env::Test);
    assert_ne!(Env::Development, Env::Production);
}

#[test]
fn cidr_blocks_need_a_host_prefix() {
    assert!(cidr_prefix_allowed(true, 24));
    assert!(cidr_prefix_allowed(true, 16));
    assert!(!cidr_prefix_allowed(true, 8));
    assert!(cidr_prefix_allowed(false, 64));
    assert!(!cidr_prefix_allowed(false, 56));
}
