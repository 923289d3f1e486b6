use crates_io::names::{
    is_valid_crate_name, is_valid_dependency_name, is_valid_feature, is_valid_feature_name,
    is_valid_keyword, same_canonical_name,
};

#[test]
fn crate_names() {
    assert!(is_valid_crate_name("foo"));
    assert!(is_valid_crate_name("foo-bar_2"));
    assert!(!is_valid_crate_name(""));
    assert!(!is_valid_crate_name("1foo"));
    assert!(!is_valid_crate_name("_foo"));
    assert!(!is_valid_crate_name("foo bar"));
    assert!(!is_valid_crate_name("föo"));
    assert!(is_valid_crate_name(&"a".repeat(64)));
    assert!(!is_valid_crate_name(&"a".repeat(65)));
}

#[test]
fn dependency_names_may_start_with_underscore() {
    assert!(is_valid_dependency_name("_foo"));
    assert!(is_valid_dependency_name("foo"));
    assert!(!is_valid_dependency_name("-foo"));
    assert!(!is_valid_dependency_name(""));
}

#[test]
fn feature_names() {
    assert!(is_valid_feature_name("foo+bar-baz_1"));
    assert!(!is_valid_feature_name("~foo"));
    assert!(!is_valid_feature_name(""));
}

#[test]
fn feature_entries() {
    assert!(is_valid_feature("dep:bar"));
    assert!(is_valid_feature("bar?/feat"));
    assert!(is_valid_feature("bar/feat"));
    assert!(is_valid_feature("plain"));
    assert!(!is_valid_feature("!bar"));
    assert!(!is_valid_feature("bar/"));
    assert!(!is_valid_feature("/feat"));
    assert!(!is_valid_feature("ba+r/feat"));
    assert!(!is_valid_feature("dep:"));
}

#[test]
fn keywords() {
    assert!(is_valid_keyword("web"));
    assert!(is_valid_keyword("1st+go"));
    assert!(!is_valid_keyword("-web"));
    assert!(!is_valid_keyword(""));
    assert!(!is_valid_keyword("a b"));
}

#[test]
fn canonical_names_ignore_case_and_separator() {
    assert!(same_canonical_name("Foo-Bar", "foo_bar"));
    assert!(!same_canonical_name("foo", "foo1"));
    assert!(!same_canonical_name("foo", "fop"));
}
