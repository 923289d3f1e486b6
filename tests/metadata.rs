use crates_io::manifest::PackageManifest;
use crates_io::metadata::{
    missing_metadata_error_message, validate_manifest, validate_rust_version, validate_url,
    MetadataProblem, UrlError, UrlField,
};

fn manifest() -> PackageManifest {
    PackageManifest {
        description: Some("a crate".to_string()),
        license: Some("MIT".to_string()),
        license_file: None,
        homepage: None,
        documentation: None,
        repository: None,
        rust_version: None,
        keywords: vec![],
        categories: vec![],
        links: None,
        features: vec![],
        dependencies: None,
        dev_dependencies: None,
        build_dependencies: None,
        target: None,
    }
}

fn strings(v: &[&str]) -> Vec<String> {
    v.iter().map(|s| s.to_string()).collect()
}

#[test]
fn deny_relative_urls() {
    assert!(validate_url(Some("https:/example.com/home"), UrlField::Homepage).is_err());
}

#[test]
fn single_slash_homepage_is_refused_by_its_scheme() {
    assert_eq!(
        validate_url(Some("https:/example.com"), UrlField::Homepage),
        Err(MetadataProblem::Url(UrlField::Homepage, UrlError::Scheme))
    );
}

#[test]
fn urls_need_http_scheme_and_must_parse() {
    assert_eq!(validate_url(None, UrlField::Repository), Ok(()));
    assert_eq!(validate_url(Some("https://example.com/home"), UrlField::Homepage), Ok(()));
    assert_eq!(validate_url(Some("http://example.com"), UrlField::Documentation), Ok(()));
    assert_eq!(
        validate_url(Some("ftp://example.com"), UrlField::Documentation),
        Err(MetadataProblem::Url(UrlField::Documentation, UrlError::Scheme))
    );
    assert_eq!(
        validate_url(Some("http://exa mple.com"), UrlField::Repository),
        Err(MetadataProblem::Url(UrlField::Repository, UrlError::Malformed))
    );
}

#[test]
fn missing_metadata_error_message_test() {
    assert_eq!(missing_metadata_error_message(&["a"]), "missing or empty metadata fields: a. Please see https://doc.rust-lang.org/cargo/reference/manifest.html for more information on configuring these fields");
    assert_eq!(missing_metadata_error_message(&["a", "b"]), "missing or empty metadata fields: a, b. Please see https://doc.rust-lang.org/cargo/reference/manifest.html for more information on configuring these fields");
    assert_eq!(missing_metadata_error_message(&["a", "b", "c"]), "missing or empty metadata fields: a, b, c. Please see https://doc.rust-lang.org/cargo/reference/manifest.html for more information on configuring these fields");
}

#[test]
fn rust_version_must_be_bare_dotted_number() {
    assert!(validate_rust_version("1.70").is_ok());
    assert!(validate_rust_version("1.70.0").is_ok());
    assert_eq!(validate_rust_version("^1.70"), Err(MetadataProblem::InvalidRustVersion));
    assert_eq!(validate_rust_version("1.70.0-beta"), Err(MetadataProblem::InvalidRustVersion));
    assert_eq!(validate_rust_version("1..2"), Err(MetadataProblem::InvalidRustVersion));
}

#[test]
fn six_keywords_are_refused_five_pass() {
    let mut m = manifest();
    m.keywords = strings(&["a", "b", "c", "d", "e", "f"]);
    assert_eq!(validate_manifest(&m, 300), Err(vec![MetadataProblem::TooManyKeywords]));
    m.keywords.pop();
    assert_eq!(validate_manifest(&m, 300), Ok(Some("MIT".to_string())));
}

#[test]
fn keyword_length_and_grammar() {
    let mut m = manifest();
    m.keywords = strings(&["ok", &"x".repeat(21), "-bad", &"y".repeat(20)]);
    assert_eq!(
        validate_manifest(&m, 300),
        Err(vec![MetadataProblem::KeywordTooLong(1), MetadataProblem::InvalidKeyword(2)])
    );
}

#[test]
fn six_categories_are_refused() {
    let mut m = manifest();
    m.categories = strings(&["a", "b", "c", "d", "e", "f"]);
    assert_eq!(validate_manifest(&m, 300), Err(vec![MetadataProblem::TooManyCategories]));
}

#[test]
fn license_file_alone_records_non_standard() {
    let mut m = manifest();
    m.license = None;
    m.license_file = Some("LICENSE.txt".to_string());
    assert_eq!(validate_manifest(&m, 300), Ok(Some("non-standard".to_string())));
}

#[test]
fn neither_license_nor_file_is_missing_metadata() {
    let mut m = manifest();
    m.license = None;
    assert_eq!(
        validate_manifest(&m, 300),
        Err(vec![MetadataProblem::MissingMetadata { description: false, license: true }])
    );
    m.description = None;
    assert_eq!(
        validate_manifest(&m, 300),
        Err(vec![MetadataProblem::MissingMetadata { description: true, license: true }])
    );
    assert_eq!(
        missing_metadata_error_message(&["description", "license"]),
        "missing or empty metadata fields: description, license. Please see https://doc.rust-lang.org/cargo/reference/manifest.html for more information on configuring these fields"
    );
}

#[test]
fn unknown_license_expression_is_refused() {
    let mut m = manifest();
    m.license = Some("Not-A-License".to_string());
    assert_eq!(validate_manifest(&m, 300), Err(vec![MetadataProblem::InvalidLicense]));
    m.license = Some("MIT OR Apache-2.0".to_string());
    assert!(validate_manifest(&m, 300).is_ok());
    m.license = Some("MIT/Apache-2.0".to_string());
    assert!(validate_manifest(&m, 300).is_ok());
}

#[test]
fn every_failing_rule_is_reported() {
    let mut m = manifest();
    m.description = Some(String::new());
    m.homepage = Some("example.com".to_string());
    m.rust_version = Some(">=1.0".to_string());
    m.features = vec![("~x".to_string(), vec!["!y".to_string()])];
    assert_eq!(
        validate_manifest(&m, 300),
        Err(vec![
            MetadataProblem::MissingMetadata { description: true, license: false },
            MetadataProblem::Url(UrlField::Homepage, UrlError::Scheme),
            MetadataProblem::InvalidRustVersion,
            MetadataProblem::InvalidFeatureName(0),
            MetadataProblem::InvalidFeature(0, 0),
        ])
    );
}

#[test]
fn feature_limit_of_three() {
    let mut m = manifest();
    m.features = vec![
        ("one".to_string(), vec![]),
        ("three".to_string(), vec![]),
        ("two".to_string(), vec![]),
    ];
    assert!(validate_manifest(&m, 3).is_ok());
    m.features.insert(0, ("four".to_string(), vec![]));
    assert_eq!(
        validate_manifest(&m, 3),
        Err(vec![MetadataProblem::TooManyFeatures { limit: 3, count: 4 }])
    );
    assert!(validate_manifest(&m, 4).is_ok());
    m.features.insert(0, ("five".to_string(), vec![]));
    assert_eq!(
        validate_manifest(&m, 4),
        Err(vec![MetadataProblem::TooManyFeatures { limit: 4, count: 5 }])
    );
}
