use crates_io::catalog::{Catalog, EndpointScope, Job, Owner, PublishOutcome, TransactionError};
use crates_io::deps::{CrateDependency, DependencyKind, DependencyProblem};
use crates_io::manifest::{DependencySpec, PackageManifest};
use crates_io::metadata::MetadataProblem;
use crates_io::pipeline::{
    check_name_and_version, check_upload_size, prepare_publish, require_verified_email,
    upload_limits, ErrorClass, Inspected, Principal, PublishConfig, PublishError,
    PublishMetadata,
};

const NOW: i64 = 1_700_000_000;

fn config(max_features: usize) -> PublishConfig {
    PublishConfig {
        max_upload_size: 10 * 1024 * 1024,
        max_unpack_size: 512 * 1024 * 1024,
        max_features,
        new_version_rate_limit: None,
    }
}

fn manifest() -> PackageManifest {
    PackageManifest {
        description: Some("description".to_string()),
        license: Some("MIT".to_string()),
        license_file: None,
        homepage: None,
        documentation: None,
        repository: None,
        rust_version: None,
        keywords: vec![],
        categories: vec![],
        links: None,
        features: vec![],
        dependencies: None,
        dev_dependencies: None,
        build_dependencies: None,
        target: None,
    }
}

fn with_features(features: &[(&str, &[&str])]) -> PackageManifest {
    let mut m = manifest();
    m.features = features
        .iter()
        .map(|(k, v)| (k.to_string(), v.iter().map(|s| s.to_string()).collect()))
        .collect();
    m
}

fn dep(req: &str) -> DependencySpec {
    DependencySpec {
        req: req.to_string(),
        package: None,
        optional: None,
        default_features: None,
        features: None,
        registry: None,
    }
}

fn with_dependency(name: &str, req: &str) -> PackageManifest {
    let mut m = manifest();
    m.dependencies = Some(vec![(name.to_string(), dep(req))]);
    m
}

fn publish_as(
    catalog: &mut Catalog,
    user: u64,
    name: &str,
    vers: &str,
    manifest: PackageManifest,
    config: &PublishConfig,
) -> Result<PublishOutcome, PublishError> {
    let meta = PublishMetadata {
        name: name.to_string(),
        vers: vers.to_string(),
        readme: None,
        readme_file: None,
    };
    let version = check_name_and_version(&meta)?;
    let (limits, max_features) = upload_limits(catalog, name, config);
    let tarball = b"tarball".to_vec();
    check_upload_size(tarball.len() as u64, &limits)?;
    let principal = Principal {
        user_id: user,
        teams: vec![],
        api_token_id: None,
        verified_email: Some(format!("user{user}@example.com")),
    };
    let email = require_verified_email(&principal)?;
    let input = Inspected { meta, version, manifest, principal, email, path_in_vcs: None };
    let req = prepare_publish(input, &tarball, max_features, config, NOW)?;
    catalog.publish(req).map_err(PublishError::Transaction)
}

fn publish(catalog: &mut Catalog, name: &str, vers: &str, m: PackageManifest, c: &PublishConfig) -> Result<PublishOutcome, PublishError> {
    publish_as(catalog, 1, name, vers, m, c)
}

fn new_catalog() -> Catalog {
    Catalog::new(vec!["web".to_string(), "cli".to_string()], vec!["std".to_string()])
}

fn metadata_problems(r: Result<PublishOutcome, PublishError>) -> Vec<MetadataProblem> {
    match r {
        Err(PublishError::Metadata(ps)) => ps,
        other => panic!("expected a metadata error, got {other:?}"),
    }
}

fn transaction_error(r: Result<PublishOutcome, PublishError>) -> TransactionError {
    match r {
        Err(PublishError::Transaction(e)) => e,
        other => panic!("expected a transaction error, got {other:?}"),
    }
}

fn set_max_features(catalog: &mut Catalog, name: &str, limit: usize) {
    let k = catalog.find_by_name(name).unwrap();
    catalog.crates[k].max_features = Some(limit);
}

#[test]
fn features_version_2() {
    let c = config(300);
    let mut catalog = new_catalog();
    publish(&mut catalog, "bar", "1.0.0", manifest(), &c).unwrap();

    let mut m = with_features(&[("new_feat", &["dep:bar", "bar?/feat"]), ("old_feat", &[])]);
    m.dependencies = Some(vec![("bar".to_string(), dep("1.0.0"))]);
    let out = publish(&mut catalog, "foo", "1.0.0", m, &c).unwrap();

    let v = &catalog.versions[out.version_id];
    assert_eq!(v.features[0].1, vec!["dep:bar".to_string(), "bar?/feat".to_string()]);
    assert_eq!(catalog.dependencies.len(), 1);
    assert_eq!(catalog.dependencies[0].req, "^1.0.0");
    assert_eq!(catalog.dependencies[0].crate_id, catalog.find_by_name("bar").unwrap());
}

#[test]
fn invalid_feature_name() {
    let mut catalog = new_catalog();
    let r = publish(&mut catalog, "foo", "1.0.0", with_features(&[("~foo", &[])]), &config(300));
    assert_eq!(metadata_problems(r), vec![MetadataProblem::InvalidFeatureName(0)]);
    assert!(catalog.jobs.is_empty());
}

#[test]
fn invalid_feature() {
    let mut catalog = new_catalog();
    let r = publish(&mut catalog, "foo", "1.0.0", with_features(&[("foo", &["!bar"])]), &config(300));
    assert_eq!(metadata_problems(r), vec![MetadataProblem::InvalidFeature(0, 0)]);
    assert!(catalog.jobs.is_empty());
}

#[test]
fn too_many_features() {
    let mut catalog = new_catalog();
    let m = with_features(&[("one", &[]), ("two", &[]), ("three", &[]), ("four", &[]), ("five", &[])]);
    let r = publish(&mut catalog, "foo", "1.0.0", m, &config(3));
    assert_eq!(metadata_problems(r), vec![MetadataProblem::TooManyFeatures { limit: 3, count: 5 }]);
    assert!(catalog.jobs.is_empty());
}

#[test]
fn too_many_features_with_custom_limit() {
    let c = config(3);
    let mut catalog = new_catalog();
    publish(&mut catalog, "foo", "0.1.0", manifest(), &c).unwrap();
    set_max_features(&mut catalog, "foo", 4);
    let jobs = catalog.jobs.len();

    let m = with_features(&[("one", &[]), ("two", &[]), ("three", &[]), ("four", &[]), ("five", &[])]);
    let r = publish(&mut catalog, "foo", "1.0.0", m, &c);
    assert_eq!(metadata_problems(r), vec![MetadataProblem::TooManyFeatures { limit: 4, count: 5 }]);
    assert_eq!(catalog.jobs.len(), jobs);

    let m = with_features(&[("one", &[]), ("two", &[]), ("three", &[]), ("four", &[])]);
    publish(&mut catalog, "foo", "1.0.0", m, &c).unwrap();
}

#[test]
fn too_many_enabled_features() {
    let mut catalog = new_catalog();
    let m = with_features(&[("default", &["one", "two", "three", "four", "five"])]);
    let r = publish(&mut catalog, "foo", "1.0.0", m, &config(3));
    assert_eq!(
        metadata_problems(r),
        vec![MetadataProblem::TooManyEnabledFeatures { feature: 0, limit: 3, count: 5 }]
    );
    assert!(catalog.jobs.is_empty());
}

#[test]
fn too_many_enabled_features_with_custom_limit() {
    let c = config(3);
    let mut catalog = new_catalog();
    publish(&mut catalog, "foo", "0.1.0", manifest(), &c).unwrap();
    set_max_features(&mut catalog, "foo", 4);
    let jobs = catalog.jobs.len();

    let m = with_features(&[("default", &["one", "two", "three", "four", "five"])]);
    let r = publish(&mut catalog, "foo", "1.0.0", m, &c);
    assert_eq!(
        metadata_problems(r),
        vec![MetadataProblem::TooManyEnabledFeatures { feature: 0, limit: 4, count: 5 }]
    );
    assert_eq!(catalog.jobs.len(), jobs);

    let m = with_features(&[("default", &["one", "two", "three", "four"])]);
    publish(&mut catalog, "foo", "1.0.0", m, &c).unwrap();
}

#[test]
fn build_metadata_does_not_make_a_new_version() {
    let c = config(300);
    let mut catalog = new_catalog();
    publish(&mut catalog, "foo", "1.0.0", manifest(), &c).unwrap();
    let r = publish(&mut catalog, "foo", "1.0.0+build.1", manifest(), &c);
    assert_eq!(transaction_error(r), TransactionError::VersionExists);
    assert_eq!(catalog.versions.len(), 1);
    publish(&mut catalog, "foo", "1.0.1", manifest(), &c).unwrap();
    assert_eq!(catalog.versions.len(), 2);
    assert_eq!(catalog.versions[1].num, "1.0.1");
}

#[test]
fn versions_are_recorded_in_canonical_form() {
    let mut catalog = new_catalog();
    publish(&mut catalog, "foo", "1.0.0+build.1", manifest(), &config(300)).unwrap();
    assert_eq!(catalog.versions[0].num, "1.0.0+build.1");
    let r = publish(&mut catalog, "foo", "1.0.0", manifest(), &config(300));
    assert_eq!(transaction_error(r), TransactionError::VersionExists);
}

#[test]
fn unknown_dependency_is_refused() {
    let mut catalog = new_catalog();
    let r = publish(&mut catalog, "foo", "1.0.0", with_dependency("nope", "1.0"), &config(300));
    let e = transaction_error(r);
    assert_eq!(e, TransactionError::UnknownDependency(0));
    assert_eq!(PublishError::Transaction(e).class(), ErrorClass::DependencyResolution);
    assert!(catalog.crates.is_empty());
    assert!(catalog.versions.is_empty());
    assert!(catalog.jobs.is_empty());
}

#[test]
fn wildcard_dependency_is_refused_whether_or_not_it_exists() {
    let c = config(300);
    let mut catalog = new_catalog();
    let r = publish(&mut catalog, "foo", "1.0.0", with_dependency("bar", "*"), &c);
    assert_eq!(transaction_error(r), TransactionError::InvalidDependency(0, DependencyProblem::Wildcard));
    publish(&mut catalog, "bar", "1.0.0", manifest(), &c).unwrap();
    let r = publish(&mut catalog, "foo", "1.0.0", with_dependency("bar", "*"), &c);
    assert_eq!(transaction_error(r), TransactionError::InvalidDependency(0, DependencyProblem::Wildcard));
    assert!(catalog.find_by_name("foo").is_none());
}

#[test]
fn dependency_on_the_crate_itself_resolves() {
    let mut catalog = new_catalog();
    let out = publish(&mut catalog, "foo", "1.0.0", with_dependency("foo", "0.9"), &config(300)).unwrap();
    assert_eq!(catalog.dependencies[0].crate_id, out.crate_id);
}

#[test]
fn license_file_only_is_recorded_as_non_standard() {
    let mut catalog = new_catalog();
    let mut m = manifest();
    m.license = None;
    m.license_file = Some("LICENSE".to_string());
    let out = publish(&mut catalog, "foo", "1.0.0", m, &config(300)).unwrap();
    assert_eq!(catalog.versions[out.version_id].license, Some("non-standard".to_string()));
}

#[test]
fn racing_first_publishers_leave_one_owner() {
    let c = config(300);
    let mut catalog = new_catalog();
    let first = publish_as(&mut catalog, 7, "bar", "1.0.0", manifest(), &c);
    let second = publish_as(&mut catalog, 8, "bar", "1.0.0", manifest(), &c);
    assert!(first.is_ok());
    let e = transaction_error(second);
    assert_eq!(e, TransactionError::NotOwner);
    assert_eq!(PublishError::Transaction(e).class(), ErrorClass::Rights);
    assert_eq!(catalog.crates.len(), 1);
    assert_eq!(catalog.owners.len(), 1);
    assert_eq!(catalog.owners[0].owner, Owner::User(7));
    assert_eq!(catalog.versions.len(), 1);
}

#[test]
fn differently_written_name_is_the_same_crate() {
    let c = config(300);
    let mut catalog = new_catalog();
    publish(&mut catalog, "foo_bar", "1.0.0", manifest(), &c).unwrap();
    let r = publish(&mut catalog, "Foo-Bar", "1.0.1", manifest(), &c);
    assert_eq!(transaction_error(r), TransactionError::PreviouslyNamed);
}

#[test]
fn reserved_names_are_refused() {
    let mut catalog = new_catalog();
    let r = publish(&mut catalog, "STD", "1.0.0", manifest(), &config(300));
    assert_eq!(transaction_error(r), TransactionError::ReservedName);
}

#[test]
fn daily_version_cap() {
    let mut c = config(300);
    c.new_version_rate_limit = Some(2);
    let mut catalog = new_catalog();
    publish(&mut catalog, "foo", "1.0.0", manifest(), &c).unwrap();
    publish(&mut catalog, "foo", "1.0.1", manifest(), &c).unwrap();
    let r = publish(&mut catalog, "foo", "1.0.2", manifest(), &c);
    assert_eq!(transaction_error(r), TransactionError::TooManyVersionsToday);
    assert_eq!(catalog.count_versions_published_today(0, NOW), 2);
    assert_eq!(catalog.count_versions_published_today(0, NOW + 86400), 0);
    c.new_version_rate_limit = Some(0);
    let r = publish(&mut catalog, "other", "1.0.0", manifest(), &c);
    assert_eq!(transaction_error(r), TransactionError::TooManyVersionsToday);
}

#[test]
fn categories_sync_and_invalid_ones_are_warned() {
    let mut catalog = new_catalog();
    let mut m = manifest();
    m.categories = vec!["web".to_string(), "nope".to_string()];
    m.keywords = vec!["http".to_string()];
    let out = publish(&mut catalog, "foo", "1.0.0", m, &config(300)).unwrap();
    assert_eq!(out.invalid_categories, vec!["nope".to_string()]);
    assert_eq!(catalog.crates[out.crate_id].categories, vec!["web".to_string()]);
    assert_eq!(catalog.crates[out.crate_id].keywords, vec!["http".to_string()]);
}

#[test]
fn jobs_are_recorded_with_the_version() {
    let c = config(300);
    let mut catalog = new_catalog();
    publish(&mut catalog, "foo", "1.0.0", manifest(), &c).unwrap();
    assert_eq!(catalog.jobs.len(), 1);
    assert!(matches!(&catalog.jobs[0], Job::SyncToIndex { crate_name } if crate_name == "foo"));
}

#[test]
fn invalid_name_and_version_fail_first() {
    let mut catalog = new_catalog();
    let r = publish(&mut catalog, "1foo", "1.0.0", manifest(), &config(300));
    assert!(matches!(r, Err(PublishError::InvalidCrateName)));
    let r = publish(&mut catalog, "foo", "1.0", manifest(), &config(300));
    assert!(matches!(r, Err(PublishError::InvalidVersion)));
}

#[test]
fn upload_over_the_limit_is_refused() {
    let mut c = config(300);
    c.max_upload_size = 3;
    c.max_unpack_size = 1;
    let mut catalog = new_catalog();
    let r = publish(&mut catalog, "foo", "1.0.0", manifest(), &c);
    match r {
        Err(e @ PublishError::UploadTooLarge(3)) => assert_eq!(e.class(), ErrorClass::SizeLimit),
        other => panic!("unexpected {other:?}"),
    }
}

#[test]
fn team_members_may_publish_but_others_may_not() {
    let c = config(300);
    let mut catalog = new_catalog();
    publish_as(&mut catalog, 1, "foo", "1.0.0", manifest(), &c).unwrap();
    catalog.owners.push(crates_io::catalog::OwnerRecord { crate_id: 0, owner: Owner::Team(42) });
    let t = vec![42u64];
    assert_eq!(catalog.rights(0, 9, &t), crates_io::catalog::Rights::Publish);
    assert_eq!(catalog.rights(0, 1, &vec![]), crates_io::catalog::Rights::Full);
    assert_eq!(catalog.rights(0, 9, &vec![]), crates_io::catalog::Rights::NoAccess);
}

#[test]
fn converted_dependencies_keep_renames() {
    let mut catalog = new_catalog();
    publish(&mut catalog, "bar", "1.0.0", manifest(), &config(300)).unwrap();
    let mut spec = dep("=1.0.0");
    spec.package = Some("bar".to_string());
    let mut m = manifest();
    m.dev_dependencies = Some(vec![("renamed".to_string(), spec)]);
    publish(&mut catalog, "foo", "1.0.0", m, &config(300)).unwrap();
    let d = &catalog.dependencies[0];
    assert_eq!(d.kind, DependencyKind::Dev);
    assert_eq!(d.explicit_name, Some("renamed".to_string()));
    assert_eq!(d.req, "=1.0.0");
    let _unused: Option<CrateDependency> = None;
}

#[test]
fn readme_job_comes_before_index_sync() {
    let c = config(300);
    let mut catalog = new_catalog();
    let meta = PublishMetadata {
        name: "foo".to_string(),
        vers: "1.0.0".to_string(),
        readme: Some("# foo".to_string()),
        readme_file: None,
    };
    let version = check_name_and_version(&meta).unwrap();
    let principal = Principal {
        user_id: 1,
        teams: vec![],
        api_token_id: Some(5),
        verified_email: Some("a@example.com".to_string()),
    };
    let email = require_verified_email(&principal).unwrap();
    let mut m = manifest();
    m.repository = Some("https://example.com/foo".to_string());
    let input = Inspected { meta, version, manifest: m, principal, email, path_in_vcs: Some("foo".to_string()) };
    let req = prepare_publish(input, b"bytes", 300, &c, NOW).unwrap();
    let out = catalog.publish(req).unwrap();
    assert_eq!(catalog.jobs.len(), 2);
    match &catalog.jobs[0] {
        Job::RenderAndUploadReadme { version_id, readme, readme_file, repository, path_in_vcs } => {
            assert_eq!(*version_id, out.version_id);
            assert_eq!(readme, "# foo");
            assert_eq!(readme_file, "README.md");
            assert_eq!(repository.as_deref(), Some("https://example.com/foo"));
            assert_eq!(path_in_vcs.as_deref(), Some("foo"));
        }
        other => panic!("unexpected job {other:?}"),
    }
    assert!(matches!(&catalog.jobs[1], Job::SyncToIndex { crate_name } if crate_name == "foo"));
    let v = &catalog.versions[out.version_id];
    assert_eq!(v.api_token_id, Some(5));
    assert_eq!(v.publisher_email, "a@example.com");
    assert_eq!(v.crate_size, 5);
    assert_eq!(v.created_at, NOW);
}

#[test]
fn scope_depends_on_whether_the_crate_exists() {
    let mut catalog = new_catalog();
    assert_eq!(catalog.endpoint_scope("foo"), EndpointScope::PublishNew);
    publish(&mut catalog, "foo", "1.0.0", manifest(), &config(300)).unwrap();
    assert_eq!(catalog.endpoint_scope("FOO"), EndpointScope::PublishUpdate);
}

#[test]
fn missing_email_is_refused() {
    let p = Principal { user_id: 1, teams: vec![], api_token_id: None, verified_email: None };
    assert!(matches!(require_verified_email(&p), Err(PublishError::UnverifiedEmail)));
}
