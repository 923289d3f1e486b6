use crates_io::deps::{convert_dependencies, convert_dependency, validate_dependency, DependencyKind, DependencyProblem};
use crates_io::manifest::{DependencySpec, TargetDeps};
use crates_io::pipeline::{checksum, ArtifactError, Maximums};

fn spec(req: &str) -> DependencySpec {
    DependencySpec {
        req: req.to_string(),
        package: None,
        optional: None,
        default_features: None,
        features: None,
        registry: None,
    }
}

#[test]
fn checksum_is_lowercase_sha256_hex() {
    assert_eq!(
        checksum(b"hello"),
        "2cf24dba5fb0a30e26e83b2ac5b9e29e1b161e5c1fa7425e73043362938b9824"
    );
    assert_eq!(
        checksum(b""),
        "e3b0c44298fc1c149afbf4c8996fb92427ae41e4649b934ca495991b7852b855"
    );
}

#[test]
fn maximums_take_crate_override_and_never_unpack_less() {
    let m = Maximums::new(None, 10, 512);
    assert_eq!(m, Maximums { max_upload_size: 10, max_unpack_size: 512 });
    let m = Maximums::new(Some(1000), 10, 512);
    assert_eq!(m, Maximums { max_upload_size: 1000, max_unpack_size: 1000 });
}

#[test]
fn artifact_error_messages() {
    assert_eq!(
        ArtifactError::Malformed.message(),
        "uploaded tarball is malformed or too large when decompressed"
    );
    assert_eq!(
        ArtifactError::InvalidPath("../x".to_string()).message(),
        "invalid path found: ../x"
    );
    assert_eq!(
        ArtifactError::UnexpectedSymlink("foo/link".to_string()).message(),
        "unexpected symlink or hard link found: foo/link"
    );
    assert_eq!(
        ArtifactError::MissingManifest.message(),
        "uploaded tarball is missing a `Cargo.toml` manifest file"
    );
    assert_eq!(
        ArtifactError::IncorrectlyCasedManifest("cargo.toml".to_string()).message(),
        "uploaded tarball is missing a `Cargo.toml` manifest file; `cargo.toml` was found, but must be named `Cargo.toml` with that exact casing"
    );
    assert_eq!(
        ArtifactError::TooManyManifests(vec!["Cargo.toml".to_string(), "cargo.toml".to_string()]).message(),
        "uploaded tarball contains more than one `Cargo.toml` manifest file; found `Cargo.toml`, `cargo.toml`"
    );
    assert_eq!(
        ArtifactError::InvalidManifest("bad key".to_string()).message(),
        "failed to parse `Cargo.toml` manifest file\n\nbad key"
    );
}

#[test]
fn conversion_fills_defaults_and_normalizes_requirement() {
    let d = convert_dependency("serde", &spec("1.0"), DependencyKind::Normal, None);
    assert_eq!(d.name, "serde");
    assert_eq!(d.version_req, "^1.0");
    assert!(!d.optional);
    assert!(d.default_features);
    assert!(d.features.is_empty());
    assert_eq!(d.kind, Some(DependencyKind::Normal));
    assert_eq!(d.explicit_name_in_toml, None);
    assert_eq!(d.target, None);
}

#[test]
fn conversion_keeps_unparsable_requirement_and_rename() {
    let mut s = spec("not a req");
    s.package = Some("real".to_string());
    s.optional = Some(true);
    s.default_features = Some(false);
    s.features = Some(vec!["x".to_string()]);
    let d = convert_dependency("alias", &s, DependencyKind::Build, Some("cfg(unix)"));
    assert_eq!(d.name, "real");
    assert_eq!(d.explicit_name_in_toml, Some("alias".to_string()));
    assert_eq!(d.version_req, "not a req");
    assert!(d.optional);
    assert!(!d.default_features);
    assert_eq!(d.features, vec!["x".to_string()]);
    assert_eq!(d.target, Some("cfg(unix)".to_string()));
    assert_eq!(validate_dependency(&d), Err(DependencyProblem::InvalidVersionReq));
}

#[test]
fn groups_flatten_in_order() {
    let normal = vec![("a".to_string(), spec("1"))];
    let dev = vec![("b".to_string(), spec("1"))];
    let build = vec![("c".to_string(), spec("1"))];
    let targets = vec![(
        "cfg(windows)".to_string(),
        TargetDeps {
            dependencies: vec![("d".to_string(), spec("1"))],
            dev_dependencies: vec![],
            build_dependencies: vec![("e".to_string(), spec("1"))],
        },
    )];
    let all = convert_dependencies(Some(&normal), Some(&dev), Some(&build), Some(&targets));
    let names: Vec<&str> = all.iter().map(|d| d.name.as_str()).collect();
    assert_eq!(names, vec!["a", "b", "c", "d", "e"]);
    assert_eq!(all[1].kind, Some(DependencyKind::Dev));
    assert_eq!(all[4].kind, Some(DependencyKind::Build));
    assert_eq!(all[3].target, Some("cfg(windows)".to_string()));
    assert!(convert_dependencies(None, None, None, None).is_empty());
}

#[test]
fn dependency_rules() {
    let ok = convert_dependency("serde", &spec("1.0"), DependencyKind::Normal, None);
    assert_eq!(validate_dependency(&ok), Ok(()));

    let mut bad_name = ok.clone();
    bad_name.name = "1serde".to_string();
    assert_eq!(validate_dependency(&bad_name), Err(DependencyProblem::InvalidName));

    let mut bad_feature = ok.clone();
    bad_feature.features = vec!["fine".to_string(), "!bad".to_string()];
    assert_eq!(validate_dependency(&bad_feature), Err(DependencyProblem::InvalidFeature(1)));

    let mut other_registry = ok.clone();
    other_registry.registry = Some("https://elsewhere".to_string());
    assert_eq!(validate_dependency(&other_registry), Err(DependencyProblem::CrossRegistry));
    other_registry.registry = Some(String::new());
    assert_eq!(validate_dependency(&other_registry), Ok(()));

    let star = convert_dependency("serde", &spec("*"), DependencyKind::Normal, None);
    assert_eq!(validate_dependency(&star), Err(DependencyProblem::Wildcard));

    let mut bad_alias = ok.clone();
    bad_alias.explicit_name_in_toml = Some("-x".to_string());
    assert_eq!(validate_dependency(&bad_alias), Err(DependencyProblem::InvalidExplicitName));
    bad_alias.explicit_name_in_toml = Some("_x".to_string());
    assert_eq!(validate_dependency(&bad_alias), Ok(()));
}
