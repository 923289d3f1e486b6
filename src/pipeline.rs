//! The steps of a publish around the atomic catalog step: the checks on the
//! request's header, the size limits, and the assembly of what the catalog
//! records. Authorization, rate limiting, artifact inspection and storage are
//! done by the caller between these steps.
use vstd::prelude::*;
use vstd::string::*;
use crate::catalog::{Catalog, PublishRequest, TransactionError};
use crate::deps::{convert_dependencies, dependency_sources, is_conversion, strings_view};
use crate::external::{hex_lower, parsed_version, sha256, sha256_of, to_hex, canonical_version};
use crate::framing::FramingError;
use crate::manifest::PackageManifest;
use crate::metadata::{join, metadata_problems, recorded_license, validate_manifest, MetadataProblem};
use crate::names::{is_valid_crate_name, valid_crate_name};

verus! {

/// The metadata segment of an upload, as decoded.
#[derive(Clone, Debug)]
pub struct PublishMetadata {
    pub name: String,
    pub vers: String,
    pub readme: Option<String>,
    pub readme_file: Option<String>,
}

/// The principal that publishes, as the authorization step resolved it.
#[derive(Clone, Debug)]
pub struct Principal {
    pub user_id: u64,
    pub teams: Vec<u64>,
    pub api_token_id: Option<u64>,
    pub verified_email: Option<String>,
}

/// The limits that apply to every crate unless the crate overrides them.
#[derive(PartialEq, Eq, Structural, Clone, Copy, Debug)]
pub struct PublishConfig {
    pub max_upload_size: u64,
    pub max_unpack_size: u64,
    pub max_features: usize,
    /// The most new versions of one crate allowed in a day, if capped.
    pub new_version_rate_limit: Option<u32>,
}

/// The size limits of one upload.
#[derive(PartialEq, Eq, Structural, Clone, Copy, Debug)]
pub struct Maximums {
    pub max_upload_size: u64,
    pub max_unpack_size: u64,
}

impl Maximums {
    /// The crate's own upload limit where it has one, else the global one;
    /// the unpack limit is never below the upload limit.
    pub fn new(krate_max_upload: Option<u64>, app_max_upload: u64, app_max_unpack: u64) -> (r: Maximums)
        ensures
            r.max_upload_size == match krate_max_upload {
                Some(m) => m,
                None => app_max_upload,
            },
            r.max_unpack_size == if app_max_unpack >= r.max_upload_size {
                app_max_unpack
            } else {
                r.max_upload_size
            },
    {
        let max_upload_size = match krate_max_upload {
            Some(m) => m,
            None => app_max_upload,
        };
        let max_unpack_size = if app_max_unpack >= max_upload_size {
            app_max_unpack
        } else {
            max_upload_size
        };
        Maximums { max_upload_size, max_unpack_size }
    }
}

/// The class of a failure, which decides how it is reported.
#[derive(PartialEq, Eq, Structural, Clone, Copy, Debug)]
pub enum ErrorClass {
    Validation,
    Rights,
    RateLimit,
    SizeLimit,
    Conflict,
    DependencyResolution,
    Internal,
}

/// Why the artifact inspector refused an upload.
#[derive(Clone, Debug)]
pub enum ArtifactError {
    /// The archive is malformed or too large when decompressed.
    Malformed,
    InvalidPath(String),
    UnexpectedSymlink(String),
    Io,
    MissingManifest,
    /// A descriptor was found under this name, in the wrong case.
    IncorrectlyCasedManifest(String),
    /// The file names of the descriptors found.
    TooManyManifests(Vec<String>),
    /// The descriptor does not parse, for this reason.
    InvalidManifest(String),
}

/// Why a publish failed.
#[derive(Debug)]
pub enum PublishError {
    Framing(FramingError),
    InvalidCrateName,
    InvalidVersion,
    /// The publisher has no verified email address.
    UnverifiedEmail,
    RateLimited,
    /// The artifact exceeds this upload limit.
    UploadTooLarge(u64),
    Artifact(ArtifactError),
    Metadata(Vec<MetadataProblem>),
    Transaction(TransactionError),
    /// The artifact could not be stored after the catalog recorded it.
    UploadFailed,
}

impl PublishError {
    /// The class of the failure.
    pub fn class(&self) -> (r: ErrorClass)
        ensures
            r == match self {
                PublishError::RateLimited => ErrorClass::RateLimit,
                PublishError::UploadTooLarge(_) => ErrorClass::SizeLimit,
                PublishError::Artifact(ArtifactError::Io) => ErrorClass::Internal,
                PublishError::UploadFailed => ErrorClass::Internal,
                PublishError::Transaction(t) => match t {
                    TransactionError::NotOwner => ErrorClass::Rights,
                    TransactionError::TooManyVersionsToday => ErrorClass::RateLimit,
                    TransactionError::ReservedName => ErrorClass::Conflict,
                    TransactionError::VersionExists => ErrorClass::Conflict,
                    TransactionError::UnknownDependency(_) => ErrorClass::DependencyResolution,
                    _ => ErrorClass::Validation,
                },
                _ => ErrorClass::Validation,
            },
    {
        match self {
            PublishError::RateLimited => ErrorClass::RateLimit,
            PublishError::UploadTooLarge(_) => ErrorClass::SizeLimit,
            PublishError::Artifact(ArtifactError::Io) => ErrorClass::Internal,
            PublishError::UploadFailed => ErrorClass::Internal,
            PublishError::Transaction(t) => match t {
                TransactionError::NotOwner => ErrorClass::Rights,
                TransactionError::TooManyVersionsToday => ErrorClass::RateLimit,
                TransactionError::ReservedName => ErrorClass::Conflict,
                TransactionError::VersionExists => ErrorClass::Conflict,
                TransactionError::UnknownDependency(_) => ErrorClass::DependencyResolution,
                _ => ErrorClass::Validation,
            },
            _ => ErrorClass::Validation,
        }
    }
}

/// Checks the crate name and the version of the metadata, and returns the
/// version in canonical form.
pub fn check_name_and_version(meta: &PublishMetadata) -> (r: Result<String, PublishError>)
    ensures
        !valid_crate_name(meta.name@) ==> r matches Err(PublishError::InvalidCrateName),
        valid_crate_name(meta.name@) && parsed_version(meta.vers@) is None ==> r matches Err(
            PublishError::InvalidVersion,
        ),
        valid_crate_name(meta.name@) && parsed_version(meta.vers@) is Some ==> (r matches Ok(v)
            && parsed_version(meta.vers@) == Some(v@)),
{
    if !is_valid_crate_name(meta.name.as_str()) {
        return Err(PublishError::InvalidCrateName);
    }
    match canonical_version(meta.vers.as_str()) {
        Some(v) => Ok(v),
        None => Err(PublishError::InvalidVersion),
    }
}

/// The verified email address the publish is recorded with.
pub fn require_verified_email(p: &Principal) -> (r: Result<String, PublishError>)
    ensures
        match p.verified_email {
            Some(e) => (r matches Ok(v) && v == e),
            None => r matches Err(PublishError::UnverifiedEmail),
        },
{
    match &p.verified_email {
        Some(e) => Ok(e.clone()),
        None => Err(PublishError::UnverifiedEmail),
    }
}

/// The limits for an upload of crate `name`: its own where it has them.
pub fn upload_limits(catalog: &Catalog, name: &str, config: &PublishConfig) -> (r: (Maximums, usize))
    requires
        catalog.wf(),
    ensures
        match catalog.crate_index(name@) {
            Some(k) => r.0 == Maximums::new_spec(catalog.crates@[k].max_upload_size, config.max_upload_size, config.max_unpack_size)
                && r.1 == match catalog.crates@[k].max_features {
                    Some(m) => m,
                    None => config.max_features,
                },
            None => r.0 == Maximums::new_spec(None, config.max_upload_size, config.max_unpack_size)
                && r.1 == config.max_features,
        },
{
    match catalog.find_by_name(name) {
        Some(k) => {
            let m = Maximums::new(catalog.crates[k].max_upload_size, config.max_upload_size, config.max_unpack_size);
            let f = match catalog.crates[k].max_features {
                Some(m) => m,
                None => config.max_features,
            };
            (m, f)
        },
        None => (Maximums::new(None, config.max_upload_size, config.max_unpack_size), config.max_features),
    }
}

impl Maximums {
    pub open spec fn new_spec(krate_max_upload: Option<u64>, app_max_upload: u64, app_max_unpack: u64) -> Maximums {
        let up = match krate_max_upload {
            Some(m) => m,
            None => app_max_upload,
        };
        Maximums { max_upload_size: up, max_unpack_size: if app_max_unpack >= up { app_max_unpack } else { up } }
    }
}

/// Refuses an artifact larger than the upload limit.
pub fn check_upload_size(len: u64, m: &Maximums) -> (r: Result<(), PublishError>)
    ensures
        len > m.max_upload_size ==> (r matches Err(PublishError::UploadTooLarge(x)) && x == m.max_upload_size),
        len <= m.max_upload_size ==> r is Ok,
{
    if len > m.max_upload_size {
        Err(PublishError::UploadTooLarge(m.max_upload_size))
    } else {
        Ok(())
    }
}

/// The checksum recorded for an artifact: its SHA-256 digest in lowercase hex.
pub fn checksum(bytes: &[u8]) -> (r: String)
    ensures
        r@ == hex_lower(sha256_of(bytes@)),
{
    let digest = sha256(bytes);
    to_hex(digest.as_slice())
}

/// The inputs a publish has gathered once the artifact is inspected.
pub struct Inspected {
    pub meta: PublishMetadata,
    /// The version in canonical form.
    pub version: String,
    pub manifest: PackageManifest,
    pub principal: Principal,
    /// The publisher's verified email address.
    pub email: String,
    /// Where the package lies in its repository, if the artifact says.
    pub path_in_vcs: Option<String>,
}

/// Checks the declared metadata against `max_features` and assembles what
/// the catalog step records: the license to record, the dependencies in
/// normalized form, the artifact's size and checksum.
pub fn prepare_publish(
    input: Inspected,
    tarball: &[u8],
    max_features: usize,
    config: &PublishConfig,
    now: i64,
) -> (r: Result<PublishRequest, PublishError>)
    ensures
        metadata_problems(input.manifest, max_features).len() > 0 ==> (r matches Err(
            PublishError::Metadata(ps),
        ) && ps@ == metadata_problems(input.manifest, max_features)),
        metadata_problems(input.manifest, max_features).len() == 0 ==> (r matches Ok(req) && {
            &&& req.name == input.meta.name
            &&& req.version == input.version
            &&& req.user_id == input.principal.user_id
            &&& req.user_teams == input.principal.teams
            &&& req.api_token_id == input.principal.api_token_id
            &&& req.email == input.email
            &&& req.description == input.manifest.description
            &&& req.homepage == input.manifest.homepage
            &&& req.documentation == input.manifest.documentation
            &&& req.readme == input.meta.readme
            &&& req.repository == input.manifest.repository
            &&& req.readme_file == input.meta.readme_file
            &&& req.path_in_vcs == input.path_in_vcs
            &&& req.features == input.manifest.features
            &&& match (req.license, recorded_license(input.manifest)) {
                (Some(a), Some(b)) => a@ == b,
                (None, None) => true,
                _ => false,
            }
            &&& req.crate_size == tarball@.len()
            &&& req.checksum@ == hex_lower(sha256_of(tarball@))
            &&& req.links == input.manifest.links
            &&& req.rust_version == input.manifest.rust_version
            &&& req.dependencies@.len() == dependency_sources(input.manifest).len()
            &&& forall|i: int|
                0 <= i < req.dependencies@.len() ==> is_conversion(
                    #[trigger] req.dependencies@[i],
                    dependency_sources(input.manifest)[i],
                )
            &&& req.keywords == input.manifest.keywords
            &&& req.categories == input.manifest.categories
            &&& req.now == now
            &&& req.daily_version_limit == config.new_version_rate_limit
        }),
{
    let license = match validate_manifest(&input.manifest, max_features) {
        Ok(l) => l,
        Err(ps) => {
            return Err(PublishError::Metadata(ps));
        },
    };
    let dependencies = convert_dependencies(
        input.manifest.dependencies.as_ref(),
        input.manifest.dev_dependencies.as_ref(),
        input.manifest.build_dependencies.as_ref(),
        input.manifest.target.as_ref(),
    );
    let checksum = checksum(tarball);
    let Inspected { meta, version, manifest, principal, email, path_in_vcs } = input;
    let PublishMetadata { name, vers: _, readme, readme_file } = meta;
    let Principal { user_id, teams, api_token_id, verified_email: _ } = principal;
    let PackageManifest {
        description,
        license: _,
        license_file: _,
        homepage,
        documentation,
        repository,
        rust_version,
        keywords,
        categories,
        links,
        features,
        dependencies: _,
        dev_dependencies: _,
        build_dependencies: _,
        target: _,
    } = manifest;
    Ok(PublishRequest {
        name,
        version,
        user_id,
        user_teams: teams,
        api_token_id,
        email,
        description,
        homepage,
        documentation,
        readme,
        repository,
        readme_file,
        path_in_vcs,
        features,
        license,
        crate_size: tarball.len() as u64,
        checksum,
        links,
        rust_version,
        dependencies,
        keywords,
        categories,
        now,
        daily_version_limit: config.new_version_rate_limit,
    })
}

/// `v` joined with `sep` between each two.
pub fn join_strings(v: &Vec<String>, sep: &str) -> (r: String)
    ensures
        r@ == join(strings_view(v@), sep@),
{
    let mut r = String::new();
    let mut i: usize = 0;
    while i < v.len()
        invariant
            i <= v@.len(),
            r@ == join(strings_view(v@.subrange(0, i as int)), sep@),
        decreases v@.len() - i,
    {
        let ghost done = v@.subrange(0, i as int);
        let ghost next = v@.subrange(0, i as int + 1);
        assert(strings_view(next).drop_last() =~= strings_view(done));
        if i > 0 {
            r.append(sep);
        }
        r.append(v[i].as_str());
        i += 1;
        assert(r@ =~= join(strings_view(next), sep@));
    }
    assert(v@.subrange(0, v@.len() as int) =~= v@);
    r
}

impl ArtifactError {
    /// The message shown to the uploader.
    pub fn message(&self) -> (r: String)
        ensures
            r@ == match self {
                ArtifactError::Malformed => "uploaded tarball is malformed or too large when decompressed"@,
                ArtifactError::InvalidPath(p) => "invalid path found: "@ + p@,
                ArtifactError::UnexpectedSymlink(p) => "unexpected symlink or hard link found: "@ + p@,
                ArtifactError::Io => "failed to read the uploaded tarball"@,
                ArtifactError::MissingManifest => "uploaded tarball is missing a `Cargo.toml` manifest file"@,
                ArtifactError::IncorrectlyCasedManifest(n) => "uploaded tarball is missing a `Cargo.toml` manifest file; `"@
                    + n@ + "` was found, but must be named `Cargo.toml` with that exact casing"@,
                ArtifactError::TooManyManifests(ps) => "uploaded tarball contains more than one `Cargo.toml` manifest file; found `"@
                    + join(strings_view(ps@), "`, `"@) + "`"@,
                ArtifactError::InvalidManifest(e) => "failed to parse `Cargo.toml` manifest file\n\n"@ + e@,
            },
    {
        match self {
            ArtifactError::Malformed => String::from_str("uploaded tarball is malformed or too large when decompressed"),
            ArtifactError::InvalidPath(p) => String::from_str("invalid path found: ").concat(p.as_str()),
            ArtifactError::UnexpectedSymlink(p) => String::from_str("unexpected symlink or hard link found: ").concat(p.as_str()),
            ArtifactError::Io => String::from_str("failed to read the uploaded tarball"),
            ArtifactError::MissingManifest => String::from_str("uploaded tarball is missing a `Cargo.toml` manifest file"),
            ArtifactError::IncorrectlyCasedManifest(n) => String::from_str("uploaded tarball is missing a `Cargo.toml` manifest file; `")
                .concat(n.as_str()).concat("` was found, but must be named `Cargo.toml` with that exact casing"),
            ArtifactError::TooManyManifests(ps) => {
                let joined = join_strings(ps, "`, `");
                String::from_str("uploaded tarball contains more than one `Cargo.toml` manifest file; found `")
                    .concat(joined.as_str()).concat("`")
            },
            ArtifactError::InvalidManifest(e) => String::from_str("failed to parse `Cargo.toml` manifest file\n\n").concat(e.as_str()),
        }
    }
}

} // verus!
