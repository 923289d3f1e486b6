//! What the artifact inspector extracts from an upload's package descriptor,
//! held as plain values.
use vstd::prelude::*;

verus! {

/// One dependency as the manifest declares it, before normalization.
#[derive(Clone, Debug)]
pub struct DependencySpec {
    /// The version requirement as written.
    pub req: String,
    /// The crate's real name, where the manifest key is a rename.
    pub package: Option<String>,
    pub optional: Option<bool>,
    pub default_features: Option<bool>,
    pub features: Option<Vec<String>>,
    /// The registry the dependency comes from, where it names one.
    pub registry: Option<String>,
}

/// A dependency group: manifest key and declaration, in manifest order.
pub type DepsSet = Vec<(String, DependencySpec)>;

/// The dependency groups that apply to one build target.
#[derive(Clone, Debug)]
pub struct TargetDeps {
    pub dependencies: DepsSet,
    pub dev_dependencies: DepsSet,
    pub build_dependencies: DepsSet,
}

/// The package descriptor of an upload.
#[derive(Clone, Debug)]
pub struct PackageManifest {
    pub description: Option<String>,
    pub license: Option<String>,
    pub license_file: Option<String>,
    pub homepage: Option<String>,
    pub documentation: Option<String>,
    pub repository: Option<String>,
    pub rust_version: Option<String>,
    pub keywords: Vec<String>,
    pub categories: Vec<String>,
    pub links: Option<String>,
    /// Feature name and the features or dependencies it enables, one entry
    /// per feature.
    pub features: Vec<(String, Vec<String>)>,
    pub dependencies: Option<DepsSet>,
    pub dev_dependencies: Option<DepsSet>,
    pub build_dependencies: Option<DepsSet>,
    /// Target triple or `cfg(...)` expression, and its groups.
    pub target: Option<Vec<(String, TargetDeps)>>,
}

} // verus!
