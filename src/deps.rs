//! Flattens the declared dependency groups into one list and checks each entry.
use vstd::prelude::*;
use vstd::string::*;
use crate::external::{canonical_req, is_wildcard_req, parsed_req, req_is_wildcard};
use crate::manifest::{DependencySpec, DepsSet, PackageManifest, TargetDeps};
use crate::names::{is_valid_crate_name, is_valid_dependency_name, is_valid_feature, valid_crate_name, valid_dependency_name, valid_feature};

verus! {

/// Where a dependency is used.
#[derive(PartialEq, Eq, Structural, Clone, Copy, Debug)]
pub enum DependencyKind {
    Normal,
    Build,
    Dev,
}

/// A dependency in normalized form.
#[derive(Clone, Debug)]
pub struct CrateDependency {
    /// The name of the crate depended on.
    pub name: String,
    pub version_req: String,
    pub optional: bool,
    pub default_features: bool,
    pub features: Vec<String>,
    pub target: Option<String>,
    pub kind: Option<DependencyKind>,
    /// The manifest key, where it differs from the crate's name.
    pub explicit_name_in_toml: Option<String>,
    pub registry: Option<String>,
}

/// A declared dependency with what its group says of it: manifest key,
/// declaration, kind and target.
pub struct DependencySource {
    pub key: Seq<char>,
    pub spec: DependencySpec,
    pub kind: DependencyKind,
    pub target: Option<Seq<char>>,
}

pub open spec fn opt_view(s: Option<String>) -> Option<Seq<char>> {
    match s {
        Some(v) => Some(v@),
        None => None,
    }
}

pub open spec fn strings_view(v: Seq<String>) -> Seq<Seq<char>> {
    v.map_values(|s: String| s@)
}

/// The requirement in canonical form where it parses, else as written.
pub open spec fn normalized_req(s: Seq<char>) -> Seq<char> {
    match parsed_req(s) {
        Some(c) => c,
        None => s,
    }
}

/// `d` is what normalization makes of `src`.
pub open spec fn is_conversion(d: CrateDependency, src: DependencySource) -> bool {
    &&& match src.spec.package {
        Some(p) => d.name@ == p@ && opt_view(d.explicit_name_in_toml) == Some(src.key),
        None => d.name@ == src.key && d.explicit_name_in_toml is None,
    }
    &&& d.version_req@ == normalized_req(src.spec.req@)
    &&& d.optional == match src.spec.optional {
        Some(b) => b,
        None => false,
    }
    &&& d.default_features == match src.spec.default_features {
        Some(b) => b,
        None => true,
    }
    &&& strings_view(d.features@) == match src.spec.features {
        Some(f) => strings_view(f@),
        None => seq![],
    }
    &&& opt_view(d.target) == src.target
    &&& d.kind == Some(src.kind)
    &&& opt_view(d.registry) == opt_view(src.spec.registry)
}

pub open spec fn group_sources(set: Seq<(String, DependencySpec)>, kind: DependencyKind, target: Option<Seq<char>>) -> Seq<DependencySource> {
    set.map_values(|e: (String, DependencySpec)| DependencySource { key: e.0@, spec: e.1, kind, target })
}

pub open spec fn opt_group_sources(set: Option<DepsSet>, kind: DependencyKind) -> Seq<DependencySource> {
    match set {
        Some(s) => group_sources(s@, kind, None),
        None => seq![],
    }
}

pub open spec fn one_target_sources(t: (String, TargetDeps)) -> Seq<DependencySource> {
    group_sources(t.1.dependencies@, DependencyKind::Normal, Some(t.0@)) + group_sources(
        t.1.dev_dependencies@,
        DependencyKind::Dev,
        Some(t.0@),
    ) + group_sources(t.1.build_dependencies@, DependencyKind::Build, Some(t.0@))
}

pub open spec fn target_sources_upto(ts: Seq<(String, TargetDeps)>, n: int) -> Seq<DependencySource>
    decreases n,
{
    if n <= 0 {
        seq![]
    } else {
        target_sources_upto(ts, n - 1) + one_target_sources(ts[n - 1])
    }
}

/// Every declared dependency, in the order of normalization: normal, dev and
/// build groups, then each target's normal, dev and build groups.
pub open spec fn dependency_sources(m: PackageManifest) -> Seq<DependencySource> {
    opt_group_sources(m.dependencies, DependencyKind::Normal) + opt_group_sources(
        m.dev_dependencies,
        DependencyKind::Dev,
    ) + opt_group_sources(m.build_dependencies, DependencyKind::Build) + match m.target {
        Some(ts) => target_sources_upto(ts@, ts@.len() as int),
        None => seq![],
    }
}

pub(crate) fn clone_strings(v: &Vec<String>) -> (r: Vec<String>)
    ensures
        strings_view(r@) == strings_view(v@),
{
    let mut r: Vec<String> = Vec::new();
    let mut i: usize = 0;
    while i < v.len()
        invariant
            i <= v@.len(),
            r@.len() == i,
            forall|j: int| 0 <= j < i ==> (#[trigger] r@[j])@ == v@[j]@,
        decreases v@.len() - i,
    {
        let s = v[i].clone();
        r.push(s);
        i += 1;
    }
    assert(strings_view(r@) =~= strings_view(v@));
    r
}

pub(crate) fn clone_opt(s: &Option<String>) -> (r: Option<String>)
    ensures
        opt_view(r) == opt_view(*s),
{
    match s {
        Some(v) => Some(v.clone()),
        None => None,
    }
}

/// Normalizes one declared dependency: splits a rename into crate name and
/// manifest key, puts the requirement in canonical form where it parses,
/// and fills in `optional = false` and `default_features = true` where
/// they are not given.
pub fn convert_dependency(
    name: &str,
    dep: &DependencySpec,
    kind: DependencyKind,
    target: Option<&str>,
) -> (r: CrateDependency)
    ensures
        is_conversion(
            r,
            DependencySource {
                key: name@,
                spec: *dep,
                kind,
                target: match target {
                    Some(t) => Some(t@),
                    None => None,
                },
            },
        ),
{
    let version_req = match canonical_req(dep.req.as_str()) {
        Some(c) => c,
        None => dep.req.clone(),
    };
    let (crate_name, explicit_name_in_toml) = match &dep.package {
        None => (String::from_str(name), None),
        Some(package) => (package.clone(), Some(String::from_str(name))),
    };
    let optional = match dep.optional {
        Some(b) => b,
        None => false,
    };
    let default_features = match dep.default_features {
        Some(b) => b,
        None => true,
    };
    let features = match &dep.features {
        Some(f) => clone_strings(f),
        None => Vec::new(),
    };
    assert(strings_view(Seq::<String>::empty()) =~= seq![]);
    let target = match target {
        Some(t) => Some(String::from_str(t)),
        None => None,
    };
    CrateDependency {
        name: crate_name,
        version_req,
        optional,
        default_features,
        features,
        target,
        kind: Some(kind),
        explicit_name_in_toml,
        registry: clone_opt(&dep.registry),
    }
}

fn add_group(
    result: &mut Vec<CrateDependency>,
    set: &DepsSet,
    kind: DependencyKind,
    target: Option<&str>,
)
    ensures
        final(result)@.len() == old(result)@.len() + set@.len(),
        forall|i: int| 0 <= i < old(result)@.len() ==> final(result)@[i] == old(result)@[i],
        forall|i: int|
            0 <= i < set@.len() ==> is_conversion(
                #[trigger] final(result)@[old(result)@.len() + i],
                group_sources(
                    set@,
                    kind,
                    match target {
                        Some(t) => Some(t@),
                        None => None,
                    },
                )[i],
            ),
{
    let ghost start = result@;
    let mut i: usize = 0;
    while i < set.len()
        invariant
            i <= set@.len(),
            result@.len() == start.len() + i,
            forall|j: int| 0 <= j < start.len() ==> result@[j] == start[j],
            forall|j: int|
                0 <= j < i ==> is_conversion(
                    #[trigger] result@[start.len() + j],
                    group_sources(
                        set@,
                        kind,
                        match target {
                            Some(t) => Some(t@),
                            None => None,
                        },
                    )[j],
                ),
        decreases set@.len() - i,
    {
        let d = convert_dependency(set[i].0.as_str(), &set[i].1, kind, target);
        result.push(d);
        i += 1;
    }
}

/// Flattens the dependency groups into one list, in the order normal, dev,
/// build, then for each target its normal, dev and build groups.
pub fn convert_dependencies(
    normal_deps: Option<&DepsSet>,
    dev_deps: Option<&DepsSet>,
    build_deps: Option<&DepsSet>,
    targets: Option<&Vec<(String, TargetDeps)>>,
) -> (r: Vec<CrateDependency>)
    ensures
        ({
            let srcs = opt_group_sources(
                match normal_deps {
                    Some(s) => Some(*s),
                    None => None,
                },
                DependencyKind::Normal,
            ) + opt_group_sources(
                match dev_deps {
                    Some(s) => Some(*s),
                    None => None,
                },
                DependencyKind::Dev,
            ) + opt_group_sources(
                match build_deps {
                    Some(s) => Some(*s),
                    None => None,
                },
                DependencyKind::Build,
            ) + match targets {
                Some(ts) => target_sources_upto(ts@, ts@.len() as int),
                None => seq![],
            };
            r@.len() == srcs.len() && forall|i: int|
                0 <= i < srcs.len() ==> is_conversion(#[trigger] r@[i], srcs[i])
        }),
{
    let mut result: Vec<CrateDependency> = Vec::new();
    let ghost mut srcs: Seq<DependencySource> = seq![];
    if let Some(deps) = normal_deps {
        add_group(&mut result, deps, DependencyKind::Normal, None);
        proof {
            srcs = srcs + group_sources(deps@, DependencyKind::Normal, None);
            assert forall|i: int| 0 <= i < srcs.len() implies is_conversion(
                #[trigger] result@[i],
                srcs[i],
            ) by {
                assert(result@[0 + i] == result@[i]);
            }
        }
    }
    assert(result@.len() == srcs.len() && forall|i: int|
        0 <= i < srcs.len() ==> is_conversion(#[trigger] result@[i], srcs[i]));
    if let Some(deps) = dev_deps {
        let ghost before = srcs;
        add_group(&mut result, deps, DependencyKind::Dev, None);
        proof {
            srcs = srcs + group_sources(deps@, DependencyKind::Dev, None);
            assert forall|i: int| 0 <= i < srcs.len() implies is_conversion(
                #[trigger] result@[i],
                srcs[i],
            ) by {
                if i >= before.len() {
                    assert(result@[before.len() + (i - before.len())] == result@[i]);
                }
            }
        }
    }
    if let Some(deps) = build_deps {
        let ghost before = srcs;
        add_group(&mut result, deps, DependencyKind::Build, None);
        proof {
            srcs = srcs + group_sources(deps@, DependencyKind::Build, None);
            assert forall|i: int| 0 <= i < srcs.len() implies is_conversion(
                #[trigger] result@[i],
                srcs[i],
            ) by {
                if i >= before.len() {
                    assert(result@[before.len() + (i - before.len())] == result@[i]);
                }
            }
        }
    }
    if let Some(ts) = targets {
        let ghost base = srcs;
        let mut k: usize = 0;
        while k < ts.len()
            invariant
                k <= ts@.len(),
                srcs == base + target_sources_upto(ts@, k as int),
                result@.len() == srcs.len(),
                forall|i: int| 0 <= i < srcs.len() ==> is_conversion(#[trigger] result@[i], srcs[i]),
            decreases ts@.len() - k,
        {
            let t = ts[k].0.as_str();
            let g = &ts[k].1;
            let ghost tv = Some(ts@[k as int].0@);
            let ghost s0 = srcs;
            add_group(&mut result, &g.dependencies, DependencyKind::Normal, Some(t));
            let ghost s1 = s0 + group_sources(g.dependencies@, DependencyKind::Normal, tv);
            assert forall|i: int| 0 <= i < s1.len() implies is_conversion(#[trigger] result@[i], s1[i]) by {
                if i >= s0.len() {
                    assert(result@[s0.len() + (i - s0.len())] == result@[i]);
                }
            }
            add_group(&mut result, &g.dev_dependencies, DependencyKind::Dev, Some(t));
            let ghost s2 = s1 + group_sources(g.dev_dependencies@, DependencyKind::Dev, tv);
            assert forall|i: int| 0 <= i < s2.len() implies is_conversion(#[trigger] result@[i], s2[i]) by {
                if i >= s1.len() {
                    assert(result@[s1.len() + (i - s1.len())] == result@[i]);
                }
            }
            add_group(&mut result, &g.build_dependencies, DependencyKind::Build, Some(t));
            let ghost s3 = s2 + group_sources(g.build_dependencies@, DependencyKind::Build, tv);
            assert forall|i: int| 0 <= i < s3.len() implies is_conversion(#[trigger] result@[i], s3[i]) by {
                if i >= s2.len() {
                    assert(result@[s2.len() + (i - s2.len())] == result@[i]);
                }
            }
            proof {
                assert(s3 =~= base + target_sources_upto(ts@, k as int + 1));
                srcs = s3;
            }
            k += 1;
        }
    }
    proof {
        let full = opt_group_sources(
            match normal_deps {
                Some(s) => Some(*s),
                None => None,
            },
            DependencyKind::Normal,
        ) + opt_group_sources(
            match dev_deps {
                Some(s) => Some(*s),
                None => None,
            },
            DependencyKind::Dev,
        ) + opt_group_sources(
            match build_deps {
                Some(s) => Some(*s),
                None => None,
            },
            DependencyKind::Build,
        ) + match targets {
            Some(ts) => target_sources_upto(ts@, ts@.len() as int),
            None => seq![],
        };
        assert(srcs =~= full);
    }
    result
}

/// Why a normalized dependency is refused.
#[derive(PartialEq, Eq, Structural, Clone, Copy, Debug)]
pub enum DependencyProblem {
    /// The crate name is not a valid crate name.
    InvalidName,
    /// The entry of the feature list at this position is not valid.
    InvalidFeature(usize),
    /// It comes from another registry.
    CrossRegistry,
    /// The requirement does not parse.
    InvalidVersionReq,
    /// The requirement accepts any version.
    Wildcard,
    /// The manifest key is not a valid dependency name.
    InvalidExplicitName,
}

/// Whether some entry of `fs` is not a valid feature entry.
pub open spec fn has_invalid_feature(fs: Seq<String>) -> bool {
    exists|i: int| 0 <= i < fs.len() && !valid_feature(#[trigger] fs[i]@)
}

/// The position of the first invalid entry of `fs`.
pub open spec fn first_invalid_feature(fs: Seq<String>) -> int {
    choose|i: int|
        0 <= i < fs.len() && !valid_feature(#[trigger] fs[i]@) && forall|j: int|
            0 <= j < i ==> valid_feature(#[trigger] fs[j]@)
}

/// The first rule, in order, that `d` breaks.
pub open spec fn dependency_check(d: CrateDependency) -> Result<(), DependencyProblem> {
    if !valid_crate_name(d.name@) {
        Err(DependencyProblem::InvalidName)
    } else if has_invalid_feature(d.features@) {
        Err(DependencyProblem::InvalidFeature(first_invalid_feature(d.features@) as usize))
    } else if (d.registry matches Some(r) && r@.len() > 0) {
        Err(DependencyProblem::CrossRegistry)
    } else if parsed_req(d.version_req@) is None {
        Err(DependencyProblem::InvalidVersionReq)
    } else if req_is_wildcard(d.version_req@) {
        Err(DependencyProblem::Wildcard)
    } else if (d.explicit_name_in_toml matches Some(t) && !valid_dependency_name(t@)) {
        Err(DependencyProblem::InvalidExplicitName)
    } else {
        Ok(())
    }
}

/// Checks a normalized dependency and reports the first rule it breaks.
pub fn validate_dependency(dep: &CrateDependency) -> (r: Result<(), DependencyProblem>)
    ensures
        r == dependency_check(*dep),
{
    if !is_valid_crate_name(dep.name.as_str()) {
        return Err(DependencyProblem::InvalidName);
    }
    let mut i: usize = 0;
    while i < dep.features.len()
        invariant
            valid_crate_name(dep.name@),
            i <= dep.features@.len(),
            forall|j: int| 0 <= j < i ==> valid_feature(#[trigger] dep.features@[j]@),
        decreases dep.features@.len() - i,
    {
        if !is_valid_feature(dep.features[i].as_str()) {
            let ghost k = first_invalid_feature(dep.features@);
            assert(0 <= i < dep.features@.len() && !valid_feature(dep.features@[i as int]@)
                && forall|j: int| 0 <= j < i ==> valid_feature(#[trigger] dep.features@[j]@));
            assert(has_invalid_feature(dep.features@));
            assert(k == i) by {
                if k < i {
                    assert(valid_feature(dep.features@[k]@));
                } else if k > i {
                    assert(valid_feature(dep.features@[i as int]@));
                }
            }
            return Err(DependencyProblem::InvalidFeature(i));
        }
        i += 1;
    }
    if let Some(registry) = &dep.registry {
        if registry.as_str().unicode_len() > 0 {
            return Err(DependencyProblem::CrossRegistry);
        }
    }
    if canonical_req(dep.version_req.as_str()).is_none() {
        return Err(DependencyProblem::InvalidVersionReq);
    }
    if is_wildcard_req(dep.version_req.as_str()) {
        return Err(DependencyProblem::Wildcard);
    }
    if let Some(toml_name) = &dep.explicit_name_in_toml {
        if !is_valid_dependency_name(toml_name.as_str()) {
            return Err(DependencyProblem::InvalidExplicitName);
        }
    }
    Ok(())
}

} // verus!
