//! The rules that the declared metadata of an upload must meet.
use vstd::prelude::*;
use vstd::string::*;
use crate::external::{canonical_req, license_parses, parsed_req, parses_as_license, parses_as_url, url_parses};
use crate::manifest::PackageManifest;
use crate::names::{is_digit, is_valid_feature, is_valid_feature_name, is_valid_keyword, valid_feature, valid_feature_name, valid_keyword};

verus! {

/// The most keywords a crate may declare.
pub const MAX_KEYWORDS: usize = 5;

/// The most categories a crate may declare.
pub const MAX_CATEGORIES: usize = 5;

/// The longest keyword, in characters.
pub const MAX_KEYWORD_LENGTH: usize = 20;

/// A metadata field that holds a URL.
#[derive(PartialEq, Eq, Structural, Clone, Copy, Debug)]
pub enum UrlField {
    Homepage,
    Documentation,
    Repository,
}

/// Why a URL field is refused.
#[derive(PartialEq, Eq, Structural, Clone, Copy, Debug)]
pub enum UrlError {
    /// It does not begin with `http://` or `https://`.
    Scheme,
    /// It does not parse as an absolute URL.
    Malformed,
}

/// One rule of the metadata that an upload breaks. Keywords, features and
/// their entries are named by their position in the manifest.
#[derive(PartialEq, Eq, Structural, Clone, Copy, Debug)]
pub enum MetadataProblem {
    /// The description, the license (with no license file), or both are
    /// missing or empty.
    MissingMetadata { description: bool, license: bool },
    /// The license expression does not parse.
    InvalidLicense,
    Url(UrlField, UrlError),
    /// The minimum toolchain version is not a bare dotted number.
    InvalidRustVersion,
    TooManyKeywords,
    KeywordTooLong(usize),
    InvalidKeyword(usize),
    TooManyCategories,
    /// More features than the limit.
    TooManyFeatures { limit: usize, count: usize },
    InvalidFeatureName(usize),
    /// A feature that enables more entries than the limit.
    TooManyEnabledFeatures { feature: usize, limit: usize, count: usize },
    /// An entry of a feature's list that is not valid.
    InvalidFeature(usize, usize),
}

/// Absent or empty.
pub open spec fn empty_field(s: Option<String>) -> bool {
    match s {
        Some(v) => v@.len() == 0,
        None => true,
    }
}

pub open spec fn is_prefix(p: Seq<char>, s: Seq<char>) -> bool {
    p.len() <= s.len() && s.subrange(0, p.len() as int) == p
}

/// The outcome of checking one URL field.
pub open spec fn url_check(u: Seq<char>) -> Result<(), UrlError> {
    if !is_prefix("http://"@, u) && !is_prefix("https://"@, u) {
        Err(UrlError::Scheme)
    } else if !url_parses(u) {
        Err(UrlError::Malformed)
    } else {
        Ok(())
    }
}

/// A bare dotted number: only digits and `.`, and a valid requirement.
pub open spec fn valid_rust_version(s: Seq<char>) -> bool {
    parsed_req(s) is Some && forall|i: int| 0 <= i < s.len() ==> is_digit(#[trigger] s[i])
        || s[i] == '.'
}

pub open spec fn missing_description(m: PackageManifest) -> bool {
    empty_field(m.description)
}

pub open spec fn missing_license(m: PackageManifest) -> bool {
    empty_field(m.license) && empty_field(m.license_file)
}

pub open spec fn license_problems(m: PackageManifest) -> Seq<MetadataProblem> {
    if missing_description(m) || missing_license(m) {
        let p = MetadataProblem::MissingMetadata {
            description: missing_description(m),
            license: missing_license(m),
        };
        if !missing_license(m) && m.license is Some && !license_parses(m.license->0@) {
            seq![p, MetadataProblem::InvalidLicense]
        } else {
            seq![p]
        }
    } else if m.license is Some && !license_parses(m.license->0@) {
        seq![MetadataProblem::InvalidLicense]
    } else {
        seq![]
    }
}

pub open spec fn url_problems(f: UrlField, u: Option<String>) -> Seq<MetadataProblem> {
    match u {
        Some(v) => match url_check(v@) {
            Err(e) => seq![MetadataProblem::Url(f, e)],
            Ok(_) => seq![],
        },
        None => seq![],
    }
}

pub open spec fn rust_version_problems(r: Option<String>) -> Seq<MetadataProblem> {
    match r {
        Some(v) => if valid_rust_version(v@) {
            seq![]
        } else {
            seq![MetadataProblem::InvalidRustVersion]
        },
        None => seq![],
    }
}

pub open spec fn keyword_problem(ks: Seq<String>, i: int) -> Seq<MetadataProblem> {
    if ks[i]@.len() > MAX_KEYWORD_LENGTH {
        seq![MetadataProblem::KeywordTooLong(i as usize)]
    } else if !valid_keyword(ks[i]@) {
        seq![MetadataProblem::InvalidKeyword(i as usize)]
    } else {
        seq![]
    }
}

/// The problems of the first `n` keywords, in order.
pub open spec fn keyword_problems_upto(ks: Seq<String>, n: int) -> Seq<MetadataProblem>
    decreases n,
{
    if n <= 0 {
        seq![]
    } else {
        keyword_problems_upto(ks, n - 1) + keyword_problem(ks, n - 1)
    }
}

pub open spec fn keyword_problems(ks: Seq<String>) -> Seq<MetadataProblem> {
    (if ks.len() > MAX_KEYWORDS {
        seq![MetadataProblem::TooManyKeywords]
    } else {
        seq![]
    }) + keyword_problems_upto(ks, ks.len() as int)
}

pub open spec fn category_problems(cs: Seq<String>) -> Seq<MetadataProblem> {
    if cs.len() > MAX_CATEGORIES {
        seq![MetadataProblem::TooManyCategories]
    } else {
        seq![]
    }
}

/// The problems of the first `n` entries of feature `i`'s list.
pub open spec fn value_problems_upto(vs: Seq<String>, i: int, n: int) -> Seq<MetadataProblem>
    decreases n,
{
    if n <= 0 {
        seq![]
    } else {
        value_problems_upto(vs, i, n - 1) + if valid_feature(vs[n - 1]@) {
            seq![]
        } else {
            seq![MetadataProblem::InvalidFeature(i as usize, (n - 1) as usize)]
        }
    }
}

pub open spec fn feature_problem(fs: Seq<(String, Vec<String>)>, i: int, limit: usize) -> Seq<
    MetadataProblem,
> {
    (if valid_feature_name(fs[i].0@) {
        seq![]
    } else {
        seq![MetadataProblem::InvalidFeatureName(i as usize)]
    }) + (if fs[i].1@.len() > limit {
        seq![
            MetadataProblem::TooManyEnabledFeatures {
                feature: i as usize,
                limit,
                count: fs[i].1@.len() as usize,
            },
        ]
    } else {
        seq![]
    }) + value_problems_upto(fs[i].1@, i, fs[i].1@.len() as int)
}

/// The problems of the first `n` features, in order.
pub open spec fn feature_problems_upto(fs: Seq<(String, Vec<String>)>, n: int, limit: usize) -> Seq<
    MetadataProblem,
>
    decreases n,
{
    if n <= 0 {
        seq![]
    } else {
        feature_problems_upto(fs, n - 1, limit) + feature_problem(fs, n - 1, limit)
    }
}

pub open spec fn feature_problems(fs: Seq<(String, Vec<String>)>, limit: usize) -> Seq<
    MetadataProblem,
> {
    (if fs.len() > limit {
        seq![MetadataProblem::TooManyFeatures { limit, count: fs.len() as usize }]
    } else {
        seq![]
    }) + feature_problems_upto(fs, fs.len() as int, limit)
}

/// Every rule of the metadata that `m` breaks, in the order the rules are
/// listed, with `limit` as the effective feature limit.
pub open spec fn metadata_problems(m: PackageManifest, limit: usize) -> Seq<MetadataProblem> {
    license_problems(m) + url_problems(UrlField::Homepage, m.homepage) + url_problems(
        UrlField::Documentation,
        m.documentation,
    ) + url_problems(UrlField::Repository, m.repository) + rust_version_problems(m.rust_version)
        + keyword_problems(m.keywords@) + category_problems(m.categories@) + feature_problems(
        m.features@,
        limit,
    )
}

/// The license to record: the expression where there is one, else the
/// sentinel `non-standard` where only a license file is declared.
pub open spec fn recorded_license(m: PackageManifest) -> Option<Seq<char>> {
    match m.license {
        Some(l) => Some(l@),
        None => if m.license_file is Some {
            Some(NON_STANDARD_LICENSE@)
        } else {
            None
        },
    }
}

/// What is recorded as the license of a crate that declares only a license file.
pub const NON_STANDARD_LICENSE: &'static str = "non-standard";

/// `parts` joined with `sep` between each two.
pub open spec fn join(parts: Seq<Seq<char>>, sep: Seq<char>) -> Seq<char>
    decreases parts.len(),
{
    if parts.len() == 0 {
        seq![]
    } else if parts.len() == 1 {
        parts[0]
    } else {
        join(parts.drop_last(), sep) + sep + parts.last()
    }
}

pub open spec fn str_views(parts: Seq<&str>) -> Seq<Seq<char>> {
    parts.map_values(|p: &str| p@)
}

/// The message for metadata fields that are missing or empty.
pub fn missing_metadata_error_message(missing: &[&str]) -> (r: String)
    ensures
        r@ == "missing or empty metadata fields: "@ + join(str_views(missing@), ", "@)
            + ". Please see https://doc.rust-lang.org/cargo/reference/manifest.html for more information on configuring these fields"@,
{
    let mut r = String::from_str("missing or empty metadata fields: ");
    let ghost head = r@;
    let mut i: usize = 0;
    while i < missing.len()
        invariant
            i <= missing@.len(),
            r@ == head + join(str_views(missing@.subrange(0, i as int)), ", "@),
        decreases missing@.len() - i,
    {
        let ghost done = missing@.subrange(0, i as int);
        let ghost next = missing@.subrange(0, i as int + 1);
        assert(next.drop_last() =~= done);
        assert(str_views(next).drop_last() =~= str_views(done));
        if i > 0 {
            r.append(", ");
        }
        r.append(missing[i]);
        i += 1;
        assert(r@ =~= head + join(str_views(next), ", "@));
    }
    assert(missing@.subrange(0, missing@.len() as int) =~= missing@);
    r.append(
        ". Please see https://doc.rust-lang.org/cargo/reference/manifest.html for more information on configuring these fields",
    );
    r
}

fn starts_with(s: &str, p: &str) -> (r: bool)
    ensures
        r == is_prefix(p@, s@),
{
    let n = p.unicode_len();
    if n > s.unicode_len() {
        return false;
    }
    let mut i: usize = 0;
    while i < n
        invariant
            n == p@.len() <= s@.len(),
            i <= n,
            forall|j: int| 0 <= j < i ==> s@[j] == p@[j],
        decreases n - i,
    {
        if s.get_char(i) != p.get_char(i) {
            assert(s@.subrange(0, n as int)[i as int] != p@[i as int]);
            return false;
        }
        i += 1;
    }
    assert(s@.subrange(0, n as int) =~= p@);
    true
}

fn is_empty_field(s: &Option<String>) -> (r: bool)
    ensures
        r == empty_field(*s),
{
    match s {
        Some(v) => v.as_str().unicode_len() == 0,
        None => true,
    }
}

/// Checks one URL field: it must begin with `http://` or `https://` and
/// parse as an absolute URL. An absent field passes.
pub fn validate_url(url: Option<&str>, field: UrlField) -> (r: Result<(), MetadataProblem>)
    ensures
        match url {
            None => r is Ok,
            Some(u) => match url_check(u@) {
                Ok(_) => r is Ok,
                Err(e) => r == Err::<(), MetadataProblem>(MetadataProblem::Url(field, e)),
            },
        },
{
    match url {
        None => Ok(()),
        Some(u) => {
            if !starts_with(u, "http://") && !starts_with(u, "https://") {
                Err(MetadataProblem::Url(field, UrlError::Scheme))
            } else if !parses_as_url(u) {
                Err(MetadataProblem::Url(field, UrlError::Malformed))
            } else {
                Ok(())
            }
        },
    }
}

/// Checks a minimum toolchain version: a valid requirement made of digits
/// and dots only, so no operators and no pre-release tags.
pub fn validate_rust_version(value: &str) -> (r: Result<(), MetadataProblem>)
    ensures
        r is Ok <==> valid_rust_version(value@),
        r is Err ==> r == Err::<(), MetadataProblem>(MetadataProblem::InvalidRustVersion),
{
    let n = value.unicode_len();
    let mut i: usize = 0;
    while i < n
        invariant
            n == value@.len(),
            i <= n,
            forall|j: int| 0 <= j < i ==> is_digit(#[trigger] value@[j]) || value@[j] == '.',
        decreases n - i,
    {
        let c = value.get_char(i);
        if !((48 <= c as u32 && c as u32 <= 57) || c == '.') {
            return Err(MetadataProblem::InvalidRustVersion);
        }
        i += 1;
    }
    match canonical_req(value) {
        Some(_) => Ok(()),
        None => Err(MetadataProblem::InvalidRustVersion),
    }
}

fn push_url_problem(problems: &mut Vec<MetadataProblem>, url: &Option<String>, field: UrlField)
    ensures
        final(problems)@ == old(problems)@ + url_problems(field, *url),
{
    match url {
        Some(u) => {
            match validate_url(Some(u.as_str()), field) {
                Err(p) => problems.push(p),
                Ok(_) => {},
            }
        },
        None => {},
    }
    assert(final(problems)@ =~= old(problems)@ + url_problems(field, *url));
}

fn push_keyword_problems(problems: &mut Vec<MetadataProblem>, ks: &Vec<String>)
    ensures
        final(problems)@ == old(problems)@ + keyword_problems(ks@),
{
    let ghost start = problems@;
    if ks.len() > MAX_KEYWORDS {
        problems.push(MetadataProblem::TooManyKeywords);
    }
    let ghost mid = problems@;
    let mut i: usize = 0;
    while i < ks.len()
        invariant
            i <= ks@.len(),
            problems@ == mid + keyword_problems_upto(ks@, i as int),
        decreases ks@.len() - i,
    {
        let k = ks[i].as_str();
        if k.unicode_len() > MAX_KEYWORD_LENGTH {
            problems.push(MetadataProblem::KeywordTooLong(i));
        } else if !is_valid_keyword(k) {
            problems.push(MetadataProblem::InvalidKeyword(i));
        }
        i += 1;
        assert(problems@ =~= mid + keyword_problems_upto(ks@, i as int));
    }
    assert(problems@ =~= start + keyword_problems(ks@));
}

fn push_feature_problems(
    problems: &mut Vec<MetadataProblem>,
    fs: &Vec<(String, Vec<String>)>,
    limit: usize,
)
    ensures
        final(problems)@ == old(problems)@ + feature_problems(fs@, limit),
{
    let ghost start = problems@;
    if fs.len() > limit {
        problems.push(MetadataProblem::TooManyFeatures { limit, count: fs.len() });
    }
    let ghost mid = problems@;
    let mut i: usize = 0;
    while i < fs.len()
        invariant
            i <= fs@.len(),
            problems@ == mid + feature_problems_upto(fs@, i as int, limit),
        decreases fs@.len() - i,
    {
        let ghost before = problems@;
        let name = fs[i].0.as_str();
        let values = &fs[i].1;
        if !is_valid_feature_name(name) {
            problems.push(MetadataProblem::InvalidFeatureName(i));
        }
        if values.len() > limit {
            problems.push(
                MetadataProblem::TooManyEnabledFeatures { feature: i, limit, count: values.len() },
            );
        }
        let ghost vstart = problems@;
        let mut j: usize = 0;
        while j < values.len()
            invariant
                i < fs@.len(),
                *values == fs@[i as int].1,
                j <= values@.len(),
                problems@ == vstart + value_problems_upto(values@, i as int, j as int),
            decreases values@.len() - j,
        {
            if !is_valid_feature(values[j].as_str()) {
                problems.push(MetadataProblem::InvalidFeature(i, j));
            }
            j += 1;
            assert(problems@ =~= vstart + value_problems_upto(values@, i as int, j as int));
        }
        assert(problems@ =~= before + feature_problem(fs@, i as int, limit));
        i += 1;
        assert(problems@ =~= mid + feature_problems_upto(fs@, i as int, limit));
    }
    assert(problems@ =~= start + feature_problems(fs@, limit));
}

/// Checks every rule of the declared metadata, with `max_features` as the
/// effective feature limit, and reports each one that fails. Where none
/// fails, returns the license to record.
pub fn validate_manifest(m: &PackageManifest, max_features: usize) -> (r: Result<
    Option<String>,
    Vec<MetadataProblem>,
>)
    ensures
        match r {
            Ok(l) => metadata_problems(*m, max_features).len() == 0 && match (l, recorded_license(*m)) {
                (Some(a), Some(b)) => a@ == b,
                (None, None) => true,
                _ => false,
            },
            Err(ps) => ps@ == metadata_problems(*m, max_features) && ps@.len() > 0,
        },
{
    let mut problems: Vec<MetadataProblem> = Vec::new();
    let no_description = is_empty_field(&m.description);
    let no_license = is_empty_field(&m.license) && is_empty_field(&m.license_file);
    if no_description || no_license {
        problems.push(
            MetadataProblem::MissingMetadata { description: no_description, license: no_license },
        );
    }
    if !no_license {
        match &m.license {
            Some(l) => {
                if !parses_as_license(l.as_str()) {
                    problems.push(MetadataProblem::InvalidLicense);
                }
            },
            None => {},
        }
    }
    assert(problems@ =~= license_problems(*m));
    push_url_problem(&mut problems, &m.homepage, UrlField::Homepage);
    push_url_problem(&mut problems, &m.documentation, UrlField::Documentation);
    push_url_problem(&mut problems, &m.repository, UrlField::Repository);
    match &m.rust_version {
        Some(v) => {
            match validate_rust_version(v.as_str()) {
                Err(p) => problems.push(p),
                Ok(_) => {},
            }
        },
        None => {},
    }
    assert(problems@ =~= license_problems(*m) + url_problems(UrlField::Homepage, m.homepage)
        + url_problems(UrlField::Documentation, m.documentation) + url_problems(
        UrlField::Repository,
        m.repository,
    ) + rust_version_problems(m.rust_version));
    push_keyword_problems(&mut problems, &m.keywords);
    if m.categories.len() > MAX_CATEGORIES {
        problems.push(MetadataProblem::TooManyCategories);
    }
    push_feature_problems(&mut problems, &m.features, max_features);
    assert(problems@ =~= metadata_problems(*m, max_features));
    if problems.len() > 0 {
        return Err(problems);
    }
    match &m.license {
        Some(l) => Ok(Some(l.clone())),
        None => {
            if m.license_file.is_some() {
                Ok(Some(String::from_str(NON_STANDARD_LICENSE)))
            } else {
                Ok(None)
            }
        },
    }
}

} // verus!
