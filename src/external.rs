//! Calls into other crates that the pipeline relies on, each with the
//! contract that the crate's documentation and source give it.
use vstd::prelude::*;
use sha2::Digest;

verus! {

/// The canonical rendering of `s` as a semantic version, or `None` where
/// `s` is not one.
pub uninterp spec fn parsed_version(s: Seq<char>) -> Option<Seq<char>>;

/// The canonical rendering of `s` as a version requirement, or `None` where
/// `s` is not one.
pub uninterp spec fn parsed_req(s: Seq<char>) -> Option<Seq<char>>;

/// Whether `s` parses as the requirement that accepts any version (`*`).
pub uninterp spec fn req_is_wildcard(s: Seq<char>) -> bool;

/// Whether `s` parses as an absolute URL.
pub uninterp spec fn url_parses(s: Seq<char>) -> bool;

/// Whether `s` parses as a license expression (lenient mode).
pub uninterp spec fn license_parses(s: Seq<char>) -> bool;

/// The SHA-256 digest of `b`.
pub uninterp spec fn sha256_of(b: Seq<u8>) -> Seq<u8>;

/// One lowercase hexadecimal digit.
pub open spec fn hex_digit(n: int) -> char {
    seq!['0', '1', '2', '3', '4', '5', '6', '7', '8', '9', 'a', 'b', 'c', 'd', 'e', 'f'][n]
}

/// `b` written as lowercase hexadecimal, two digits per byte.
pub open spec fn hex_lower(b: Seq<u8>) -> Seq<char>
    decreases b.len(),
{
    if b.len() == 0 {
        Seq::empty()
    } else {
        hex_lower(b.drop_last()) + seq![
            hex_digit(b.last() as int / 16),
            hex_digit(b.last() as int % 16),
        ]
    }
}

/// Relies on `semver::Version::parse`, then its `Display` impl: the version
/// in canonical form, or `None` where the text is no semantic version.
#[verifier::external_body]
pub(crate) fn canonical_version(s: &str) -> (r: Option<String>)
    ensures
        match r {
            Some(v) => parsed_version(s@) == Some(v@),
            None => parsed_version(s@) is None,
        },
{
    match semver::Version::parse(s) {
        Ok(v) => Some(v.to_string()),
        Err(_) => None,
    }
}

/// Relies on `semver::VersionReq::parse`, then its `Display` impl: the
/// requirement in canonical form, or `None` where it does not parse.
#[verifier::external_body]
pub(crate) fn canonical_req(s: &str) -> (r: Option<String>)
    ensures
        match r {
            Some(v) => parsed_req(s@) == Some(v@),
            None => parsed_req(s@) is None,
        },
{
    match semver::VersionReq::parse(s) {
        Ok(req) => Some(req.to_string()),
        Err(_) => None,
    }
}

/// Relies on `semver::VersionReq::parse` and its `==`: whether the text
/// parses as `VersionReq::STAR`, which only a parsed requirement can be.
#[verifier::external_body]
pub(crate) fn is_wildcard_req(s: &str) -> (r: bool)
    ensures
        r == req_is_wildcard(s@),
        r ==> parsed_req(s@) is Some,
{
    match semver::VersionReq::parse(s) {
        Ok(req) => req == semver::VersionReq::STAR,
        Err(_) => false,
    }
}

/// Relies on `url::Url::parse`: whether the text is a well-formed absolute URL.
#[verifier::external_body]
pub(crate) fn parses_as_url(s: &str) -> (r: bool)
    ensures
        r == url_parses(s@),
{
    url::Url::parse(s).is_ok()
}

/// Relies on `spdx::Expression::parse_mode` in its lenient mode: whether the
/// text is a license expression.
#[verifier::external_body]
pub(crate) fn parses_as_license(s: &str) -> (r: bool)
    ensures
        r == license_parses(s@),
{
    spdx::Expression::parse_mode(s, spdx::ParseMode::LAX).is_ok()
}

/// Relies on `sha2::Sha256::digest`: the 32-byte digest of the data.
#[verifier::external_body]
pub(crate) fn sha256(b: &[u8]) -> (r: Vec<u8>)
    ensures
        r@ == sha256_of(b@),
        r@.len() == 32,
{
    sha2::Sha256::digest(b).to_vec()
}

/// Relies on `hex::encode`: two lowercase hexadecimal digits per byte.
#[verifier::external_body]
pub(crate) fn to_hex(b: &[u8]) -> (r: String)
    ensures
        r@ == hex_lower(b@),
{
    hex::encode(b)
}

} // verus!
