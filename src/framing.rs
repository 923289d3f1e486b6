//! Splits an upload into its metadata segment and its artifact segment.
//!
//! The upload is framed as `[u32 LE length][metadata][u32 LE length][artifact]`.
use vstd::prelude::*;

verus! {

/// The value of four bytes read as a little-endian unsigned integer.
pub open spec fn le_u32(b: Seq<u8>, at: int) -> int {
    (b[at] as int) + (b[at + 1] as int) * 256 + (b[at + 2] as int) * 65536 + (b[at + 3] as int)
        * 16777216
}

/// Which boundary of the framing was violated.
#[derive(PartialEq, Eq, Structural, Clone, Copy, Debug)]
pub enum FramingError {
    /// Fewer than four bytes remain where the metadata length should stand.
    MissingMetadataLength,
    /// The declared metadata length exceeds the bytes that follow it.
    MetadataTooLong(u32),
    /// Fewer than four bytes remain where the artifact length should stand.
    MissingTarballLength,
    /// The declared artifact length exceeds the bytes that follow it.
    TarballTooLong(u32),
}

impl FramingError {
    /// The message shown to the uploader.
    pub fn message(&self) -> (r: String)
        ensures
            r@ == match self {
                FramingError::MissingMetadataLength => "invalid metadata length"@,
                FramingError::MetadataTooLong(_) => "invalid metadata length for remaining payload"@,
                FramingError::MissingTarballLength => "invalid tarball length"@,
                FramingError::TarballTooLong(_) => "invalid tarball length for remaining payload"@,
            },
    {
        match self {
            FramingError::MissingMetadataLength => String::from_str("invalid metadata length"),
            FramingError::MetadataTooLong(_) => String::from_str(
                "invalid metadata length for remaining payload",
            ),
            FramingError::MissingTarballLength => String::from_str("invalid tarball length"),
            FramingError::TarballTooLong(_) => String::from_str(
                "invalid tarball length for remaining payload",
            ),
        }
    }
}

/// The outcome of decoding `b`, as the framing defines it: the metadata
/// segment and the artifact segment, or the first boundary that fails.
pub open spec fn split_spec(b: Seq<u8>) -> Result<(Seq<u8>, Seq<u8>), FramingError> {
    if b.len() < 4 {
        Err(FramingError::MissingMetadataLength)
    } else if le_u32(b, 0) > b.len() - 4 {
        Err(FramingError::MetadataTooLong(le_u32(b, 0) as u32))
    } else {
        let json_end = 4 + le_u32(b, 0);
        if b.len() - json_end < 4 {
            Err(FramingError::MissingTarballLength)
        } else if le_u32(b, json_end) > b.len() - json_end - 4 {
            Err(FramingError::TarballTooLong(le_u32(b, json_end) as u32))
        } else {
            let start = json_end + 4;
            Ok((b.subrange(4, json_end), b.subrange(start, start + le_u32(b, json_end))))
        }
    }
}

fn read_u32_le(b: &[u8], at: usize) -> (r: u32)
    requires
        at + 4 <= b@.len(),
    ensures
        r as int == le_u32(b@, at as int),
{
    let v: u64 = (b[at] as u64) + (b[at + 1] as u64) * 256 + (b[at + 2] as u64) * 65536 + (
    b[at + 3] as u64) * 16777216;
    v as u32
}

fn copy_range(b: &[u8], from: usize, to: usize) -> (r: Vec<u8>)
    requires
        from <= to <= b@.len(),
    ensures
        r@ == b@.subrange(from as int, to as int),
{
    let mut r: Vec<u8> = Vec::with_capacity(to - from);
    let mut i: usize = from;
    while i < to
        invariant
            from <= i <= to <= b@.len(),
            r@ == b@.subrange(from as int, i as int),
        decreases to - i,
    {
        r.push(b[i]);
        i += 1;
        assert(r@ =~= b@.subrange(from as int, i as int));
    }
    r
}

/// Splits an upload into its metadata bytes and its artifact bytes.
///
/// Every declared length is checked against what remains before it is used,
/// so a length that runs past the end gives an error, never a read beyond it.
pub fn split_body(bytes: &[u8]) -> (r: Result<(Vec<u8>, Vec<u8>), FramingError>)
    ensures
        match (r, split_spec(bytes@)) {
            (Ok((m, t)), Ok((ms, ts))) => m@ == ms && t@ == ts,
            (Err(e), Err(es)) => e == es,
            _ => false,
        },
{
    let len = bytes.len();
    if len < 4 {
        return Err(FramingError::MissingMetadataLength);
    }
    let json_len = read_u32_le(bytes, 0);
    if json_len as usize > len - 4 {
        return Err(FramingError::MetadataTooLong(json_len));
    }
    let json_end = 4 + json_len as usize;
    if len - json_end < 4 {
        return Err(FramingError::MissingTarballLength);
    }
    let tarball_len = read_u32_le(bytes, json_end);
    if tarball_len as usize > len - json_end - 4 {
        return Err(FramingError::TarballTooLong(tarball_len));
    }
    let start = json_end + 4;
    let json_bytes = copy_range(bytes, 4, json_end);
    let tarball_bytes = copy_range(bytes, start, start + tarball_len as usize);
    Ok((json_bytes, tarball_bytes))
}

/// A payload whose declared metadata or artifact length runs past the end of
/// the buffer is refused with a framing error.
pub proof fn lemma_overlong_length_refused(b: Seq<u8>)
    requires
        b.len() >= 4,
        le_u32(b, 0) > b.len() - 4 || (le_u32(b, 0) + 8 <= b.len() && le_u32(b, 4 + le_u32(b, 0))
            > b.len() - 8 - le_u32(b, 0)),
    ensures
        split_spec(b) is Err,
{
}

} // verus!
