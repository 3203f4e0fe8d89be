//! The content fingerprint by which repeated change signals are told apart.

use vstd::prelude::*;

verus! {

/// The CRC-32 checksum of `bytes`, as computed by `crc32fast::hash`.
pub uninterp spec fn crc32(bytes: Seq<u8>) -> u32;

/// `crc32fast::hash`: the checksum is a function of the bytes alone.
#[verifier::external_body]
fn crc32_hash(buf: &[u8]) -> (sum: u32)
    ensures
        sum == crc32(buf@),
{
    crc32fast::hash(buf)
}

/// The fingerprint of a file's content: the checksum of its bytes, and 0 for
/// a file that could not be read.
pub open spec fn fingerprint_of(content: Option<Seq<u8>>) -> u32 {
    match content {
        Some(bytes) => crc32(bytes),
        None => 0,
    }
}

/// The view of a file's content as read by the host.
pub open spec fn content_view(content: Option<Vec<u8>>) -> Option<Seq<u8>> {
    match content {
        Some(bytes) => Some(bytes@),
        None => None,
    }
}

/// The fingerprint of what the host read from a file; `None` stands for a
/// file that could not be read.
pub fn hash_file(content: &Option<Vec<u8>>) -> (fingerprint: u32)
    ensures
        fingerprint == fingerprint_of(content_view(*content)),
{
    match content {
        Some(bytes) => crc32_hash(bytes.as_slice()),
        None => 0,
    }
}

} // verus!
