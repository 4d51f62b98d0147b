//! Content hashes and the decision that guards a checked save. Writing the
//! file itself is I/O and stays outside the library.

use std::collections::hash_map::DefaultHasher;
use std::hash::{BuildHasher, BuildHasherDefault};
use vstd::prelude::*;

verus! {

/// Why a save did not happen.
#[derive(Debug, Clone, PartialEq, Eq)]
pub enum SaveError {
    MissingParent(String),
    Io { path: String, message: String },
    ExternalConflict(String),
}

/// The `DefaultHasher` digest of a byte string.
pub uninterp spec fn bytes_hash(bytes: Seq<u8>) -> u64;

/// The `DefaultHasher` digest of a text.
pub uninterp spec fn text_hash(text: Seq<char>) -> u64;

/// `DefaultHasher` over `bytes` (`<[u8] as Hash>::hash`, then `finish`).
#[verifier::external_body]
pub(crate) fn hash_bytes(bytes: &[u8]) -> (h: u64)
    ensures
        h == bytes_hash(bytes@),
{
    BuildHasherDefault::<DefaultHasher>::default().hash_one(bytes)
}

/// `DefaultHasher` over a text (`<str as Hash>::hash`, then `finish`).
#[verifier::external_body]
pub(crate) fn hash_text(text: &str) -> (h: u64)
    ensures
        h == text_hash(text@),
{
    BuildHasherDefault::<DefaultHasher>::default().hash_one(text)
}

/// Hash of the bytes a file holds on disk.
pub fn disk_content_hash(bytes: &[u8]) -> (h: u64)
    ensures
        h == bytes_hash(bytes@),
{
    hash_bytes(bytes)
}

/// A checked save goes ahead only when the file on disk is still the one the
/// buffer was read from: `current` is the hash of what the disk holds now
/// (`None`: no file), `expected` the hash the buffer remembers.
pub fn check_unchanged(path: &String, current: Option<u64>, expected: Option<u64>) -> (r: Result<
    (),
    SaveError,
>)
    ensures
        r is Ok <==> current == expected,
        r is Err ==> (r matches Err(SaveError::ExternalConflict(p)) && p@ == path@),
{
    let same = match (current, expected) {
        (Some(a), Some(b)) => a == b,
        (None, None) => true,
        _ => false,
    };
    if same {
        Ok(())
    } else {
        Err(SaveError::ExternalConflict(path.clone()))
    }
}

} // verus!
