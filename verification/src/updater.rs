//! Whether the program that runs is the one that the update server offers.

use crate::text::split_on;
use crate::text::str_split;
use vstd::prelude::*;
use vstd::string::StringExecFns;

verus! {

/// The SHA-256 digest of `data` as sixty-four lower-case hexadecimal
/// digits.
pub uninterp spec fn sha256_hex(data: Seq<u8>) -> Seq<char>;

/// `sha256::digest` of a byte slice: the SHA-256 digest of the bytes in
/// hexadecimal.
#[verifier::external_body]
fn digest_hex(data: &[u8]) -> (hex: String)
    ensures
        hex@ == sha256_hex(data@),
{
    sha256::digest(data)
}

/// What stands before the digest in the header by which the update server
/// describes what it offers.
pub open spec fn hash_marker() -> Seq<char> {
    "sha256-"@
}

/// Whether a content-hash header names another digest than `local_hash`:
/// the header has a marker, and what stands between its first marker and
/// its second, or its end, is not `local_hash`. A header without a marker
/// names nothing.
pub open spec fn names_other_hash(content_hash: Seq<char>, local_hash: Seq<char>) -> bool {
    let pieces = split_on(content_hash, hash_marker());
    pieces.len() >= 2 && pieces[1] != local_hash
}

/// Whether a content-hash header names another digest than `local_hash`.
pub fn hash_differs(content_hash: &str, local_hash: &str) -> (differs: bool)
    ensures
        differs == names_other_hash(content_hash@, local_hash@),
{
    proof {
        reveal_strlit("sha256-");
    }
    let pieces = str_split(content_hash, "sha256-");
    if pieces.len() >= 2 {
        pieces[1] != String::from_str(local_hash)
    } else {
        false
    }
}

/// Whether the update server offers another program than the one that
/// runs: it sent a content-hash header, and the header names another digest
/// than that of the running program's bytes.
pub fn update_available(executable: &[u8], content_hash: Option<&str>) -> (available: bool)
    ensures
        available == match content_hash {
            Some(header) => names_other_hash(header@, sha256_hex(executable@)),
            None => false,
        },
{
    let hash = digest_hex(executable);
    match content_hash {
        Some(header) => hash_differs(header, hash.as_str()),
        None => false,
    }
}

} // verus!
