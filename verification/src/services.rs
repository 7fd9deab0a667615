//! Service-layer utilities: hashes of media data as text, recognition of
//! such hashes, and the stable hash of a track file with its tags removed.

use lofty::config::WriteOptions;
use lofty::file::TaggedFileExt;
use lofty::probe::Probe;
use vstd::prelude::*;

use crate::common::{blake3_hash, compute_data_hash};
use crate::text::{hex_lower, to_hex_lower};
use crate::McatError;

verus! {

/// Whether `c` is an ASCII hexadecimal digit, in either case.
pub open spec fn is_hex_char(c: char) -> bool {
    ('0' <= c <= '9') || ('a' <= c <= 'f') || ('A' <= c <= 'F')
}

/// Whether `s` is the hexadecimal text of a BLAKE3 hash: 64 hexadecimal
/// digits, in either case.
pub open spec fn is_blake3_hex(s: Seq<char>) -> bool {
    s.len() == 64 && forall|i: int| 0 <= i < s.len() ==> #[trigger] is_hex_char(s[i])
}

/// Calls `blake3::Hash::from_hex` and tells whether it succeeded. Claimed,
/// as its source shows: it succeeds exactly on 64 bytes that are each an
/// ASCII hexadecimal digit of either case; a character outside ASCII gives
/// a byte that is no such digit, so this is 64 such characters.
#[verifier::external_body]
fn hash_from_hex_ok(s: &str) -> (r: bool)
    ensures
        r == is_blake3_hex(s@),
{
    blake3::Hash::from_hex(s).is_ok()
}

/// Calculates the BLAKE3 hash of a byte slice, as lower-case hexadecimal.
pub fn get_hash_from_vec(data: &[u8]) -> (r: String)
    ensures
        r@ == hex_lower(blake3_hash(data@)),
        r@.len() == 64,
{
    let digest = compute_data_hash(data);
    let r = to_hex_lower(digest.as_slice());
    proof {
        crate::text::lemma_hex_lower_len(digest@);
    }
    r
}

/// Returns whether `s` is a valid BLAKE3 hash in hexadecimal.
pub fn is_valid_blake3_hex(s: &str) -> (r: bool)
    ensures
        r == is_blake3_hex(s@),
{
    hash_from_hex_ok(s)
}

/// The data of an audio file with its tags removed, as lofty removes them,
/// and the number of tags that lofty read and removed; nothing where lofty
/// cannot read the data as a tagged audio file or cannot remove a tag.
pub uninterp spec fn untagged_data(data: Seq<u8>) -> Option<(Seq<u8>, nat)>;

/// Calls lofty on the data of a file held in memory: `Probe::new` over the
/// bytes, `guess_file_type` and `read`, then `TagType::remove_from` the
/// bytes for each tag that lofty read. Claimed: the outcome is a function of
/// the data alone, `None` where one of these calls fails; with the data it
/// gives the number of tags read.
#[verifier::external_body]
fn strip_tags_with_count(data: Vec<u8>) -> (r: Option<(Vec<u8>, usize)>)
    ensures
        match r {
            Some(v) => untagged_data(data@) == Some((v.0@, v.1 as nat)),
            None => untagged_data(data@) is None,
        },
{
    let mut cursor = std::io::Cursor::new(data);
    let Ok(probe) = Probe::new(&mut cursor).guess_file_type() else { return None };
    let Ok(tagged_file) = probe.read() else { return None };
    for tag in tagged_file.tags() {
        cursor.set_position(0);
        let Ok(()) = tag.tag_type().remove_from(&mut cursor, WriteOptions::default()) else { return None };
    }
    Some((cursor.into_inner(), tagged_file.tags().len()))
}

/// What removing the tags of a file's data gives: the data without its
/// tags; [`McatError::ReadFailed`] where lofty cannot read the data as
/// tagged audio or cannot remove a tag; [`McatError::TagNotFound`] where the
/// data holds no tag.
pub open spec fn spec_stripped_data(data: Seq<u8>) -> Result<Seq<u8>, McatError> {
    match untagged_data(data) {
        None => Err(McatError::ReadFailed),
        Some((d, n)) => if n == 0 {
            Err(McatError::TagNotFound)
        } else {
            Ok(d)
        },
    }
}

/// Removes the tags from the data of an audio file. Fails with
/// [`McatError::TagNotFound`] where the data holds no tag, and with
/// [`McatError::ReadFailed`] where lofty cannot read it or cannot remove a
/// tag.
pub fn strip_tags_from_data(data: Vec<u8>) -> (r: Result<Vec<u8>, McatError>)
    ensures
        match r {
            Ok(v) => spec_stripped_data(data@) == Ok::<Seq<u8>, McatError>(v@),
            Err(e) => spec_stripped_data(data@) == Err::<Seq<u8>, McatError>(e),
        },
{
    match strip_tags_with_count(data) {
        None => Err(McatError::ReadFailed),
        Some((d, n)) => if n == 0 {
            Err(McatError::TagNotFound)
        } else {
            Ok(d)
        },
    }
}

/// The stable hash of a track file's data: the lower-case hexadecimal
/// BLAKE3 hash of the data with its tags removed, so that editing the tags
/// keeps the hash. Fails as [`strip_tags_from_data`] does.
pub fn stripped_hash(data: Vec<u8>) -> (r: Result<String, McatError>)
    ensures
        match r {
            Ok(h) => spec_stripped_data(data@) matches Ok(d) && h@ == hex_lower(blake3_hash(d)),
            Err(e) => spec_stripped_data(data@) == Err::<Seq<u8>, McatError>(e),
        },
{
    match strip_tags_from_data(data) {
        Ok(d) => Ok(get_hash_from_vec(d.as_slice())),
        Err(e) => Err(e),
    }
}

} // verus!
