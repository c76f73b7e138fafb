//! Collection splitting: which face indices does a file offer?
//!
//! A font file either bundles several faces (a collection, recognised by a
//! leading tag and a declared face count) or holds at most one. Splitting
//! never fails: anything that is not a recognised collection is handed on as
//! a single face at index 0, and the extractor decides its validity.

use vstd::prelude::*;

verus! {

/// The big-endian 32-bit integer formed by four bytes.
pub open spec fn spec_be_u32(b0: u8, b1: u8, b2: u8, b3: u8) -> u32 {
    (b0 as int * 0x100_0000 + b1 as int * 0x1_0000 + b2 as int * 0x100 + b3 as int) as u32
}

/// The declared face count of a collection file: the big-endian integer at
/// bytes 8..12, present exactly when the data is at least 12 bytes long and
/// starts with the collection tag `ttcf`.
pub open spec fn spec_fonts_in_collection(data: Seq<u8>) -> Option<u32> {
    if data.len() >= 12 && data[0] == 0x74u8 && data[1] == 0x74u8 && data[2] == 0x63u8
        && data[3] == 0x66u8 {
        Some(spec_be_u32(data[8], data[9], data[10], data[11]))
    } else {
        None
    }
}

/// Relies on ttf_parser::fonts_in_collection: it returns the face count
/// stored big-endian at bytes 8..12 exactly when the data is at least 12
/// bytes long and begins with the collection tag `ttcf` (it reads the
/// leading 32-bit magic, rejects every other magic, skips the version word
/// and reads the count), and `None` otherwise.
#[verifier::external_body]
fn collection_face_count(data: &[u8]) -> (r: Option<u32>)
    ensures
        r == spec_fonts_in_collection(data@),
{
    ttf_parser::fonts_in_collection(data)
}

/// The face indices a file offers: `0, 1, ..., n - 1` for a collection
/// declaring `n` faces, and the single index 0 for anything else.
pub open spec fn spec_split(data: Seq<u8>) -> Seq<u32> {
    match spec_fonts_in_collection(data) {
        Some(n) => Seq::new(n as nat, |k: int| k as u32),
        None => seq![0u32],
    }
}

/// Yields the ordered face indices to process for one file's bytes: for a
/// recognised collection declaring `n` faces the indices `0..n`, and for
/// everything else (single face, unknown format, corrupt data) exactly the
/// one index 0.
pub fn split(data: &[u8]) -> (r: Vec<u32>)
    ensures
        r@ == spec_split(data@),
{
    let mut out: Vec<u32> = Vec::new();
    match collection_face_count(data) {
        Some(n) => {
            let mut k: u32 = 0;
            while k < n
                invariant
                    k <= n,
                    out@.len() == k as int,
                    forall|j: int| 0 <= j < k as int ==> out@[j] == j as u32,
                decreases n - k,
            {
                out.push(k);
                k = k + 1;
            }
            proof {
                assert(out@ =~= spec_split(data@));
            }
        }
        None => {
            out.push(0);
            proof {
                assert(out@ =~= spec_split(data@));
            }
        }
    }
    out
}

/// Idempotent splitting: for any input that is not a recognised collection
/// (empty, random, truncated, or a single-face font), splitting yields
/// exactly the one-element sequence holding index 0.
pub proof fn lemma_split_non_collection(data: Seq<u8>)
    requires
        spec_fonts_in_collection(data) is None,
    ensures
        spec_split(data) =~= seq![0u32],
{
}

/// Collection completeness: for a collection declaring `n` faces, splitting
/// yields exactly the indices `0, 1, ..., n - 1`, each exactly once and in
/// order.
pub proof fn lemma_split_collection(data: Seq<u8>, n: u32)
    requires
        spec_fonts_in_collection(data) == Some(n),
    ensures
        spec_split(data).len() == n as int,
        forall|k: int| 0 <= k < n as int ==> spec_split(data)[k] == k as u32,
{
}

} // verus!
