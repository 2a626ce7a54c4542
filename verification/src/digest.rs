//! The content digest behind every header and message identifier.

use vstd::prelude::*;

verus! {

/// The digest of a byte string.  Its value is a function of the input
/// bytes alone; nothing further is assumed of it.
pub uninterp spec fn digest_of(data: Seq<u8>) -> Seq<u8>;

/// Relies on `blake3::hash`: the 32-byte digest of the input, a function
/// of the input bytes alone.
#[verifier::external_body]
pub(crate) fn blake3_digest(data: &Vec<u8>) -> (r: [u8; 32])
    ensures
        r@ == digest_of(data@),
{
    *blake3::hash(data.as_slice()).as_bytes()
}

/// Compares two 32-byte strings.
pub fn bytes32_eq(a: &[u8; 32], b: &[u8; 32]) -> (r: bool)
    ensures
        r == (a@ == b@),
{
    let mut i: usize = 0;
    while i < 32
        invariant
            i <= 32,
            forall|j: int| 0 <= j < i ==> a@[j] == b@[j],
        decreases 32 - i,
    {
        if a[i] != b[i] {
            return false;
        }
        i += 1;
    }
    assert(a@ =~= b@);
    true
}

} // verus!
