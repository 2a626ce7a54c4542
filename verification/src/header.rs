//! Headers, their content hash and the hash-linkage predicate that the
//! chain verifier enforces.

use vstd::prelude::*;

use crate::codec::{encode_u32, encode_u64, u32_le, u64_le};
use crate::digest::{blake3_digest, bytes32_eq, digest_of};

verus! {

/// 32-byte content identifier of a header, derived deterministically from
/// the header's fields.
#[derive(Clone, Copy, PartialEq, Eq, Debug)]
pub struct HeaderHash {
    pub bytes: [u8; 32],
}

impl View for HeaderHash {
    type V = Seq<u8>;

    open spec fn view(&self) -> Seq<u8> {
        self.bytes@
    }
}

impl HeaderHash {
    /// Compares two hashes by value.
    pub fn same(&self, other: &HeaderHash) -> (r: bool)
        ensures
            r == (self@ == other@),
    {
        bytes32_eq(&self.bytes, &other.bytes)
    }
}

/// A block header: its position in the chain, the hash of its
/// predecessor, and the content the chain commits to at that height.
#[derive(Clone, Copy, PartialEq, Eq, Debug)]
pub struct Header {
    pub height: u32,
    pub previous: HeaderHash,
    pub timestamp: u64,
    pub merkle_root: [u8; 32],
}

/// The bytes a header's hash is computed over: every field, in order.
pub open spec fn header_bytes(h: Header) -> Seq<u8> {
    u32_le(h.height) + h.previous@ + u64_le(h.timestamp) + h.merkle_root@
}

/// The content hash of a header.
pub open spec fn hash_of(h: Header) -> Seq<u8> {
    digest_of(header_bytes(h))
}

/// Appends a fixed 32-byte string to `out`.
fn push_bytes32(out: &mut Vec<u8>, b: &[u8; 32])
    ensures
        final(out)@ == old(out)@ + b@,
{
    let ghost start = out@;
    let mut i: usize = 0;
    while i < 32
        invariant
            i <= 32,
            out@ == start + b@.subrange(0, i as int),
        decreases 32 - i,
    {
        out.push(b[i]);
        i += 1;
        assert(out@ =~= start + b@.subrange(0, i as int));
    }
    assert(out@ =~= start + b@);
}

/// Serializes a header into the bytes its hash is computed over.
pub fn encode_header(h: &Header) -> (r: Vec<u8>)
    ensures
        r@ == header_bytes(*h),
{
    let mut out: Vec<u8> = Vec::new();
    encode_u32(&mut out, h.height);
    push_bytes32(&mut out, &h.previous.bytes);
    encode_u64(&mut out, h.timestamp);
    push_bytes32(&mut out, &h.merkle_root);
    assert(out@ =~= header_bytes(*h));
    out
}

impl Header {
    /// The header's content hash.
    pub fn hash(&self) -> (r: HeaderHash)
        ensures
            r@ == hash_of(*self),
    {
        let encoded = encode_header(self);
        HeaderHash { bytes: blake3_digest(&encoded) }
    }
}

/// `h` extends a chain whose frontier is `(prev_height, prev_hash)`:
/// it points back at that hash and sits exactly one height above it.
pub open spec fn follows(prev_height: u32, prev_hash: Seq<u8>, h: Header) -> bool {
    &&& h.previous@ == prev_hash
    &&& h.height == prev_height + 1
}

/// The whole sequence is one unbroken, height-ascending, hash-linked
/// chain anchored at `(root_height, root_hash)`.
pub open spec fn chain_linked(root_height: u32, root_hash: Seq<u8>, s: Seq<Header>) -> bool {
    &&& (s.len() > 0 ==> follows(root_height, root_hash, s[0]))
    &&& forall|i: int|
        #![trigger s[i]]
        1 <= i < s.len() ==> follows(s[i - 1].height, hash_of(s[i - 1]), s[i])
}

/// Checks that `h` extends the frontier `(prev_height, prev_hash)`.
pub fn check_follows(prev_height: u32, prev_hash: &HeaderHash, h: &Header) -> (r: bool)
    ensures
        r == follows(prev_height, prev_hash@, *h),
{
    if !h.previous.same(prev_hash) {
        return false;
    }
    prev_height < u32::MAX && h.height == prev_height + 1
}

} // verus!
