//! Byte-level encoding shared by the hashing and wire-format code:
//! little-endian integers, compact length prefixes and length-prefixed
//! byte strings.

use vstd::prelude::*;

verus! {

/// The four little-endian bytes of a `u32`.
pub open spec fn u32_le(x: u32) -> Seq<u8> {
    seq![
        (x & 0xff) as u8,
        ((x >> 8) & 0xff) as u8,
        ((x >> 16) & 0xff) as u8,
        ((x >> 24) & 0xff) as u8,
    ]
}

/// The eight little-endian bytes of a `u64`.
pub open spec fn u64_le(x: u64) -> Seq<u8> {
    seq![
        (x & 0xff) as u8,
        ((x >> 8) & 0xff) as u8,
        ((x >> 16) & 0xff) as u8,
        ((x >> 24) & 0xff) as u8,
        ((x >> 32) & 0xff) as u8,
        ((x >> 40) & 0xff) as u8,
        ((x >> 48) & 0xff) as u8,
        ((x >> 56) & 0xff) as u8,
    ]
}

/// Compact length prefix: one byte for small values, otherwise a tag
/// followed by the little-endian value in the smallest width that holds it.
pub open spec fn compact_len(x: u64) -> Seq<u8> {
    if x < 0xfd {
        seq![x as u8]
    } else if x <= 0xffff {
        seq![0xfdu8, (x & 0xff) as u8, ((x >> 8) & 0xff) as u8]
    } else if x <= 0xffff_ffff {
        seq![0xfeu8] + u32_le(x as u32)
    } else {
        seq![0xffu8] + u64_le(x)
    }
}

/// A byte string on the wire: its compact length, then its bytes.
pub open spec fn bytes_wire(b: Seq<u8>) -> Seq<u8> {
    compact_len(b.len() as u64) + b
}

/// Appends the little-endian bytes of `x` to `out`.
pub fn encode_u32(out: &mut Vec<u8>, x: u32)
    ensures
        final(out)@ == old(out)@ + u32_le(x),
{
    out.push((x & 0xff) as u8);
    out.push(((x >> 8) & 0xff) as u8);
    out.push(((x >> 16) & 0xff) as u8);
    out.push(((x >> 24) & 0xff) as u8);
    assert(out@ =~= old(out)@ + u32_le(x));
}

/// Appends the little-endian bytes of `x` to `out`.
pub fn encode_u64(out: &mut Vec<u8>, x: u64)
    ensures
        final(out)@ == old(out)@ + u64_le(x),
{
    out.push((x & 0xff) as u8);
    out.push(((x >> 8) & 0xff) as u8);
    out.push(((x >> 16) & 0xff) as u8);
    out.push(((x >> 24) & 0xff) as u8);
    out.push(((x >> 32) & 0xff) as u8);
    out.push(((x >> 40) & 0xff) as u8);
    out.push(((x >> 48) & 0xff) as u8);
    out.push(((x >> 56) & 0xff) as u8);
    assert(out@ =~= old(out)@ + u64_le(x));
}

/// Appends the compact length prefix of `x` to `out`.
pub fn encode_compact_len(out: &mut Vec<u8>, x: u64)
    ensures
        final(out)@ == old(out)@ + compact_len(x),
{
    if x < 0xfd {
        out.push(x as u8);
        assert(out@ =~= old(out)@ + compact_len(x));
    } else if x <= 0xffff {
        out.push(0xfd);
        out.push((x & 0xff) as u8);
        out.push(((x >> 8) & 0xff) as u8);
        assert(out@ =~= old(out)@ + compact_len(x));
    } else if x <= 0xffff_ffff {
        out.push(0xfe);
        encode_u32(out, x as u32);
        assert(out@ =~= old(out)@ + compact_len(x));
    } else {
        out.push(0xff);
        encode_u64(out, x);
        assert(out@ =~= old(out)@ + compact_len(x));
    }
}

/// The `u32` read little-endian from the four bytes at `pos`.
pub open spec fn le_u32_at(b: Seq<u8>, pos: int) -> u32 {
    (b[pos] as u32) | ((b[pos + 1] as u32) << 8) | ((b[pos + 2] as u32) << 16) | ((b[pos + 3]
        as u32) << 24)
}

/// The `u64` read little-endian from the eight bytes at `pos`.
pub open spec fn le_u64_at(b: Seq<u8>, pos: int) -> u64 {
    (b[pos] as u64) | ((b[pos + 1] as u64) << 8) | ((b[pos + 2] as u64) << 16) | ((b[pos + 3]
        as u64) << 24) | ((b[pos + 4] as u64) << 32) | ((b[pos + 5] as u64) << 40) | ((b[pos + 6]
        as u64) << 48) | ((b[pos + 7] as u64) << 56)
}

/// Value and end position of a compact length prefix read at `pos`,
/// if a canonical one is there: a wider form whose value the next
/// narrower form could carry is rejected.
pub open spec fn parse_compact_len(b: Seq<u8>, pos: int) -> Option<(u64, int)> {
    if pos < 0 || pos >= b.len() {
        None
    } else {
        let tag = b[pos];
        if tag < 0xfd {
            Some((tag as u64, pos + 1))
        } else if tag == 0xfd {
            if pos + 3 <= b.len() {
                let v = (b[pos + 1] as u64) | ((b[pos + 2] as u64) << 8);
                if v >= 0xfd {
                    Some((v, pos + 3))
                } else {
                    None
                }
            } else {
                None
            }
        } else if tag == 0xfe {
            if pos + 5 <= b.len() {
                let v = le_u32_at(b, pos + 1) as u64;
                if v > 0xffff {
                    Some((v, pos + 5))
                } else {
                    None
                }
            } else {
                None
            }
        } else {
            if pos + 9 <= b.len() {
                let v = le_u64_at(b, pos + 1);
                if v > 0xffff_ffff {
                    Some((v, pos + 9))
                } else {
                    None
                }
            } else {
                None
            }
        }
    }
}

/// Reading four bytes that were written little-endian gives the value
/// back.
pub proof fn lemma_le_u32_at(b: Seq<u8>, pos: int, x: u32)
    requires
        0 <= pos,
        pos + 4 <= b.len(),
        b.subrange(pos, pos + 4) == u32_le(x),
    ensures
        le_u32_at(b, pos) == x,
{
    assert(b[pos] == u32_le(x)[0]);
    assert(b[pos + 1] == u32_le(x)[1]);
    assert(b[pos + 2] == u32_le(x)[2]);
    assert(b[pos + 3] == u32_le(x)[3]);
    assert(((x & 0xff) as u8 as u32) | ((((x >> 8) & 0xff) as u8 as u32) << 8) | ((((x >> 16)
        & 0xff) as u8 as u32) << 16) | ((((x >> 24) & 0xff) as u8 as u32) << 24) == x)
        by (bit_vector);
}

/// Reading eight bytes that were written little-endian gives the value
/// back.
pub proof fn lemma_le_u64_at(b: Seq<u8>, pos: int, x: u64)
    requires
        0 <= pos,
        pos + 8 <= b.len(),
        b.subrange(pos, pos + 8) == u64_le(x),
    ensures
        le_u64_at(b, pos) == x,
{
    assert(b[pos] == u64_le(x)[0]);
    assert(b[pos + 1] == u64_le(x)[1]);
    assert(b[pos + 2] == u64_le(x)[2]);
    assert(b[pos + 3] == u64_le(x)[3]);
    assert(b[pos + 4] == u64_le(x)[4]);
    assert(b[pos + 5] == u64_le(x)[5]);
    assert(b[pos + 6] == u64_le(x)[6]);
    assert(b[pos + 7] == u64_le(x)[7]);
    assert(((x & 0xff) as u8 as u64) | ((((x >> 8) & 0xff) as u8 as u64) << 8) | ((((x >> 16)
        & 0xff) as u8 as u64) << 16) | ((((x >> 24) & 0xff) as u8 as u64) << 24) | ((((x >> 32)
        & 0xff) as u8 as u64) << 32) | ((((x >> 40) & 0xff) as u8 as u64) << 40) | ((((x >> 48)
        & 0xff) as u8 as u64) << 48) | ((((x >> 56) & 0xff) as u8 as u64) << 56) == x)
        by (bit_vector);
}

/// Reading a compact length prefix that was written at `pos` gives the
/// value and the position after it.
pub proof fn lemma_parse_compact_len_at(b: Seq<u8>, pos: int, x: u64)
    requires
        0 <= pos,
        pos + compact_len(x).len() <= b.len(),
        b.subrange(pos, pos + compact_len(x).len()) == compact_len(x),
    ensures
        parse_compact_len(b, pos) == Some((x, pos + compact_len(x).len())),
{
    let c = compact_len(x);
    assert(b[pos] == c[0]);
    if x < 0xfd {
        assert(b[pos] == x as u8);
        assert(x as u8 as u64 == x) by (bit_vector)
            requires
                x < 0xfd,
        ;
    } else if x <= 0xffff {
        assert(b[pos] == 0xfdu8);
        assert(b[pos + 1] == c[1]);
        assert(b[pos + 2] == c[2]);
        assert(((x & 0xff) as u8 as u64) | (((x >> 8) & 0xff) as u8 as u64) << 8 == x)
            by (bit_vector)
            requires
                x <= 0xffff,
        ;
    } else if x <= 0xffff_ffff {
        assert(b[pos] == 0xfeu8);
        assert(c == seq![0xfeu8] + u32_le(x as u32));
        assert forall|i: int| 0 <= i < 4 implies #[trigger] b.subrange(pos + 1, pos + 5)[i]
            == u32_le(x as u32)[i] by {
            assert(b.subrange(pos, pos + 5)[i + 1] == b[pos + 1 + i]);
            assert(c[i + 1] == (seq![0xfeu8] + u32_le(x as u32))[i + 1]);
        }
        assert(b.subrange(pos + 1, pos + 5) =~= u32_le(x as u32));
        lemma_le_u32_at(b, pos + 1, x as u32);
        assert(x as u32 as u64 == x) by (bit_vector)
            requires
                x <= 0xffff_ffff,
        ;
    } else {
        assert(b[pos] == 0xffu8);
        assert(c == seq![0xffu8] + u64_le(x));
        assert forall|i: int| 0 <= i < 8 implies #[trigger] b.subrange(pos + 1, pos + 9)[i]
            == u64_le(x)[i] by {
            assert(b.subrange(pos, pos + 9)[i + 1] == b[pos + 1 + i]);
            assert(c[i + 1] == (seq![0xffu8] + u64_le(x))[i + 1]);
        }
        assert(b.subrange(pos + 1, pos + 9) =~= u64_le(x));
        lemma_le_u64_at(b, pos + 1, x);
    }
}

/// Reads the four bytes at `pos` as a little-endian `u32`.
pub fn read_u32_le(b: &Vec<u8>, pos: usize) -> (r: Option<(u32, usize)>)
    ensures
        pos + 4 <= b@.len() ==> r == Some((le_u32_at(b@, pos as int), (pos + 4) as usize)),
        pos + 4 > b@.len() ==> r is None,
{
    if b.len() < 4 || pos > b.len() - 4 {
        return None;
    }
    let v = (b[pos] as u32) | ((b[pos + 1] as u32) << 8) | ((b[pos + 2] as u32) << 16) | ((b[pos
        + 3] as u32) << 24);
    Some((v, pos + 4))
}

/// Reads the eight bytes at `pos` as a little-endian `u64`.
pub fn read_u64_le(b: &Vec<u8>, pos: usize) -> (r: Option<(u64, usize)>)
    ensures
        pos + 8 <= b@.len() ==> r == Some((le_u64_at(b@, pos as int), (pos + 8) as usize)),
        pos + 8 > b@.len() ==> r is None,
{
    if b.len() < 8 || pos > b.len() - 8 {
        return None;
    }
    let v = (b[pos] as u64) | ((b[pos + 1] as u64) << 8) | ((b[pos + 2] as u64) << 16) | ((b[pos
        + 3] as u64) << 24) | ((b[pos + 4] as u64) << 32) | ((b[pos + 5] as u64) << 40) | ((b[pos
        + 6] as u64) << 48) | ((b[pos + 7] as u64) << 56);
    Some((v, pos + 8))
}

/// Reads a canonical compact length prefix at `pos`.
pub fn read_compact_len(b: &Vec<u8>, pos: usize) -> (r: Option<(u64, usize)>)
    ensures
        match r {
            Some(p) => parse_compact_len(b@, pos as int) == Some((p.0, p.1 as int)) && p.1
                <= b@.len(),
            None => parse_compact_len(b@, pos as int) is None,
        },
{
    if pos >= b.len() {
        return None;
    }
    let tag = b[pos];
    if tag < 0xfd {
        Some((tag as u64, pos + 1))
    } else if tag == 0xfd {
        if b.len() - pos >= 3 {
            let v = (b[pos + 1] as u64) | ((b[pos + 2] as u64) << 8);
            if v >= 0xfd {
                Some((v, pos + 3))
            } else {
                None
            }
        } else {
            None
        }
    } else if tag == 0xfe {
        match read_u32_le(b, pos + 1) {
            Some(p) => {
                if p.0 > 0xffff {
                    Some((p.0 as u64, p.1))
                } else {
                    None
                }
            },
            None => None,
        }
    } else {
        match read_u64_le(b, pos + 1) {
            Some(p) => {
                if p.0 > 0xffff_ffff {
                    Some(p)
                } else {
                    None
                }
            },
            None => None,
        }
    }
}

/// Copies everything from `pos` on.
pub fn read_rest(b: &Vec<u8>, pos: usize) -> (r: Vec<u8>)
    requires
        pos <= b@.len(),
    ensures
        r@ == b@.skip(pos as int),
{
    let mut r: Vec<u8> = Vec::new();
    let mut j: usize = pos;
    while j < b.len()
        invariant
            pos <= j <= b@.len(),
            r@ == b@.subrange(pos as int, j as int),
        decreases b.len() - j,
    {
        r.push(b[j]);
        j += 1;
        assert(r@ =~= b@.subrange(pos as int, j as int));
    }
    assert(r@ =~= b@.skip(pos as int));
    r
}

/// What a single byte decodes to as a boolean: exactly one byte, zero
/// or one.
pub open spec fn parse_bool(b: Seq<u8>) -> Option<bool> {
    if b.len() == 1 && b[0] == 0 {
        Some(false)
    } else if b.len() == 1 && b[0] == 1 {
        Some(true)
    } else {
        None
    }
}

/// Decodes a whole byte string as a boolean.
pub fn decode_bool(b: &Vec<u8>) -> (r: Option<bool>)
    ensures
        r == parse_bool(b@),
{
    if b.len() != 1 {
        return None;
    }
    if b[0] == 0 {
        Some(false)
    } else if b[0] == 1 {
        Some(true)
    } else {
        None
    }
}

/// Appends `b` with its compact length prefix to `out`.
pub fn encode_bytes(out: &mut Vec<u8>, b: &Vec<u8>)
    ensures
        final(out)@ == old(out)@ + bytes_wire(b@),
{
    encode_compact_len(out, b.len() as u64);
    let ghost mid = out@;
    let mut i: usize = 0;
    while i < b.len()
        invariant
            i <= b.len(),
            out@ == mid + b@.subrange(0, i as int),
        decreases b.len() - i,
    {
        out.push(b[i]);
        i += 1;
        assert(out@ =~= mid + b@.subrange(0, i as int));
    }
    assert(out@ =~= old(out)@ + bytes_wire(b@));
}

} // verus!
