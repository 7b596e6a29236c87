//! Big-endian encoding of message numbers and sizes.

use vstd::prelude::*;

verus! {

/// The eight bytes of `x`, most significant first.
pub open spec fn be_bytes(x: u64) -> Seq<u8> {
    seq![
        (x >> 56u64) as u8,
        (x >> 48u64) as u8,
        (x >> 40u64) as u8,
        (x >> 32u64) as u8,
        (x >> 24u64) as u8,
        (x >> 16u64) as u8,
        (x >> 8u64) as u8,
        x as u8,
    ]
}

/// The number whose big-endian bytes are `b[0..8]`.
pub open spec fn be_value(b: Seq<u8>) -> u64
    recommends
        b.len() >= 8,
{
    ((b[0] as u64) << 56u64) | ((b[1] as u64) << 48u64) | ((b[2] as u64) << 40u64) | ((b[3] as u64)
        << 32u64) | ((b[4] as u64) << 24u64) | ((b[5] as u64) << 16u64) | ((b[6] as u64) << 8u64)
        | (b[7] as u64)
}

proof fn lemma_value_of_bytes(x: u64)
    by (bit_vector)
    ensures
        x == ((((x >> 56u64) as u8) as u64) << 56u64) | ((((x >> 48u64) as u8) as u64) << 48u64) | ((((x
            >> 40u64) as u8) as u64) << 40u64) | ((((x >> 32u64) as u8) as u64) << 32u64) | ((((x
            >> 24u64) as u8) as u64) << 24u64) | ((((x >> 16u64) as u8) as u64) << 16u64) | ((((x
            >> 8u64) as u8) as u64) << 8u64) | ((x as u8) as u64),
{
}

proof fn lemma_bytes_of_value(b0: u8, b1: u8, b2: u8, b3: u8, b4: u8, b5: u8, b6: u8, b7: u8, x: u64)
    by (bit_vector)
    requires
        x == ((b0 as u64) << 56u64) | ((b1 as u64) << 48u64) | ((b2 as u64) << 40u64) | ((b3 as u64)
            << 32u64) | ((b4 as u64) << 24u64) | ((b5 as u64) << 16u64) | ((b6 as u64) << 8u64)
            | (b7 as u64),
    ensures
        (x >> 56u64) as u8 == b0,
        (x >> 48u64) as u8 == b1,
        (x >> 40u64) as u8 == b2,
        (x >> 32u64) as u8 == b3,
        (x >> 24u64) as u8 == b4,
        (x >> 16u64) as u8 == b5,
        (x >> 8u64) as u8 == b6,
        x as u8 == b7,
{
}

/// Big-endian encoding and decoding undo each other: the value of the bytes of
/// `x` is `x`, and the bytes of the value of eight bytes are those bytes.
pub proof fn lemma_be_roundtrip(x: u64, b: Seq<u8>)
    ensures
        be_value(be_bytes(x)) == x,
        b.len() == 8 ==> be_bytes(be_value(b)) == b,
{
    lemma_value_of_bytes(x);
    if b.len() == 8 {
        lemma_bytes_of_value(b[0], b[1], b[2], b[3], b[4], b[5], b[6], b[7], be_value(b));
        assert(be_bytes(be_value(b)) =~= b);
    }
}

/// Reads the big-endian `u64` in `buf[start..start + 8]`.
pub fn be_value_at(buf: &[u8], start: usize) -> (x: u64)
    requires
        start + 8 <= buf@.len(),
    ensures
        x == be_value(buf@.subrange(start as int, start + 8)),
{
    ((buf[start] as u64) << 56u64) | ((buf[start + 1] as u64) << 48u64) | ((buf[start + 2] as u64)
        << 40u64) | ((buf[start + 3] as u64) << 32u64) | ((buf[start + 4] as u64) << 24u64) | ((buf[start
        + 5] as u64) << 16u64) | ((buf[start + 6] as u64) << 8u64) | (buf[start + 7] as u64)
}

/// Appends the eight big-endian bytes of `x` to `v`.
pub fn push_be_bytes(v: &mut Vec<u8>, x: u64)
    ensures
        final(v)@ == old(v)@ + be_bytes(x),
{
    v.push((x >> 56u64) as u8);
    v.push((x >> 48u64) as u8);
    v.push((x >> 40u64) as u8);
    v.push((x >> 32u64) as u8);
    v.push((x >> 24u64) as u8);
    v.push((x >> 16u64) as u8);
    v.push((x >> 8u64) as u8);
    v.push(x as u8);
    assert(v@ =~= old(v)@ + be_bytes(x));
}

/// Appends the bytes of `src` to `v`.
pub fn push_all(v: &mut Vec<u8>, src: &[u8])
    ensures
        final(v)@ == old(v)@ + src@,
{
    let mut i: usize = 0;
    while i < src.len()
        invariant
            i <= src@.len(),
            v@ == old(v)@ + src@.subrange(0, i as int),
        decreases src.len() - i,
    {
        v.push(src[i]);
        i += 1;
        assert(v@ =~= old(v)@ + src@.subrange(0, i as int));
    }
    assert(src@.subrange(0, i as int) =~= src@);
}

/// A copy of the bytes `src`.
pub fn clone_bytes(src: &Vec<u8>) -> (r: Vec<u8>)
    ensures
        r@ == src@,
{
    let mut r: Vec<u8> = Vec::new();
    push_all(&mut r, src.as_slice());
    assert(r@ =~= src@);
    r
}

/// An error in the shape of a message.
#[derive(Debug, Clone, Copy, PartialEq, Eq, Structural)]
pub enum ProtocolError {
    /// A number was to be read from a slice that is not eight bytes long.
    NotEightBytes,
    /// More missed messages than one report can carry.
    TooManyDropped,
}

/// Reads a big-endian `u64` from exactly eight bytes.
pub fn u8s_to_u64(nums: &[u8]) -> (r: Result<u64, ProtocolError>)
    ensures
        nums@.len() == 8 <==> r is Ok,
        r matches Ok(x) ==> x == be_value(nums@),
        r matches Err(e) ==> e == ProtocolError::NotEightBytes,
{
    if nums.len() != 8 {
        return Err(ProtocolError::NotEightBytes);
    }
    let x = be_value_at(nums, 0);
    assert(nums@.subrange(0, 8) =~= nums@);
    Ok(x)
}

} // verus!
