//! One byte of the progress tracker as eight flags, most significant bit first.

use vstd::prelude::*;

verus! {

/// Bit `i` of `b`, counting from the most significant bit (`i == 0`) to the
/// least significant one (`i == 7`).
pub open spec fn bit_at(b: u8, i: int) -> bool {
    (b >> ((7 - i) as u8)) & 1u8 == 1u8
}

/// The eight bits of `b`, most significant first.
pub open spec fn binary_of(b: u8) -> Seq<bool> {
    Seq::new(8, |i: int| bit_at(b, i))
}

/// The byte whose bits, most significant first, are `bits[0..8]`.
pub open spec fn byte_of(bits: Seq<bool>) -> u8
    recommends
        bits.len() == 8,
{
    ((if bits[0] { 128int } else { 0int }) + (if bits[1] { 64int } else { 0int }) + (if bits[2] {
        32int
    } else {
        0int
    }) + (if bits[3] { 16int } else { 0int }) + (if bits[4] { 8int } else { 0int }) + (if bits[5] {
        4int
    } else {
        0int
    }) + (if bits[6] { 2int } else { 0int }) + (if bits[7] { 1int } else { 0int })) as u8
}

proof fn lemma_peel_bits(b: u8)
    by (bit_vector)
    ensures
        (b >= 128u8) == ((b >> 7u8) & 1u8 == 1u8),
        (if b >= 128u8 { (b - 128u8) as u8 } else { b }) == b & 127u8,
        ((b & 127u8) >= 64u8) == ((b >> 6u8) & 1u8 == 1u8),
        (if (b & 127u8) >= 64u8 { ((b & 127u8) - 64u8) as u8 } else { b & 127u8 }) == b & 63u8,
        ((b & 63u8) >= 32u8) == ((b >> 5u8) & 1u8 == 1u8),
        (if (b & 63u8) >= 32u8 { ((b & 63u8) - 32u8) as u8 } else { b & 63u8 }) == b & 31u8,
        ((b & 31u8) >= 16u8) == ((b >> 4u8) & 1u8 == 1u8),
        (if (b & 31u8) >= 16u8 { ((b & 31u8) - 16u8) as u8 } else { b & 31u8 }) == b & 15u8,
        ((b & 15u8) >= 8u8) == ((b >> 3u8) & 1u8 == 1u8),
        (if (b & 15u8) >= 8u8 { ((b & 15u8) - 8u8) as u8 } else { b & 15u8 }) == b & 7u8,
        ((b & 7u8) >= 4u8) == ((b >> 2u8) & 1u8 == 1u8),
        (if (b & 7u8) >= 4u8 { ((b & 7u8) - 4u8) as u8 } else { b & 7u8 }) == b & 3u8,
        ((b & 3u8) >= 2u8) == ((b >> 1u8) & 1u8 == 1u8),
        (if (b & 3u8) >= 2u8 { ((b & 3u8) - 2u8) as u8 } else { b & 3u8 }) == b & 1u8,
        ((b & 1u8) >= 1u8) == ((b >> 0u8) & 1u8 == 1u8),
{
}

proof fn lemma_bits_of_sum(b0: bool, b1: bool, b2: bool, b3: bool, b4: bool, b5: bool, b6: bool, b7: bool, r: u8)
    by (bit_vector)
    requires
        r == (if b0 { 128u8 } else { 0u8 }) | (if b1 { 64u8 } else { 0u8 }) | (if b2 { 32u8 } else { 0u8 })
            | (if b3 { 16u8 } else { 0u8 }) | (if b4 { 8u8 } else { 0u8 }) | (if b5 { 4u8 } else { 0u8 })
            | (if b6 { 2u8 } else { 0u8 }) | (if b7 { 1u8 } else { 0u8 }),
    ensures
        ((r >> 7u8) & 1u8 == 1u8) == b0,
        ((r >> 6u8) & 1u8 == 1u8) == b1,
        ((r >> 5u8) & 1u8 == 1u8) == b2,
        ((r >> 4u8) & 1u8 == 1u8) == b3,
        ((r >> 3u8) & 1u8 == 1u8) == b4,
        ((r >> 2u8) & 1u8 == 1u8) == b5,
        ((r >> 1u8) & 1u8 == 1u8) == b6,
        ((r >> 0u8) & 1u8 == 1u8) == b7,
{
}

proof fn lemma_or_is_sum(b0: bool, b1: bool, b2: bool, b3: bool, b4: bool, b5: bool, b6: bool, b7: bool)
    by (bit_vector)
    ensures
        ((if b0 { 128u8 } else { 0u8 }) | (if b1 { 64u8 } else { 0u8 }) | (if b2 { 32u8 } else { 0u8 })
            | (if b3 { 16u8 } else { 0u8 }) | (if b4 { 8u8 } else { 0u8 }) | (if b5 { 4u8 } else { 0u8 })
            | (if b6 { 2u8 } else { 0u8 }) | (if b7 { 1u8 } else { 0u8 })) as int
            == (if b0 { 128int } else { 0int }) + (if b1 { 64int } else { 0int }) + (if b2 { 32int } else { 0int })
            + (if b3 { 16int } else { 0int }) + (if b4 { 8int } else { 0int }) + (if b5 { 4int } else { 0int })
            + (if b6 { 2int } else { 0int }) + (if b7 { 1int } else { 0int }),
{
}

proof fn lemma_bits_determine_byte(a: u8, b: u8)
    by (bit_vector)
    requires
        ((a >> 7u8) & 1u8 == 1u8) == ((b >> 7u8) & 1u8 == 1u8),
        ((a >> 6u8) & 1u8 == 1u8) == ((b >> 6u8) & 1u8 == 1u8),
        ((a >> 5u8) & 1u8 == 1u8) == ((b >> 5u8) & 1u8 == 1u8),
        ((a >> 4u8) & 1u8 == 1u8) == ((b >> 4u8) & 1u8 == 1u8),
        ((a >> 3u8) & 1u8 == 1u8) == ((b >> 3u8) & 1u8 == 1u8),
        ((a >> 2u8) & 1u8 == 1u8) == ((b >> 2u8) & 1u8 == 1u8),
        ((a >> 1u8) & 1u8 == 1u8) == ((b >> 1u8) & 1u8 == 1u8),
        ((a >> 0u8) & 1u8 == 1u8) == ((b >> 0u8) & 1u8 == 1u8),
    ensures
        a == b,
{
}

/// The bits of `byte_of(bits)` are `bits`.
proof fn lemma_binary_of_byte_of(bits: Seq<bool>)
    requires
        bits.len() == 8,
    ensures
        binary_of(byte_of(bits)) == bits,
{
    let (b0, b1, b2, b3, b4, b5, b6, b7) = (bits[0], bits[1], bits[2], bits[3], bits[4], bits[5], bits[6], bits[7]);
    lemma_or_is_sum(b0, b1, b2, b3, b4, b5, b6, b7);
    let r: u8 = (if b0 { 128u8 } else { 0u8 }) | (if b1 { 64u8 } else { 0u8 }) | (if b2 { 32u8 } else { 0u8 })
            | (if b3 { 16u8 } else { 0u8 }) | (if b4 { 8u8 } else { 0u8 }) | (if b5 { 4u8 } else { 0u8 })
            | (if b6 { 2u8 } else { 0u8 }) | (if b7 { 1u8 } else { 0u8 });
    assert(r == byte_of(bits));
    lemma_bits_of_sum(b0, b1, b2, b3, b4, b5, b6, b7, r);
    assert(binary_of(r) =~= bits);
}

/// Reading a byte as bits and those bits back as a byte gives the byte again,
/// and reading eight flags as a byte and that byte back as bits gives the flags
/// again: `to_binary` and `from_binary` undo each other.
pub proof fn lemma_binary_roundtrip(b: u8, bits: Seq<bool>)
    ensures
        byte_of(binary_of(b)) == b,
        bits.len() == 8 ==> binary_of(byte_of(bits)) == bits,
{
    let r = byte_of(binary_of(b));
    lemma_binary_of_byte_of(binary_of(b));
    assert(binary_of(r)[0] == binary_of(b)[0]);
    assert(binary_of(r)[1] == binary_of(b)[1]);
    assert(binary_of(r)[2] == binary_of(b)[2]);
    assert(binary_of(r)[3] == binary_of(b)[3]);
    assert(binary_of(r)[4] == binary_of(b)[4]);
    assert(binary_of(r)[5] == binary_of(b)[5]);
    assert(binary_of(r)[6] == binary_of(b)[6]);
    assert(binary_of(r)[7] == binary_of(b)[7]);
    lemma_bits_determine_byte(r, b);
    if bits.len() == 8 {
        lemma_binary_of_byte_of(bits);
    }
}

proof fn lemma_zero_shift(s: u8)
    by (bit_vector)
    ensures
        (0u8 >> s) & 1u8 == 0u8,
{
}

/// No bit of the zero byte is set.
pub proof fn lemma_zero_byte()
    ensures
        forall|i: int| 0 <= i < 8 ==> !#[trigger] binary_of(0u8)[i],
{
    assert forall|i: int| 0 <= i < 8 implies !#[trigger] binary_of(0u8)[i] by {
        lemma_zero_shift((7 - i) as u8);
    }
}

/// The eight bits of `num`, most significant first.
pub fn to_binary(num: u8) -> (arr: [bool; 8])
    ensures
        arr@ == binary_of(num),
{
    let ghost b = num;
    let mut num = num;
    let mut arr = [false; 8];
    proof {
        lemma_peel_bits(b);
    }
    if num >= 128 {
        arr[0] = true;
        num -= 128;
    }
    assert(num == b & 127u8);
    if num >= 64 {
        arr[1] = true;
        num -= 64;
    }
    assert(num == b & 63u8);
    if num >= 32 {
        arr[2] = true;
        num -= 32;
    }
    assert(num == b & 31u8);
    if num >= 16 {
        arr[3] = true;
        num -= 16;
    }
    assert(num == b & 15u8);
    if num >= 8 {
        arr[4] = true;
        num -= 8;
    }
    assert(num == b & 7u8);
    if num >= 4 {
        arr[5] = true;
        num -= 4;
    }
    assert(num == b & 3u8);
    if num >= 2 {
        arr[6] = true;
        num -= 2;
    }
    assert(num == b & 1u8);
    if num >= 1 {
        arr[7] = true;
    }
    assert(arr@ =~= binary_of(b));
    arr
}

/// The byte whose bits, most significant first, are `bin`.
pub fn from_binary(bin: [bool; 8]) -> (num: u8)
    ensures
        num == byte_of(bin@),
{
    let mut num: u8 = 0;
    if bin[0] {
        num += 128;
    }
    if bin[1] {
        num += 64;
    }
    if bin[2] {
        num += 32;
    }
    if bin[3] {
        num += 16;
    }
    if bin[4] {
        num += 8;
    }
    if bin[5] {
        num += 4;
    }
    if bin[6] {
        num += 2;
    }
    if bin[7] {
        num += 1;
    }
    num
}

/// `byte` with bit `pos` (most significant first) set.
pub fn set_bit(byte: u8, pos: u8) -> (r: u8)
    requires
        pos < 8,
    ensures
        binary_of(r) == binary_of(byte).update(pos as int, true),
{
    let mut bits = to_binary(byte);
    bits[pos as usize] = true;
    let r = from_binary(bits);
    proof {
        lemma_binary_of_byte_of(bits@);
    }
    r
}

} // verus!
