//! Low-discrepancy sampling: the Van der Corput radical inverse in base 2 and
//! the Hammersley point set built on it.
use vstd::prelude::*;

verus! {

/// Bit `i` of `x`, counted from the least significant bit.
pub open spec fn bit(x: u32, i: u32) -> bool {
    (x >> i) & 1u32 == 1u32
}

/// `r` holds the bits of `x` in reverse order: bit `i` of `r` is bit `31 - i` of `x`.
pub open spec fn is_bit_reversal(x: u32, r: u32) -> bool {
    forall|i: u32| #![trigger bit(r, i)] i < 32 ==> bit(r, i) == bit(x, (31 - i) as u32)
}

/// The base-2 radical inverse of `bits`, as the numerator of a fraction over
/// `2^32`: the binary digits of `bits` mirrored about the binary point. The
/// 32 bits are reversed by swapping halves, then bytes, nibbles, pairs and
/// single bits.
pub fn radical_inverse_vdc(bits: u32) -> (r: u32)
    ensures
        is_bit_reversal(bits, r),
{
    let b0 = bits;
    let b1 = (b0 << 16u32) | (b0 >> 16u32);
    let b2 = ((b1 & 0x55555555u32) << 1u32) | ((b1 & 0xAAAAAAAAu32) >> 1u32);
    let b3 = ((b2 & 0x33333333u32) << 2u32) | ((b2 & 0xCCCCCCCCu32) >> 2u32);
    let b4 = ((b3 & 0x0F0F0F0Fu32) << 4u32) | ((b3 & 0xF0F0F0F0u32) >> 4u32);
    let b5 = ((b4 & 0x00FF00FFu32) << 8u32) | ((b4 & 0xFF00FF00u32) >> 8u32);
    assert(forall|i: u32| #![trigger bit(b5, i)] i < 32 ==> bit(b5, i) == bit(b0, (31 - i) as u32)) by (bit_vector)
        requires
            b1 == (b0 << 16u32) | (b0 >> 16u32),
            b2 == ((b1 & 0x55555555u32) << 1u32) | ((b1 & 0xAAAAAAAAu32) >> 1u32),
            b3 == ((b2 & 0x33333333u32) << 2u32) | ((b2 & 0xCCCCCCCCu32) >> 2u32),
            b4 == ((b3 & 0x0F0F0F0Fu32) << 4u32) | ((b3 & 0xF0F0F0F0u32) >> 4u32),
            b5 == ((b4 & 0x00FF00FFu32) << 8u32) | ((b4 & 0xFF00FF00u32) >> 8u32),
    ;
    b5
}

/// The `index`-th of `count` Hammersley points, held exactly: its first
/// coordinate is `x_num / x_den` and its second is `y_num / 2^32`.
#[derive(Clone, Copy, Debug, PartialEq, Eq, Structural)]
pub struct HammersleyPoint {
    pub x_num: u32,
    pub x_den: u32,
    pub y_num: u32,
}

/// `p` is the `i`-th point of the Hammersley set of `n` points.
pub open spec fn is_hammersley_point(i: u32, n: u32, p: HammersleyPoint) -> bool {
    &&& p.x_num == i
    &&& p.x_den == n
    &&& is_bit_reversal(i, p.y_num)
}

/// Point `i` of the `n`-point Hammersley set: `(i / n, radical_inverse(i))`.
/// For `i < n` both coordinates lie in `[0, 1)`.
pub fn hammersley(i: u32, n: u32) -> (p: HammersleyPoint)
    ensures
        is_hammersley_point(i, n, p),
        i < n ==> p.x_num < p.x_den,
{
    HammersleyPoint { x_num: i, x_den: n, y_num: radical_inverse_vdc(i) }
}

/// Two words that agree on each of their 32 bits are equal.
proof fn lemma_bits_determine_word(a: u32, b: u32)
    requires
        forall|i: u32| #![trigger bit(a, i)] i < 32 ==> bit(a, i) == bit(b, i),
    ensures
        a == b,
{
    assert(a == b) by (bit_vector)
        requires
            bit(a, 0u32) == bit(b, 0u32),
            bit(a, 1u32) == bit(b, 1u32),
            bit(a, 2u32) == bit(b, 2u32),
            bit(a, 3u32) == bit(b, 3u32),
            bit(a, 4u32) == bit(b, 4u32),
            bit(a, 5u32) == bit(b, 5u32),
            bit(a, 6u32) == bit(b, 6u32),
            bit(a, 7u32) == bit(b, 7u32),
            bit(a, 8u32) == bit(b, 8u32),
            bit(a, 9u32) == bit(b, 9u32),
            bit(a, 10u32) == bit(b, 10u32),
            bit(a, 11u32) == bit(b, 11u32),
            bit(a, 12u32) == bit(b, 12u32),
            bit(a, 13u32) == bit(b, 13u32),
            bit(a, 14u32) == bit(b, 14u32),
            bit(a, 15u32) == bit(b, 15u32),
            bit(a, 16u32) == bit(b, 16u32),
            bit(a, 17u32) == bit(b, 17u32),
            bit(a, 18u32) == bit(b, 18u32),
            bit(a, 19u32) == bit(b, 19u32),
            bit(a, 20u32) == bit(b, 20u32),
            bit(a, 21u32) == bit(b, 21u32),
            bit(a, 22u32) == bit(b, 22u32),
            bit(a, 23u32) == bit(b, 23u32),
            bit(a, 24u32) == bit(b, 24u32),
            bit(a, 25u32) == bit(b, 25u32),
            bit(a, 26u32) == bit(b, 26u32),
            bit(a, 27u32) == bit(b, 27u32),
            bit(a, 28u32) == bit(b, 28u32),
            bit(a, 29u32) == bit(b, 29u32),
            bit(a, 30u32) == bit(b, 30u32),
            bit(a, 31u32) == bit(b, 31u32),
    ;
}

/// A word has exactly one bit reversal, and reversing it again gives the word
/// back: the radical inverse is a deterministic involution on 32-bit words.
pub proof fn lemma_bit_reversal_involution(x: u32, r: u32, s: u32, t: u32)
    requires
        is_bit_reversal(x, r),
        is_bit_reversal(x, s),
        is_bit_reversal(r, t),
    ensures
        r == s,
        t == x,
{
    assert forall|i: u32| #![trigger bit(r, i)] i < 32 implies bit(r, i) == bit(s, i) by {
        assert(bit(s, i) == bit(x, (31 - i) as u32));
    }
    lemma_bits_determine_word(r, s);
    assert forall|i: u32| #![trigger bit(t, i)] i < 32 implies bit(t, i) == bit(x, i) by {
        let j = (31 - i) as u32;
        assert(bit(t, i) == bit(r, j));
        assert(bit(r, j) == bit(x, (31 - j) as u32));
    }
    lemma_bits_determine_word(t, x);
}

/// Known values of the radical inverse `r / 2^32`: zero maps to zero, one to
/// one half, and the top bit alone to the smallest step `2^-32`.
pub proof fn lemma_radical_inverse_known_values(r0: u32, r1: u32, rtop: u32)
    requires
        is_bit_reversal(0, r0),
        is_bit_reversal(1, r1),
        is_bit_reversal(0x8000_0000, rtop),
    ensures
        r0 == 0,
        r1 == 0x8000_0000,
        rtop == 1,
{
    assert(forall|i: u32| #![trigger bit(0, i)] i < 32 ==> !bit(0u32, i)) by (bit_vector);
    assert(forall|i: u32| #![trigger bit(1, i)] i < 32 ==> (bit(1u32, i) <==> i == 0)) by (bit_vector);
    assert(forall|i: u32| #![trigger bit(0x8000_0000, i)] i < 32 ==> (bit(0x8000_0000u32, i) <==> i == 31)) by (bit_vector);
    assert forall|i: u32| #![trigger bit(r0, i)] i < 32 implies bit(r0, i) == bit(0, i) by {
        assert(!bit(0u32, (31 - i) as u32));
        assert(!bit(0u32, i));
    }
    lemma_bits_determine_word(r0, 0);
    assert forall|i: u32| #![trigger bit(r1, i)] i < 32 implies bit(r1, i) == bit(0x8000_0000, i) by {
        assert(bit(1u32, (31 - i) as u32) <==> (31 - i) as u32 == 0);
        assert(bit(0x8000_0000u32, i) <==> i == 31);
    }
    lemma_bits_determine_word(r1, 0x8000_0000);
    assert forall|i: u32| #![trigger bit(rtop, i)] i < 32 implies bit(rtop, i) == bit(1, i) by {
        assert(bit(0x8000_0000u32, (31 - i) as u32) <==> (31 - i) as u32 == 31);
        assert(bit(1u32, i) <==> i == 0);
    }
    lemma_bits_determine_word(rtop, 1);
}

/// The Hammersley set is deterministic: the same `(i, n)` always gives the
/// same point.
pub proof fn lemma_hammersley_deterministic(i: u32, n: u32, p: HammersleyPoint, q: HammersleyPoint)
    requires
        is_hammersley_point(i, n, p),
        is_hammersley_point(i, n, q),
    ensures
        p == q,
{
    lemma_bit_reversal_involution(i, p.y_num, q.y_num, i);
}

} // verus!
