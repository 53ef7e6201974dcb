//! Bit packing and unpacking.
//!
//! A byte sequence is turned into a bit sequence by emitting each byte's bits
//! most-significant first, in input order. The inverse groups consecutive runs
//! of eight bits back into bytes; a trailing partial group is dropped.

use vstd::prelude::*;
use vstd::arithmetic::div_mod::lemma_fundamental_div_mod_converse;

verus! {

/// Bit `i` of byte `b`, counting from the most significant bit (`i == 0`
/// yields the top bit, `i == 7` the lowest).
pub open spec fn bit_of(b: u8, i: int) -> u8 {
    (b >> ((7 - i) as u8)) & 1
}

/// The eight bits of one byte, most-significant first.
pub open spec fn byte_bits(b: u8) -> Seq<u8> {
    Seq::new(8, |i: int| bit_of(b, i))
}

/// The bit stream of a byte sequence: all bytes in order, each emitted
/// most-significant bit first.
pub open spec fn bits_of(bytes: Seq<u8>) -> Seq<u8> {
    Seq::new(bytes.len() * 8, |i: int| bit_of(bytes[i / 8], i % 8))
}

/// The byte assembled from eight bits, first bit most significant. Only the
/// lowest bit of each element is read.
pub open spec fn byte_of_bits(bits: Seq<u8>) -> u8
    recommends
        bits.len() == 8,
{
    ((bits[0] & 1) * 128 + (bits[1] & 1) * 64 + (bits[2] & 1) * 32 + (bits[3] & 1) * 16
        + (bits[4] & 1) * 8 + (bits[5] & 1) * 4 + (bits[6] & 1) * 2 + (bits[7] & 1)) as u8
}

/// The byte sequence assembled from a bit stream, eight bits per byte;
/// trailing bits that do not fill a group of eight are dropped.
pub open spec fn bytes_of_bits(bits: Seq<u8>) -> Seq<u8> {
    Seq::new(bits.len() / 8, |j: int| byte_of_bits(bits.subrange(8 * j, 8 * j + 8)))
}

/// The lowest bit of any byte is 0 or 1, and masking it again changes nothing.
pub proof fn lemma_low_bit(x: u8)
    ensures
        x & 1 <= 1,
        (x & 1) & 1 == x & 1,
{
    assert(x & 1 <= 1 && (x & 1) & 1 == x & 1) by (bit_vector);
}

/// Each emitted bit is 0 or 1.
pub proof fn lemma_bit_of_is_bit(b: u8, i: int)
    ensures
        bit_of(b, i) <= 1,
{
    let s = (7 - i) as u8;
    assert((b >> s) & 1 <= 1) by (bit_vector);
}

/// Reassembling the eight bits of a byte yields the byte back.
pub proof fn lemma_byte_of_byte_bits(b: u8)
    ensures
        byte_of_bits(byte_bits(b)) == b,
{
    let s = byte_bits(b);
    assert(s[0] == (b >> 7) & 1);
    assert(s[1] == (b >> 6) & 1);
    assert(s[2] == (b >> 5) & 1);
    assert(s[3] == (b >> 4) & 1);
    assert(s[4] == (b >> 3) & 1);
    assert(s[5] == (b >> 2) & 1);
    assert(s[6] == (b >> 1) & 1);
    assert(s[7] == (b >> 0) & 1);
    assert((((b >> 7) & 1) & 1) * 128 + (((b >> 6) & 1) & 1) * 64 + (((b >> 5) & 1) & 1) * 32
        + (((b >> 4) & 1) & 1) * 16 + (((b >> 3) & 1) & 1) * 8 + (((b >> 2) & 1) & 1) * 4
        + (((b >> 1) & 1) & 1) * 2 + (((b >> 0) & 1) & 1) == b) by (bit_vector);
}

/// A byte-aligned slice of a packed bit stream is the packing of the matching
/// slice of the byte sequence.
pub proof fn lemma_bits_of_subrange(bytes: Seq<u8>, i: int, j: int)
    requires
        0 <= i <= j <= bytes.len(),
    ensures
        bits_of(bytes).subrange(8 * i, 8 * j) == bits_of(bytes.subrange(i, j)),
{
    let lhs = bits_of(bytes).subrange(8 * i, 8 * j);
    let rhs = bits_of(bytes.subrange(i, j));
    assert forall|k: int| 0 <= k < 8 * (j - i) implies lhs[k] == rhs[k] by {
        lemma_fundamental_div_mod_converse(8 * i + k, 8, i + k / 8, k % 8);
    }
    assert(lhs =~= rhs);
}

/// Unpacking a packed byte sequence yields the byte sequence back.
pub proof fn lemma_unpack_pack(bytes: Seq<u8>)
    ensures
        bytes_of_bits(bits_of(bytes)) == bytes,
{
    let n = bytes.len() as int;
    assert forall|j: int| 0 <= j < n implies bytes_of_bits(bits_of(bytes))[j] == bytes[j] by {
        lemma_bits_of_subrange(bytes, j, j + 1);
        assert(bits_of(bytes.subrange(j, j + 1)) =~= byte_bits(bytes[j]));
        lemma_byte_of_byte_bits(bytes[j]);
    }
    assert(bytes_of_bits(bits_of(bytes)) =~= bytes);
}

/// Pack a byte sequence into its bit stream, most-significant bit of each
/// byte first.
pub fn bytes_to_bits(bytes: &[u8]) -> (r: Vec<u8>)
    requires
        bytes@.len() * 8 <= usize::MAX,
    ensures
        r@ == bits_of(bytes@),
{
    let mut r: Vec<u8> = Vec::new();
    let n = bytes.len();
    for i in 0..n
        invariant
            n == bytes@.len(),
            n * 8 <= usize::MAX,
            r@ =~= bits_of(bytes@.subrange(0, i as int)),
    {
        let b = bytes[i];
        r.push((b >> 7) & 1);
        r.push((b >> 6) & 1);
        r.push((b >> 5) & 1);
        r.push((b >> 4) & 1);
        r.push((b >> 3) & 1);
        r.push((b >> 2) & 1);
        r.push((b >> 1) & 1);
        r.push(b & 1);
        proof {
            let pre = bytes@.subrange(0, i as int);
            let cur = bytes@.subrange(0, i + 1);
            assert(b & 1 == (b >> 0) & 1) by (bit_vector);
            assert forall|k: int| 0 <= k < cur.len() * 8 implies r@[k] == bit_of(
                cur[k / 8],
                k % 8,
            ) by {
                if k < 8 * i {
                    assert(r@[k] == bits_of(pre)[k]);
                }
            }
            assert(r@ =~= bits_of(cur));
        }
    }
    proof {
        assert(bytes@.subrange(0, n as int) =~= bytes@);
    }
    r
}

/// Unpack a bit stream into bytes, eight bits per byte, first bit most
/// significant; trailing bits short of a full byte are dropped.
pub fn bits_to_bytes(bits: &[u8]) -> (r: Vec<u8>)
    ensures
        r@ == bytes_of_bits(bits@),
{
    let mut r: Vec<u8> = Vec::new();
    let total = bits.len();
    let n = total / 8;
    for j in 0..n
        invariant
            total == bits@.len(),
            n == bits@.len() / 8,
            n * 8 <= total,
            r@.len() == j,
            forall|m: int| 0 <= m < j ==> r@[m] == byte_of_bits(bits@.subrange(8 * m, 8 * m + 8)),
    {
        let b0 = bits[8 * j] & 1;
        let b1 = bits[8 * j + 1] & 1;
        let b2 = bits[8 * j + 2] & 1;
        let b3 = bits[8 * j + 3] & 1;
        let b4 = bits[8 * j + 4] & 1;
        let b5 = bits[8 * j + 5] & 1;
        let b6 = bits[8 * j + 6] & 1;
        let b7 = bits[8 * j + 7] & 1;
        proof {
            lemma_low_bit(bits@[8 * j]);
            lemma_low_bit(bits@[8 * j + 1]);
            lemma_low_bit(bits@[8 * j + 2]);
            lemma_low_bit(bits@[8 * j + 3]);
            lemma_low_bit(bits@[8 * j + 4]);
            lemma_low_bit(bits@[8 * j + 5]);
            lemma_low_bit(bits@[8 * j + 6]);
            lemma_low_bit(bits@[8 * j + 7]);
        }
        let byte = b0 * 128 + b1 * 64 + b2 * 32 + b3 * 16 + b4 * 8 + b5 * 4 + b6 * 2 + b7;
        proof {
            let chunk = bits@.subrange(8 * j, 8 * j + 8);
            assert(chunk[0] == bits@[8 * j] && chunk[1] == bits@[8 * j + 1] && chunk[2] == bits@[8
                * j + 2] && chunk[3] == bits@[8 * j + 3] && chunk[4] == bits@[8 * j + 4]
                && chunk[5] == bits@[8 * j + 5] && chunk[6] == bits@[8 * j + 6] && chunk[7]
                == bits@[8 * j + 7]);
            assert(byte == byte_of_bits(chunk));
        }
        r.push(byte);
    }
    proof {
        assert(r@ =~= bytes_of_bits(bits@));
    }
    r
}

} // verus!
