//! The on-the-wire frame wrapping a payload:
//! `magic (2 bytes, 0xDE 0xAD) || length (4 bytes, big-endian u32) || payload`.
//! The header is always exactly 6 bytes, that is 48 bits.

use vstd::prelude::*;
use crate::bits::{
    bits_of, byte_of_bits, bytes_of_bits, lemma_bits_of_subrange, lemma_unpack_pack,
};
use crate::error::StegError;

verus! {

/// The fixed 2-byte magic marker that opens every frame.
pub open spec fn magic_bytes() -> Seq<u8> {
    seq![0xDEu8, 0xADu8]
}

/// The four big-endian bytes of a 32-bit length.
pub open spec fn u32_be_bytes(n: u32) -> Seq<u8> {
    seq![(n >> 24) as u8, (n >> 16) as u8, (n >> 8) as u8, n as u8]
}

/// The 32-bit value read from four big-endian bytes.
pub open spec fn u32_from_be_bytes(b: Seq<u8>) -> u32
    recommends
        b.len() == 4,
{
    ((b[0] as u32) << 24) | ((b[1] as u32) << 16) | ((b[2] as u32) << 8) | (b[3] as u32)
}

/// The complete frame for a payload: magic, length, payload bytes.
pub open spec fn frame_bytes(msg: Seq<u8>) -> Seq<u8>
    recommends
        msg.len() <= u32::MAX,
{
    magic_bytes() + u32_be_bytes(msg.len() as u32) + msg
}

/// Reading back the big-endian bytes of a length yields the length.
pub proof fn lemma_u32_be_roundtrip(n: u32)
    ensures
        u32_from_be_bytes(u32_be_bytes(n)) == n,
{
    assert((((n >> 24) as u8) as u32) << 24 | (((n >> 16) as u8) as u32) << 16 | (((n >> 8) as u8)
        as u32) << 8 | ((n as u8) as u32) == n) by (bit_vector);
}

/// What parsing a bit stream yields: `NoMessageFound` when fewer than 48 bits
/// are available or the magic marker does not match; `InvalidLength` when the
/// decoded length field implies a payload past the end of the stream; the
/// payload bytes otherwise.
pub open spec fn parse_frame_spec(bits: Seq<u8>) -> Result<Seq<u8>, StegError> {
    if bits.len() < 48 {
        Err(StegError::NoMessageFound)
    } else if bytes_of_bits(bits.subrange(0, 16)) != magic_bytes() {
        Err(StegError::NoMessageFound)
    } else {
        let l = u32_from_be_bytes(bytes_of_bits(bits.subrange(16, 48))) as int;
        if (6 + l) * 8 > bits.len() {
            Err(StegError::InvalidLength)
        } else {
            Ok(bytes_of_bits(bits.subrange(48, 48 + l * 8)))
        }
    }
}

/// Build the frame for a payload.
pub fn build_frame(message: &[u8]) -> (r: Vec<u8>)
    requires
        message@.len() <= u32::MAX,
        message@.len() + 6 <= usize::MAX,
    ensures
        r@ == frame_bytes(message@),
{
    let len32 = message.len() as u32;
    let mut r: Vec<u8> = Vec::new();
    r.push(0xDE);
    r.push(0xAD);
    r.push((len32 >> 24) as u8);
    r.push((len32 >> 16) as u8);
    r.push((len32 >> 8) as u8);
    r.push(len32 as u8);
    let n = message.len();
    for i in 0..n
        invariant
            n == message@.len(),
            n <= u32::MAX,
            len32 == n as u32,
            r@ =~= magic_bytes() + u32_be_bytes(len32) + message@.subrange(0, i as int),
    {
        r.push(message[i]);
        proof {
            assert(r@ =~= magic_bytes() + u32_be_bytes(len32) + message@.subrange(0, i + 1));
        }
    }
    proof {
        assert(message@.subrange(0, n as int) =~= message@);
        assert(r@ =~= frame_bytes(message@));
    }
    r
}

/// Parse a frame out of an extracted bit stream, returning the payload bytes.
pub fn parse_frame(bits: &[u8]) -> (r: Result<Vec<u8>, StegError>)
    ensures
        match r {
            Ok(m) => parse_frame_spec(bits@) == Ok::<Seq<u8>, StegError>(m@),
            Err(e) => parse_frame_spec(bits@) == Err::<Seq<u8>, StegError>(e),
        },
{
    let total = bits.len();
    if total < 48 {
        return Err(StegError::NoMessageFound);
    }
    let header = crate::bits::bits_to_bytes(vstd::slice::slice_subrange(bits, 0, 48));
    proof {
        let h48 = bits@.subrange(0, 48);
        assert(header@.len() == 6);
        assert forall|j: int| 0 <= j < 6 implies header@[j] == byte_of_bits(
            bits@.subrange(8 * j, 8 * j + 8),
        ) by {
            assert(h48.subrange(8 * j, 8 * j + 8) =~= bits@.subrange(8 * j, 8 * j + 8));
        }
        let m2 = bytes_of_bits(bits@.subrange(0, 16));
        assert(m2.len() == 2);
        assert(bits@.subrange(0, 16).subrange(0, 8) =~= bits@.subrange(0, 8));
        assert(bits@.subrange(0, 16).subrange(8, 16) =~= bits@.subrange(8, 16));
        assert(m2[0] == header@[0] && m2[1] == header@[1]);
        let l4 = bytes_of_bits(bits@.subrange(16, 48));
        assert(l4.len() == 4);
        assert forall|j: int| 0 <= j < 4 implies l4[j] == header@[j + 2] by {
            assert(bits@.subrange(16, 48).subrange(8 * j, 8 * j + 8) =~= bits@.subrange(
                16 + 8 * j,
                16 + 8 * j + 8,
            ));
        }
    }
    if header[0] != 0xDE || header[1] != 0xAD {
        proof {
            let m2 = bytes_of_bits(bits@.subrange(0, 16));
            assert(m2 != magic_bytes());
        }
        return Err(StegError::NoMessageFound);
    }
    proof {
        let m2 = bytes_of_bits(bits@.subrange(0, 16));
        assert(m2 =~= magic_bytes());
    }
    let l: u32 = ((header[2] as u32) << 24) | ((header[3] as u32) << 16) | ((header[4] as u32)
        << 8) | (header[5] as u32);
    proof {
        let l4 = bytes_of_bits(bits@.subrange(16, 48));
        assert(l == u32_from_be_bytes(l4));
    }
    if (6 + l as u64) * 8 > total as u64 {
        return Err(StegError::InvalidLength);
    }
    let count = l as usize;
    let payload_bits = vstd::slice::slice_subrange(bits, 48, 48 + 8 * count);
    let msg = crate::bits::bits_to_bytes(payload_bits);
    proof {
        let l_int = l as int;
        let sub = bits@.subrange(48, 48 + l_int * 8);
        assert(msg@.len() == bytes_of_bits(sub).len());
        assert forall|j: int| 0 <= j < msg@.len() implies msg@[j] == bytes_of_bits(sub)[j] by {
            assert(payload_bits@.subrange(8 * j, 8 * j + 8) =~= sub.subrange(8 * j, 8 * j + 8));
        }
        assert(msg@ =~= bytes_of_bits(sub));
    }
    Ok(msg)
}

/// Parsing a stream whose prefix is the packed frame of a payload yields that
/// payload back, whatever follows the frame in the stream.
pub proof fn lemma_parse_frame_of_packed(msg: Seq<u8>, bits: Seq<u8>)
    requires
        msg.len() <= u32::MAX,
        8 * (6 + msg.len()) <= bits.len(),
        bits.subrange(0, 8 * (6 + msg.len() as int)) == bits_of(frame_bytes(msg)),
    ensures
        parse_frame_spec(bits) == Ok::<Seq<u8>, StegError>(msg),
{
    let n = msg.len() as int;
    let frame = frame_bytes(msg);
    let fbits = bits_of(frame);
    assert(frame.len() == 6 + n);
    assert(fbits.len() == 8 * (6 + n));
    let pre = bits.subrange(0, 8 * (6 + n));

    // magic
    lemma_bits_of_subrange(frame, 0, 2);
    assert(frame.subrange(0, 2) =~= magic_bytes());
    assert(bits.subrange(0, 16) =~= pre.subrange(0, 16));
    assert(pre.subrange(0, 16) =~= fbits.subrange(0, 16));
    lemma_unpack_pack(magic_bytes());
    assert(bytes_of_bits(bits.subrange(0, 16)) == magic_bytes());

    // length field
    lemma_bits_of_subrange(frame, 2, 6);
    assert(frame.subrange(2, 6) =~= u32_be_bytes(msg.len() as u32));
    assert(bits.subrange(16, 48) =~= fbits.subrange(16, 48));
    lemma_unpack_pack(u32_be_bytes(msg.len() as u32));
    assert(bytes_of_bits(bits.subrange(16, 48)) == u32_be_bytes(msg.len() as u32));
    lemma_u32_be_roundtrip(msg.len() as u32);
    let l = u32_from_be_bytes(bytes_of_bits(bits.subrange(16, 48))) as int;
    assert(l == n);
    assert((6 + l) * 8 <= bits.len());

    // payload
    lemma_bits_of_subrange(frame, 6, 6 + n);
    assert(frame.subrange(6, 6 + n) =~= msg);
    assert(bits.subrange(48, 48 + n * 8) =~= fbits.subrange(48, 48 + n * 8));
    lemma_unpack_pack(msg);
    assert(bytes_of_bits(bits.subrange(48, 48 + l * 8)) == msg);
}

} // verus!
