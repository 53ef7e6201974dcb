//! LSB embedding and extraction over an RGBA pixel buffer.
//!
//! The canonical traversal visits pixels row-major, top-to-bottom and
//! left-to-right, and within a pixel the channels in the fixed order red,
//! green, blue; alpha is always skipped. One bit is carried per visited
//! channel, in its least-significant bit.

use vstd::prelude::*;
use vstd::arithmetic::div_mod::lemma_fundamental_div_mod_converse;
use crate::bits::{bits_of, byte_of_bits, bytes_of_bits, lemma_bit_of_is_bit, lemma_low_bit};
use crate::error::StegError;
use crate::frame::{frame_bytes, magic_bytes, parse_frame_spec};

verus! {

/// An owned width x height grid of pixels, four channel bytes per pixel in
/// the order red, green, blue, alpha, rows stored top to bottom and pixels
/// left to right within a row.
#[derive(Debug)]
pub struct RgbaImage {
    width: u32,
    height: u32,
    data: Vec<u8>,
}

impl RgbaImage {
    /// The image width in pixels.
    pub closed spec fn spec_width(&self) -> u32 {
        self.width
    }

    /// The image height in pixels.
    pub closed spec fn spec_height(&self) -> u32 {
        self.height
    }

    /// The flat channel bytes, four per pixel in raster order.
    pub closed spec fn channels(&self) -> Seq<u8> {
        self.data@
    }

    /// The buffer holds exactly four bytes for every pixel.
    pub open spec fn wf(&self) -> bool {
        self.channels().len() == self.spec_width() * self.spec_height() * 4
    }

    pub fn width(&self) -> (w: u32)
        ensures
            w == self.spec_width(),
    {
        self.width
    }

    pub fn height(&self) -> (h: u32)
        ensures
            h == self.spec_height(),
    {
        self.height
    }

    /// An image of the given dimensions with every pixel set to `rgba`.
    pub fn new_filled(width: u32, height: u32, rgba: [u8; 4]) -> (img: RgbaImage)
        requires
            width * height * 4 <= usize::MAX,
        ensures
            img.wf(),
            img.spec_width() == width,
            img.spec_height() == height,
            forall|i: int|
                0 <= i < width * height * 4 ==> #[trigger] img.channels()[i] == rgba@[i % 4],
    {
        let total: usize = (width as usize) * (height as usize) * 4;
        let mut data: Vec<u8> = Vec::new();
        let mut i: usize = 0;
        while i < total
            invariant
                total == width * height * 4,
                i <= total,
                data@.len() == i,
                forall|m: int| 0 <= m < i ==> #[trigger] data@[m] == rgba@[m % 4],
            decreases total - i,
        {
            data.push(rgba[i % 4]);
            i = i + 1;
        }
        RgbaImage { width, height, data }
    }

    /// Wrap a flat RGBA byte buffer; `None` when its length does not match
    /// the dimensions.
    pub fn from_raw(width: u32, height: u32, data: Vec<u8>) -> (r: Option<RgbaImage>)
        ensures
            match r {
                Some(img) => data@.len() == width * height * 4 && img.wf() && img.spec_width()
                    == width && img.spec_height() == height && img.channels() == data@,
                None => data@.len() != width * height * 4,
            },
    {
        proof {
            vstd::arithmetic::mul::lemma_mul_upper_bound(
                width as int,
                u32::MAX as int,
                height as int,
                u32::MAX as int,
            );
        }
        let expected: u128 = (width as u128) * (height as u128) * 4;
        if data.len() as u128 == expected {
            Some(RgbaImage { width, height, data })
        } else {
            None
        }
    }

    /// Give back the flat channel buffer.
    pub fn into_raw(self) -> (r: Vec<u8>)
        ensures
            r@ == self.channels(),
    {
        self.data
    }

    /// The byte of channel `c` (0 red, 1 green, 2 blue, 3 alpha) of the pixel
    /// at column `x`, row `y`.
    pub fn channel_at(&self, x: u32, y: u32, c: u32) -> (v: u8)
        requires
            self.wf(),
            x < self.spec_width(),
            y < self.spec_height(),
            c < 4,
        ensures
            v == self.channels()[((y * self.spec_width() + x) * 4 + c) as int],
    {
        let n = self.data.len();
        proof {
            let wi = self.spec_width() as int;
            let hi = self.spec_height() as int;
            let yi = y as int;
            let xi = x as int;
            assert(yi * wi + xi < hi * wi) by (nonlinear_arith)
                requires
                    0 <= yi < hi,
                    0 <= xi < wi,
            ;
            assert(hi * wi * 4 == wi * hi * 4) by (nonlinear_arith);
        }
        let idx: usize = ((y as usize) * (self.width as usize) + (x as usize)) * 4 + (c as usize);
        self.data[idx]
    }
}

/// How many payload bytes fit in an image of the given dimensions: three
/// usable bits per pixel, eight bits per byte, minus the 6-byte header,
/// saturating at zero.
pub open spec fn capacity_spec(width: u32, height: u32) -> int {
    if (width * height * 3) / 8 >= 6 {
        (width * height * 3) / 8 - 6
    } else {
        0
    }
}

/// The channel buffer after the bit stream `bits` is written along the
/// canonical traversal: channel byte `i` carries bit `(i/4)*3 + i%4` of the
/// stream in its lowest bit when that bit exists and `i` is not an alpha
/// byte, and is unchanged otherwise.
pub open spec fn encoded_channels(data: Seq<u8>, bits: Seq<u8>) -> Seq<u8> {
    Seq::new(
        data.len(),
        |i: int|
            if i % 4 < 3 && (i / 4) * 3 + i % 4 < bits.len() {
                (data[i] & 0xFE) | bits[(i / 4) * 3 + i % 4]
            } else {
                data[i]
            },
    )
}

/// The bit stream read back from a channel buffer: the lowest bit of every
/// red, green and blue byte, in the canonical traversal order.
pub open spec fn extracted_bits(data: Seq<u8>) -> Seq<u8> {
    Seq::new((data.len() / 4) * 3, |k: int| data[(k / 3) * 4 + k % 3] & 1)
}

/// What decoding a channel buffer yields: the full bit stream is extracted
/// and the frame is parsed out of it.
pub open spec fn decode_spec(data: Seq<u8>) -> Result<Seq<u8>, StegError> {
    parse_frame_spec(extracted_bits(data))
}

/// The steganographic capacity of an image in payload bytes.
pub fn capacity(img: &RgbaImage) -> (cap: usize)
    requires
        img.wf(),
    ensures
        cap == capacity_spec(img.spec_width(), img.spec_height()),
{
    let n = img.data.len();
    proof {
        lemma_fundamental_div_mod_converse(
            n as int,
            4,
            img.spec_width() * img.spec_height(),
            0,
        );
    }
    let total_bits = n / 4 * 3;
    let total_bytes = total_bits / 8;
    if total_bytes >= 6 {
        total_bytes - 6
    } else {
        0
    }
}

/// Embed a payload: returns a new image identical to the input except that
/// the lowest bits of the first `(6 + message.len()) * 8` visited channels
/// carry the frame's bits. Fails with `MessageTooLarge`, reporting the sizes
/// in bits, exactly when the payload exceeds the image's capacity.
pub fn encode(img: &RgbaImage, message: &[u8]) -> (r: Result<RgbaImage, StegError>)
    requires
        img.wf(),
        message@.len() <= u32::MAX,
        (message@.len() + 6) * 8 <= usize::MAX,
    ensures
        r is Ok <==> message@.len() <= capacity_spec(img.spec_width(), img.spec_height()),
        (match r {
            Ok(out) => out.wf() && out.spec_width() == img.spec_width() && out.spec_height()
                == img.spec_height() && out.channels() == encoded_channels(
                img.channels(),
                bits_of(frame_bytes(message@)),
            ),
            Err(e) => e == (StegError::MessageTooLarge {
                needed: ((message@.len() + 6) * 8) as usize,
                capacity: (capacity_spec(img.spec_width(), img.spec_height()) * 8) as usize,
            }),
        }),
        (match r {
            Ok(out) => forall|i: int|
                0 <= i < img.channels().len() && i % 4 == 3 ==> #[trigger] out.channels()[i]
                    == img.channels()[i],
            Err(_) => true,
        }),
        (match r {
            Ok(out) => forall|i: int|
                0 <= i < img.channels().len() && (i / 4) * 3 + i % 4 >= (message@.len() + 6) * 8
                    ==> #[trigger] out.channels()[i] == img.channels()[i],
            Err(_) => true,
        }),
{
    let cap = capacity(img);
    let msg_len = message.len();
    if msg_len > cap {
        let n = img.data.len();
        proof {
            assert(cap * 8 <= n);
        }
        let needed = (msg_len + 6) * 8;
        let capacity_bits = cap * 8;
        return Err(StegError::MessageTooLarge { needed, capacity: capacity_bits });
    }
    let frame = crate::frame::build_frame(message);
    let bits = crate::bits::bytes_to_bits(frame.as_slice());
    let n = img.data.len();
    let mut out: Vec<u8> = Vec::new();
    let mut i: usize = 0;
    while i < n
        invariant
            n == img.channels().len(),
            bits@ == bits_of(frame_bytes(message@)),
            i <= n,
            out@.len() == i,
            forall|m: int|
                0 <= m < i ==> #[trigger] out@[m] == encoded_channels(img.channels(), bits@)[m],
        decreases n - i,
    {
        let c = i % 4;
        let k = (i / 4) * 3 + c;
        let b = img.data[i];
        if c < 3 && k < bits.len() {
            out.push((b & 0xFE) | bits[k]);
        } else {
            out.push(b);
        }
        i = i + 1;
    }
    let result = RgbaImage { width: img.width, height: img.height, data: out };
    proof {
        assert(result.channels() =~= encoded_channels(
            img.channels(),
            bits_of(frame_bytes(message@)),
        ));
    }
    Ok(result)
}

/// Extract a payload: reads the lowest bit of every red, green and blue
/// channel byte in the canonical order and parses the frame out of that bit
/// stream.
pub fn decode(img: &RgbaImage) -> (r: Result<Vec<u8>, StegError>)
    requires
        img.wf(),
    ensures
        (match r {
            Ok(m) => decode_spec(img.channels()) == Ok::<Seq<u8>, StegError>(m@),
            Err(e) => decode_spec(img.channels()) == Err::<Seq<u8>, StegError>(e),
        }),
{
    let n = img.data.len();
    let pixels = n / 4;
    let nbits = pixels * 3;
    let mut bits: Vec<u8> = Vec::new();
    let mut k: usize = 0;
    while k < nbits
        invariant
            n == img.channels().len(),
            pixels == n / 4,
            nbits == pixels * 3,
            k <= nbits,
            bits@.len() == k,
            forall|m: int|
                0 <= m < k ==> #[trigger] bits@[m] == extracted_bits(img.channels())[m],
        decreases nbits - k,
    {
        let idx = (k / 3) * 4 + k % 3;
        proof {
            assert(3 * (k as int / 3) <= k);
        }
        bits.push(img.data[idx] & 1);
        k = k + 1;
    }
    proof {
        assert(bits@ =~= extracted_bits(img.channels()));
    }
    crate::frame::parse_frame(bits.as_slice())
}

/// What `String::from_utf8` yields on a byte sequence: `Some` of the
/// decoded characters when the bytes are valid UTF-8, `None` otherwise.
pub uninterp spec fn utf8_decode(bytes: Seq<u8>) -> Option<Seq<char>>;

/// Relies on `String::from_utf8`: whether the bytes decode, and the string
/// they decode to, are functions of the byte sequence alone.
#[verifier::external_body]
fn string_from_utf8(bytes: Vec<u8>) -> (r: Result<String, StegError>)
    ensures
        (match r {
            Ok(s) => utf8_decode(bytes@) == Some(s@),
            Err(e) => utf8_decode(bytes@) is None && e == StegError::Utf8,
        }),
{
    match String::from_utf8(bytes) {
        Ok(s) => Ok(s),
        Err(_) => Err(StegError::Utf8),
    }
}

/// Extract a payload and interpret it as UTF-8. Frame-level failures pass
/// through unchanged; a structurally valid frame whose payload is not valid
/// UTF-8 fails with `Utf8`.
pub fn decode_string(img: &RgbaImage) -> (r: Result<String, StegError>)
    requires
        img.wf(),
    ensures
        (match r {
            Ok(s) => decode_spec(img.channels()) matches Ok(m) && utf8_decode(m) == Some(s@),
            Err(e) => (decode_spec(img.channels()) == Err::<Seq<u8>, StegError>(e)) || (e
                == StegError::Utf8 && (decode_spec(img.channels()) matches Ok(m) && utf8_decode(m)
                is None)),
        }),
{
    match decode(img) {
        Ok(bytes) => string_from_utf8(bytes),
        Err(e) => Err(e),
    }
}

/// Round-trip law: decoding the channels produced by embedding a payload
/// yields that payload back, for every image whose capacity admits the
/// payload and that is large enough to hold at least the 48-bit header.
pub proof fn lemma_encode_decode_roundtrip(img: RgbaImage, msg: Seq<u8>)
    requires
        img.wf(),
        msg.len() <= capacity_spec(img.spec_width(), img.spec_height()),
        msg.len() <= u32::MAX,
        48 <= img.spec_width() * img.spec_height() * 3,
    ensures
        decode_spec(encoded_channels(img.channels(), bits_of(frame_bytes(msg)))) == Ok::<
            Seq<u8>,
            StegError,
        >(msg),
{
    let w = img.spec_width() as int;
    let h = img.spec_height() as int;
    let data = img.channels();
    let n = data.len() as int;
    let frame = frame_bytes(msg);
    let fbits = bits_of(frame);
    let nbits = 8 * (6 + msg.len() as int);
    assert(frame.len() == 6 + msg.len());
    assert(fbits.len() == nbits);

    // the whole frame fits in the available channel bits
    assert(nbits <= w * h * 3) by {
        if (img.spec_width() * img.spec_height() * 3) / 8 >= 6 {
            assert(msg.len() + 6 <= (w * h * 3) / 8);
            assert(8 * ((w * h * 3) / 8) <= w * h * 3);
        } else {
            assert(msg.len() == 0);
        }
    }

    let enc = encoded_channels(data, fbits);
    let ext = extracted_bits(enc);
    assert(enc.len() == n);
    assert(n / 4 == w * h) by {
        lemma_fundamental_div_mod_converse(n, 4, w * h, 0);
    }
    assert(ext.len() == 3 * (w * h));
    assert(nbits <= ext.len());

    assert forall|k: int| 0 <= k < nbits implies ext[k] == fbits[k] by {
        let q = k / 3;
        let r0 = k % 3;
        let i = 4 * q + r0;
        lemma_fundamental_div_mod_converse(i, 4, q, r0);
        assert(3 * q <= k);
        assert(i < n);
        assert(enc[i] == (data[i] & 0xFE) | fbits[k]);
        let b = fbits[k];
        lemma_bit_of_is_bit(frame[k / 8], k % 8);
        let x = data[i];
        assert(((x & 0xFE) | b) & 1 == b) by (bit_vector)
            requires
                b <= 1,
        ;
    }
    assert(ext.subrange(0, nbits) =~= fbits);
    crate::frame::lemma_parse_frame_of_packed(msg, ext);
}

/// An image whose channel bytes are all the same value carries no message:
/// decoding fails with `NoMessageFound`, either because the stream is too
/// short for a header or because a run of equal bits cannot spell the magic
/// marker.
pub proof fn lemma_uniform_image_no_message(data: Seq<u8>, v: u8)
    requires
        forall|i: int| 0 <= i < data.len() ==> #[trigger] data[i] == v,
    ensures
        decode_spec(data) == Err::<Seq<u8>, StegError>(StegError::NoMessageFound),
{
    let ext = extracted_bits(data);
    if ext.len() >= 48 {
        let b = v & 1;
        lemma_low_bit(v);
        assert forall|k: int| 0 <= k < 48 implies ext[k] == b by {
            let q = k / 3;
            let r0 = k % 3;
            let i = 4 * q + r0;
            assert(3 * q <= k);
            assert(4 * (data.len() as int / 4) <= data.len());
            assert(i < data.len());
        }
        let m2 = bytes_of_bits(ext.subrange(0, 16));
        let first8 = ext.subrange(0, 16).subrange(0, 8);
        assert(first8[0] == b && first8[1] == b && first8[2] == b && first8[3] == b && first8[4]
            == b && first8[5] == b && first8[6] == b && first8[7] == b);
        assert(m2[0] == byte_of_bits(first8));
        assert(byte_of_bits(first8) == ((b & 1) * 128 + (b & 1) * 64 + (b & 1) * 32 + (b & 1) * 16
            + (b & 1) * 8 + (b & 1) * 4 + (b & 1) * 2 + (b & 1)) as u8);
        lemma_low_bit(b);
        assert(b == 0 || b == 1);
        assert(m2[0] == 0 || m2[0] == 255);
        assert(magic_bytes()[0] == 0xDE);
        assert(m2 != magic_bytes());
    }
}

} // verus!
