use steg_core::lsb::RgbaImage;
use steg_core::{capacity, decode, decode_string, encode, StegError};

fn create_test_image(w: u32, h: u32) -> RgbaImage {
    RgbaImage::new_filled(w, h, [128, 128, 128, 255])
}

#[test]
fn test_capacity() {
    let img = create_test_image(100, 100);
    let cap = capacity(&img);
    // 100*100 pixels * 3 bits/pixel = 30000 bits = 3750 bytes - 6 header = 3744
    assert_eq!(cap, 3744);
}

#[test]
fn test_encode_decode_roundtrip() {
    let img = create_test_image(100, 100);
    let message = b"Hello, steganography!";
    let encoded = encode(&img, message).unwrap();
    let decoded = decode(&encoded).unwrap();
    assert_eq!(decoded, message);
}

#[test]
fn test_encode_decode_string_roundtrip() {
    let img = create_test_image(200, 200);
    let message = "Secret dead drop message: rendezvous at 0300 hours";
    let encoded = encode(&img, message.as_bytes()).unwrap();
    let decoded = decode_string(&encoded).unwrap();
    assert_eq!(decoded, message);
}

#[test]
fn test_message_too_large() {
    let img = create_test_image(2, 2); // Very small image
    let message = vec![0u8; 1000];
    let result = encode(&img, &message);
    assert!(matches!(result, Err(StegError::MessageTooLarge { .. })));
}

#[test]
fn test_no_message_found() {
    let img = create_test_image(100, 100); // Clean image, no embedded data
    let result = decode(&img);
    assert!(matches!(result, Err(StegError::NoMessageFound)));
}

#[test]
fn test_empty_message() {
    let img = create_test_image(100, 100);
    let message = b"";
    let encoded = encode(&img, message).unwrap();
    let decoded = decode(&encoded).unwrap();
    assert_eq!(decoded, message);
}

#[test]
fn test_binary_data() {
    let img = create_test_image(100, 100);
    let message: Vec<u8> = (0..=255).collect();
    let encoded = encode(&img, &message).unwrap();
    let decoded = decode(&encoded).unwrap();
    assert_eq!(decoded, message);
}

#[test]
fn test_capacity_tiny_image() {
    // 2*2 pixels * 3 bits = 12 bits -> 1 byte, under the 6-byte header
    let img = create_test_image(2, 2);
    assert_eq!(capacity(&img), 0);
}

#[test]
fn test_message_too_large_reports_bits() {
    let img = create_test_image(2, 2);
    let message = vec![0u8; 1000];
    match encode(&img, &message) {
        Err(StegError::MessageTooLarge { needed, capacity }) => {
            assert_eq!(needed, 8048); // (1000 + 6) * 8
            assert_eq!(capacity, 0);
        }
        other => panic!("expected MessageTooLarge, got {:?}", other),
    }
}

#[test]
fn test_alpha_and_tail_unchanged() {
    let img = create_test_image(100, 100);
    let message = b"Hello, steganography!";
    let encoded = encode(&img, message).unwrap();
    // (6 + 21) * 8 = 216 bits touch the first 72 pixels
    let touched_pixels = 72;
    for y in 0..100u32 {
        for x in 0..100u32 {
            let p = y * 100 + x;
            assert_eq!(encoded.channel_at(x, y, 3), 255);
            if p >= touched_pixels {
                for c in 0..4u32 {
                    let expected = if c == 3 { 255 } else { 128 };
                    assert_eq!(encoded.channel_at(x, y, c), expected);
                }
            } else {
                for c in 0..3u32 {
                    assert_eq!(encoded.channel_at(x, y, c) & 0xFE, 128);
                }
            }
        }
    }
}

#[test]
fn test_invalid_utf8_payload() {
    let img = create_test_image(100, 100);
    let message = [0xFFu8, 0xFE];
    let encoded = encode(&img, &message).unwrap();
    assert_eq!(decode(&encoded).unwrap(), vec![0xFF, 0xFE]);
    assert_eq!(decode_string(&encoded), Err(StegError::Utf8));
}

#[test]
fn test_invalid_length_error() {
    // A 4x4 image holds exactly 48 channel bits: enough for a header whose
    // magic matches but whose length field (1) promises 56 bits.
    let header = [0xDEu8, 0xAD, 0, 0, 0, 1];
    let mut data = vec![0u8; 64];
    for i in 0..64 {
        data[i] = if i % 4 == 3 { 255 } else { 0 };
    }
    for k in 0..48 {
        let bit = (header[k / 8] >> (7 - k % 8)) & 1;
        let idx = (k / 3) * 4 + k % 3;
        data[idx] = data[idx] & 0xFE | bit;
    }
    let img = RgbaImage::from_raw(4, 4, data).unwrap();
    assert_eq!(decode(&img), Err(StegError::InvalidLength));
}

#[test]
fn test_short_stream_no_message() {
    // 2*2 pixels give 12 bits, fewer than the 48-bit header
    let img = create_test_image(2, 2);
    assert_eq!(decode(&img), Err(StegError::NoMessageFound));
}

#[test]
fn test_from_raw_checks_length() {
    assert!(RgbaImage::from_raw(2, 2, vec![0u8; 16]).is_some());
    assert!(RgbaImage::from_raw(2, 2, vec![0u8; 15]).is_none());
    let img = RgbaImage::from_raw(1, 1, vec![10, 20, 30, 40]).unwrap();
    assert_eq!(img.width(), 1);
    assert_eq!(img.height(), 1);
    assert_eq!(img.channel_at(0, 0, 2), 30);
    assert_eq!(img.into_raw(), vec![10, 20, 30, 40]);
}
