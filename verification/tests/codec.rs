use imoog::codec::{compress, decompress};
use imoog::errors::StoreError;

#[test]
fn round_trip_png_stub() {
    let raw: Vec<u8> = vec![0x89, 0x50, 0x4e, 0x47, 0x0d, 0x0a, 0x1a, 0x0a];
    let compressed = compress(raw.as_slice());
    assert_ne!(compressed, raw);
    assert_eq!(decompress(compressed.as_slice()), Ok(raw));
}

#[test]
fn round_trip_empty() {
    let raw: Vec<u8> = Vec::new();
    let compressed = compress(raw.as_slice());
    assert!(!compressed.is_empty());
    assert_eq!(decompress(compressed.as_slice()), Ok(raw));
}

#[test]
fn round_trip_single_byte() {
    let raw: Vec<u8> = vec![0];
    let compressed = compress(raw.as_slice());
    assert_eq!(decompress(compressed.as_slice()), Ok(raw));
}

#[test]
fn round_trip_repetitive_payload_shrinks() {
    let mut raw: Vec<u8> = Vec::new();
    for i in 0..4096u32 {
        raw.push((i % 7) as u8);
    }
    let compressed = compress(raw.as_slice());
    assert!(compressed.len() < raw.len());
    assert_eq!(decompress(compressed.as_slice()), Ok(raw));
}

#[test]
fn malformed_input_is_codec_failure() {
    let garbage: Vec<u8> = vec![0x89, 0x50, 0x4e, 0x47];
    assert_eq!(decompress(garbage.as_slice()), Err(StoreError::CodecFailure));
}

#[test]
fn bad_zlib_header_is_codec_failure() {
    let garbage: Vec<u8> = vec![0xff, 0xff, 0x00, 0x01, 0x02];
    assert_eq!(decompress(garbage.as_slice()), Err(StoreError::CodecFailure));
}
