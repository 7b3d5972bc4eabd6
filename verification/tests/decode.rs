//! The tile-payload decoder on concrete values: the four encodings of one
//! grid, the documented scenario, and each failure kind.

use std::io::Write;

use tiled::codec::decode_tile_payload;
use tiled::TiledError;

fn le_bytes(gids: &[u32]) -> Vec<u8> {
    let mut out = Vec::new();
    for g in gids {
        out.extend_from_slice(&g.to_le_bytes());
    }
    out
}

fn zlib_compress(data: &[u8]) -> Vec<u8> {
    let mut enc = flate2::write::ZlibEncoder::new(Vec::new(), flate2::Compression::default());
    enc.write_all(data).unwrap();
    enc.finish().unwrap()
}

fn gzip_compress(data: &[u8]) -> Vec<u8> {
    let mut enc = flate2::write::GzEncoder::new(Vec::new(), flate2::Compression::default());
    enc.write_all(data).unwrap();
    enc.finish().unwrap()
}

#[test]
fn test_csv_scenario_three_by_two() {
    let rows = decode_tile_payload("csv", None, "1,2,3,4,5,6", 3, 2).unwrap();
    assert_eq!(rows, vec![vec![1, 2, 3], vec![4, 5, 6]]);
}

#[test]
fn test_zlib_scenario_three_by_two() {
    let payload = base64::encode(zlib_compress(&le_bytes(&[1, 2, 3, 4, 5, 6])));
    let rows = decode_tile_payload("base64", Some("zlib"), &payload, 3, 2).unwrap();
    assert_eq!(rows, vec![vec![1, 2, 3], vec![4, 5, 6]]);
}

#[test]
fn test_gzip_matches_raw_base64() {
    let gids = [9, 8, 7, 6, 5, 4];
    let raw = base64::encode(le_bytes(&gids));
    let zipped = base64::encode(gzip_compress(&le_bytes(&gids)));
    let a = decode_tile_payload("base64", None, &raw, 2, 3).unwrap();
    let b = decode_tile_payload("base64", Some("gzip"), &zipped, 2, 3).unwrap();
    assert_eq!(a, b);
    assert_eq!(a, vec![vec![9, 8], vec![7, 6], vec![5, 4]]);
}

#[test]
fn test_csv_whitespace_and_newlines() {
    let rows = decode_tile_payload("csv", None, "\n 1, 2,\n 3, 4\n", 2, 2).unwrap();
    assert_eq!(rows, vec![vec![1, 2], vec![3, 4]]);
}

#[test]
fn test_count_mismatch_is_invalid_payload() {
    let r = decode_tile_payload("csv", None, "1,2,3,4,5", 3, 2);
    assert!(matches!(r, Err(TiledError::InvalidEncodedPayload(_))));
}

#[test]
fn test_bad_base64_is_invalid_payload() {
    let r = decode_tile_payload("base64", None, "!!!not-base64!!!", 1, 1);
    assert!(matches!(r, Err(TiledError::InvalidEncodedPayload(_))));
}

#[test]
fn test_bad_csv_token_is_invalid_payload() {
    let r = decode_tile_payload("csv", None, "1,x,3", 3, 1);
    assert!(matches!(r, Err(TiledError::InvalidEncodedPayload(_))));
}

#[test]
fn test_corrupt_zlib_is_decompression_failure() {
    let payload = base64::encode([0u8, 1, 2, 3, 4, 5, 6, 7]);
    let r = decode_tile_payload("base64", Some("zlib"), &payload, 1, 2);
    assert!(matches!(r, Err(TiledError::DecompressionFailure(_))));
}

#[test]
fn test_unknown_encoding_is_malformed_attributes() {
    let r = decode_tile_payload("hex", None, "0001", 1, 1);
    assert!(matches!(r, Err(TiledError::MalformedAttributes(_))));
}

#[test]
fn test_unknown_compression_is_malformed_attributes() {
    let payload = base64::encode(le_bytes(&[1]));
    let r = decode_tile_payload("base64", Some("lzma"), &payload, 1, 1);
    assert!(matches!(r, Err(TiledError::MalformedAttributes(_))));
}
