use std::io::Read;

use umu_delta::bz2::{bz2_decompress_rs, decompress};
use umu_delta::error::DeltaError;
use umu_delta::image::FileImage;

/// `hello world`, compressed by the reference bzip2 at level 9.
const HELLO_WORLD_BZ2: [u8; 48] = [
    0x42, 0x5a, 0x68, 0x39, 0x31, 0x41, 0x59, 0x26, 0x53, 0x59, 0x44, 0xf7, 0x13, 0x78, 0x00, 0x00,
    0x01, 0x91, 0x80, 0x40, 0x00, 0x06, 0x44, 0x90, 0x80, 0x20, 0x00, 0x22, 0x03, 0x34, 0x84, 0x30,
    0x21, 0xb6, 0x81, 0x54, 0x27, 0x8b, 0xb9, 0x22, 0x9c, 0x28, 0x48, 0x22, 0x7b, 0x89, 0xbc, 0x00,
];

/// No bytes at all, compressed by the reference bzip2.
const NOTHING_BZ2: [u8; 14] = [
    0x42, 0x5a, 0x68, 0x39, 0x17, 0x72, 0x45, 0x38, 0x50, 0x90, 0x00, 0x00, 0x00, 0x00,
];

fn compress(data: &[u8]) -> Vec<u8> {
    let mut out = Vec::new();
    bzip2::read::BzEncoder::new(data, bzip2::Compression::best())
        .read_to_end(&mut out)
        .unwrap();
    out
}

#[test]
fn hello_world_decompresses_into_presized_file() {
    let mut file = FileImage::new(Vec::new());
    assert_eq!(bz2_decompress_rs(&HELLO_WORLD_BZ2, &mut file, 11), Ok(11));
    assert_eq!(file.len(), 11);
    assert_eq!(file.to_vec(), Some(b"hello world".to_vec()));
}

#[test]
fn hello_world_decompresses_in_memory() {
    assert_eq!(decompress(&HELLO_WORLD_BZ2), Ok(b"hello world".to_vec()));
    assert_eq!(decompress(&NOTHING_BZ2), Ok(Vec::new()));
}

#[test]
fn decompressing_replaces_old_content_of_equal_length() {
    let mut file = FileImage::new(b"HELLO WORLD".to_vec());
    assert_eq!(bz2_decompress_rs(&HELLO_WORLD_BZ2, &mut file, 11), Ok(11));
    assert_eq!(file.to_vec(), Some(b"hello world".to_vec()));
}

#[test]
fn file_truncated_to_zero_grows_to_decompressed_length() {
    let mut file = FileImage::new(b"some older and longer content".to_vec());
    assert_eq!(bz2_decompress_rs(&HELLO_WORLD_BZ2, &mut file, 0), Ok(11));
    assert_eq!(file.len(), 11);
    assert_eq!(file.to_vec(), Some(b"hello world".to_vec()));
}

#[test]
fn bytes_behind_decompressed_content_stay() {
    let mut file = FileImage::new(b"0123456789abcdefghij".to_vec());
    assert_eq!(bz2_decompress_rs(&HELLO_WORLD_BZ2, &mut file, 16), Ok(11));
    assert_eq!(file.len(), 16);
    assert_eq!(file.to_vec(), Some(b"hello worldbcdef".to_vec()));
    let mut file = FileImage::new(b"0123".to_vec());
    assert_eq!(bz2_decompress_rs(&HELLO_WORLD_BZ2, &mut file, 14), Ok(11));
    assert_eq!(file.to_vec(), Some(b"hello world\0\0\0".to_vec()));
}

#[test]
fn large_content_decompresses_with_its_length() {
    let content: Vec<u8> = (0..300_000u32).map(|i| (i % 251) as u8).collect();
    let compressed = compress(&content);
    let mut file = FileImage::new(Vec::new());
    assert_eq!(bz2_decompress_rs(&compressed, &mut file, 300_000), Ok(300_000));
    assert_eq!(file.to_vec(), Some(content));
}

#[test]
fn malformed_stream_fails_with_decompression_error() {
    assert_eq!(decompress(b"this is not bzip2"), Err(DeltaError::Decompression));
    assert_eq!(decompress(&[]), Err(DeltaError::Decompression));
    assert_eq!(decompress(&HELLO_WORLD_BZ2[..30]), Err(DeltaError::Decompression));
    let mut garbled = HELLO_WORLD_BZ2;
    garbled[20] ^= 0xff;
    assert_eq!(decompress(&garbled), Err(DeltaError::Decompression));
}

#[test]
fn malformed_stream_leaves_resized_file() {
    let mut file = FileImage::new(b"abcdef".to_vec());
    assert_eq!(
        bz2_decompress_rs(b"this is not bzip2", &mut file, 4),
        Err(DeltaError::Decompression)
    );
    assert_eq!(file.to_vec(), Some(b"abcd".to_vec()));
    assert_eq!(
        bz2_decompress_rs(b"this is not bzip2", &mut file, 6),
        Err(DeltaError::Decompression)
    );
    assert_eq!(file.to_vec(), Some(b"abcd\0\0".to_vec()));
}

#[test]
fn bytes_behind_first_stream_are_ignored() {
    let mut data = HELLO_WORLD_BZ2.to_vec();
    data.extend_from_slice(b"trailing");
    assert_eq!(decompress(&data), Ok(b"hello world".to_vec()));
}
