use base64::Engine;
use aes_gcm::aead::{Aead, KeyInit};
use grabbit::gui::CompressionQuality;
use grabbit::security::{
    compress_data, compress_file, hex_key_to_bytes, process_file, seal_chunks, SecurityError,
    CHUNK_SIZE,
};

const KEY_HEX: &str = "000102030405060708090a0b0c0d0e0f101112131415161718191A1B1C1D1E1F";

fn open_with_aes_gcm(key: &[u8; 32], mut sealed: &[u8]) -> Vec<u8> {
    let cipher = aes_gcm::Aes256Gcm::new(key.into());
    let mut out = Vec::new();
    while !sealed.is_empty() {
        let nonce = &sealed[..12];
        let len = std::cmp::min(CHUNK_SIZE + 16, sealed.len() - 12);
        let ct = &sealed[12..12 + len];
        out.extend(cipher.decrypt(aes_gcm::Nonce::from_slice(nonce), ct).unwrap());
        sealed = &sealed[12 + len..];
    }
    out
}

#[test]
fn hex_key_accepts_64_digits_either_case() {
    let k = hex_key_to_bytes(KEY_HEX).unwrap();
    let expected: Vec<u8> = (0u8..32).collect();
    assert_eq!(k.to_vec(), expected);
}

#[test]
fn hex_key_errors() {
    assert_eq!(hex_key_to_bytes("abc"), Err(SecurityError::InvalidHex));
    assert_eq!(hex_key_to_bytes("zz"), Err(SecurityError::InvalidHex));
    assert_eq!(hex_key_to_bytes("00ff"), Err(SecurityError::WrongKeyLength));
    assert_eq!(hex_key_to_bytes(""), Err(SecurityError::WrongKeyLength));
}

#[test]
fn compress_data_is_a_zstd_stream() {
    let data = b"hello hello hello hello".to_vec();
    let z = compress_data(&data).unwrap();
    assert_ne!(z, data);
    assert_eq!(zstd::decode_all(&z[..]).unwrap(), data);
}

#[test]
fn compress_file_is_base64_of_zstd() {
    let data = vec![7u8; 1000];
    let s = compress_file(&data, CompressionQuality::Default).unwrap();
    let z = base64::engine::general_purpose::STANDARD.decode(&s).unwrap();
    assert_eq!(zstd::decode_all(&z[..]).unwrap(), data);
}

#[test]
fn seal_chunks_frames_each_chunk() {
    let key = [9u8; 32];
    let data: Vec<u8> = (0..(2 * CHUNK_SIZE + 5)).map(|i| (i % 251) as u8).collect();
    let sealed = seal_chunks(&key, &data);
    assert_eq!(sealed.len(), data.len() + 3 * (12 + 16));
    assert_eq!(open_with_aes_gcm(&key, &sealed), data);
    assert!(seal_chunks(&key, &[]).is_empty());
}

#[test]
fn process_file_round_trip() {
    let data = b"some file contents".repeat(100);
    let out = process_file(&data, KEY_HEX).unwrap();
    let sealed = base64::engine::general_purpose::STANDARD.decode(&out).unwrap();
    let key = hex_key_to_bytes(KEY_HEX).unwrap();
    let z = open_with_aes_gcm(&key, &sealed);
    assert_eq!(zstd::decode_all(&z[..]).unwrap(), data);
}

#[test]
fn process_file_checks_key_first() {
    assert_eq!(process_file(b"x", "nothex"), Err(SecurityError::InvalidHex));
    assert_eq!(process_file(b"x", "0011"), Err(SecurityError::WrongKeyLength));
}

use grabbit::security::{decompress_data, open_chunks, restore_compressed, restore_file};

#[test]
fn decompress_undoes_compress() {
    let data = b"abcabcabc".repeat(50);
    assert_eq!(decompress_data(&compress_data(&data).unwrap()).unwrap(), data);
    assert_eq!(decompress_data(b"not zstd"), Err(SecurityError::Decompression));
}

#[test]
fn restore_compressed_undoes_compress_file() {
    let data: Vec<u8> = (0..5000u32).map(|i| (i * 7 % 256) as u8).collect();
    let s = compress_file(&data, CompressionQuality::High).unwrap();
    assert_eq!(restore_compressed(&s).unwrap(), data);
    assert_eq!(restore_compressed("%%"), Err(SecurityError::InvalidBase64));
    assert_eq!(restore_compressed("QUJD"), Err(SecurityError::Decompression));
}

#[test]
fn open_chunks_undoes_seal_chunks() {
    let key = [3u8; 32];
    let data: Vec<u8> = (0..(CHUNK_SIZE + 100)).map(|i| (i % 253) as u8).collect();
    let sealed = seal_chunks(&key, &data);
    assert_eq!(open_chunks(&key, &sealed).unwrap(), data);
    assert_eq!(open_chunks(&key, &[]).unwrap(), Vec::<u8>::new());
    assert!(open_chunks(&[4u8; 32], &sealed).is_none());
    assert!(open_chunks(&key, &sealed[..20]).is_none());
}

#[test]
fn restore_file_undoes_process_file() {
    let data = b"file bytes ".repeat(300);
    let s = process_file(&data, KEY_HEX).unwrap();
    assert_eq!(restore_file(&s, KEY_HEX).unwrap(), data);
    let other = "ff".repeat(32);
    assert_eq!(restore_file(&s, &other), Err(SecurityError::Decryption));
    assert_eq!(restore_file("!", KEY_HEX), Err(SecurityError::InvalidBase64));
    assert_eq!(restore_file(&s, "12"), Err(SecurityError::WrongKeyLength));
}

use grabbit::security::seal_with_nonces;

#[test]
fn seal_with_given_nonces_is_exact() {
    let key = [5u8; 32];
    let data: Vec<u8> = (0..(CHUNK_SIZE + 3)).map(|i| (i % 7) as u8).collect();
    let nonces = vec![[1u8; 12], [2u8; 12]];
    let sealed = seal_with_nonces(&key, &data, &nonces);
    assert_eq!(&sealed[..12], &[1u8; 12]);
    let second = 12 + CHUNK_SIZE + 16;
    assert_eq!(&sealed[second..second + 12], &[2u8; 12]);
    let cipher = aes_gcm::Aes256Gcm::new((&key).into());
    let ct = cipher.encrypt(aes_gcm::Nonce::from_slice(&[1u8; 12]), &data[..CHUNK_SIZE]).unwrap();
    assert_eq!(&sealed[12..second], &ct[..]);
    assert_eq!(open_chunks(&key, &sealed).unwrap(), data);
    assert_eq!(seal_with_nonces(&key, &data, &nonces), sealed);
}

#[test]
fn tampered_chunk_does_not_open() {
    let key = [6u8; 32];
    let data = b"tamper".to_vec();
    let mut sealed = seal_chunks(&key, &data);
    let last = sealed.len() - 1;
    sealed[last] ^= 1;
    assert!(open_chunks(&key, &sealed).is_none());
    assert_eq!(restore_compressed("QUJD"), Err(SecurityError::Decompression));
}
