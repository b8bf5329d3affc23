use hmac::Mac;
use openssl::symm::{Cipher, Crypter, Mode};
use simple_crypt::crypt_fs::CHAIN_IV_OFFSET;
use simple_crypt::header::{decode_size, encode_size, HEADER_SIZE, ORIG_FSIZE_OFFSET};
use simple_crypt::{
    crypt_read_file, encrypted_size, get_crypt_read_size, macs_equal, needs_size_field,
    read_slice, recovered_plaintext, CryptFS, CryptFSError, CryptFSMode, CryptMode, IoFailure,
};

const KEY_16: &str = "0123456789abcdef";
const KEY_32: &str = "0123456789abcdef0123456789abcdef";

fn fs_with(key: &str) -> CryptFS {
    CryptFS::new(String::from(key), String::from("/srv/data"), None)
}

fn sample(n: usize) -> Vec<u8> {
    (0..n).map(|i| (i * 7 + 3) as u8).collect()
}

fn size_field(src: &[u8]) -> Vec<u8> {
    if needs_size_field(src.len() as u64, CryptMode::Decrypt) {
        src[ORIG_FSIZE_OFFSET..ORIG_FSIZE_OFFSET + 8].to_vec()
    } else {
        Vec::new()
    }
}

#[test]
fn hello_world_encrypts_to_80_bytes_and_back() {
    let fs = fs_with(KEY_16);
    let enc = fs.crypt_translate(b"hello world", CryptMode::Encrypt).unwrap();
    assert_eq!(enc.len(), 80);
    let dec = fs.crypt_translate(&enc, CryptMode::Decrypt).unwrap();
    assert_eq!(dec, b"hello world".to_vec());
}

#[test]
fn round_trip_with_both_key_sizes() {
    for key in [KEY_16, KEY_32] {
        let fs = fs_with(key);
        for n in [1usize, 15, 16, 17, 31, 32, 63, 64, 65, 100, 1000, 4096] {
            let p = sample(n);
            let enc = fs.crypt_translate(&p, CryptMode::Encrypt).unwrap();
            let dec = fs.crypt_translate(&enc, CryptMode::Decrypt).unwrap();
            assert_eq!(dec, p, "key of {} bytes, plaintext of {} bytes", key.len(), n);
        }
    }
}

#[test]
fn encryption_is_deterministic() {
    let fs = fs_with(KEY_32);
    let p = sample(333);
    let a = fs.crypt_translate(&p, CryptMode::Encrypt).unwrap();
    let b = fs.crypt_translate(&p, CryptMode::Encrypt).unwrap();
    assert_eq!(a, b);
    let other = fs_with(KEY_32).crypt_translate(&p, CryptMode::Encrypt).unwrap();
    assert_eq!(a, other);
}

#[test]
fn size_oracle_matches_both_directions() {
    let fs = fs_with(KEY_16);
    for n in [0usize, 1, 11, 15, 16, 17, 64, 200] {
        let p = sample(n);
        let enc = fs.crypt_translate(&p, CryptMode::Encrypt).unwrap();
        assert_eq!(
            get_crypt_read_size(n as u64, CryptMode::Encrypt, &[]),
            Ok(enc.len() as u64)
        );
        let dec = fs.crypt_translate(&enc, CryptMode::Decrypt).unwrap();
        assert_eq!(
            get_crypt_read_size(enc.len() as u64, CryptMode::Decrypt, &size_field(&enc)),
            Ok(dec.len() as u64)
        );
    }
}

#[test]
fn size_formula_values() {
    assert_eq!(encrypted_size(11), 80);
    assert_eq!(encrypted_size(1), 80);
    assert_eq!(encrypted_size(15), 80);
    assert_eq!(encrypted_size(16), 96);
    assert_eq!(encrypted_size(17), 96);
    assert_eq!(encrypted_size(100), 176);
    assert_eq!(get_crypt_read_size(0, CryptMode::Encrypt, &[]), Ok(0));
    assert_eq!(get_crypt_read_size(0, CryptMode::Decrypt, &[]), Ok(0));
    assert_eq!(get_crypt_read_size(11, CryptMode::Encrypt, &[]), Ok(80));
}

#[test]
fn size_oracle_reads_the_big_endian_field() {
    let field = [0u8, 0, 0, 0, 0, 0, 0x01, 0x02];
    assert_eq!(get_crypt_read_size(96, CryptMode::Decrypt, &field), Ok(258));
    assert_eq!(
        get_crypt_read_size(96, CryptMode::Decrypt, &field[..5]),
        Err(CryptFSError::FileReadError)
    );
    assert!(needs_size_field(64, CryptMode::Decrypt));
    assert!(!needs_size_field(63, CryptMode::Decrypt));
    assert!(!needs_size_field(1000, CryptMode::Encrypt));
}

#[test]
fn size_field_encoding_round_trips() {
    for x in [0u64, 1, 11, 258, 0x0102_0304_0506_0708, u64::MAX] {
        let b = encode_size(x);
        assert_eq!(b, x.to_be_bytes().to_vec());
        assert_eq!(decode_size(&b), x);
    }
}

#[test]
fn header_records_size_and_mac() {
    let fs = fs_with(KEY_16);
    let enc = fs.crypt_translate(b"hello world", CryptMode::Encrypt).unwrap();
    assert_eq!(&enc[32..40], &11u64.to_be_bytes());
    let mut mac = hmac::Hmac::<sha2::Sha256>::new_from_slice(KEY_16.as_bytes()).unwrap();
    mac.update(&enc[32..]);
    let tag = mac.finalize().into_bytes().to_vec();
    assert_eq!(&enc[..32], &tag[..]);
}

#[test]
fn ciphertext_is_cbc_from_the_md5_of_the_content() {
    let fs = fs_with(KEY_16);
    let p = b"hello world".to_vec();
    let buf = crypt_read_file(&p, CryptMode::Encrypt);
    let iv = openssl::hash::hash(openssl::hash::MessageDigest::md5(), &buf[HEADER_SIZE..]).unwrap();
    let mut c = Crypter::new(Cipher::aes_128_cbc(), Mode::Encrypt, KEY_16.as_bytes(), Some(&iv)).unwrap();
    c.pad(false);
    let mut expected = vec![0u8; buf.len() + 16];
    let n = c.update(&buf, &mut expected).unwrap();
    expected.truncate(n);
    let enc = fs.crypt_translate(&p, CryptMode::Encrypt).unwrap();
    assert_eq!(&enc[40..], &expected[40..]);
}

#[test]
fn read_buffer_layout() {
    let p = b"hello world".to_vec();
    let buf = crypt_read_file(&p, CryptMode::Encrypt);
    assert_eq!(buf.len(), 80);
    assert!(buf[..64].iter().all(|b| *b == 0));
    assert_eq!(&buf[64..75], &p[..]);
    assert!(buf[75..].iter().all(|b| *b == 0));
    let aligned = sample(16);
    assert_eq!(crypt_read_file(&aligned, CryptMode::Encrypt).len(), 96);
    assert_eq!(crypt_read_file(&aligned, CryptMode::Decrypt), aligned);
}

#[test]
fn any_flipped_bit_is_a_mac_mismatch() {
    let fs = fs_with(KEY_16);
    let enc = fs.crypt_translate(&sample(40), CryptMode::Encrypt).unwrap();
    for i in 0..enc.len() {
        for bit in [0u8, 3, 7] {
            let mut t = enc.clone();
            t[i] ^= 1 << bit;
            assert_eq!(
                fs.crypt_translate(&t, CryptMode::Decrypt),
                Err(CryptFSError::MacMismatch),
                "byte {} bit {}",
                i,
                bit
            );
        }
    }
}

#[test]
fn wrong_key_is_a_mac_mismatch() {
    let enc = fs_with(KEY_16).crypt_translate(b"secret", CryptMode::Encrypt).unwrap();
    let other = fs_with("fedcba9876543210");
    assert_eq!(other.crypt_translate(&enc, CryptMode::Decrypt), Err(CryptFSError::MacMismatch));
}

#[test]
fn empty_source_stays_empty() {
    let fs = fs_with(KEY_16);
    assert_eq!(fs.crypt_translate(&[], CryptMode::Encrypt), Ok(Vec::new()));
    assert_eq!(fs.crypt_translate(&[], CryptMode::Decrypt), Ok(Vec::new()));
}

#[test]
fn undersized_decrypt_target_is_refused() {
    let fs = fs_with(KEY_16);
    for n in [1usize, 16, 40, 63] {
        let src = sample(n);
        assert_eq!(fs.crypt_translate(&src, CryptMode::Decrypt), Err(CryptFSError::InvalidFileSize));
        assert_eq!(
            get_crypt_read_size(n as u64, CryptMode::Decrypt, &size_field(&src)),
            Err(CryptFSError::InvalidFileSize)
        );
    }
}

#[test]
fn small_plaintext_can_be_encrypted() {
    let fs = fs_with(KEY_16);
    let enc = fs.crypt_translate(&sample(3), CryptMode::Encrypt).unwrap();
    assert_eq!(enc.len(), 80);
}

#[test]
fn oversized_header_length_is_refused() {
    let fs = fs_with(KEY_16);
    let sealed = fs.seal(vec![0u8; 96], 33);
    assert_eq!(fs.decrypt(&sealed), Err(CryptFSError::InvalidFileSize));
    let fits = fs.seal(vec![0u8; 96], 32);
    assert_eq!(fs.decrypt(&fits).map(|p| p.len()), Ok(32));
}

#[test]
fn seal_writes_size_then_mac() {
    let fs = fs_with(KEY_32);
    let enc: Vec<u8> = (0..80u8).collect();
    let s = fs.seal(enc.clone(), 5);
    assert_eq!(s.len(), 80);
    assert_eq!(&s[32..40], &5u64.to_be_bytes());
    assert_eq!(&s[40..], &enc[40..]);
    let mut mac = hmac::Hmac::<sha2::Sha256>::new_from_slice(KEY_32.as_bytes()).unwrap();
    mac.update(&s[32..]);
    assert_eq!(&s[..32], &mac.finalize().into_bytes()[..]);
}

#[test]
fn unaligned_ciphertext_is_an_invalid_size() {
    let fs = fs_with(KEY_16);
    let sealed = fs.seal(vec![0u8; 100], 4);
    assert_eq!(fs.decrypt(&sealed), Err(CryptFSError::InvalidFileSize));
    let enc = fs.crypt_translate(&sample(40), CryptMode::Encrypt).unwrap();
    let mut longer = enc.clone();
    longer.push(0);
    let resealed = fs.seal(longer, 40);
    assert_eq!(fs.crypt_translate(&resealed, CryptMode::Decrypt), Err(CryptFSError::InvalidFileSize));
}

#[test]
fn plaintext_is_cut_to_the_recorded_length() {
    let dec: Vec<u8> = (0..48u8).collect();
    assert_eq!(recovered_plaintext(&dec, 3), Ok(vec![0u8, 1, 2]));
    assert_eq!(recovered_plaintext(&dec, 48), Ok(dec.clone()));
    assert_eq!(recovered_plaintext(&dec, 0), Ok(Vec::new()));
    assert_eq!(recovered_plaintext(&dec, 49), Err(CryptFSError::InternalError));
    assert_eq!(CHAIN_IV_OFFSET, 48);
}

#[test]
fn hello_world_through_encrypt_and_decrypt() {
    let fs = fs_with(KEY_16);
    let buf = crypt_read_file(b"hello world", CryptMode::Encrypt);
    let enc = fs.encrypt(&buf, 11).unwrap();
    assert_eq!(fs.decrypt(&enc), Ok(b"hello world".to_vec()));
    assert_eq!(fs.encrypt(&buf, 11), Ok(enc));
}

#[test]
fn decryption_is_cbc_from_the_last_header_block() {
    let fs = fs_with(KEY_32);
    let p = sample(50);
    let enc = fs.crypt_translate(&p, CryptMode::Encrypt).unwrap();
    let mut c = Crypter::new(Cipher::aes_256_cbc(), Mode::Decrypt, KEY_32.as_bytes(), Some(&enc[48..64])).unwrap();
    c.pad(false);
    let mut out = vec![0u8; enc.len() - 64 + 16];
    let n = c.update(&enc[64..], &mut out).unwrap();
    out.truncate(n);
    assert_eq!(&out[..50], &p[..]);
    assert!(out[50..].iter().all(|b| *b == 0));
}

#[test]
fn split_reads_fit_together() {
    let fs = fs_with(KEY_16);
    let enc = fs.crypt_translate(&sample(100), CryptMode::Encrypt).unwrap();
    for (off, s1, s2) in [(0u64, 10u32, 30u32), (5, 0, 7), (170, 3, 50), (200, 1, 1)] {
        let mut joined = read_slice(&enc, off, s1);
        joined.extend(read_slice(&enc, off + s1 as u64, s2));
        assert_eq!(joined, read_slice(&enc, off, s1 + s2));
    }
    let again = fs.crypt_translate(&sample(100), CryptMode::Encrypt).unwrap();
    assert_eq!(read_slice(&enc, 17, 40), read_slice(&again, 17, 40));
}

#[test]
fn mac_comparison() {
    let a = [7u8; 32];
    let mut b = a;
    assert!(macs_equal(&a, &b));
    b[31] = 8;
    assert!(!macs_equal(&a, &b));
    b[31] = 7;
    b[0] = 0;
    assert!(!macs_equal(&a, &b));
}

#[test]
fn read_slices_are_clamped() {
    let data: Vec<u8> = (0..10u8).collect();
    assert_eq!(read_slice(&data, 0, 4), vec![0u8, 1, 2, 3]);
    assert_eq!(read_slice(&data, 8, 4), vec![8u8, 9]);
    assert_eq!(read_slice(&data, 10, 4), Vec::<u8>::new());
    assert_eq!(read_slice(&data, 11, 4), Vec::<u8>::new());
    assert_eq!(read_slice(&data, 3, 0), Vec::<u8>::new());
    assert_eq!(read_slice(&data, 2, u32::MAX), (2..10u8).collect::<Vec<u8>>());
}

#[test]
fn key_length_selects_the_cipher_or_is_refused() {
    assert!(CryptFS::try_new(String::from(KEY_16), String::from("/srv"), None).is_ok());
    assert!(CryptFS::try_new(String::from(KEY_32), String::from("/srv"), None).is_ok());
    for bad in ["", "short", "0123456789abcde", "0123456789abcdef0"] {
        assert_eq!(
            CryptFS::try_new(String::from(bad), String::from("/srv"), None).err(),
            Some(CryptFSError::InvalidKey)
        );
    }
}

#[test]
fn default_mode_is_bidirectional() {
    assert_eq!(fs_with(KEY_16).mode(), CryptFSMode::Bidirectional);
    let fs = CryptFS::new(String::from(KEY_16), String::from("/srv"), Some(CryptFSMode::EncryptOnly));
    assert_eq!(fs.mode(), CryptFSMode::EncryptOnly);
    assert_eq!(fs.source_root_bytes(), b"/srv".to_vec());
}

#[test]
fn io_failures_map_to_error_kinds() {
    assert_eq!(CryptFSError::from_io(IoFailure::NotFound), CryptFSError::InvalidPath);
    assert_eq!(CryptFSError::from_io(IoFailure::PermissionDenied), CryptFSError::FileReadError);
    assert_eq!(CryptFSError::from_io(IoFailure::Other), CryptFSError::InternalError);
}
