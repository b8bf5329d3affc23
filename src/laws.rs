//! Properties that relate several operations of the engine, proved from
//! their contracts.
use vstd::prelude::*;

use crate::crypt_fs::{
    chain_iv, cipher_body, cipher_head, cipher_input, decrypt_outcome, encrypted_blocks, mac_input,
    mac_valid, padding_len, read_slice_spec, stored_mac, stored_size, translate_outcome,
    CHAIN_IV_OFFSET,
};
use crate::error::CryptFSError;
use crate::header::{
    encrypted_len, lemma_be_round_trip, transformed_size_spec, CryptMode, AES_BLOCK_SIZE,
    HEADER_SIZE, MAC_SIZE, ORIG_FSIZE_OFFSET, ORIG_FSIZE_SIZE,
};
use crate::primitives::{aes_cbc_decrypt_of, aes_cbc_encrypt_of, decrypts_back, hmac_sha256_of};

verus! {

/// The size field of a source, where it has one; empty otherwise.
pub open spec fn size_field_of(src: Seq<u8>) -> Seq<u8> {
    if src.len() >= ORIG_FSIZE_OFFSET + ORIG_FSIZE_SIZE {
        src.subrange(ORIG_FSIZE_OFFSET as int, (ORIG_FSIZE_OFFSET + ORIG_FSIZE_SIZE) as int)
    } else {
        Seq::empty()
    }
}

/// What the engine encrypts passes its own integrity check when decrypted
/// with the same key, and the header brings back the plaintext's length:
/// decrypting the ciphertext of `p` never fails with `MacMismatch` or
/// `InvalidFileSize`, and what it returns is exactly as long as `p`.
pub proof fn lemma_encrypted_decrypts_to_same_length(
    key: Seq<u8>,
    p: Seq<u8>,
    enc: Vec<u8>,
    dec: Result<Vec<u8>, CryptFSError>,
)
    requires
        p.len() <= u64::MAX,
        translate_outcome(key, p, CryptMode::Encrypt, Ok(enc)),
        translate_outcome(key, enc@, CryptMode::Decrypt, dec),
    ensures
        dec matches Ok(q) ==> q@.len() == p.len(),
        dec matches Err(e) ==> e == CryptFSError::InternalError,
{
    if p.len() > 0 {
        lemma_be_round_trip(p.len() as u64);
        assert(enc@.subrange(
            ORIG_FSIZE_OFFSET as int,
            (ORIG_FSIZE_OFFSET + ORIG_FSIZE_SIZE) as int,
        ) == crate::header::u64_to_be(p.len() as u64));
        assert(stored_size(enc@) == p.len());
        assert(enc@.len() == encrypted_len(p.len()));
    }
}

/// Round trip: decrypting, with the same key, what the engine encrypted
/// gives back the plaintext, whatever its length (an empty plaintext stays
/// empty both ways). Only the cipher itself may still fail, with
/// `InternalError`.
pub proof fn lemma_round_trip(
    key: Seq<u8>,
    p: Seq<u8>,
    enc: Vec<u8>,
    dec: Result<Vec<u8>, CryptFSError>,
)
    requires
        p.len() <= u64::MAX,
        translate_outcome(key, p, CryptMode::Encrypt, Ok(enc)),
        translate_outcome(key, enc@, CryptMode::Decrypt, dec),
    ensures
        dec matches Ok(q) ==> q@ == p,
        dec matches Err(e) ==> e == CryptFSError::InternalError,
{
    lemma_encrypted_decrypts_to_same_length(key, p, enc, dec);
    if p.len() > 0 {
        let d = cipher_input(p);
        let c = enc@;
        let head = cipher_head(key, d);
        let e = encrypted_blocks(key, d);
        let iv = head.subrange(CHAIN_IV_OFFSET as int, HEADER_SIZE as int);
        let data = d.subrange(HEADER_SIZE as int, d.len() as int);
        let body = aes_cbc_encrypt_of(key, iv, data);
        assert(e == head + body);
        let k = (ORIG_FSIZE_OFFSET + ORIG_FSIZE_SIZE) as int;
        assert(c.subrange(k, c.len() as int) == e.subrange(k, d.len() as int));
        assert(chain_iv(c) =~= c.subrange(k, c.len() as int).subrange(
            CHAIN_IV_OFFSET - k,
            HEADER_SIZE - k,
        ));
        assert(iv =~= e.subrange(k, d.len() as int).subrange(CHAIN_IV_OFFSET - k, HEADER_SIZE - k));
        assert(chain_iv(c) == iv);
        assert(cipher_body(c) =~= c.subrange(k, c.len() as int).subrange(
            HEADER_SIZE - k,
            c.len() - k,
        ));
        assert(body =~= e.subrange(k, d.len() as int).subrange(HEADER_SIZE - k, d.len() - k));
        assert(cipher_body(c) == body);
        let zeros = Seq::new(padding_len(p.len()), |i: int| 0u8);
        assert(data =~= p + zeros);
        assert(data.len() % 16 == 0);
        assert(aes_cbc_encrypt_of(key, iv, data) == body);
        if dec is Ok {
            assert(decrypts_back(key, chain_iv(c), cipher_body(c)));
            assert(aes_cbc_decrypt_of(key, iv, body) == data);
            assert(data.subrange(0, p.len() as int) =~= p);
        }
    }
}

/// Determinism: translating the same source with the same key in the same
/// direction twice gives byte-identical results whenever both succeed. The
/// initialization vector derives from the content, so repeated reads of an
/// unchanged file return the same bytes.
pub proof fn lemma_translation_is_deterministic(
    key: Seq<u8>,
    src: Seq<u8>,
    mode: CryptMode,
    a: Vec<u8>,
    b: Vec<u8>,
)
    requires
        translate_outcome(key, src, mode, Ok(a)),
        translate_outcome(key, src, mode, Ok(b)),
    ensures
        a@ == b@,
{
    if src.len() == 0 {
        assert(a@ =~= b@);
    }
}

/// Reads split anywhere fit together: the bytes handed out for `s1` bytes
/// at `offset`, followed by those for `s2` bytes right after them, are the
/// bytes handed out for `s1 + s2` bytes at `offset`.
pub proof fn lemma_read_slices_concatenate(data: Seq<u8>, offset: u64, s1: u32, s2: u32)
    requires
        offset + s1 + s2 <= u64::MAX,
        s1 + s2 <= u32::MAX,
    ensures
        read_slice_spec(data, offset, s1) + read_slice_spec(data, (offset + s1) as u64, s2)
            == read_slice_spec(data, offset, (s1 + s2) as u32),
{
    assert(read_slice_spec(data, offset, s1) + read_slice_spec(data, (offset + s1) as u64, s2)
        =~= read_slice_spec(data, offset, (s1 + s2) as u32));
}

/// The size oracle agrees with the transform: whenever translating `src`
/// succeeds, the oracle, which reads at most the size field, reports the
/// length of the result; and the oracle refuses with `InvalidFileSize`
/// exactly the sources that the transform refuses with it before any
/// cipher work.
pub proof fn lemma_size_oracle_matches_transform(
    key: Seq<u8>,
    src: Seq<u8>,
    mode: CryptMode,
    r: Result<Vec<u8>, CryptFSError>,
)
    requires
        src.len() + HEADER_SIZE + AES_BLOCK_SIZE <= u64::MAX,
        translate_outcome(key, src, mode, r),
    ensures
        r matches Ok(out) ==> transformed_size_spec(src.len() as u64, mode, size_field_of(src))
            == Ok::<u64, CryptFSError>(out@.len() as u64),
        (transformed_size_spec(src.len() as u64, mode, size_field_of(src)) == Err::<
            u64,
            CryptFSError,
        >(CryptFSError::InvalidFileSize)) ==> r == Err::<Vec<u8>, CryptFSError>(
            CryptFSError::InvalidFileSize,
        ),
{
}

/// Tampering is detected: flipping bit `bit` of byte `i` of a ciphertext
/// whose MAC verifies makes decryption fail with `MacMismatch` when the byte
/// lies in the stored MAC; elsewhere it does exactly unless the altered
/// content has the same HMAC-SHA-256 tag as the unaltered content.
pub proof fn lemma_flipped_bit_is_detected(
    key: Seq<u8>,
    c: Seq<u8>,
    i: int,
    bit: u8,
    r: Result<Vec<u8>, CryptFSError>,
)
    requires
        c.len() >= HEADER_SIZE,
        mac_valid(key, c),
        0 <= i < c.len(),
        bit < 8,
        decrypt_outcome(key, c.update(i, c[i] ^ (1u8 << bit)), r),
    ensures
        i < MAC_SIZE ==> r == Err::<Vec<u8>, CryptFSError>(CryptFSError::MacMismatch),
        i >= MAC_SIZE ==> (r == Err::<Vec<u8>, CryptFSError>(CryptFSError::MacMismatch) <==> hmac_sha256_of(
            key,
            mac_input(c.update(i, c[i] ^ (1u8 << bit))),
        ) != hmac_sha256_of(key, mac_input(c))),
{
    let t = c.update(i, c[i] ^ (1u8 << bit));
    let x = c[i];
    assert(x ^ (1u8 << bit) != x) by (bit_vector)
        requires
            bit < 8,
    ;
    if i < MAC_SIZE {
        assert(mac_input(t) =~= mac_input(c));
        assert(stored_mac(t)[i] != stored_mac(c)[i]);
        assert(stored_mac(t) != stored_mac(c));
    } else {
        assert(stored_mac(t) =~= stored_mac(c));
    }
}

/// An empty source maps to an empty result in both directions, and the
/// oracle reports it as empty.
pub proof fn lemma_empty_source(
    key: Seq<u8>,
    mode: CryptMode,
    size_field: Seq<u8>,
    r: Result<Vec<u8>, CryptFSError>,
)
    requires
        translate_outcome(key, Seq::empty(), mode, r),
    ensures
        r matches Ok(v) && v@.len() == 0,
        transformed_size_spec(0, mode, size_field) == Ok::<u64, CryptFSError>(0),
{
}

/// A non-empty source shorter than a header is refused for decryption with
/// `InvalidFileSize`, by the transform and by the oracle alike.
pub proof fn lemma_undersized_decrypt_refused(
    key: Seq<u8>,
    src: Seq<u8>,
    size_field: Seq<u8>,
    r: Result<Vec<u8>, CryptFSError>,
)
    requires
        0 < src.len() < HEADER_SIZE,
        translate_outcome(key, src, CryptMode::Decrypt, r),
    ensures
        r == Err::<Vec<u8>, CryptFSError>(CryptFSError::InvalidFileSize),
        transformed_size_spec(src.len() as u64, CryptMode::Decrypt, size_field) == Err::<
            u64,
            CryptFSError,
        >(CryptFSError::InvalidFileSize),
{
}

} // verus!
