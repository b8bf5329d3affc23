//! The cryptographic primitives that the engine relies on, from the openssl,
//! hmac and sha2 crates, with what this crate assumes of each.
use vstd::prelude::*;

use hmac::Mac;
use openssl::error::ErrorStack;
use openssl::hash::{hash, MessageDigest};
use openssl::symm::{Cipher, Crypter, Mode};

verus! {

/// An OpenSSL failure; carried through, never inspected.
#[verifier::external_type_specification]
#[verifier::external_body]
pub struct ExErrorStack(ErrorStack);

/// The AES-CBC encryption, without padding, of `data` under `key` from the
/// initialization vector `iv`; the key's length (16 or 32 bytes) selects
/// AES-128 or AES-256.
pub uninterp spec fn aes_cbc_encrypt_of(key: Seq<u8>, iv: Seq<u8>, data: Seq<u8>) -> Seq<u8>;

/// The AES-CBC decryption, without padding, of `data` under `key` from the
/// initialization vector `iv`; the key's length selects the AES variant.
pub uninterp spec fn aes_cbc_decrypt_of(key: Seq<u8>, iv: Seq<u8>, data: Seq<u8>) -> Seq<u8>;

/// What a cipher run wrote: the first `n` bytes of `out`, then the first `m`
/// bytes of `last`.
pub open spec fn joined_output(out: Seq<u8>, n: int, last: Seq<u8>, m: int) -> Seq<u8> {
    out.subrange(0, n) + last.subrange(0, m)
}

/// Whether decrypting `c` under `key` and `iv` gives back every whole-block
/// plaintext that encrypts to `c` under them.
pub open spec fn decrypts_back(key: Seq<u8>, iv: Seq<u8>, c: Seq<u8>) -> bool {
    forall|p: Seq<u8>|
        p.len() % 16 == 0 && #[trigger] aes_cbc_encrypt_of(key, iv, p) == c ==> aes_cbc_decrypt_of(
            key,
            iv,
            c,
        ) == p
}

/// Relies on openssl's `Crypter` for `Cipher::aes_128_cbc` in encrypt mode
/// with padding off (`new`, `pad(false)`, `update` into `out`, `finalize`
/// into `last`): what the two calls write is the CBC encryption of `data`,
/// which depends on key, IV and data alone. With a 16-byte key and IV
/// `new` does not panic; `update` panics when `out` is shorter than `data`
/// plus a block or longer than `c_int::MAX`, `finalize` when `last` is
/// shorter than a block. Data that is not whole blocks is an `Err`.
#[verifier::external_body]
fn aes_128_cbc_encrypt_nopad(
    key: &[u8],
    iv: &[u8],
    data: &[u8],
    out: &mut [u8],
    last: &mut [u8],
) -> (r: Result<(usize, usize), ErrorStack>)
    requires
        key@.len() == 16,
        iv@.len() == 16,
        data@.len() + 16 <= old(out)@.len() <= i32::MAX,
        old(last)@.len() >= 16,
    ensures
        final(out)@.len() == old(out)@.len(),
        final(last)@.len() == old(last)@.len(),
        r matches Ok((n, m)) ==> n <= old(out)@.len() && m <= old(last)@.len() && joined_output(
            final(out)@,
            n as int,
            final(last)@,
            m as int,
        ) == aes_cbc_encrypt_of(key@, iv@, data@),
{
    let mut c = Crypter::new(Cipher::aes_128_cbc(), Mode::Encrypt, key, Some(iv))?;
    c.pad(false);
    let n = c.update(data, out)?;
    let m = c.finalize(last)?;
    Ok((n, m))
}

/// Relies on openssl's `Crypter` for `Cipher::aes_256_cbc` in encrypt mode
/// with padding off, as [`aes_128_cbc_encrypt_nopad`] does for AES-128, with
/// a 32-byte key.
#[verifier::external_body]
fn aes_256_cbc_encrypt_nopad(
    key: &[u8],
    iv: &[u8],
    data: &[u8],
    out: &mut [u8],
    last: &mut [u8],
) -> (r: Result<(usize, usize), ErrorStack>)
    requires
        key@.len() == 32,
        iv@.len() == 16,
        data@.len() + 16 <= old(out)@.len() <= i32::MAX,
        old(last)@.len() >= 16,
    ensures
        final(out)@.len() == old(out)@.len(),
        final(last)@.len() == old(last)@.len(),
        r matches Ok((n, m)) ==> n <= old(out)@.len() && m <= old(last)@.len() && joined_output(
            final(out)@,
            n as int,
            final(last)@,
            m as int,
        ) == aes_cbc_encrypt_of(key@, iv@, data@),
{
    let mut c = Crypter::new(Cipher::aes_256_cbc(), Mode::Encrypt, key, Some(iv))?;
    c.pad(false);
    let n = c.update(data, out)?;
    let m = c.finalize(last)?;
    Ok((n, m))
}

/// Relies on openssl's `Crypter` for `Cipher::aes_128_cbc` in decrypt mode
/// with padding off: what `update` and `finalize` write is the CBC
/// decryption of `data`, which depends on key, IV and data alone, and
/// decryption undoes encryption under the same key and IV (as the
/// `Crypter` documentation's example shows). Panics and errors as for
/// [`aes_128_cbc_encrypt_nopad`].
#[verifier::external_body]
fn aes_128_cbc_decrypt_nopad(
    key: &[u8],
    iv: &[u8],
    data: &[u8],
    out: &mut [u8],
    last: &mut [u8],
) -> (r: Result<(usize, usize), ErrorStack>)
    requires
        key@.len() == 16,
        iv@.len() == 16,
        data@.len() + 16 <= old(out)@.len() <= i32::MAX,
        old(last)@.len() >= 16,
    ensures
        final(out)@.len() == old(out)@.len(),
        final(last)@.len() == old(last)@.len(),
        r matches Ok((n, m)) ==> n <= old(out)@.len() && m <= old(last)@.len() && joined_output(
            final(out)@,
            n as int,
            final(last)@,
            m as int,
        ) == aes_cbc_decrypt_of(key@, iv@, data@),
        r is Ok ==> decrypts_back(key@, iv@, data@),
{
    let mut c = Crypter::new(Cipher::aes_128_cbc(), Mode::Decrypt, key, Some(iv))?;
    c.pad(false);
    let n = c.update(data, out)?;
    let m = c.finalize(last)?;
    Ok((n, m))
}

/// Relies on openssl's `Crypter` for `Cipher::aes_256_cbc` in decrypt mode
/// with padding off, as [`aes_128_cbc_decrypt_nopad`] does for AES-128, with
/// a 32-byte key.
#[verifier::external_body]
fn aes_256_cbc_decrypt_nopad(
    key: &[u8],
    iv: &[u8],
    data: &[u8],
    out: &mut [u8],
    last: &mut [u8],
) -> (r: Result<(usize, usize), ErrorStack>)
    requires
        key@.len() == 32,
        iv@.len() == 16,
        data@.len() + 16 <= old(out)@.len() <= i32::MAX,
        old(last)@.len() >= 16,
    ensures
        final(out)@.len() == old(out)@.len(),
        final(last)@.len() == old(last)@.len(),
        r matches Ok((n, m)) ==> n <= old(out)@.len() && m <= old(last)@.len() && joined_output(
            final(out)@,
            n as int,
            final(last)@,
            m as int,
        ) == aes_cbc_decrypt_of(key@, iv@, data@),
        r is Ok ==> decrypts_back(key@, iv@, data@),
{
    let mut c = Crypter::new(Cipher::aes_256_cbc(), Mode::Decrypt, key, Some(iv))?;
    c.pad(false);
    let n = c.update(data, out)?;
    let m = c.finalize(last)?;
    Ok((n, m))
}

/// Runs AES-CBC without padding over `data` in direction `decrypt`, with
/// the AES variant that the key's length selects.
pub(crate) fn aes_cbc_nopad(
    key: &[u8],
    iv: &[u8],
    data: &[u8],
    decrypt: bool,
    out: &mut [u8],
    last: &mut [u8],
) -> (r: Result<(usize, usize), ErrorStack>)
    requires
        key@.len() == 16 || key@.len() == 32,
        iv@.len() == 16,
        data@.len() + 16 <= old(out)@.len() <= i32::MAX,
        old(last)@.len() >= 16,
    ensures
        final(out)@.len() == old(out)@.len(),
        final(last)@.len() == old(last)@.len(),
        r matches Ok((n, m)) ==> n <= old(out)@.len() && m <= old(last)@.len() && joined_output(
            final(out)@,
            n as int,
            final(last)@,
            m as int,
        ) == if decrypt {
            aes_cbc_decrypt_of(key@, iv@, data@)
        } else {
            aes_cbc_encrypt_of(key@, iv@, data@)
        },
        decrypt && r is Ok ==> decrypts_back(key@, iv@, data@),
{
    if decrypt {
        if key.len() == 16 {
            aes_128_cbc_decrypt_nopad(key, iv, data, out, last)
        } else {
            aes_256_cbc_decrypt_nopad(key, iv, data, out, last)
        }
    } else {
        if key.len() == 16 {
            aes_128_cbc_encrypt_nopad(key, iv, data, out, last)
        } else {
            aes_256_cbc_encrypt_nopad(key, iv, data, out, last)
        }
    }
}

/// The MD5 digest of a byte string.
pub uninterp spec fn md5_of(data: Seq<u8>) -> Seq<u8>;

/// Relies on openssl's `hash` with `MessageDigest::md5`: the digest depends
/// on the data alone. OpenSSL may refuse the algorithm, which is an `Err`.
#[verifier::external_body]
pub(crate) fn md5_digest(data: &[u8]) -> (r: Result<Vec<u8>, ErrorStack>)
    ensures
        r matches Ok(d) ==> d@ == md5_of(data@),
{
    hash(MessageDigest::md5(), data).map(|d| d.to_vec())
}

/// The HMAC-SHA-256 tag of `data` under `key`.
pub uninterp spec fn hmac_sha256_of(key: Seq<u8>, data: Seq<u8>) -> Seq<u8>;

/// Relies on the hmac crate's `Hmac<Sha256>`: `new_from_slice` takes a key
/// of any length and never fails, and the tag, a SHA-256 output of 32 bytes,
/// depends on the key and the data alone.
#[verifier::external_body]
pub(crate) fn hmac_sha256(key: &[u8], data: &[u8]) -> (r: Vec<u8>)
    ensures
        r@ == hmac_sha256_of(key@, data@),
        r@.len() == 32,
{
    let mac = hmac::Hmac::<sha2::Sha256>::new_from_slice(key).expect("HMAC takes keys of any length");
    mac.chain_update(data).finalize().into_bytes().to_vec()
}

} // verus!
