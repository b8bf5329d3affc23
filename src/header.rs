//! The layout of a transformed file and the size that a transform yields.
//!
//! A non-empty encrypted file starts with a header of four cipher blocks:
//! the MAC (32 bytes), the plaintext length as a big-endian `u64` (8 bytes)
//! and 24 reserved bytes, then the ciphertext of the plaintext padded to a
//! whole number of blocks.
use vstd::prelude::*;

use crate::error::CryptFSError;

verus! {

pub const AES_128_KEY_SIZE: usize = 16;

pub const AES_256_KEY_SIZE: usize = 32;

pub const AES_BLOCK_SIZE: usize = 16;

/// A multiple of the block size, so that the header never shares a block
/// with file data.
pub const HEADER_SIZE: usize = AES_BLOCK_SIZE * 4;

pub const MAC_OFFSET: usize = 0;

/// Size of an HMAC-SHA-256 tag.
pub const MAC_SIZE: usize = AES_BLOCK_SIZE * 2;

pub const ORIG_FSIZE_OFFSET: usize = MAC_OFFSET + MAC_SIZE;

pub const ORIG_FSIZE_SIZE: usize = 8;

/// The largest source, in bytes, that the engine transforms: its buffers must
/// stay within what the cipher accepts in one call.
pub const MAX_SOURCE_LEN: usize = 0x7fff_ff00;

/// Which way a source file is translated.
#[derive(Debug, Clone, Copy, PartialEq, Eq, Structural)]
pub enum CryptMode {
    Encrypt,
    Decrypt,
}

/// The eight big-endian bytes of `x`.
pub open spec fn u64_to_be(x: u64) -> Seq<u8> {
    seq![
        (x >> 56u64) as u8,
        (x >> 48u64) as u8,
        (x >> 40u64) as u8,
        (x >> 32u64) as u8,
        (x >> 24u64) as u8,
        (x >> 16u64) as u8,
        (x >> 8u64) as u8,
        x as u8,
    ]
}

/// The `u64` that eight big-endian bytes stand for.
pub open spec fn be_to_u64(b: Seq<u8>) -> u64
    recommends
        b.len() == 8,
{
    (b[0] as u64) << 56u64 | (b[1] as u64) << 48u64 | (b[2] as u64) << 40u64 | (b[3] as u64)
        << 32u64 | (b[4] as u64) << 24u64 | (b[5] as u64) << 16u64 | (b[6] as u64) << 8u64 | (
    b[7] as u64)
}

/// Reading back the bytes that `u64_to_be` writes gives the number again.
pub proof fn lemma_be_round_trip(x: u64)
    ensures
        be_to_u64(u64_to_be(x)) == x,
{
    let b = u64_to_be(x);
    assert((((x >> 56u64) as u8) as u64) << 56u64 | (((x >> 48u64) as u8) as u64) << 48u64 | (((x
        >> 40u64) as u8) as u64) << 40u64 | (((x >> 32u64) as u8) as u64) << 32u64 | (((x
        >> 24u64) as u8) as u64) << 24u64 | (((x >> 16u64) as u8) as u64) << 16u64 | (((x
        >> 8u64) as u8) as u64) << 8u64 | ((x as u8) as u64) == x) by (bit_vector);
}

/// Encodes a length as the header's size field.
pub fn encode_size(x: u64) -> (r: Vec<u8>)
    ensures
        r@ == u64_to_be(x),
{
    let r = vec![
        (x >> 56u64) as u8,
        (x >> 48u64) as u8,
        (x >> 40u64) as u8,
        (x >> 32u64) as u8,
        (x >> 24u64) as u8,
        (x >> 16u64) as u8,
        (x >> 8u64) as u8,
        x as u8,
    ];
    assert(r@ =~= u64_to_be(x));
    r
}

/// Decodes the header's size field.
pub fn decode_size(b: &[u8]) -> (r: u64)
    requires
        b@.len() == 8,
    ensures
        r == be_to_u64(b@),
{
    (b[0] as u64) << 56u64 | (b[1] as u64) << 48u64 | (b[2] as u64) << 40u64 | (b[3] as u64)
        << 32u64 | (b[4] as u64) << 24u64 | (b[5] as u64) << 16u64 | (b[6] as u64) << 8u64 | (
    b[7] as u64)
}

/// Length of the encrypted form of a non-empty plaintext of `n` bytes: the
/// header, then the plaintext followed by 1 to 16 bytes of padding.
pub open spec fn encrypted_len(n: nat) -> nat {
    (HEADER_SIZE + n + (AES_BLOCK_SIZE - n % (AES_BLOCK_SIZE as nat))) as nat
}

/// Length of the encrypted form of a non-empty plaintext of `n` bytes.
pub fn encrypted_size(n: u64) -> (r: u64)
    requires
        n + HEADER_SIZE + AES_BLOCK_SIZE <= u64::MAX,
    ensures
        r == encrypted_len(n as nat),
{
    let padding = AES_BLOCK_SIZE as u64 - n % AES_BLOCK_SIZE as u64;
    HEADER_SIZE as u64 + n + padding
}

/// The size that a source of `file_size` bytes has once translated.
///
/// `size_field` is what the source holds at the size field of a header; it is
/// only read for a decryption of a source that is long enough to have one.
pub open spec fn transformed_size_spec(file_size: u64, mode: CryptMode, size_field: Seq<u8>) -> Result<
    u64,
    CryptFSError,
> {
    if file_size == 0 {
        Ok(0)
    } else {
        match mode {
            CryptMode::Encrypt => Ok(encrypted_len(file_size as nat) as u64),
            CryptMode::Decrypt => {
                if file_size < HEADER_SIZE {
                    Err(CryptFSError::InvalidFileSize)
                } else if size_field.len() != ORIG_FSIZE_SIZE {
                    Err(CryptFSError::FileReadError)
                } else {
                    Ok(be_to_u64(size_field))
                }
            },
        }
    }
}

/// Whether the size oracle needs the source's size field to answer for a
/// source of `file_size` bytes.
pub open spec fn needs_size_field_spec(file_size: u64, mode: CryptMode) -> bool {
    mode == CryptMode::Decrypt && file_size >= HEADER_SIZE
}

/// Whether [`get_crypt_read_size`] will look at the size field: the caller
/// reads the 8 bytes at `ORIG_FSIZE_OFFSET` only then, and nothing else of
/// the file.
pub fn needs_size_field(file_size: u64, mode: CryptMode) -> (r: bool)
    ensures
        r == needs_size_field_spec(file_size, mode),
{
    match mode {
        CryptMode::Encrypt => false,
        CryptMode::Decrypt => file_size >= HEADER_SIZE as u64,
    }
}

/// The size oracle: the length that translating a source of `file_size`
/// bytes yields, computed without running the transform.
///
/// An empty source stays empty. An encryption adds the header and the
/// padding. A decryption yields the length that the header records in its
/// size field; a non-empty source shorter than a header is refused with
/// `InvalidFileSize`, and a size field that could not be read whole
/// (`size_field` is not 8 bytes long) with `FileReadError`.
pub fn get_crypt_read_size(file_size: u64, mode: CryptMode, size_field: &[u8]) -> (r: Result<
    u64,
    CryptFSError,
>)
    requires
        file_size + HEADER_SIZE + AES_BLOCK_SIZE <= u64::MAX,
    ensures
        r == transformed_size_spec(file_size, mode, size_field@),
{
    if file_size == 0 {
        return Ok(0);
    }
    match mode {
        CryptMode::Encrypt => Ok(encrypted_size(file_size)),
        CryptMode::Decrypt => {
            if file_size < HEADER_SIZE as u64 {
                Err(CryptFSError::InvalidFileSize)
            } else if size_field.len() != ORIG_FSIZE_SIZE {
                Err(CryptFSError::FileReadError)
            } else {
                Ok(decode_size(size_field))
            }
        },
    }
}

} // verus!
