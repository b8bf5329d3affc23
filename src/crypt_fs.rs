//! The translation engine: whole-buffer encryption and decryption with the
//! header of [`crate::header`].
use vstd::prelude::*;
use vstd::utf8::encode_utf8;


use crate::error::CryptFSError;
use crate::header::{
    be_to_u64, decode_size, encode_size, u64_to_be, CryptMode, AES_128_KEY_SIZE,
    AES_256_KEY_SIZE, AES_BLOCK_SIZE, HEADER_SIZE, MAC_OFFSET, MAC_SIZE, MAX_SOURCE_LEN,
    ORIG_FSIZE_OFFSET, ORIG_FSIZE_SIZE,
};
use crate::primitives::{
    aes_cbc_decrypt_of, aes_cbc_encrypt_of, aes_cbc_nopad, decrypts_back, hmac_sha256,
    hmac_sha256_of, joined_output, md5_digest, md5_of,
};

verus! {

/// Which directions the filesystem is willing to serve.
#[derive(Debug, Clone, Copy, PartialEq, Eq, Structural)]
pub enum CryptFSMode {
    /// Only encrypts: sources that carry the marker extension are hidden.
    EncryptOnly,
    /// Only decrypts: sources without the marker extension are hidden.
    DecryptOnly,
    /// Encrypts sources without the marker and decrypts those with it.
    Bidirectional,
}

/// Whether `mode` lets a source be translated in direction `d`.
pub open spec fn permits_spec(mode: CryptFSMode, d: CryptMode) -> bool {
    match mode {
        CryptFSMode::EncryptOnly => d == CryptMode::Encrypt,
        CryptFSMode::DecryptOnly => d == CryptMode::Decrypt,
        CryptFSMode::Bidirectional => true,
    }
}

impl CryptFSMode {
    /// Whether this policy lets a source be translated in direction `d`.
    pub fn permits(&self, d: CryptMode) -> (r: bool)
        ensures
            r == permits_spec(*self, d),
    {
        match self {
            CryptFSMode::EncryptOnly => d == CryptMode::Encrypt,
            CryptFSMode::DecryptOnly => d == CryptMode::Decrypt,
            CryptFSMode::Bidirectional => true,
        }
    }
}

/// Whether a key of `n` bytes selects a cipher: AES-128 or AES-256.
pub open spec fn valid_key_len(n: nat) -> bool {
    n == AES_128_KEY_SIZE || n == AES_256_KEY_SIZE
}


/// The largest buffer, in bytes, that goes to the cipher: an encrypted source
/// of `MAX_SOURCE_LEN` bytes with its header and padding.
pub const MAX_BUFFER_LEN: usize = MAX_SOURCE_LEN + HEADER_SIZE + AES_BLOCK_SIZE;

/// Where the ciphertext of the file data starts: after the header.
pub const CHAIN_IV_OFFSET: usize = HEADER_SIZE - AES_BLOCK_SIZE;

/// The MAC that a buffer stores in its header.
pub open spec fn stored_mac(b: Seq<u8>) -> Seq<u8> {
    b.subrange(MAC_OFFSET as int, (MAC_OFFSET + MAC_SIZE) as int)
}

/// What the MAC covers: the size field and everything after it.
pub open spec fn mac_input(b: Seq<u8>) -> Seq<u8> {
    b.subrange(ORIG_FSIZE_OFFSET as int, b.len() as int)
}

/// The plaintext length that a buffer records in its header.
pub open spec fn stored_size(b: Seq<u8>) -> u64 {
    be_to_u64(b.subrange(ORIG_FSIZE_OFFSET as int, (ORIG_FSIZE_OFFSET + ORIG_FSIZE_SIZE) as int))
}

/// Whether the stored MAC is the MAC of the rest of the buffer under `key`.
pub open spec fn mac_valid(key: Seq<u8>, b: Seq<u8>) -> bool {
    stored_mac(b) == hmac_sha256_of(key, mac_input(b))
}

/// Whether `b` carries a header, with a valid MAC under `key`, that records
/// a plaintext of `n` bytes.
pub open spec fn is_sealed(key: Seq<u8>, b: Seq<u8>, n: u64) -> bool {
    &&& b.len() >= HEADER_SIZE
    &&& mac_valid(key, b)
    &&& b.subrange(ORIG_FSIZE_OFFSET as int, (ORIG_FSIZE_OFFSET + ORIG_FSIZE_SIZE) as int)
        == u64_to_be(n)
}

/// The cipher output `c` with the size field set to `n` and the MAC written
/// over its first bytes.
pub open spec fn sealed(key: Seq<u8>, c: Seq<u8>, n: u64) -> Seq<u8> {
    let body = u64_to_be(n) + c.subrange(
        (ORIG_FSIZE_OFFSET + ORIG_FSIZE_SIZE) as int,
        c.len() as int,
    );
    hmac_sha256_of(key, body) + body
}

/// Number of zero bytes that follow a plaintext of `n` bytes in the buffer
/// that is encrypted: 1 to 16, never 0.
pub open spec fn padding_len(n: nat) -> nat {
    (AES_BLOCK_SIZE - n % (AES_BLOCK_SIZE as nat)) as nat
}

/// The buffer that is encrypted for plaintext `p`: a zeroed header, the
/// plaintext, and zero padding up to a whole number of blocks.
pub open spec fn cipher_input(p: Seq<u8>) -> Seq<u8> {
    Seq::new(HEADER_SIZE as nat, |i: int| 0u8) + p + Seq::new(padding_len(p.len()), |i: int| 0u8)
}

/// The content-derived initialization vector of a buffer: the MD5 digest
/// of everything after its header.
pub open spec fn content_iv(data: Seq<u8>) -> Seq<u8> {
    md5_of(data.subrange(HEADER_SIZE as int, data.len() as int))
}

/// The ciphertext of a buffer's header blocks, from the content-derived IV.
pub open spec fn cipher_head(key: Seq<u8>, data: Seq<u8>) -> Seq<u8> {
    aes_cbc_encrypt_of(key, content_iv(data), data.subrange(0, HEADER_SIZE as int))
}

/// The CBC ciphertext of a whole buffer: its header blocks from the
/// content-derived IV, then the rest chained on from the last header block.
pub open spec fn encrypted_blocks(key: Seq<u8>, data: Seq<u8>) -> Seq<u8> {
    let head = cipher_head(key, data);
    head + aes_cbc_encrypt_of(
        key,
        head.subrange(CHAIN_IV_OFFSET as int, HEADER_SIZE as int),
        data.subrange(HEADER_SIZE as int, data.len() as int),
    )
}

/// The block that a file's data ciphertext chains on from: the last block of
/// its header.
pub open spec fn chain_iv(b: Seq<u8>) -> Seq<u8> {
    b.subrange(CHAIN_IV_OFFSET as int, HEADER_SIZE as int)
}

/// The ciphertext of a file's data: everything after its header.
pub open spec fn cipher_body(b: Seq<u8>) -> Seq<u8> {
    b.subrange(HEADER_SIZE as int, b.len() as int)
}

/// What an encryption of the buffer `data` may return: its CBC ciphertext,
/// sealed for a plaintext of `n` bytes, or an internal error of the cipher
/// or the digest.
pub open spec fn encrypt_outcome(key: Seq<u8>, data: Seq<u8>, n: u64, r: Result<Vec<u8>, CryptFSError>) -> bool {
    match r {
        Ok(c) => {
            &&& c@ == sealed(key, encrypted_blocks(key, data), n)
            &&& cipher_head(key, data).len() == HEADER_SIZE
            &&& encrypted_blocks(key, data).len() == data.len()
            &&& c@.len() == data.len()
            &&& is_sealed(key, c@, n)
            &&& c@.subrange((ORIG_FSIZE_OFFSET + ORIG_FSIZE_SIZE) as int, c@.len() as int)
                == encrypted_blocks(key, data).subrange(
                (ORIG_FSIZE_OFFSET + ORIG_FSIZE_SIZE) as int,
                data.len() as int,
            )
        },
        Err(e) => e == CryptFSError::InternalError,
    }
}

/// What a decryption of `data` may return: `MacMismatch` exactly when the MAC
/// does not verify; then `InvalidFileSize` exactly when the file is not a
/// whole number of blocks or its header records more plaintext than it
/// holds; otherwise the CBC decryption of the data blocks, chained on from
/// the last header block and cut to the recorded length, or an internal
/// error of the cipher.
pub open spec fn decrypt_outcome(key: Seq<u8>, data: Seq<u8>, r: Result<Vec<u8>, CryptFSError>) -> bool {
    if !mac_valid(key, data) {
        r == Err::<Vec<u8>, CryptFSError>(CryptFSError::MacMismatch)
    } else if data.len() % (AES_BLOCK_SIZE as nat) != 0 || stored_size(data) > data.len()
        - HEADER_SIZE {
        r == Err::<Vec<u8>, CryptFSError>(CryptFSError::InvalidFileSize)
    } else {
        match r {
            Ok(p) => {
                &&& Ok::<Seq<u8>, CryptFSError>(p@) == recovered_plaintext_spec(
                    aes_cbc_decrypt_of(key, chain_iv(data), cipher_body(data)),
                    stored_size(data),
                )
                &&& p@.len() == stored_size(data)
                &&& decrypts_back(key, chain_iv(data), cipher_body(data))
            },
            Err(e) => e == CryptFSError::InternalError,
        }
    }
}

/// What translating the source `src` in direction `mode` may return.
pub open spec fn translate_outcome(
    key: Seq<u8>,
    src: Seq<u8>,
    mode: CryptMode,
    r: Result<Vec<u8>, CryptFSError>,
) -> bool {
    if src.len() == 0 {
        r matches Ok(v) && v@.len() == 0
    } else {
        match mode {
            CryptMode::Encrypt => encrypt_outcome(key, cipher_input(src), src.len() as u64, r),
            CryptMode::Decrypt => if src.len() < HEADER_SIZE {
                r == Err::<Vec<u8>, CryptFSError>(CryptFSError::InvalidFileSize)
            } else {
                decrypt_outcome(key, src, r)
            },
        }
    }
}

/// The plaintext in the decrypted data blocks `dec`, for a header that
/// records `n` bytes: the first `n` of them, the rest being padding; an
/// internal error when there are fewer.
pub open spec fn recovered_plaintext_spec(dec: Seq<u8>, n: u64) -> Result<Seq<u8>, CryptFSError> {
    if dec.len() < n {
        Err(CryptFSError::InternalError)
    } else {
        Ok(dec.subrange(0, n as int))
    }
}

/// Compares two MACs in time that does not depend on where they differ.
pub fn macs_equal(a: &[u8], b: &[u8]) -> (r: bool)
    requires
        a@.len() == b@.len(),
    ensures
        r == (a@ == b@),
{
    let mut diff: u8 = 0;
    let mut i: usize = 0;
    while i < a.len()
        invariant
            i <= a@.len(),
            a@.len() == b@.len(),
            (diff == 0) <==> (forall|j: int| 0 <= j < i ==> a@[j] == b@[j]),
        decreases a@.len() - i,
    {
        let x: u8 = a[i];
        let y: u8 = b[i];
        let d: u8 = diff;
        assert((d | (x ^ y)) == 0u8 <==> (d == 0u8 && x == y)) by (bit_vector);
        diff = diff | (x ^ y);
        i = i + 1;
    }
    if diff == 0 {
        assert(a@ =~= b@);
    }
    diff == 0
}

/// The plaintext in the decrypted data blocks `dec` for a header that
/// records `n` bytes: the first `n` of them, the rest being padding.
pub fn recovered_plaintext(dec: &[u8], n: u64) -> (r: Result<Vec<u8>, CryptFSError>)
    ensures
        match recovered_plaintext_spec(dec@, n) {
            Ok(p) => r matches Ok(v) && v@ == p,
            Err(e) => r == Err::<Vec<u8>, CryptFSError>(e),
        },
{
    if (dec.len() as u64) < n {
        return Err(CryptFSError::InternalError);
    }
    Ok(vstd::slice::slice_to_vec(vstd::slice::slice_subrange(dec, 0, n as usize)))
}

/// Lays out the bytes of a source as the buffer that the transform works
/// on: for an encryption, a zeroed header, the plaintext and zero padding up
/// to a whole number of blocks; for a decryption, the bytes as they are.
pub fn crypt_read_file(contents: &[u8], mode: CryptMode) -> (r: Vec<u8>)
    requires
        contents@.len() <= MAX_SOURCE_LEN,
    ensures
        mode == CryptMode::Encrypt ==> r@ == cipher_input(contents@),
        mode == CryptMode::Decrypt ==> r@ == contents@,
{
    match mode {
        CryptMode::Encrypt => {
            let mut buf: Vec<u8> = Vec::new();
            let mut i: usize = 0;
            while i < HEADER_SIZE
                invariant
                    i <= HEADER_SIZE,
                    buf@ == Seq::new(i as nat, |j: int| 0u8),
                decreases HEADER_SIZE - i,
            {
                buf.push(0u8);
                i = i + 1;
                assert(buf@ =~= Seq::new(i as nat, |j: int| 0u8));
            }
            let mut i: usize = 0;
            while i < contents.len()
                invariant
                    i <= contents@.len(),
                    buf@ == Seq::new(HEADER_SIZE as nat, |j: int| 0u8) + contents@.subrange(0, i as int),
                decreases contents@.len() - i,
            {
                buf.push(contents[i]);
                i = i + 1;
                assert(buf@ =~= Seq::new(HEADER_SIZE as nat, |j: int| 0u8) + contents@.subrange(0, i as int));
            }
            assert(contents@.subrange(0, contents@.len() as int) =~= contents@);
            let pad: usize = AES_BLOCK_SIZE - contents.len() % AES_BLOCK_SIZE;
            let ghost prefix = buf@;
            let mut i: usize = 0;
            while i < pad
                invariant
                    i <= pad,
                    buf@ == prefix + Seq::new(i as nat, |j: int| 0u8),
                decreases pad - i,
            {
                buf.push(0u8);
                i = i + 1;
                assert(buf@ =~= prefix + Seq::new(i as nat, |j: int| 0u8));
            }
            assert(buf@ =~= cipher_input(contents@));
            buf
        },
        CryptMode::Decrypt => vstd::slice::slice_to_vec(contents),
    }
}

/// The part of `data` in `[offset, offset + size)`, cut at its end;
/// nothing when `offset` lies at or past it.
pub open spec fn read_slice_spec(data: Seq<u8>, offset: u64, size: u32) -> Seq<u8> {
    if offset >= data.len() {
        Seq::empty()
    } else if offset + size > data.len() {
        data.subrange(offset as int, data.len() as int)
    } else {
        data.subrange(offset as int, offset + size)
    }
}

/// Slices the transformed content for a read of `size` bytes at `offset`:
/// the part of `data` in `[offset, offset + size)`, cut at its end, and
/// nothing when `offset` lies at or past it.
pub fn read_slice(data: &[u8], offset: u64, size: u32) -> (r: Vec<u8>)
    ensures
        r@ == read_slice_spec(data@, offset, size),
{
    if offset >= data.len() as u64 {
        let r = Vec::new();
        assert(r@ =~= read_slice_spec(data@, offset, size));
        return r;
    }
    let start: usize = offset as usize;
    let end: usize = if (size as u64) > (data.len() as u64) - offset {
        data.len()
    } else {
        start + size as usize
    };
    vstd::slice::slice_to_vec(vstd::slice::slice_subrange(data, start, end))
}

/// The configuration of the filesystem, fixed for its lifetime: the key,
/// whose length selects AES-128-CBC or AES-256-CBC, the source root and the
/// direction policy.
pub struct CryptFS {
    key: String,
    src_dir: Vec<u8>,
    mode: CryptFSMode,
}

impl CryptFS {
    /// The key, as the bytes that the cipher and the MAC take.
    pub closed spec fn key_bytes(&self) -> Seq<u8> {
        encode_utf8(self.key@)
    }

    /// The source root, as a byte path.
    pub closed spec fn source_root(&self) -> Seq<u8> {
        self.src_dir@
    }

    /// The direction policy.
    pub closed spec fn policy(&self) -> CryptFSMode {
        self.mode
    }

    /// The key selects one of the two ciphers.
    pub open spec fn wf(&self) -> bool {
        valid_key_len(self.key_bytes().len())
    }

    /// Makes the configuration for a key and a source root that the caller
    /// has already found and canonicalized. A 16-byte key selects
    /// AES-128-CBC, a 32-byte key AES-256-CBC; without a mode the filesystem
    /// is bidirectional.
    pub fn new(key: String, src_dir_path: String, mode: Option<CryptFSMode>) -> (r: CryptFS)
        requires
            valid_key_len(encode_utf8(key@).len()),
        ensures
            r.wf(),
            r.key_bytes() == encode_utf8(key@),
            r.source_root() == encode_utf8(src_dir_path@),
            r.policy() == (match mode {
                Some(m) => m,
                None => CryptFSMode::Bidirectional,
            }),
    {
        let mode = match mode {
            Some(m) => m,
            None => CryptFSMode::Bidirectional,
        };
        let src_dir = vstd::slice::slice_to_vec(src_dir_path.as_str().as_bytes());
        CryptFS { key, src_dir, mode }
    }

    /// Like [`CryptFS::new`], but reports a key of a length that selects no
    /// cipher as `InvalidKey` instead of requiring a valid one.
    pub fn try_new(key: String, src_dir_path: String, mode: Option<CryptFSMode>) -> (r: Result<
        CryptFS,
        CryptFSError,
    >)
        ensures
            valid_key_len(encode_utf8(key@).len()) <==> r is Ok,
            r matches Err(e) ==> e == CryptFSError::InvalidKey,
            r matches Ok(fs) ==> {
                &&& fs.wf()
                &&& fs.key_bytes() == encode_utf8(key@)
                &&& fs.source_root() == encode_utf8(src_dir_path@)
                &&& fs.policy() == (match mode {
                    Some(m) => m,
                    None => CryptFSMode::Bidirectional,
                })
            },
    {
        let n = key.as_str().as_bytes().len();
        if n == AES_128_KEY_SIZE || n == AES_256_KEY_SIZE {
            Ok(CryptFS::new(key, src_dir_path, mode))
        } else {
            Err(CryptFSError::InvalidKey)
        }
    }

    /// Runs AES-CBC without padding over `data`, in direction `mode`, from
    /// the initialization vector `iv`, with the AES variant that the key's
    /// length selects. Data that is not a whole number of blocks is refused
    /// before the cipher runs.
    fn crypter(&self, data: &[u8], iv: &[u8], mode: CryptMode) -> (r: Result<Vec<u8>, CryptFSError>)
        requires
            self.wf(),
            iv@.len() == AES_BLOCK_SIZE,
            data@.len() <= MAX_BUFFER_LEN,
        ensures
            data@.len() % (AES_BLOCK_SIZE as nat) != 0 ==> r == Err::<Vec<u8>, CryptFSError>(
                CryptFSError::InternalError,
            ),
            r matches Err(e) ==> e == CryptFSError::InternalError,
            r matches Ok(out) ==> out@ == match mode {
                CryptMode::Encrypt => aes_cbc_encrypt_of(self.key_bytes(), iv@, data@),
                CryptMode::Decrypt => aes_cbc_decrypt_of(self.key_bytes(), iv@, data@),
            },
            mode == CryptMode::Decrypt && r is Ok ==> decrypts_back(self.key_bytes(), iv@, data@),
    {
        if data.len() % AES_BLOCK_SIZE != 0 {
            return Err(CryptFSError::InternalError);
        }
        let key = self.key.as_str().as_bytes();
        let mut out: Vec<u8> = vec![0u8; data.len() + AES_BLOCK_SIZE];
        let mut last: Vec<u8> = vec![0u8; AES_BLOCK_SIZE];
        let decrypt = mode == CryptMode::Decrypt;
        let (count, rest) = match aes_cbc_nopad(
            key,
            iv,
            data,
            decrypt,
            out.as_mut_slice(),
            last.as_mut_slice(),
        ) {
            Ok(counts) => counts,
            Err(_) => return Err(CryptFSError::InternalError),
        };
        let ghost written = joined_output(out@, count as int, last@, rest as int);
        out.truncate(count);
        let ghost prefix = out@;
        assert(prefix + last@.subrange(0, rest as int) =~= written);
        let mut i: usize = 0;
        while i < rest
            invariant
                rest <= last@.len(),
                i <= rest,
                out@ == prefix + last@.subrange(0, i as int),
            decreases rest - i,
        {
            out.push(last[i]);
            i = i + 1;
            assert(out@ =~= prefix + last@.subrange(0, i as int));
        }
        assert(out@ =~= written);
        Ok(out)
    }

    /// The HMAC-SHA-256 tag of `data` under the key.
    fn compute_sha256_hmac(&self, data: &[u8]) -> (r: Vec<u8>)
        ensures
            r@ == hmac_sha256_of(self.key_bytes(), data@),
            r@.len() == MAC_SIZE,
    {
        hmac_sha256(self.key.as_str().as_bytes(), data)
    }

    /// Finishes an encryption: writes the plaintext length `orig_size` into
    /// the size field of the cipher output `enc`, then the MAC of everything
    /// from the size field on over the first bytes.
    pub fn seal(&self, enc: Vec<u8>, orig_size: u64) -> (r: Vec<u8>)
        requires
            enc@.len() >= HEADER_SIZE,
        ensures
            r@ == sealed(self.key_bytes(), enc@, orig_size),
            r@.len() == enc@.len(),
            is_sealed(self.key_bytes(), r@, orig_size),
            r@.subrange((ORIG_FSIZE_OFFSET + ORIG_FSIZE_SIZE) as int, r@.len() as int) == enc@.subrange(
                (ORIG_FSIZE_OFFSET + ORIG_FSIZE_SIZE) as int,
                enc@.len() as int,
            ),
    {
        let mut enc = enc;
        let mut body = encode_size(orig_size);
        let mut rest = enc.split_off(ORIG_FSIZE_OFFSET + ORIG_FSIZE_SIZE);
        body.append(&mut rest);
        let mut r = self.compute_sha256_hmac(body.as_slice());
        let ghost mac = r@;
        let ghost b = body@;
        r.append(&mut body);
        assert(r@.subrange(MAC_OFFSET as int, (MAC_OFFSET + MAC_SIZE) as int) =~= mac);
        assert(mac_input(r@) =~= b);
        assert(r@.subrange(ORIG_FSIZE_OFFSET as int, (ORIG_FSIZE_OFFSET + ORIG_FSIZE_SIZE) as int)
            =~= u64_to_be(orig_size));
        r
    }

    /// Encrypts a buffer laid out by [`crypt_read_file`] and records
    /// `orig_size` as the plaintext length.
    ///
    /// The initialization vector is the MD5 digest of everything after the
    /// header, so that the same content always encrypts to the same bytes.
    /// The cipher runs over the header blocks, then over the rest chained on
    /// from the last header block: the CBC ciphertext of the whole buffer.
    pub fn encrypt(&self, data: &Vec<u8>, orig_size: u64) -> (r: Result<Vec<u8>, CryptFSError>)
        requires
            self.wf(),
            HEADER_SIZE <= data@.len() <= MAX_BUFFER_LEN,
            data@.len() % (AES_BLOCK_SIZE as nat) == 0,
        ensures
            encrypt_outcome(self.key_bytes(), data@, orig_size, r),
    {
        let header = vstd::slice::slice_subrange(data.as_slice(), 0, HEADER_SIZE);
        let content = vstd::slice::slice_subrange(data.as_slice(), HEADER_SIZE, data.len());
        let iv = match md5_digest(content) {
            Ok(d) => d,
            Err(_) => return Err(CryptFSError::InternalError),
        };
        if iv.len() != AES_BLOCK_SIZE {
            return Err(CryptFSError::InternalError);
        }
        let mut head = match self.crypter(header, iv.as_slice(), CryptMode::Encrypt) {
            Ok(h) => h,
            Err(e) => return Err(e),
        };
        if head.len() != HEADER_SIZE {
            return Err(CryptFSError::InternalError);
        }
        let chain = vstd::slice::slice_to_vec(
            vstd::slice::slice_subrange(head.as_slice(), CHAIN_IV_OFFSET, HEADER_SIZE),
        );
        let mut body = match self.crypter(content, chain.as_slice(), CryptMode::Encrypt) {
            Ok(b) => b,
            Err(e) => return Err(e),
        };
        if body.len() != content.len() {
            return Err(CryptFSError::InternalError);
        }
        proof {
            assert(header@ =~= data@.subrange(0, HEADER_SIZE as int));
            assert(content@ =~= data@.subrange(HEADER_SIZE as int, data@.len() as int));
        }
        head.append(&mut body);
        let r = self.seal(head, orig_size);
        Ok(r)
    }

    /// Checks the MAC of an encrypted file and recovers its plaintext.
    ///
    /// The MAC is checked before anything is decrypted. The data blocks are
    /// then decrypted chained on from the last header block, which is the
    /// block that CBC decryption of the whole file would chain them on from;
    /// the header blocks themselves, whose MAC and size field overwrote
    /// ciphertext, are never decrypted. The plaintext is the decrypted data
    /// cut to the length that the header records.
    pub fn decrypt(&self, data: &Vec<u8>) -> (r: Result<Vec<u8>, CryptFSError>)
        requires
            self.wf(),
            HEADER_SIZE <= data@.len() <= MAX_BUFFER_LEN,
        ensures
            decrypt_outcome(self.key_bytes(), data@, r),
    {
        let file_mac = vstd::slice::slice_subrange(data.as_slice(), MAC_OFFSET, MAC_OFFSET + MAC_SIZE);
        let tail = vstd::slice::slice_subrange(data.as_slice(), ORIG_FSIZE_OFFSET, data.len());
        let computed_mac = self.compute_sha256_hmac(tail);
        if !macs_equal(file_mac, computed_mac.as_slice()) {
            return Err(CryptFSError::MacMismatch);
        }
        if data.len() % AES_BLOCK_SIZE != 0 {
            return Err(CryptFSError::InvalidFileSize);
        }
        let size_field = vstd::slice::slice_subrange(
            data.as_slice(),
            ORIG_FSIZE_OFFSET,
            ORIG_FSIZE_OFFSET + ORIG_FSIZE_SIZE,
        );
        let orig_file_size = decode_size(size_field);
        if orig_file_size > (data.len() - HEADER_SIZE) as u64 {
            return Err(CryptFSError::InvalidFileSize);
        }
        let iv = vstd::slice::slice_subrange(data.as_slice(), CHAIN_IV_OFFSET, HEADER_SIZE);
        let body = vstd::slice::slice_subrange(data.as_slice(), HEADER_SIZE, data.len());
        let dec_buf = match self.crypter(body, iv, CryptMode::Decrypt) {
            Ok(d) => d,
            Err(e) => return Err(e),
        };
        recovered_plaintext(dec_buf.as_slice(), orig_file_size)
    }

    /// Translates the whole content of a source file in direction `mode`.
    ///
    /// An empty source translates to nothing in both directions, without
    /// running the engine. A non-empty source shorter than a header cannot be
    /// decrypted and is refused with `InvalidFileSize` before any cipher work.
    pub fn crypt_translate(&self, contents: &[u8], mode: CryptMode) -> (r: Result<Vec<u8>, CryptFSError>)
        requires
            self.wf(),
            contents@.len() <= MAX_SOURCE_LEN,
        ensures
            translate_outcome(self.key_bytes(), contents@, mode, r),
    {
        if contents.len() == 0 {
            return Ok(Vec::new());
        }
        let file_data = crypt_read_file(contents, mode);
        match mode {
            CryptMode::Encrypt => self.encrypt(&file_data, contents.len() as u64),
            CryptMode::Decrypt => {
                if contents.len() < HEADER_SIZE {
                    return Err(CryptFSError::InvalidFileSize);
                }
                self.decrypt(&file_data)
            },
        }
    }

    /// A copy of the source root.
    pub fn source_root_bytes(&self) -> (r: Vec<u8>)
        ensures
            r@ == self.source_root(),
    {
        self.src_dir.clone()
    }

    /// The direction policy.
    pub fn mode(&self) -> (r: CryptFSMode)
        ensures
            r == self.policy(),
    {
        self.mode
    }
}

} // verus!
