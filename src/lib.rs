//! A read-only translation layer that serves each regular file of a source
//! tree either as an authenticated ciphertext or as recovered plaintext,
//! chosen by a marker extension on the file name.
//!
//! The crate holds the engine (header format, size oracle, whole-buffer
//! encryption and decryption) and the path resolver; reading the source tree
//! and answering filesystem requests is left to the caller.

pub mod crypt_fs;
pub mod error;
pub mod header;
pub mod laws;
pub mod path;
pub mod primitives;

pub use crypt_fs::{crypt_read_file, macs_equal, read_slice, recovered_plaintext, CryptFS, CryptFSMode};
pub use error::{CryptFSError, IoFailure};
pub use header::{encrypted_size, get_crypt_read_size, needs_size_field, CryptMode};
pub use path::{get_crypt_mode, toggle_extension, EntryKind};
