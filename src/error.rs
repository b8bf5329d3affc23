use vstd::prelude::*;

verus! {

/// The kinds of failure of the translation layer.
///
/// They say what went wrong in general terms; the dispatcher maps each one to
/// a status of its own protocol.
#[derive(Debug, Clone, Copy, PartialEq, Eq, Structural)]
pub enum CryptFSError {
    /// A cipher, digest or I/O primitive failed in an unexpected way.
    InternalError,
    /// The key is neither 16 nor 32 bytes long.
    InvalidKey,
    /// Neither candidate source path exists.
    InvalidPath,
    /// The source path exists but is a symlink, a special file, or not the
    /// kind of entry that the request resolved to.
    IrregularFile,
    /// A non-empty source that is to be decrypted is shorter than a header,
    /// or its header announces more plaintext than the file holds.
    InvalidFileSize,
    /// The source cannot be read.
    FileReadError,
    /// The stored MAC does not match the recomputed one: the file is corrupt
    /// or was tampered with.
    MacMismatch,
}

/// How an I/O operation on the source tree failed, as far as the error kinds
/// of this crate tell failures apart.
#[derive(Debug, Clone, Copy, PartialEq, Eq, Structural)]
pub enum IoFailure {
    NotFound,
    PermissionDenied,
    Other,
}

/// The error kind that an I/O failure is reported as.
pub open spec fn io_error_kind(f: IoFailure) -> CryptFSError {
    match f {
        IoFailure::NotFound => CryptFSError::InvalidPath,
        IoFailure::PermissionDenied => CryptFSError::FileReadError,
        IoFailure::Other => CryptFSError::InternalError,
    }
}

impl CryptFSError {
    /// Classifies an I/O failure: a missing entry is an invalid path, a
    /// refused permission an unreadable file, anything else internal.
    pub fn from_io(f: IoFailure) -> (r: CryptFSError)
        ensures
            r == io_error_kind(f),
    {
        match f {
            IoFailure::NotFound => CryptFSError::InvalidPath,
            IoFailure::PermissionDenied => CryptFSError::FileReadError,
            IoFailure::Other => CryptFSError::InternalError,
        }
    }
}

} // verus!
