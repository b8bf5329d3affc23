//! Path resolution: which source file a virtual path stands for, and which
//! way it is translated.
//!
//! Paths are byte strings with `/` as separator. The marker extension
//! `.crypt` on a file name says that a source holds ciphertext: a virtual path
//! with the marker shows the encryption of the source without it, and a
//! virtual path without it shows the decryption of the source with it.
use vstd::prelude::*;

use crate::crypt_fs::{permits_spec, CryptFS};
use crate::error::CryptFSError;
use crate::header::CryptMode;

verus! {

pub const SEPARATOR: u8 = 0x2f;

pub const DOT: u8 = 0x2e;

/// Length of the marker extension `.crypt`, dot included.
pub const MARKER_LEN: usize = 6;

/// The marker extension, `.crypt`.
pub open spec fn marker() -> Seq<u8> {
    seq![DOT, 0x63u8, 0x72u8, 0x79u8, 0x70u8, 0x74u8]
}

/// What a candidate source path is on disk. Symlinks are not followed: a
/// symlink is reported as such, whatever it points to.
#[derive(Debug, Clone, Copy, PartialEq, Eq, Structural)]
pub enum EntryKind {
    Missing,
    RegularFile,
    Directory,
    Symlink,
    Special,
}

/// Where the last component of `p` starts: just after its last separator.
pub open spec fn name_start(p: Seq<u8>) -> nat
    decreases p.len(),
{
    if p.len() == 0 {
        0
    } else if p.last() == SEPARATOR {
        p.len()
    } else {
        name_start(p.drop_last())
    }
}

/// The last component of `p`.
pub open spec fn file_name(p: Seq<u8>) -> Seq<u8> {
    p.subrange(name_start(p) as int, p.len() as int)
}

/// Whether the last component of `p` is a name that an extension can be put
/// on or taken off: not empty, `.` or `..`.
pub open spec fn has_file_name(p: Seq<u8>) -> bool {
    let n = file_name(p);
    n.len() != 0 && n != seq![DOT] && n != seq![DOT, DOT]
}

/// Whether the file name of `p` has the marker as its extension: it ends
/// with `.crypt` and something precedes that.
pub open spec fn has_marker(p: Seq<u8>) -> bool {
    &&& file_name(p).len() > MARKER_LEN
    &&& p.subrange(p.len() - MARKER_LEN, p.len() as int) == marker()
}

/// `p` with the marker extension taken off if it carries it, and added
/// after whatever extension it has otherwise.
pub open spec fn toggled(p: Seq<u8>) -> Seq<u8> {
    if has_marker(p) {
        p.subrange(0, p.len() - MARKER_LEN)
    } else {
        p + marker()
    }
}

/// The direction in which a source at path `p` is translated: a source that
/// carries the marker is ciphertext and is decrypted; any other is
/// encrypted.
pub open spec fn crypt_mode_of(p: Seq<u8>) -> CryptMode {
    if has_marker(p) {
        CryptMode::Decrypt
    } else {
        CryptMode::Encrypt
    }
}

proof fn lemma_name_start_bound(p: Seq<u8>)
    ensures
        name_start(p) <= p.len(),
    decreases p.len(),
{
    if p.len() != 0 && p.last() != SEPARATOR {
        lemma_name_start_bound(p.drop_last());
    }
}

/// Where the last component of `p` starts.
fn find_name_start(p: &[u8]) -> (r: usize)
    ensures
        r == name_start(p@),
{
    let mut i: usize = p.len();
    assert(p@.subrange(0, i as int) =~= p@);
    while i > 0 && p[i - 1] != SEPARATOR
        invariant
            i <= p@.len(),
            name_start(p@) == name_start(p@.subrange(0, i as int)),
        decreases i,
    {
        assert(p@.subrange(0, i as int).drop_last() =~= p@.subrange(0, i - 1));
        i = i - 1;
    }
    if i == 0 {
        assert(p@.subrange(0, 0) =~= Seq::<u8>::empty());
    }
    i
}

/// Whether the file name of `p` has the marker as its extension.
pub fn has_crypt_extension(p: &[u8]) -> (r: bool)
    ensures
        r == has_marker(p@),
{
    let start = find_name_start(p);
    proof {
        lemma_name_start_bound(p@);
    }
    if p.len() - start <= MARKER_LEN {
        return false;
    }
    let n = p.len();
    let r = p[n - 6] == DOT && p[n - 5] == 0x63u8 && p[n - 4] == 0x72u8 && p[n - 3] == 0x79u8
        && p[n - 2] == 0x70u8 && p[n - 1] == 0x74u8;
    assert(r == (p@.subrange(n - MARKER_LEN, n as int) =~= marker()));
    r
}

/// The direction in which the source at path `p` is translated.
pub fn get_crypt_mode(p: &[u8]) -> (r: CryptMode)
    ensures
        r == crypt_mode_of(p@),
{
    if has_crypt_extension(p) {
        CryptMode::Decrypt
    } else {
        CryptMode::Encrypt
    }
}

/// Takes the marker extension off `p` if it carries it, and adds it after
/// whatever extension `p` has otherwise; nothing when the last component of
/// `p` is no file name.
pub fn toggle_extension(p: &[u8]) -> (r: Option<Vec<u8>>)
    ensures
        has_file_name(p@) ==> (r matches Some(t) && t@ == toggled(p@)),
        !has_file_name(p@) ==> r is None,
{
    let start = find_name_start(p);
    proof {
        lemma_name_start_bound(p@);
    }
    let n = p.len();
    let name_len = n - start;
    if name_len == 0 || (name_len == 1 && p[start] == DOT) || (name_len == 2 && p[start] == DOT
        && p[start + 1] == DOT) {
        proof {
            let name = file_name(p@);
            if name_len == 1 {
                assert(name =~= seq![DOT]);
            }
            if name_len == 2 {
                assert(name =~= seq![DOT, DOT]);
            }
        }
        return None;
    }
    proof {
        let name = file_name(p@);
        if name_len == 1 {
            assert(name[0] != DOT);
        }
        if name_len == 2 {
            assert(name[0] != DOT || name[1] != DOT);
        }
    }
    if has_crypt_extension(p) {
        Some(vstd::slice::slice_to_vec(vstd::slice::slice_subrange(p, 0, n - MARKER_LEN)))
    } else {
        let mut t = vstd::slice::slice_to_vec(p);
        t.push(DOT);
        t.push(0x63u8);
        t.push(0x72u8);
        t.push(0x79u8);
        t.push(0x70u8);
        t.push(0x74u8);
        assert(t@ =~= p@ + marker());
        Some(t)
    }
}

/// Whether a directory entry of kind `kind` is shown at all: only regular
/// files and directories are, never symlinks or special files.
pub open spec fn is_path_allowed(kind: EntryKind) -> bool {
    kind == EntryKind::RegularFile || kind == EntryKind::Directory
}

/// The source path, and its direction, that a virtual path resolves to,
/// given the two candidates and what is found at each.
///
/// The toggled candidate is looked at first: where it exists it must be a
/// regular file, whose direction the policy must let through. Otherwise the
/// verbatim candidate must exist and be a directory.
pub open spec fn resolve_spec(
    policy: crate::crypt_fs::CryptFSMode,
    verbatim: Seq<u8>,
    toggled_path: Option<Seq<u8>>,
    toggled_kind: EntryKind,
    verbatim_kind: EntryKind,
) -> Result<(Seq<u8>, CryptMode), CryptFSError> {
    if toggled_path is Some && toggled_kind != EntryKind::Missing {
        let t = toggled_path->Some_0;
        if toggled_kind != EntryKind::RegularFile {
            Err(CryptFSError::IrregularFile)
        } else if !permits_spec(policy, crypt_mode_of(t)) {
            Err(CryptFSError::InvalidPath)
        } else {
            Ok((t, crypt_mode_of(t)))
        }
    } else if verbatim_kind == EntryKind::Missing {
        Err(CryptFSError::InvalidPath)
    } else if verbatim_kind != EntryKind::Directory {
        Err(CryptFSError::IrregularFile)
    } else {
        Ok((verbatim, crypt_mode_of(verbatim)))
    }
}

/// The toggled candidate for a source path, if its last component is a file
/// name.
pub open spec fn toggled_candidate(p: Seq<u8>) -> Option<Seq<u8>> {
    if has_file_name(p) {
        Some(toggled(p))
    } else {
        None
    }
}

/// Whether a byte path is absolute.
pub open spec fn is_absolute(p: Seq<u8>) -> bool {
    p.len() > 0 && p[0] == SEPARATOR
}

impl CryptFS {
    /// The source path that the virtual path `path` maps to verbatim: the
    /// source root followed by `path`.
    pub open spec fn mapped_path_spec(&self, path: Seq<u8>) -> Seq<u8> {
        self.source_root() + path
    }

    /// The source path that the virtual path `path` maps to verbatim.
    pub fn get_mapped_path(&self, path: &[u8]) -> (r: Vec<u8>)
        requires
            is_absolute(path@),
        ensures
            r@ == self.mapped_path_spec(path@),
    {
        let mut r = self.source_root_bytes();
        let mut i: usize = 0;
        let ghost root = r@;
        while i < path.len()
            invariant
                i <= path@.len(),
                r@ == root + path@.subrange(0, i as int),
            decreases path@.len() - i,
        {
            r.push(path[i]);
            i = i + 1;
            assert(r@ =~= root + path@.subrange(0, i as int));
        }
        assert(path@.subrange(0, path@.len() as int) =~= path@);
        r
    }

    /// The two candidate source paths of a virtual path: the verbatim one,
    /// and the one with the marker extension toggled (none when the path
    /// names no file). The caller looks up what is at each and hands it to
    /// [`CryptFS::get_source_path`].
    pub fn source_candidates(&self, path: &[u8]) -> (r: (Vec<u8>, Option<Vec<u8>>))
        requires
            is_absolute(path@),
        ensures
            r.0@ == self.mapped_path_spec(path@),
            match toggled_candidate(self.mapped_path_spec(path@)) {
                Some(t) => r.1 matches Some(v) && v@ == t,
                None => r.1 is None,
            },
    {
        let verbatim = self.get_mapped_path(path);
        let alt = toggle_extension(verbatim.as_slice());
        (verbatim, alt)
    }

    /// Resolves the virtual path `path` to a source path and a direction,
    /// from what the caller found at the toggled candidate (`toggled_kind`)
    /// and at the verbatim one (`verbatim_kind`).
    ///
    /// Fails with `IrregularFile` when the candidate that decides is not of
    /// the kind it must be, and with `InvalidPath` when neither exists or
    /// the policy hides the file.
    pub fn get_source_path(&self, path: &[u8], toggled_kind: EntryKind, verbatim_kind: EntryKind) -> (r:
        Result<(Vec<u8>, CryptMode), CryptFSError>)
        requires
            is_absolute(path@),
        ensures
            match resolve_spec(
                self.policy(),
                self.mapped_path_spec(path@),
                toggled_candidate(self.mapped_path_spec(path@)),
                toggled_kind,
                verbatim_kind,
            ) {
                Ok((p, d)) => r matches Ok((v, m)) && v@ == p && m == d,
                Err(e) => r matches Err(f) && f == e,
            },
    {
        let (verbatim, alt) = self.source_candidates(path);
        match alt {
            Some(t) => {
                if toggled_kind != EntryKind::Missing {
                    if toggled_kind != EntryKind::RegularFile {
                        return Err(CryptFSError::IrregularFile);
                    }
                    let d = get_crypt_mode(t.as_slice());
                    if !self.mode().permits(d) {
                        return Err(CryptFSError::InvalidPath);
                    }
                    return Ok((t, d));
                }
            },
            None => {},
        }
        if verbatim_kind == EntryKind::Missing {
            return Err(CryptFSError::InvalidPath);
        }
        if verbatim_kind != EntryKind::Directory {
            return Err(CryptFSError::IrregularFile);
        }
        let d = get_crypt_mode(verbatim.as_slice());
        Ok((verbatim, d))
    }

    /// How an entry of a source directory is listed: a directory under its
    /// own name; a regular file under its name with the marker toggled,
    /// when the policy lets its direction through; nothing else.
    pub fn listed_entry(&self, name: &[u8], kind: EntryKind) -> (r: Option<(Vec<u8>, EntryKind)>)
        ensures
            !is_path_allowed(kind) ==> r is None,
            kind == EntryKind::Directory ==> (r matches Some((n, k)) && n@ == name@ && k
                == EntryKind::Directory),
            kind == EntryKind::RegularFile ==> if has_file_name(name@) && permits_spec(
                self.policy(),
                crypt_mode_of(name@),
            ) {
                r matches Some((n, k)) && n@ == toggled(name@) && k == EntryKind::RegularFile
            } else {
                r is None
            },
    {
        match kind {
            EntryKind::Directory => Some((vstd::slice::slice_to_vec(name), EntryKind::Directory)),
            EntryKind::RegularFile => {
                if !self.mode().permits(get_crypt_mode(name)) {
                    return None;
                }
                match toggle_extension(name) {
                    Some(t) => Some((t, EntryKind::RegularFile)),
                    None => None,
                }
            },
            _ => None,
        }
    }
}

} // verus!
