//! Paths confined to one root directory.
//!
//! Canonicalizing a path asks the filesystem, which happens outside the
//! library; here a canonical path (absolute, with no `.` or `..` components
//! and no repeated or trailing separators) is checked against the root and
//! turned into a root-relative path.

use crate::text::{chars_of, text_equals, text_of};
use vstd::prelude::*;

verus! {

/// Why a path could not be used.
#[derive(Debug)]
pub enum FsError {
    NotFound(String),
    PermissionDenied(String),
    /// The path leads outside the root.
    PathEscape,
    NotADirectory(String),
    /// Any other I/O failure, with its message.
    Io(String),
}

/// How canonicalizing a path failed.
#[derive(Debug)]
pub enum IoFailure {
    NotFound,
    PermissionDenied,
    Other(String),
}

/// File operations confined to one root directory.
pub struct FilesystemService {
    root: String,
}

/// The outcome of a move or copy: the root-relative destination, and
/// whether the operation was carried out.
#[derive(Debug, Clone)]
pub struct OperationResult {
    pub path: String,
    pub performed: bool,
}

/// Component-wise: the canonical path `p` is `root` or lies below it.
pub open spec fn within_root(p: Seq<char>, root: Seq<char>) -> bool {
    ||| p == root
    ||| (root.len() > 0 && root.last() == '/' && root.len() <= p.len() && p.subrange(
        0,
        root.len() as int,
    ) == root)
    ||| (root.len() < p.len() && p.subrange(0, root.len() as int) == root && p[root.len() as int]
        == '/')
}

/// `s` without its leading `/` chars.
pub open spec fn trim_leading_slashes(s: Seq<char>) -> Seq<char>
    decreases s.len(),
{
    if s.len() > 0 && s[0] == '/' {
        trim_leading_slashes(s.drop_first())
    } else {
        s
    }
}

/// The path to canonicalize for a root-relative path: the root for an
/// empty path or `/`, else the root joined with the path's text after its
/// leading separators.
pub open spec fn candidate_of(root: Seq<char>, rel: Seq<char>) -> Seq<char> {
    if rel.len() == 0 || rel == seq!['/'] {
        root
    } else if root.len() > 0 && root.last() == '/' {
        root + trim_leading_slashes(rel)
    } else {
        root + seq!['/'] + trim_leading_slashes(rel)
    }
}

/// The root-relative form of a canonical path: `/` followed by what comes
/// after the root, or `/` for the root itself and for paths outside it.
pub open spec fn relative_of(p: Seq<char>, root: Seq<char>) -> Seq<char> {
    if p == root {
        seq!['/']
    } else if root.len() > 0 && root.last() == '/' && root.len() <= p.len() && p.subrange(
        0,
        root.len() as int,
    ) == root {
        seq!['/'] + p.subrange(root.len() as int, p.len() as int)
    } else if root.len() < p.len() && p.subrange(0, root.len() as int) == root && p[root.len() as int]
        == '/' {
        p.subrange(root.len() as int, p.len() as int)
    } else {
        seq!['/']
    }
}

/// Whether `root` is a prefix of `p`.
fn root_prefix(p: &Vec<char>, root: &Vec<char>) -> (r: bool)
    ensures
        r == (root@.len() <= p@.len() && p@.subrange(0, root@.len() as int) == root@),
{
    if root.len() > p.len() {
        return false;
    }
    let mut i: usize = 0;
    while i < root.len()
        invariant
            0 <= i <= root@.len() <= p@.len(),
            forall|k: int| 0 <= k < i ==> p@[k] == root@[k],
        decreases root@.len() - i,
    {
        if p[i] != root[i] {
            assert(p@.subrange(0, root@.len() as int)[i as int] != root@[i as int]);
            return false;
        }
        i += 1;
    }
    assert(p@.subrange(0, root@.len() as int) =~= root@);
    true
}

/// The text of an owned copy of a path.
fn owned(s: &str) -> (r: String)
    ensures
        r@ == s@,
{
    s.to_owned()
}

impl FsError {
    /// The error for a failed canonicalization of `relative_path`.
    pub fn from_io(failure: IoFailure, relative_path: &str) -> (r: FsError)
        ensures
            match failure {
                IoFailure::NotFound => r matches FsError::NotFound(p) && p@ == relative_path@,
                IoFailure::PermissionDenied => r matches FsError::PermissionDenied(p) && p@
                    == relative_path@,
                IoFailure::Other(m) => r == FsError::Io(m),
            },
    {
        match failure {
            IoFailure::NotFound => FsError::NotFound(owned(relative_path)),
            IoFailure::PermissionDenied => FsError::PermissionDenied(owned(relative_path)),
            IoFailure::Other(m) => FsError::Io(m),
        }
    }
}

impl FilesystemService {
    /// The root, as given.
    pub closed spec fn root_text(&self) -> Seq<char> {
        self.root@
    }

    /// A service rooted at `root`, which should be canonical.
    pub fn new(root: String) -> (r: Self)
        ensures
            r.root_text() == root@,
    {
        FilesystemService { root }
    }

    /// The root.
    pub fn root(&self) -> (r: &str)
        ensures
            r@ == self.root_text(),
    {
        self.root.as_str()
    }

    /// The path to canonicalize for a root-relative path.
    pub fn candidate_path(&self, relative_path: &str) -> (r: String)
        ensures
            r@ == candidate_of(self.root_text(), relative_path@),
    {
        let rel = chars_of(relative_path);
        if rel.len() == 0 || (rel.len() == 1 && rel[0] == '/') {
            proof {
                if rel@.len() == 1 {
                    assert(rel@ =~= seq!['/']);
                }
            }
            return self.root.clone();
        }
        assert(rel@ != seq!['/']);
        let mut start: usize = 0;
        assert(rel@.subrange(0, rel@.len() as int) =~= rel@);
        while start < rel.len() && rel[start] == '/'
            invariant
                0 <= start <= rel@.len(),
                rel@ == relative_path@,
                trim_leading_slashes(rel@) == trim_leading_slashes(rel@.subrange(start as int, rel@.len() as int)),
            decreases rel@.len() - start,
        {
            assert(rel@.subrange(start as int, rel@.len() as int).drop_first() =~= rel@.subrange(
                start + 1,
                rel@.len() as int,
            ));
            start += 1;
        }
        let rest = text_of(vstd::slice::slice_subrange(rel.as_slice(), start, rel.len()));
        let root = chars_of(self.root.as_str());
        let mut out = self.root.clone();
        if !(root.len() > 0 && root[root.len() - 1] == '/') {
            out.append("/");
            proof {
                reveal_strlit("/");
            }
        }
        out.append(rest.as_str());
        out
    }

    /// Checks the canonical form of `relative_path`'s candidate (or how
    /// canonicalizing it failed): the canonical path where it lies within
    /// the root, `PathEscape` where it does not, and the failure otherwise.
    pub fn resolve_path(&self, relative_path: &str, canonical: Result<String, IoFailure>) -> (r:
        Result<String, FsError>)
        ensures
            match canonical {
                Ok(p) => if within_root(p@, self.root_text()) {
                    r matches Ok(q) && q@ == p@
                } else {
                    r matches Err(FsError::PathEscape)
                },
                Err(IoFailure::NotFound) => r matches Err(FsError::NotFound(q)) && q@
                    == relative_path@,
                Err(IoFailure::PermissionDenied) => r matches Err(FsError::PermissionDenied(q))
                    && q@ == relative_path@,
                Err(IoFailure::Other(m)) => r == Err::<String, FsError>(FsError::Io(m)),
            },
    {
        match canonical {
            Ok(p) => {
                if self.is_within_root(p.as_str()) {
                    Ok(p)
                } else {
                    Err(FsError::PathEscape)
                }
            },
            Err(failure) => Err(FsError::from_io(failure, relative_path)),
        }
    }

    /// Whether a canonical path is the root or lies below it.
    pub fn is_within_root(&self, path: &str) -> (r: bool)
        ensures
            r == within_root(path@, self.root_text()),
    {
        let p = chars_of(path);
        let root = chars_of(self.root.as_str());
        if text_equals(path, self.root.as_str()) {
            return true;
        }
        let prefix = root_prefix(&p, &root);
        if root.len() > 0 && root[root.len() - 1] == '/' && prefix {
            return true;
        }
        prefix && root.len() < p.len() && p[root.len()] == '/'
    }

    /// The root-relative form of a canonical path: `/` followed by what
    /// comes after the root; `/` for the root itself and for paths outside it.
    pub fn relative_path(&self, absolute: &str) -> (r: String)
        ensures
            r@ == relative_of(absolute@, self.root_text()),
    {
        let p = chars_of(absolute);
        let root = chars_of(self.root.as_str());
        proof {
            reveal_strlit("/");
        }
        if text_equals(absolute, self.root.as_str()) {
            return owned("/");
        }
        let prefix = root_prefix(&p, &root);
        if root.len() > 0 && root[root.len() - 1] == '/' && prefix {
            let mut out = owned("/");
            let rest = text_of(vstd::slice::slice_subrange(p.as_slice(), root.len(), p.len()));
            out.append(rest.as_str());
            return out;
        }
        if prefix && root.len() < p.len() && p[root.len()] == '/' {
            return text_of(vstd::slice::slice_subrange(p.as_slice(), root.len(), p.len()));
        }
        owned("/")
    }
}

} // verus!
