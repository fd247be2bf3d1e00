//! From logical paths to object names and keys.
//!
//! A logical path may start with any number of `/`; they address the bucket
//! root and are dropped. A path holding a `..` segment would leave the
//! bucket's namespace and is refused.
use vstd::prelude::*;
use crate::codec::{SLASH, encoded};
use crate::error::Error;
use vstd::utf8::valid_utf8;

verus! {

/// The path with its leading separators removed.
pub open spec fn stripped(p: Seq<u8>) -> Seq<u8>
    decreases p.len(),
{
    if p.len() > 0 && p[0] == SLASH {
        stripped(p.drop_first())
    } else {
        p
    }
}

/// The path with its trailing separators removed.
pub open spec fn trimmed(p: Seq<u8>) -> Seq<u8>
    decreases p.len(),
{
    if p.len() > 0 && p.last() == SLASH {
        trimmed(p.drop_last())
    } else {
        p
    }
}

/// True when a `..` segment starts at byte `i`.
pub open spec fn parent_segment_at(p: Seq<u8>, i: int) -> bool {
    0 <= i && i + 2 <= p.len() && p[i] == 0x2e && p[i + 1] == 0x2e && (i == 0 || p[i - 1]
        == SLASH) && (i + 2 == p.len() || p[i + 2] == SLASH)
}

/// True when the path climbs out of the bucket root.
pub open spec fn escapes_root(p: Seq<u8>) -> bool {
    exists|i: int| parent_segment_at(p, i)
}

/// A path that cannot address an object: its bytes are not UTF-8 text, or
/// it climbs out of the bucket root.
pub open spec fn invalid_path(p: Seq<u8>) -> bool {
    !valid_utf8(p) || escapes_root(p)
}

/// A path that an upload cannot target: an invalid path, or one that names
/// no object once its separators are dropped (the bucket root).
pub open spec fn invalid_upload_path(p: Seq<u8>) -> bool {
    invalid_path(p) || upload_name(p).len() == 0
}

/// Relies on `std::str::from_utf8`, which succeeds exactly on well-formed
/// UTF-8.
#[verifier::external_body]
fn is_utf8(b: &[u8]) -> (r: bool)
    ensures
        r == valid_utf8(b@),
{
    std::str::from_utf8(b).is_ok()
}

/// The name of the object that a path addresses.
pub open spec fn object_name(p: Seq<u8>) -> Seq<u8> {
    stripped(p)
}

/// The name of the object that an upload to a path writes: trailing
/// separators are dropped.
pub open spec fn upload_name(p: Seq<u8>) -> Seq<u8> {
    trimmed(stripped(p))
}

/// The name of the directory marker for a path.
pub open spec fn marker_name(p: Seq<u8>) -> Seq<u8> {
    trimmed(stripped(p)).push(SLASH)
}

/// The wire key of the object that a path addresses.
pub open spec fn key_of(p: Seq<u8>) -> Seq<u8> {
    encoded(object_name(p))
}

/// Whether the path climbs out of the bucket root.
pub fn check_escapes_root(path: &[u8]) -> (r: bool)
    ensures
        r == escapes_root(path@),
{
    let n = path.len();
    let mut i: usize = 0;
    while i < n && n - i > 1
        invariant
            n == path@.len(),
            i <= n,
            forall|j: int| 0 <= j < i ==> !parent_segment_at(path@, j),
        decreases n - i,
    {
        if path[i] == 0x2e && path[i + 1] == 0x2e && (i == 0 || path[i - 1] == SLASH) && (n - i
            == 2 || path[i + 2] == SLASH) {
            assert(parent_segment_at(path@, i as int));
            return true;
        }
        i = i + 1;
    }
    assert forall|j: int| !parent_segment_at(path@, j) by {
        if 0 <= j && j + 2 <= n {
            assert(j < i);
        }
    }
    false
}

/// Index of the first byte after the leading separators.
fn skip_leading(path: &[u8]) -> (r: usize)
    ensures
        r <= path@.len(),
        stripped(path@) == path@.subrange(r as int, path@.len() as int),
{
    let n = path.len();
    let mut i: usize = 0;
    assert(path@.subrange(0, n as int) =~= path@);
    while i < n && path[i] == SLASH
        invariant
            n == path@.len(),
            i <= n,
            stripped(path@) == stripped(path@.subrange(i as int, n as int)),
        decreases n - i,
    {
        assert(path@.subrange(i as int, n as int).drop_first() =~= path@.subrange(
            i + 1,
            n as int,
        ));
        i = i + 1;
    }
    i
}

/// End of the bytes that remain once the trailing separators are removed.
fn trim_end(path: &[u8]) -> (r: usize)
    ensures
        r <= path@.len(),
        trimmed(path@) == path@.take(r as int),
{
    let mut j: usize = path.len();
    assert(path@.take(j as int) =~= path@);
    while j > 0 && path[j - 1] == SLASH
        invariant
            j <= path@.len(),
            trimmed(path@) == trimmed(path@.take(j as int)),
        decreases j,
    {
        assert(path@.take(j as int).drop_last() =~= path@.take(j - 1));
        j = j - 1;
    }
    j
}

/// The name of the object a path addresses, or `InvalidPath` when the path
/// is not UTF-8 text or climbs out of the bucket.
pub fn checked_name(path: &[u8]) -> (r: Result<Vec<u8>, Error>)
    ensures
        match r {
            Ok(v) => !invalid_path(path@) && v@ == object_name(path@),
            Err(e) => invalid_path(path@) && e == Error::InvalidPath,
        },
{
    if !is_utf8(path) || check_escapes_root(path) {
        return Err(Error::InvalidPath);
    }
    let s = skip_leading(path);
    let v = vstd::slice::slice_to_vec(vstd::slice::slice_subrange(path, s, path.len()));
    Ok(v)
}

/// The name an upload to the path writes (trailing separators dropped), or
/// `InvalidPath` when there is no such name.
pub fn checked_upload_name(path: &[u8]) -> (r: Result<Vec<u8>, Error>)
    ensures
        match r {
            Ok(v) => !invalid_upload_path(path@) && v@ == upload_name(path@),
            Err(e) => invalid_upload_path(path@) && e == Error::InvalidPath,
        },
{
    match checked_name(path) {
        Ok(name) => {
            let e = trim_end(name.as_slice());
            if e == 0 {
                return Err(Error::InvalidPath);
            }
            let v = vstd::slice::slice_to_vec(vstd::slice::slice_subrange(name.as_slice(), 0, e));
            assert(v@ =~= name@.take(e as int));
            Ok(v)
        },
        Err(e) => Err(e),
    }
}

/// The wire key of the object a path addresses, or `InvalidPath`.
pub fn object_key(path: &[u8]) -> (r: Result<Vec<u8>, Error>)
    ensures
        match r {
            Ok(k) => !invalid_path(path@) && k@ == key_of(path@),
            Err(e) => invalid_path(path@) && e == Error::InvalidPath,
        },
{
    match checked_name(path) {
        Ok(name) => Ok(crate::codec::encode(name.as_slice())),
        Err(e) => Err(e),
    }
}

} // verus!
