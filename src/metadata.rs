//! Object records as the store describes them, and the metadata that the
//! filesystem view derives from them.
use vstd::prelude::*;
use crate::codec::{parse_size, size_of_digits};
use crate::error::Error;

verus! {

/// One object record of a stat, upload or listing response.
pub struct Item {
    /// The object's name, as UTF-8 bytes.
    pub name: Vec<u8>,
    /// The store's last-update time, as RFC 3339 text.
    pub updated: String,
    /// The object's size, as decimal digits.
    pub size: Vec<u8>,
}

/// Milliseconds since the Unix epoch of an RFC 3339 time, when the text is
/// one.
pub uninterp spec fn rfc3339_millis_of(s: Seq<char>) -> Option<i64>;

/// Relies on chrono's `DateTime::parse_from_rfc3339` and
/// `DateTime::timestamp_millis`: the point in time that the text names, in
/// milliseconds since the epoch, or `None` when the text is no RFC 3339 time.
#[verifier::external_body]
fn rfc3339_millis(s: &str) -> (r: Option<i64>)
    ensures
        r == rfc3339_millis_of(s@),
{
    chrono::DateTime::parse_from_rfc3339(s).ok().map(|d| d.timestamp_millis())
}

/// The filesystem metadata of an object or of a directory.
pub struct ObjectMetadata {
    last_updated: Option<u64>,
    is_file: bool,
    size: u64,
}

/// The time to report for a record's timestamp: instants before the epoch
/// have no representation and are reported as unknown.
pub open spec fn time_of_millis(ms: i64) -> Option<u64> {
    if ms >= 0 {
        Some(ms as u64)
    } else {
        None
    }
}

impl ObjectMetadata {
    /// The size in bytes.
    pub closed spec fn size_spec(&self) -> u64 {
        self.size
    }

    /// Whether this describes a plain object rather than a directory.
    pub closed spec fn is_file_spec(&self) -> bool {
        self.is_file
    }

    /// The last-modified time, in milliseconds since the epoch, if known.
    pub closed spec fn modified_spec(&self) -> Option<u64> {
        self.last_updated
    }

    /// The metadata of a virtual directory: size 0, not a file, no time.
    pub fn directory() -> (r: ObjectMetadata)
        ensures
            r.size_spec() == 0,
            !r.is_file_spec(),
            r.modified_spec() is None,
    {
        ObjectMetadata { last_updated: None, is_file: false, size: 0 }
    }

    /// The size in bytes.
    pub fn len(&self) -> (r: u64)
        ensures
            r == self.size_spec(),
    {
        self.size
    }

    /// Whether the size is zero.
    pub fn is_empty(&self) -> (r: bool)
        ensures
            r == (self.size_spec() == 0),
    {
        self.len() == 0
    }

    /// Whether this describes a directory.
    pub fn is_dir(&self) -> (r: bool)
        ensures
            r == !self.is_file_spec(),
    {
        !self.is_file()
    }

    /// Whether this describes a plain object.
    pub fn is_file(&self) -> (r: bool)
        ensures
            r == self.is_file_spec(),
    {
        self.is_file
    }

    /// The store has no symbolic links.
    pub fn is_symlink(&self) -> (r: bool)
        ensures
            !r,
    {
        false
    }

    /// The last-modified time in milliseconds since the epoch; `Unsupported`
    /// when the store gave no usable time.
    pub fn modified(&self) -> (r: Result<u64, Error>)
        ensures
            match self.modified_spec() {
                Some(t) => r == Ok::<u64, Error>(t),
                None => r == Err::<u64, Error>(Error::Unsupported),
            },
    {
        match self.last_updated {
            Some(t) => Ok(t),
            None => Err(Error::Unsupported),
        }
    }

    /// The store has no POSIX owners: the group id is always 0.
    pub fn gid(&self) -> (r: u32)
        ensures
            r == 0,
    {
        0
    }

    /// The store has no POSIX owners: the user id is always 0.
    pub fn uid(&self) -> (r: u32)
        ensures
            r == 0,
    {
        0
    }
}

/// The metadata of an object record, from its size digits and its parsed
/// timestamp (`None` when the timestamp text was not a valid time).
pub fn metadata_from_parts(size: &[u8], millis: Option<i64>) -> (r: Result<
    ObjectMetadata,
    Error,
>)
    ensures
        match r {
            Ok(m) => {
                &&& size_of_digits(size@) is Some
                &&& millis is Some
                &&& m.size_spec() == size_of_digits(size@)->0
                &&& m.is_file_spec()
                &&& m.modified_spec() == time_of_millis(millis->0)
            },
            Err(e) => e == Error::MetadataDecodeError && (size_of_digits(size@) is None
                || millis is None),
        },
{
    let n = match parse_size(size) {
        Some(n) => n,
        None => return Err(Error::MetadataDecodeError),
    };
    let ms = match millis {
        Some(ms) => ms,
        None => return Err(Error::MetadataDecodeError),
    };
    let last_updated = if ms >= 0 {
        Some(ms as u64)
    } else {
        None
    };
    Ok(ObjectMetadata { last_updated, is_file: true, size: n })
}

/// Size and modification time of an object record, when its size is a
/// decimal number and its time an RFC 3339 time.
pub open spec fn item_metadata(item: &Item) -> Option<(u64, Option<u64>)> {
    match size_of_digits(item.size@) {
        Some(n) => match rfc3339_millis_of(item.updated@) {
            Some(ms) => Some((n, time_of_millis(ms))),
            None => None,
        },
        None => None,
    }
}

/// The metadata of an object record. A size that is not a decimal number
/// and a time that is not RFC 3339 are decode errors.
pub fn item_to_metadata(item: &Item) -> (r: Result<ObjectMetadata, Error>)
    ensures
        match r {
            Ok(m) => m.is_file_spec() && item_metadata(item) == Some(
                (m.size_spec(), m.modified_spec()),
            ),
            Err(e) => e == Error::MetadataDecodeError && item_metadata(item) is None,
        },
{
    let millis = rfc3339_millis(item.updated.as_str());
    metadata_from_parts(item.size.as_slice(), millis)
}

} // verus!
