//! The storage backend: the filesystem operations over one bucket.
//!
//! Each operation is a short conversation with the store. This type builds
//! the requests and decides, from each response, what comes next; the host
//! fetches tokens and sends the requests. A refused token earns one retry
//! with a fresh token; nothing else is retried here.
use vstd::prelude::*;
use crate::error::Error;
use crate::listing::{bytes_eq, ListingPage, page_items, page_prefixes, item_names};
use crate::metadata::Item;
use crate::path::{checked_upload_name, invalid_path, invalid_upload_path, marker_name, upload_name};
use crate::request::{
    copy_request,
    delete_request,
    get_request,
    list_request,
    mkd_request,
    put_request,
    stat_request,
    Request,
    Token,
};
use crate::response::{check_status, status_error};

verus! {

/// A storage backend over one bucket. No operation can address another
/// bucket, nor climb out of this one.
pub struct CloudStorage {
    bucket: Vec<u8>,
}

/// What to do once an attempt has an outcome.
pub enum Attempt<T> {
    /// Fetch a fresh token and send the request again.
    Retry,
    /// The operation is over, with this result.
    Finish(Result<T, Error>),
}

/// Whether an outcome earns the one retry: the token was refused and no
/// retry was made yet.
pub open spec fn earns_retry<T>(retried: bool, outcome: Result<T, Error>) -> bool {
    !retried && outcome == Err::<T, Error>(Error::AuthorizationError)
}

/// What a directory removal finds in the directory's listing: `NotFound`
/// when nothing, `NotEmpty` when anything but the marker itself.
pub open spec fn rmd_verdict(items: Seq<Seq<u8>>, prefixes: Seq<Seq<u8>>, marker: Seq<u8>) -> Result<
    (),
    Error,
> {
    if prefixes.len() > 0 || exists|i: int| 0 <= i < items.len() && items[i] != marker {
        Err(Error::NotEmpty)
    } else if items.len() == 0 {
        Err(Error::NotFound)
    } else {
        Ok(())
    }
}

/// A path whose directory can be removed: valid, inside the bucket and not
/// the bucket root.
pub open spec fn removable_dir(p: Seq<u8>) -> bool {
    !invalid_upload_path(p) && !invalid_path(marker_name(p))
}

/// Decides whether an operation ends or is tried once more.
pub fn after_attempt<T>(retried: bool, outcome: Result<T, Error>) -> (r: Attempt<T>)
    ensures
        earns_retry(retried, outcome) ==> r is Retry,
        !earns_retry(retried, outcome) ==> r == Attempt::Finish(outcome),
{
    match outcome {
        Err(Error::AuthorizationError) => {
            if retried {
                Attempt::Finish(Err(Error::AuthorizationError))
            } else {
                Attempt::Retry
            }
        },
        other => Attempt::Finish(other),
    }
}

impl CloudStorage {
    /// The bucket's name.
    pub closed spec fn bucket_spec(&self) -> Seq<u8> {
        self.bucket@
    }

    /// A backend over the named bucket.
    pub fn new(bucket: Vec<u8>) -> (r: CloudStorage)
        ensures
            r.bucket_spec() == bucket@,
    {
        CloudStorage { bucket }
    }

    /// The request that reads an object's metadata.
    pub fn stat(&self, path: &[u8], token: &Token) -> (r: Result<Request, Error>)
        ensures
            crate::request::request_is(
                r,
                invalid_path(path@),
                token,
                crate::request::Method::Get,
                crate::request::object_path(self.bucket_spec(), path@),
                false,
                crate::request::Payload::Empty,
            ),
    {
        stat_request(self.bucket.as_slice(), path, token)
    }

    /// The request that lists one level of a directory.
    pub fn list(&self, path: &[u8], token: &Token) -> (r: Result<Request, Error>)
        ensures
            crate::request::request_is(
                r,
                invalid_path(path@),
                token,
                crate::request::Method::Get,
                crate::request::objects_path(self.bucket_spec()) + crate::request::text(
                    "?delimiter=/&prefix=",
                ) + crate::path::key_of(path@),
                false,
                crate::request::Payload::Empty,
            ),
    {
        list_request(self.bucket.as_slice(), path, token)
    }

    /// The request that downloads an object.
    pub fn get(&self, path: &[u8], token: &Token) -> (r: Result<Request, Error>)
        ensures
            crate::request::request_is(
                r,
                invalid_path(path@),
                token,
                crate::request::Method::Get,
                crate::request::object_path(self.bucket_spec(), path@) + crate::request::text(
                    "?alt=media",
                ),
                false,
                crate::request::Payload::Empty,
            ),
    {
        get_request(self.bucket.as_slice(), path, token)
    }

    /// The request that uploads the caller's bytes to a path.
    pub fn put(&self, path: &[u8], token: &Token) -> (r: Result<Request, Error>)
        ensures
            crate::request::request_is(
                r,
                invalid_upload_path(path@),
                token,
                crate::request::Method::Post,
                crate::request::upload_path(self.bucket_spec(), upload_name(path@)),
                true,
                crate::request::Payload::Upload,
            ),
    {
        put_request(self.bucket.as_slice(), path, token)
    }

    /// The request that deletes an object.
    pub fn del(&self, path: &[u8], token: &Token) -> (r: Result<Request, Error>)
        ensures
            crate::request::request_is(
                r,
                invalid_path(path@),
                token,
                crate::request::Method::Delete,
                crate::request::object_path(self.bucket_spec(), path@),
                false,
                crate::request::Payload::Empty,
            ),
    {
        delete_request(self.bucket.as_slice(), path, token)
    }

    /// The request that creates a directory's marker.
    pub fn mkd(&self, path: &[u8], token: &Token) -> (r: Result<Request, Error>)
        ensures
            crate::request::request_is(
                r,
                invalid_upload_path(path@),
                token,
                crate::request::Method::Post,
                crate::request::upload_path(self.bucket_spec(), marker_name(path@)),
                true,
                crate::request::Payload::Empty,
            ),
    {
        mkd_request(self.bucket.as_slice(), path, token)
    }

    /// The first request of a rename: a copy of `from` to `to`. The store
    /// has no atomic rename: the copy is followed by a delete of `from`
    /// (see `rename_copied`), and a failure between the two leaves both.
    pub fn rename(&self, from: &[u8], to: &[u8], token: &Token) -> (r: Result<Request, Error>)
        ensures
            r is Ok <==> !invalid_path(from@) && !invalid_path(to@),
            r matches Err(e) ==> e == Error::InvalidPath,
            r matches Ok(q) ==> {
                &&& q.method == crate::request::Method::Post
                &&& q.path_and_query@ == crate::request::object_path(self.bucket_spec(), from@)
                    + crate::request::text("/copyTo/b/") + crate::codec::encoded(
                    self.bucket_spec(),
                ) + crate::request::text("/o/") + crate::path::key_of(to@)
                &&& q.authorization@ == crate::request::authorization_of(token)
                &&& q.content_type is None
                &&& q.payload == crate::request::Payload::Empty
            },
    {
        copy_request(self.bucket.as_slice(), from, to, token)
    }

    /// The second step of a rename, once the copy has its response: the
    /// delete of `from` when the copy succeeded, else the copy's error.
    pub fn rename_copied(&self, from: &[u8], copy_status: u16, token: &Token) -> (r: Result<
        Request,
        Error,
    >)
        ensures
            match status_error(copy_status) {
                Some(e) => r matches Err(x) && x == e,
                None => crate::request::request_is(
                r,
                invalid_path(from@),
                    token,
                    crate::request::Method::Delete,
                    crate::request::object_path(self.bucket_spec(), from@),
                    false,
                    crate::request::Payload::Empty,
                ),
            },
    {
        match check_status(copy_status) {
            Err(e) => Err(e),
            Ok(()) => self.del(from, token),
        }
    }

    /// The path of a directory's marker: trailing separators dropped, one
    /// added. The bucket root has no marker and cannot be removed.
    pub fn marker_path(path: &[u8]) -> (r: Result<Vec<u8>, Error>)
        ensures
            match r {
                Ok(v) => removable_dir(path@) && v@ == marker_name(path@),
                Err(e) => !removable_dir(path@) && e == Error::InvalidPath,
            },
    {
        match checked_upload_name(path) {
            Ok(mut v) => {
                v.push(crate::codec::SLASH);
                match crate::path::checked_name(v.as_slice()) {
                    Ok(_) => Ok(v),
                    Err(e) => Err(e),
                }
            },
            Err(e) => Err(e),
        }
    }

    /// The first request of a directory removal: the listing of the
    /// directory's marker prefix.
    pub fn rmd(&self, path: &[u8], token: &Token) -> (r: Result<Request, Error>)
        ensures
            !removable_dir(path@) ==> r == Err::<Request, Error>(Error::InvalidPath),
            removable_dir(path@) ==> crate::request::request_is(
                r,
                invalid_path(marker_name(path@)),
                token,
                crate::request::Method::Get,
                crate::request::objects_path(self.bucket_spec()) + crate::request::text(
                    "?delimiter=/&prefix=",
                ) + crate::path::key_of(marker_name(path@)),
                false,
                crate::request::Payload::Empty,
            ),
    {
        match Self::marker_path(path) {
            Ok(m) => list_request(self.bucket.as_slice(), m.as_slice(), token),
            Err(e) => Err(e),
        }
    }

    /// The second step of a directory removal, from the listing: the
    /// delete of the marker when the directory holds nothing else.
    pub fn rmd_listed(&self, path: &[u8], page: &ListingPage, token: &Token) -> (r: Result<
        Request,
        Error,
    >)
        ensures
            !removable_dir(path@) ==> r == Err::<Request, Error>(Error::InvalidPath),
            removable_dir(path@) ==> match rmd_verdict(
                item_names(page_items(page)),
                page_prefixes(page),
                marker_name(path@),
            ) {
                Err(e) => r matches Err(x) && x == e,
                Ok(()) => crate::request::request_is(
                r,
                invalid_path(marker_name(path@)),
                    token,
                    crate::request::Method::Delete,
                    crate::request::object_path(self.bucket_spec(), marker_name(path@)),
                    false,
                    crate::request::Payload::Empty,
                ),
            },
    {
        let m = match Self::marker_path(path) {
            Ok(m) => m,
            Err(e) => return Err(e),
        };
        match rmd_check(page, m.as_slice()) {
            Err(e) => Err(e),
            Ok(()) => delete_request(self.bucket.as_slice(), m.as_slice(), token),
        }
    }
}

/// The verdict on a directory's listing, for removal of the directory
/// whose marker is named `marker`.
pub fn rmd_check(page: &ListingPage, marker: &[u8]) -> (r: Result<(), Error>)
    ensures
        r == rmd_verdict(item_names(page_items(page)), page_prefixes(page), marker@),
{
    let has_prefixes = match &page.prefixes {
        Some(v) => v.len() > 0,
        None => false,
    };
    if has_prefixes {
        return Err(Error::NotEmpty);
    }
    assert(page_prefixes(page).len() == 0);
    let empty: Vec<Item> = Vec::new();
    let items: &Vec<Item> = match &page.items {
        Some(v) => v,
        None => &empty,
    };
    let ghost names = item_names(page_items(page));
    assert(items@ == page_items(page));
    let mut i: usize = 0;
    while i < items.len()
        invariant
            i <= items@.len(),
            names == item_names(items@),
            items@ == page_items(page),
            page_prefixes(page).len() == 0,
            forall|j: int| 0 <= j < i ==> names[j] == marker@,
        decreases items@.len() - i,
    {
        if !bytes_eq(items[i].name.as_slice(), marker) {
            assert(names[i as int] != marker@);
            return Err(Error::NotEmpty);
        }
        i = i + 1;
    }
    assert(!exists|j: int| 0 <= j < names.len() && names[j] != marker@);
    if items.len() == 0 {
        Err(Error::NotFound)
    } else {
        Ok(())
    }
}

} // verus!
