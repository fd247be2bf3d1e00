//! From the store's responses to results: status classification first, then
//! the decoded body.
use vstd::prelude::*;
use crate::error::Error;
use crate::metadata::{item_metadata, item_to_metadata, Item, ObjectMetadata};
use crate::object::Object;
use crate::listing::{list_entries, listing, entries_view, page_items, page_prefixes, Fileinfo, ListingPage};
use crate::path::{checked_name, invalid_path, object_name};

verus! {

/// The error that a response status stands for, or `None` for success.
/// 401 and 403: the token was refused; 404: no such object; 429 and 5xx:
/// the store is unavailable for now; anything else outside 2xx: rejected.
pub open spec fn status_error(status: u16) -> Option<Error> {
    if 200 <= status <= 299 {
        None
    } else if status == 401 || status == 403 {
        Some(Error::AuthorizationError)
    } else if status == 404 {
        Some(Error::NotFound)
    } else if status == 429 || (500 <= status <= 599) {
        Some(Error::Unavailable)
    } else {
        Some(Error::RequestRejected)
    }
}

/// Classifies a response status.
pub fn check_status(status: u16) -> (r: Result<(), Error>)
    ensures
        match status_error(status) {
            None => r is Ok,
            Some(e) => r == Err::<(), Error>(e),
        },
{
    if 200 <= status && status <= 299 {
        Ok(())
    } else if status == 401 || status == 403 {
        Err(Error::AuthorizationError)
    } else if status == 404 {
        Err(Error::NotFound)
    } else if status == 429 || (500 <= status && status <= 599) {
        Err(Error::Unavailable)
    } else {
        Err(Error::RequestRejected)
    }
}

/// The outcome of a response that carries an object record: the status
/// error, a decode error when the body was no record, or the record's
/// size and time.
pub open spec fn record_outcome(status: u16, body: Option<Item>) -> Result<
    (u64, Option<u64>),
    Error,
> {
    match status_error(status) {
        Some(e) => Err(e),
        None => match body {
            None => Err(Error::MetadataDecodeError),
            Some(item) => match item_metadata(&item) {
                Some(m) => Ok(m),
                None => Err(Error::MetadataDecodeError),
            },
        },
    }
}

/// The metadata of a stat response. `body` is the decoded record, `None`
/// when the body was not one. The status is looked at first, so a 404 is
/// `NotFound` whatever the body holds.
pub fn map_stat_response(status: u16, body: Option<Item>) -> (r: Result<ObjectMetadata, Error>)
    ensures
        match r {
            Ok(m) => m.is_file_spec() && record_outcome(status, body) == Ok::<
                (u64, Option<u64>),
                Error,
            >((m.size_spec(), m.modified_spec())),
            Err(e) => record_outcome(status, body) == Err::<(u64, Option<u64>), Error>(e),
        },
{
    match check_status(status) {
        Err(e) => Err(e),
        Ok(()) => match body {
            None => Err(Error::MetadataDecodeError),
            Some(item) => item_to_metadata(&item),
        },
    }
}

/// The size that the store reports after an upload.
pub fn map_put_response(status: u16, body: Option<Item>) -> (r: Result<u64, Error>)
    ensures
        match r {
            Ok(n) => record_outcome(status, body) matches Ok(m) && m.0 == n,
            Err(e) => record_outcome(status, body) == Err::<(u64, Option<u64>), Error>(e),
        },
{
    match map_stat_response(status, body) {
        Ok(m) => Ok(m.len()),
        Err(e) => Err(e),
    }
}

/// The downloaded object of a media response.
pub fn map_get_response(status: u16, body: Vec<u8>) -> (r: Result<Object, Error>)
    ensures
        match status_error(status) {
            Some(e) => r matches Err(x) && x == e,
            None => r matches Ok(o) && o.wf() && o.data_spec() == body@ && o.position() == 0,
        },
{
    match check_status(status) {
        Err(e) => Err(e),
        Ok(()) => Ok(Object::new(body)),
    }
}

/// The result of a response whose body does not matter (a delete).
pub fn map_empty_response(status: u16) -> (r: Result<(), Error>)
    ensures
        match status_error(status) {
            None => r is Ok,
            Some(e) => r == Err::<(), Error>(e),
        },
{
    check_status(status)
}

/// The entries of a listing response for `path`. The status is looked at
/// first; then a body that was no listing page (`page` is `None`) is a
/// decode error; then the page's entries are those of the directory that
/// the path names.
pub fn map_list_response(status: u16, page: Option<ListingPage>, path: &[u8]) -> (r: Result<
    Vec<Fileinfo>,
    Error,
>)
    ensures
        match status_error(status) {
            Some(e) => r matches Err(x) && x == e,
            None => match page {
                None => r matches Err(x) && x == Error::MetadataDecodeError,
                Some(pg) => if invalid_path(path@) {
                    r matches Err(x) && x == Error::InvalidPath
                } else {
                    match listing(page_items(&pg), page_prefixes(&pg), object_name(path@)) {
                        None => r matches Err(x) && x == Error::MetadataDecodeError,
                        Some(v) => r matches Ok(w) && entries_view(w@) == v,
                    }
                },
            },
        },
{
    match check_status(status) {
        Err(e) => Err(e),
        Ok(()) => match page {
            None => Err(Error::MetadataDecodeError),
            Some(pg) => match checked_name(path) {
                Err(e) => Err(e),
                Ok(dir) => list_entries(&pg, dir.as_slice()),
            },
        },
    }
}

} // verus!
