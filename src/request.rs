//! The HTTP requests that each operation sends to the store's JSON API.
//!
//! A request is described by its method, its path and query (bytes, all
//! ASCII once encoded), its headers and the kind of body it carries. The
//! host sends it to `API_HOST` over HTTPS.
use vstd::prelude::*;
use vstd::string::StringSliceAdditionalSpecFns;
use crate::codec::{encode, encoded, SLASH};
use crate::error::Error;
use crate::path::{
    checked_name,
    checked_upload_name,
    invalid_path,
    invalid_upload_path,
    key_of,
    marker_name,
    upload_name,
};

verus! {

/// The host that serves the store's API.
pub const API_HOST: &'static str = "www.googleapis.com";

/// The OAuth2 scope that every request needs.
pub const READ_WRITE_SCOPE: &'static str = "https://www.googleapis.com/auth/devstorage.read_write";

/// A token that describes the type and the access token.
pub struct Token {
    /// The token type.
    pub token_type: String,
    /// The token itself.
    pub access_token: String,
}

/// The HTTP methods that the store's API is called with.
#[derive(Clone, Copy, Debug, PartialEq, Eq, Structural)]
pub enum Method {
    Get,
    Post,
    Delete,
}

/// What a request carries as its body.
#[derive(Clone, Copy, Debug, PartialEq, Eq, Structural)]
pub enum Payload {
    /// No body (`Content-Length: 0` where the request is an upload).
    Empty,
    /// The caller's bytes, streamed as they are read.
    Upload,
}

/// A request to the store, ready to be sent.
pub struct Request {
    pub method: Method,
    /// Path and query, percent-encoded.
    pub path_and_query: Vec<u8>,
    /// The value of the `Authorization` header.
    pub authorization: String,
    /// The value of the `Content-Type` header, where there is one.
    pub content_type: Option<String>,
    pub payload: Payload,
}

/// The `Authorization` header value for a token.
pub open spec fn authorization_of(t: &Token) -> Seq<char> {
    t.token_type@ + " "@ + t.access_token@
}

/// Bytes of a text.
pub open spec fn text(s: &str) -> Seq<u8> {
    s.spec_bytes()
}

/// `/storage/v1/b/{bucket}/o`: the collection of a bucket's objects.
pub open spec fn objects_path(bucket: Seq<u8>) -> Seq<u8> {
    text("/storage/v1/b/") + encoded(bucket) + text("/o")
}

/// `/storage/v1/b/{bucket}/o/{key}`: one object.
pub open spec fn object_path(bucket: Seq<u8>, p: Seq<u8>) -> Seq<u8> {
    objects_path(bucket) + seq![SLASH] + key_of(p)
}

/// `/upload/storage/v1/b/{bucket}/o?uploadType=media&name={name}`.
pub open spec fn upload_path(bucket: Seq<u8>, name: Seq<u8>) -> Seq<u8> {
    text("/upload/storage/v1/b/") + encoded(bucket) + text("/o?uploadType=media&name=")
        + encoded(name)
}

/// Relies on mime's `APPLICATION_OCTET_STREAM` and its `Display`: the text
/// `application/octet-stream`.
#[verifier::external_body]
fn octet_stream() -> (r: String)
    ensures
        r@ == "application/octet-stream"@,
{
    mime::APPLICATION_OCTET_STREAM.to_string()
}

/// Appends `s` to `out`.
fn append_bytes(out: &mut Vec<u8>, s: &[u8])
    ensures
        final(out)@ == old(out)@ + s@,
{
    let mut i: usize = 0;
    while i < s.len()
        invariant
            i <= s@.len(),
            out@ == old(out)@ + s@.take(i as int),
        decreases s@.len() - i,
    {
        out.push(s[i]);
        assert(s@.take(i + 1) =~= s@.take(i as int).push(s@[i as int]));
        i = i + 1;
    }
    assert(s@.take(s@.len() as int) =~= s@);
}

/// The `Authorization` header value: `{type} {token}`.
pub fn authorization(token: &Token) -> (r: String)
    ensures
        r@ == authorization_of(token),
{
    let mut s = token.token_type.clone();
    s.append(" ");
    s.append(token.access_token.as_str());
    s
}

fn objects_path_exec(bucket: &[u8]) -> (r: Vec<u8>)
    ensures
        r@ == objects_path(bucket@),
{
    let mut out: Vec<u8> = Vec::new();
    append_bytes(&mut out, "/storage/v1/b/".as_bytes());
    append_bytes(&mut out, encode(bucket).as_slice());
    append_bytes(&mut out, "/o".as_bytes());
    assert(out@ =~= objects_path(bucket@));
    out
}

fn upload_path_exec(bucket: &[u8], name: &[u8]) -> (r: Vec<u8>)
    ensures
        r@ == upload_path(bucket@, name@),
{
    let mut out: Vec<u8> = Vec::new();
    append_bytes(&mut out, "/upload/storage/v1/b/".as_bytes());
    append_bytes(&mut out, encode(bucket).as_slice());
    append_bytes(&mut out, "/o?uploadType=media&name=".as_bytes());
    append_bytes(&mut out, encode(name).as_slice());
    assert(out@ =~= upload_path(bucket@, name@));
    out
}

/// The path of one object; `InvalidPath` when the path leaves the bucket.
fn object_path_exec(bucket: &[u8], path: &[u8]) -> (r: Result<Vec<u8>, Error>)
    ensures
        match r {
            Ok(v) => !invalid_path(path@) && v@ == object_path(bucket@, path@),
            Err(e) => invalid_path(path@) && e == Error::InvalidPath,
        },
{
    let name = match checked_name(path) {
        Ok(n) => n,
        Err(e) => return Err(e),
    };
    let mut out = objects_path_exec(bucket);
    out.push(SLASH);
    append_bytes(&mut out, encode(name.as_slice()).as_slice());
    assert(out@ =~= object_path(bucket@, path@));
    Ok(out)
}

/// What a build of `r` means: `InvalidPath` exactly when the path is
/// `refused`, and otherwise the request of method `m`, to `target`,
/// carrying the token.
pub open spec fn request_is(
    r: Result<Request, Error>,
    refused: bool,
    token: &Token,
    m: Method,
    target: Seq<u8>,
    upload: bool,
    payload: Payload,
) -> bool {
    match r {
        Ok(q) => {
            &&& !refused
            &&& q.method == m
            &&& q.path_and_query@ == target
            &&& q.authorization@ == authorization_of(token)
            &&& q.payload == payload
            &&& if upload {
                q.content_type matches Some(c) && c@ == "application/octet-stream"@
            } else {
                q.content_type is None
            }
        },
        Err(e) => refused && e == Error::InvalidPath,
    }
}

/// `GET /storage/v1/b/{bucket}/o/{key}`: an object's metadata.
pub fn stat_request(bucket: &[u8], path: &[u8], token: &Token) -> (r: Result<Request, Error>)
    ensures
        request_is(
            r,
            invalid_path(path@), token, Method::Get, object_path(bucket@, path@), false, Payload::Empty),
{
    match object_path_exec(bucket, path) {
        Ok(p) => {
            Ok(
                Request {
                    method: Method::Get,
                    path_and_query: p,
                    authorization: authorization(token),
                    content_type: None,
                    payload: Payload::Empty,
                },
            )
        },
        Err(e) => Err(e),
    }
}

/// `GET /storage/v1/b/{bucket}/o/{key}?alt=media`: an object's bytes.
pub fn get_request(bucket: &[u8], path: &[u8], token: &Token) -> (r: Result<Request, Error>)
    ensures
        request_is(
            r,
            invalid_path(path@),
            token,
            Method::Get,
            object_path(bucket@, path@) + text("?alt=media"),
            false,
            Payload::Empty,
        ),
{
    match object_path_exec(bucket, path) {
        Ok(mut p) => {
            append_bytes(&mut p, "?alt=media".as_bytes());
            Ok(
            Request {
                method: Method::Get,
                path_and_query: p,
                authorization: authorization(token),
                content_type: None,
                payload: Payload::Empty,
            },
        )},
        Err(e) => Err(e),
    }
}

/// `DELETE /storage/v1/b/{bucket}/o/{key}`: removes an object.
pub fn delete_request(bucket: &[u8], path: &[u8], token: &Token) -> (r: Result<Request, Error>)
    ensures
        request_is(
            r,
            invalid_path(path@),
            token,
            Method::Delete,
            object_path(bucket@, path@),
            false,
            Payload::Empty,
        ),
{
    match object_path_exec(bucket, path) {
        Ok(p) => {
            Ok(
                Request {
                    method: Method::Delete,
                    path_and_query: p,
                    authorization: authorization(token),
                    content_type: None,
                    payload: Payload::Empty,
                },
            )
        },
        Err(e) => Err(e),
    }
}

/// `GET /storage/v1/b/{bucket}/o?delimiter=/&prefix={key}`: one level of a
/// directory.
pub fn list_request(bucket: &[u8], path: &[u8], token: &Token) -> (r: Result<Request, Error>)
    ensures
        request_is(
            r,
            invalid_path(path@),
            token,
            Method::Get,
            objects_path(bucket@) + text("?delimiter=/&prefix=") + key_of(path@),
            false,
            Payload::Empty,
        ),
{
    let name = match checked_name(path) {
        Ok(n) => n,
        Err(e) => return Err(e),
    };
    let mut out = objects_path_exec(bucket);
    append_bytes(&mut out, "?delimiter=/&prefix=".as_bytes());
    append_bytes(&mut out, encode(name.as_slice()).as_slice());
    Ok(
        Request {
            method: Method::Get,
            path_and_query: out,
            authorization: authorization(token),
            content_type: None,
            payload: Payload::Empty,
        },
    )
}

/// `POST /upload/storage/v1/b/{bucket}/o?uploadType=media&name={name}`:
/// uploads the caller's bytes as an object. Trailing separators are dropped
/// from the name.
pub fn put_request(bucket: &[u8], path: &[u8], token: &Token) -> (r: Result<Request, Error>)
    ensures
        request_is(
            r,
            invalid_upload_path(path@),
            token,
            Method::Post,
            upload_path(bucket@, upload_name(path@)),
            true,
            Payload::Upload,
        ),
{
    let name = match checked_upload_name(path) {
        Ok(n) => n,
        Err(e) => return Err(e),
    };
    Ok(
        Request {
            method: Method::Post,
            path_and_query: upload_path_exec(bucket, name.as_slice()),
            authorization: authorization(token),
            content_type: Some(octet_stream()),
            payload: Payload::Upload,
        },
    )
}

/// `POST /upload/storage/v1/b/{bucket}/o?uploadType=media&name={name}/` with
/// an empty body: creates the directory marker of a path.
pub fn mkd_request(bucket: &[u8], path: &[u8], token: &Token) -> (r: Result<Request, Error>)
    ensures
        request_is(
            r,
            invalid_upload_path(path@),
            token,
            Method::Post,
            upload_path(bucket@, marker_name(path@)),
            true,
            Payload::Empty,
        ),
{
    let mut name = match checked_upload_name(path) {
        Ok(n) => n,
        Err(e) => return Err(e),
    };
    name.push(SLASH);
    Ok(
        Request {
            method: Method::Post,
            path_and_query: upload_path_exec(bucket, name.as_slice()),
            authorization: authorization(token),
            content_type: Some(octet_stream()),
            payload: Payload::Empty,
        },
    )
}

/// `POST /storage/v1/b/{bucket}/o/{from}/copyTo/b/{bucket}/o/{to}`: copies
/// an object to a new name within the bucket.
pub fn copy_request(bucket: &[u8], from: &[u8], to: &[u8], token: &Token) -> (r: Result<
    Request,
    Error,
>)
    ensures
        match r {
            Ok(q) => {
                &&& !invalid_path(from@)
                &&& !invalid_path(to@)
                &&& q.method == Method::Post
                &&& q.path_and_query@ == object_path(bucket@, from@) + text("/copyTo/b/")
                    + encoded(bucket@) + text("/o/") + key_of(to@)
                &&& q.authorization@ == authorization_of(token)
                &&& q.content_type is None
                &&& q.payload == Payload::Empty
            },
            Err(e) => (invalid_path(from@) || invalid_path(to@)) && e == Error::InvalidPath,
        },
{
    let mut out = match object_path_exec(bucket, from) {
        Ok(p) => p,
        Err(e) => return Err(e),
    };
    append_bytes(&mut out, "/copyTo/b/".as_bytes());
    let target = match checked_name(to) {
        Ok(n) => n,
        Err(e) => return Err(e),
    };
    append_bytes(&mut out, encode(bucket).as_slice());
    append_bytes(&mut out, "/o/".as_bytes());
    append_bytes(&mut out, encode(target.as_slice()).as_slice());
    Ok(
        Request {
            method: Method::Post,
            path_and_query: out,
            authorization: authorization(token),
            content_type: None,
            payload: Payload::Empty,
        },
    )
}

} // verus!
