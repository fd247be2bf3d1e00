use vstd::prelude::*;

verus! {

/// Errors surfaced by the storage backend. The host never needs to inspect
/// HTTP status codes or JSON shapes: every failure maps onto one of these.
#[derive(Clone, Copy, Debug, PartialEq, Eq, Structural)]
pub enum Error {
    /// The path is not valid text or leaves the bucket's namespace.
    InvalidPath,
    /// The bearer token was refused (401 or 403).
    AuthorizationError,
    /// No object exists under the key (404).
    NotFound,
    /// A directory still holds entries besides its own marker.
    NotEmpty,
    /// A transient failure of the store or the network (429, 5xx).
    Unavailable,
    /// Any other client error status: the request will not succeed as sent.
    RequestRejected,
    /// A successful response whose body is not a valid record.
    MetadataDecodeError,
    /// The operation has no implementation on this store.
    Unsupported,
}

} // verus!
