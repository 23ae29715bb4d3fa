//! Errors that the library reports about resources and links.

use vstd::prelude::*;
use crate::json::DecodeError;

verus! {

/// The kind of resource that a link or an operation expected.
#[derive(Debug, Clone, Copy, PartialEq, Eq, Structural)]
pub enum ExpectedType {
    Build,
    Job,
    MavenArtifactRecord,
    QueueItem,
    View,
}

/// A link or an operation that does not fit the resource it was used on.
#[derive(Debug, Clone)]
pub enum ClientError {
    /// The URL does not address the expected kind of resource.
    InvalidUrl { url: String, expected: ExpectedType },
    /// A field was read from a resource whose class is not known; carries the
    /// field's name and the resource's class, if it had one.
    InvalidObjectType {
        object_type: ExpectedType,
        field: String,
        variant_name: Option<String>,
    },
}

/// What can go wrong when a resource is fetched or an action is sent.
#[derive(Debug)]
pub enum FetchError<E> {
    /// The link or the resource does not fit the request; nothing was sent.
    Client(ClientError),
    /// The transport failed; its error is passed on unchanged.
    Transport(E),
    /// The server's answer does not decode as the resource.
    Decode(DecodeError),
}

} // verus!
