//! A small development HTTP server core: request-line parsing, traversal
//! rejection, candidate selection, containment checking and response
//! building, all verified. The surrounding binary performs the socket and
//! file I/O and drives the state machine in `machine`.

use vstd::prelude::*;

pub mod bytes;
pub mod candidates;
pub mod config;
pub mod content_types;
pub mod machine;
pub mod request;
pub mod resolve;
pub mod respond;

verus! {

/// Marker for a return that never happens: the serving loop runs until the
/// process dies, so nothing in this crate ever produces a value of this
/// type.
pub enum Never {
    Unreachable,
}

} // verus!
