//! A small HTTP/1.1 server core: request parsing, routing and response
//! framing, with the socket and file-system work left to the caller.
use vstd::prelude::*;

pub mod bytes;
pub mod response;
pub mod request;
pub mod router;
pub mod laws;

verus! {

} // verus!
