//! Serving HTTP on an established connection.

use vstd::prelude::*;

pub mod h2;
pub mod server;

verus! {

/// The HTTP protocol version that a connection is served with. It is chosen
/// before serving starts and is not negotiated by the server.
#[derive(Clone, Copy, Debug, PartialEq, Eq, Hash, Structural)]
pub enum Version {
    Http1,
    H2,
}

} // verus!
