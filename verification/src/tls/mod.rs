//! Mutual TLS between proxies: who the peer is, and which application
//! protocol was agreed on.

use crate::text::{push_shown, shown};
use vstd::prelude::*;
use vstd::slice::slice_to_vec;

pub mod client;
pub mod server;

verus! {

/// The application protocol that a TLS handshake settled on.
#[derive(Clone, Debug, PartialEq, Eq, Hash)]
pub struct NegotiatedProtocol(pub Vec<u8>);

/// A borrowed [`NegotiatedProtocol`].
#[derive(Clone, Copy, Debug, PartialEq, Eq, Hash)]
pub struct NegotiatedProtocolRef<'t>(pub &'t [u8]);

impl NegotiatedProtocol {
    /// Borrows the protocol name.
    pub fn as_ref(&self) -> (r: NegotiatedProtocolRef<'_>)
        ensures
            r.0@ == self.0@,
    {
        NegotiatedProtocolRef(self.0.as_slice())
    }
}

impl<'t> NegotiatedProtocolRef<'t> {
    /// Copies the protocol name into an owned value.
    pub fn to_owned(self) -> (r: NegotiatedProtocol)
        ensures
            r.0@ == self.0@,
    {
        NegotiatedProtocol(slice_to_vec(self.0))
    }

    /// The protocol name as it is reported: as quoted text where it is valid
    /// UTF-8, and as a list of numbers where it is not.
    pub fn describe(&self) -> (text: String)
        ensures
            text@ == shown(self.0@),
    {
        let mut text = String::new();
        push_shown(&mut text, self.0);
        assert(text@ =~= shown(self.0@));
        text
    }
}

impl NegotiatedProtocol {
    /// The protocol name as it is reported, which is how its borrowed form
    /// is reported.
    pub fn describe(&self) -> (text: String)
        ensures
            text@ == shown(self.0@),
    {
        self.as_ref().describe()
    }
}

/// The protocol that a finished handshake reports, as an owned value: the
/// same bytes when one was negotiated, nothing otherwise.
pub fn negotiated(alpn: Option<&[u8]>) -> (r: Option<NegotiatedProtocol>)
    ensures
        match alpn {
            Some(bytes) => r matches Some(p) && p.0@ == bytes@,
            None => r is None,
        },
{
    match alpn {
        Some(bytes) => Some(NegotiatedProtocolRef(bytes).to_owned()),
        None => None,
    }
}

} // verus!
