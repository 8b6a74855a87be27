//! Service profiles: the routing metadata of a destination, looked up
//! through a discovery service and shared by everything that targets the
//! destination.

use crate::dns::Name;
use crate::text::{decimal, push_decimal};
use vstd::prelude::*;
use vstd::string::*;

pub mod cache;
pub mod client;
pub mod discover;

verus! {

/// The key of a lookup as a value: the text of the name, and the port.
pub type Key = (Seq<char>, u16);

/// The address that a profile is looked up for. It is the key of the cache
/// and the payload of the discovery request.
///
/// The view of an address is its name in normalized form and its port: two
/// addresses with the same view are the same key.
#[derive(Clone, Debug, PartialEq, Eq, Hash)]
pub struct LookupAddr {
    name: Name,
    port: u16,
}

impl View for LookupAddr {
    type V = Key;

    closed spec fn view(&self) -> Key {
        (self.name@, self.port)
    }
}

/// An address as the text `name:port`.
pub open spec fn path_of(key: Key) -> Seq<char> {
    key.0.push(':') + decimal(key.1 as nat)
}

impl LookupAddr {
    /// The address of a port of a named destination.
    pub fn new(name: Name, port: u16) -> (addr: LookupAddr)
        ensures
            addr@ == (name@, port),
    {
        LookupAddr { name, port }
    }

    /// The name of the destination.
    pub fn name(&self) -> (name: &Name)
        ensures
            name@ == self@.0,
    {
        &self.name
    }

    /// The port of the destination.
    pub fn port(&self) -> (port: u16)
        ensures
            port == self@.1,
    {
        self.port
    }

    /// Whether two addresses are the same key.
    pub fn same(&self, other: &LookupAddr) -> (b: bool)
        ensures
            b == (self@ == other@),
    {
        self.port == other.port && self.name.same(&other.name)
    }

    /// A copy of this address.
    pub fn duplicate(&self) -> (addr: LookupAddr)
        ensures
            addr@ == self@,
    {
        LookupAddr { name: self.name.duplicate(), port: self.port }
    }

    /// The address as the text `name:port`, which is how a discovery request
    /// names its destination.
    pub fn to_path(&self) -> (path: String)
        ensures
            path@ == path_of(self@),
    {
        let mut path = String::from_str(self.name.as_str());
        proof {
            reveal_strlit(":");
        }
        path.append(":");
        push_decimal(&mut path, self.port as u64);
        assert(path@ =~= path_of(self@));
        path
    }
}

} // verus!
