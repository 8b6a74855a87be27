//! Discovery in front of a stack: a target that names a destination gets its
//! profile looked up before the inner service is built for it.

use crate::profiles::LookupAddr;
use vstd::prelude::*;

verus! {

/// Builds services for targets, with the profile of each target's
/// destination. `N` is the inner stack, which builds a service from a
/// profile, if there is one, and a target.
#[derive(Clone, Debug)]
pub struct NewDiscover<N> {
    inner: N,
}

/// A service that is built once the profile of its target is resolved.
#[derive(Debug)]
pub struct MakeFuture<T> {
    lookup: LookupAddr,
    target: T,
}

/// What the inner stack builds a service from. `R` is the receiver of a
/// profile.
#[derive(Debug)]
pub struct Make<'a, N, T, R> {
    /// The inner stack.
    pub new_service: &'a N,
    /// The profile of the target's destination, if it has one.
    pub profile: Option<R>,
    /// The target.
    pub target: T,
}

/// The two ways in which a service comes to be.
#[derive(Debug)]
pub enum Either<A, B> {
    /// Later, when discovery has resolved.
    A(A),
    /// At once.
    B(B),
}

impl<N> NewDiscover<N> {
    /// Puts discovery in front of the inner stack.
    pub fn layer(inner: N) -> (new_discover: NewDiscover<N>)
        ensures
            new_discover.inner() == inner,
    {
        NewDiscover { inner }
    }

    /// The inner stack.
    pub closed spec fn inner(&self) -> N {
        self.inner
    }

    /// Prepares the service of a target. `lookup` is the address under which
    /// the target's profile is looked up, if it has one.
    ///
    /// Without an address, nothing is looked up: the inner service is to be
    /// built at once, with no profile. With an address, the service is
    /// deferred until the lookup of that address has resolved.
    pub fn new_service<T, R>(&self, lookup: Option<LookupAddr>, target: T) -> (service: Either<
        MakeFuture<T>,
        Make<'_, N, T, R>,
    >)
        ensures
            match lookup {
                Some(addr) => {
                    &&& service matches Either::A(future)
                    &&& future.lookup() == addr
                    &&& future.target() == target
                },
                None => {
                    &&& service matches Either::B(make)
                    &&& make.profile is None
                    &&& make.target == target
                    &&& *make.new_service == self.inner()
                },
            },
    {
        match lookup {
            Some(lookup) => Either::A(MakeFuture { lookup, target }),
            None => Either::B(Make { new_service: &self.inner, profile: None, target }),
        }
    }

    /// Completes a deferred service with what the lookup of its address
    /// resolved to. The service is built from the profile that was found,
    /// which may be none, and the target. An error of the lookup is passed
    /// on, and no service is built.
    pub fn make<T, R, E>(&self, future: MakeFuture<T>, resolved: Result<Option<R>, E>) -> (made:
        Result<Make<'_, N, T, R>, E>)
        ensures
            match resolved {
                Ok(profile) => {
                    &&& made matches Ok(make)
                    &&& make.profile == profile
                    &&& make.target == future.target()
                    &&& *make.new_service == self.inner()
                },
                Err(e) => made matches Err(error) && error == e,
            },
    {
        match resolved {
            Ok(profile) => Ok(Make { new_service: &self.inner, profile, target: future.target }),
            Err(e) => Err(e),
        }
    }
}

impl<T> MakeFuture<T> {
    /// The address that is looked up.
    pub closed spec fn lookup(&self) -> LookupAddr {
        self.lookup
    }

    /// The target that the service is for.
    pub closed spec fn target(&self) -> T {
        self.target
    }

    /// The address to look up in the discovery cache.
    pub fn addr(&self) -> (addr: &LookupAddr)
        ensures
            *addr == self.lookup(),
    {
        &self.lookup
    }
}

} // verus!
