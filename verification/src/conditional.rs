//! A value that is either present or absent for a stated reason.

use vstd::prelude::*;

verus! {

/// Like `Option`, but the absent case carries the reason for the absence.
#[derive(Clone, Copy, Debug, PartialEq, Eq, Hash)]
pub enum Conditional<C, R> {
    /// The value is there.
    Present(C),
    /// The value is not there, for the reason given.
    Absent(R),
}

impl<C, R> Conditional<C, R> {
    /// The value, if present.
    pub fn value(&self) -> (v: Option<&C>)
        ensures
            v == match *self {
                Conditional::Present(c) => Some(&c),
                Conditional::Absent(_) => None,
            },
    {
        match self {
            Conditional::Present(c) => Some(c),
            Conditional::Absent(_) => None,
        }
    }

    /// The reason for the absence, if absent.
    pub fn reason(&self) -> (r: Option<&R>)
        ensures
            r == match *self {
                Conditional::Present(_) => None,
                Conditional::Absent(r) => Some(&r),
            },
    {
        match self {
            Conditional::Present(_) => None,
            Conditional::Absent(r) => Some(r),
        }
    }
}

} // verus!
