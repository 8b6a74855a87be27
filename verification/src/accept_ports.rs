//! The port policy: how a connection is handled, by the port that it was
//! originally addressed to.

use crate::time::Duration;
use std::collections::HashMap;
use vstd::prelude::*;
use vstd::std_specs::hash::*;

verus! {

broadcast use vstd::std_specs::hash::group_hash_axioms;

/// How connections to a port are handled.
#[derive(Clone, Copy, Debug, PartialEq, Eq)]
pub enum PortPolicy {
    /// The protocol is detected first, within the given time.
    Detect { timeout: Duration },
    /// The connection is forwarded as opaque TCP, without detection.
    Opaque,
    /// The connection is refused.
    Reject,
}

/// The error of a connection that the policy refuses.
#[derive(Clone, Copy, Debug, PartialEq, Eq)]
pub struct Rejected(());

/// The error of a connection whose protocol was not detected in time.
#[derive(Clone, Copy, Debug, PartialEq, Eq)]
pub struct DetectTimeout(pub Duration);

/// Selects the handling of each connection by its original destination port.
/// `D` is the stack behind protocol detection, `O` the stack for opaque
/// connections.
#[derive(Clone, Debug)]
pub struct NewAcceptPorts<D, O> {
    ports: HashMap<u16, PortPolicy>,
    default: PortPolicy,
    detect: D,
    opaque: O,
}

/// The handler of the connections to one port.
#[derive(Debug)]
#[allow(inconsistent_fields)]
pub enum Accept<'a, D, O> {
    /// Detect the protocol within `timeout`, then hand over to the stack.
    Detect { stack: &'a D, timeout: Duration },
    /// Hand over to the opaque stack at once.
    Opaque(&'a O),
    /// Fail every connection.
    Reject(Rejected),
}

/// A connection on its way to the stack that handles it.
#[derive(Debug)]
#[allow(inconsistent_fields)]
pub enum Handoff<'a, D, O, I> {
    /// To protocol detection, which may take `timeout`.
    Detect { stack: &'a D, timeout: Duration, io: I },
    /// To the opaque stack, unread.
    Opaque { stack: &'a O, io: I },
}

/// The outcome of protocol detection on a connection. `P` is what detection
/// finds out about a connection.
#[derive(Clone, Copy, Debug, PartialEq, Eq)]
pub enum Detection<P> {
    /// Detection finished in time.
    Detected(P),
    /// The time ran out first.
    TimedOut,
}

/// The mapping that a list of port policies stands for: each port has the
/// policy of its last entry in the list.
pub open spec fn collect(entries: Seq<(u16, PortPolicy)>) -> Map<u16, PortPolicy>
    decreases entries.len(),
{
    if entries.len() == 0 {
        Map::empty()
    } else {
        collect(entries.drop_last()).insert(entries.last().0, entries.last().1)
    }
}

/// The policy that applies to a port: the one that the mapping has for it,
/// and the default for every port that the mapping does not hold.
pub open spec fn policy_of(
    ports: Map<u16, PortPolicy>,
    default: PortPolicy,
    port: u16,
) -> PortPolicy {
    if ports.contains_key(port) {
        ports[port]
    } else {
        default
    }
}

impl Rejected {
    /// What the error says.
    pub fn message(&self) -> (text: &'static str)
        ensures
            text@ == "connection rejected by policy"@,
    {
        "connection rejected by policy"
    }
}

impl<D, O> NewAcceptPorts<D, O> {
    /// The configured mapping from port to policy.
    pub closed spec fn ports(&self) -> Map<u16, PortPolicy> {
        self.ports@
    }

    /// The policy of the ports that the mapping does not hold.
    pub closed spec fn default(&self) -> PortPolicy {
        self.default
    }

    /// The stack behind protocol detection.
    pub closed spec fn detect(&self) -> D {
        self.detect
    }

    /// The stack for opaque connections.
    pub closed spec fn opaque(&self) -> O {
        self.opaque
    }

    /// A dispatcher for the given port policies. Where a port is listed more
    /// than once, its last entry counts.
    pub fn new(ports: Vec<(u16, PortPolicy)>, default: PortPolicy, detect: D, opaque: O) -> (this:
        Self)
        ensures
            this.ports() == collect(ports@),
            this.default() == default,
            this.detect() == detect,
            this.opaque() == opaque,
    {
        let mut map: HashMap<u16, PortPolicy> = HashMap::new();
        let mut i: usize = 0;
        while i < ports.len()
            invariant
                i <= ports.len(),
                map@ == collect(ports@.take(i as int)),
            decreases ports.len() - i,
        {
            let (port, policy) = ports[i];
            map.insert(port, policy);
            proof {
                assert(ports@.take(i + 1).drop_last() == ports@.take(i as int));
                assert(ports@.take(i + 1).last() == ports@[i as int]);
            }
            i += 1;
        }
        proof {
            assert(ports@.take(i as int) == ports@);
        }
        NewAcceptPorts { ports: map, default, detect, opaque }
    }

    /// The policy that applies to connections to `port`.
    pub fn policy(&self, port: u16) -> (policy: PortPolicy)
        ensures
            policy == policy_of(self.ports(), self.default(), port),
            !self.ports().contains_key(port) ==> policy == self.default(),
    {
        match self.ports.get(&port) {
            Some(policy) => *policy,
            None => self.default,
        }
    }

    /// The handler for connections whose original destination is `port`. It
    /// follows the policy of the port, and nothing else: opaque connections
    /// go to the opaque stack, detection is bounded by the policy's timeout,
    /// and a rejected port gets a handler that fails every connection.
    pub fn new_service(&self, port: u16) -> (accept: Accept<'_, D, O>)
        ensures
            match policy_of(self.ports(), self.default(), port) {
                PortPolicy::Detect { timeout } => {
                    &&& accept matches Accept::Detect { stack, timeout: bound }
                    &&& *stack == self.detect()
                    &&& bound == timeout
                },
                PortPolicy::Opaque => accept matches Accept::Opaque(stack) && *stack
                    == self.opaque(),
                PortPolicy::Reject => accept is Reject,
            },
    {
        match self.policy(port) {
            PortPolicy::Detect { timeout } => Accept::Detect { stack: &self.detect, timeout },
            PortPolicy::Opaque => Accept::Opaque(&self.opaque),
            PortPolicy::Reject => Accept::Reject(Rejected(())),
        }
    }
}

impl<'a, D, O> Accept<'a, D, O> {
    /// Takes a connection. A rejecting handler fails it with the rejection
    /// error: the connection is dropped as it came, and nothing is read from
    /// the peer. The other handlers pass the connection on untouched.
    pub fn call<I>(&self, io: I) -> (r: Result<Handoff<'a, D, O, I>, Rejected>)
        ensures
            r == match *self {
                Accept::Detect { stack, timeout } => Ok(Handoff::Detect { stack, timeout, io }),
                Accept::Opaque(stack) => Ok(Handoff::Opaque { stack, io }),
                Accept::Reject(rejected) => Err(rejected),
            },
            *self is Reject ==> r is Err,
    {
        match self {
            Accept::Detect { stack, timeout } => Ok(
                Handoff::Detect { stack: *stack, timeout: *timeout, io },
            ),
            Accept::Opaque(stack) => Ok(Handoff::Opaque { stack: *stack, io }),
            Accept::Reject(rejected) => Err(*rejected),
        }
    }
}

/// Closes protocol detection. What was detected in time is passed on. When
/// the time ran out the connection fails with a timeout error: it is never
/// treated as opaque instead.
pub fn detected<P>(timeout: Duration, detection: Detection<P>) -> (r: Result<P, DetectTimeout>)
    ensures
        r == match detection {
            Detection::Detected(protocol) => Ok(protocol),
            Detection::TimedOut => Err(DetectTimeout(timeout)),
        },
{
    match detection {
        Detection::Detected(protocol) => Ok(protocol),
        Detection::TimedOut => Err(DetectTimeout(timeout)),
    }
}

/// A port that no entry of the list names is not in the mapping.
pub proof fn unlisted_port_is_unmapped(entries: Seq<(u16, PortPolicy)>, port: u16)
    requires
        forall|i: int| 0 <= i < entries.len() ==> (#[trigger] entries[i]).0 != port,
    ensures
        !collect(entries).contains_key(port),
    decreases entries.len(),
{
    if entries.len() > 0 {
        let init = entries.drop_last();
        assert forall|i: int| 0 <= i < init.len() implies (#[trigger] init[i]).0 != port by {
            assert(init[i] == entries[i]);
        }
        unlisted_port_is_unmapped(init, port);
        assert(entries[entries.len() - 1].0 != port);
    }
}

/// A port that the list names has the policy of its last entry.
pub proof fn last_entry_counts(entries: Seq<(u16, PortPolicy)>, index: int)
    requires
        0 <= index < entries.len(),
        forall|j: int| index < j < entries.len() ==> (#[trigger] entries[j]).0 != entries[index].0,
    ensures
        collect(entries).contains_key(entries[index].0),
        collect(entries)[entries[index].0] == entries[index].1,
    decreases entries.len(),
{
    if index < entries.len() - 1 {
        let init = entries.drop_last();
        assert(init[index] == entries[index]);
        assert forall|j: int| index < j < init.len() implies (#[trigger] init[j]).0
            != init[index].0 by {
            assert(init[j] == entries[j]);
        }
        last_entry_counts(init, index);
        assert(entries[entries.len() - 1].0 != entries[index].0);
    }
}

} // verus!
