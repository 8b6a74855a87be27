//! The decision core of a transparent mesh sidecar proxy.
//!
//! Every connection the proxy accepts passes through a fixed pipeline: the
//! port policy picks a handling stack, TLS is terminated or initiated, HTTP is
//! served with graceful shutdown, and routing profiles are resolved through a
//! shared discovery cache. This crate holds the rules of that pipeline as
//! verified functions on plain values; sockets, timers and RPC streams are
//! driven by the embedding program, which feeds events in and carries the
//! returned actions out.
//!
//! - [`accept_ports`]: the handling of a connection, by its port.
//! - [`tls`]: the identity of a peer, and whether to use TLS towards one.
//! - [`http`]: the HTTP server of a connection and its graceful shutdown.
//! - [`profiles`]: the discovery cache and the lookups in front of a stack.
//! - [`inbound`], [`deploy`], [`harness`]: what the proxy's tests are built
//!   from.
//! - [`conditional`], [`dns`], [`labels`], [`text`], [`time`]: the values
//!   that the others share.

pub mod accept_ports;
pub mod conditional;
pub mod deploy;
pub mod dns;
pub mod harness;
pub mod http;
pub mod inbound;
pub mod labels;
pub mod profiles;
pub mod text;
pub mod time;
pub mod tls;
