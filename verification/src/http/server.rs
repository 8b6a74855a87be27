//! The HTTP server of one connection: how the engine is configured, and how
//! serving ends.
//!
//! A connection is served until it completes by itself. Two signals can ask
//! for an earlier end: the drain signal of the process and the close signal
//! of the inner stack. Neither cuts the connection: each starts a graceful
//! shutdown, after which the connection is still driven until it completes.

use crate::http::h2::Settings;
use crate::http::Version;
use crate::time::Duration;
use vstd::prelude::*;

verus! {

/// The largest read buffer of a connection, in bytes.
pub const MAX_BUF_SIZE: usize = 16384;

/// The number of keep-alive probes that fit into one keep-alive timeout.
pub const KEEPALIVES_PER_TIMEOUT: u32 = 4;

/// HTTP/2 keep-alive probing: a probe is sent whenever the connection has
/// been idle for `interval`, and a peer that does not answer within `timeout`
/// is presumed dead.
#[derive(Clone, Copy, Debug, PartialEq, Eq)]
pub struct KeepAlive {
    pub timeout: Duration,
    pub interval: Duration,
}

/// The settings of the HTTP engine, shared by all connections of a server.
#[derive(Clone, Copy, Debug, PartialEq, Eq)]
pub struct Server {
    pub max_buf_size: usize,
    pub http2_initial_stream_window_size: Option<u32>,
    pub http2_initial_connection_window_size: Option<u32>,
    pub http2_keep_alive: Option<KeepAlive>,
}

/// Builds the server of each connection from the target's HTTP version.
#[derive(Clone, Copy, Debug, PartialEq, Eq)]
pub struct NewServeHttp {
    server: Server,
}

/// The server of one connection.
#[derive(Clone, Copy, Debug, PartialEq, Eq)]
pub struct ServeHttp {
    version: Version,
    server: Server,
}

/// How the engine serves one connection.
#[derive(Clone, Copy, Debug, PartialEq, Eq)]
pub struct Serve<A> {
    /// The address of the client, which the inner stack is told about.
    pub client_addr: A,
    /// The engine's settings.
    pub server: Server,
    /// Only HTTP/1 is spoken.
    pub http1_only: bool,
    /// Only HTTP/2 is spoken.
    pub http2_only: bool,
    /// Protocol upgrades (CONNECT, WebSocket) are passed through.
    pub upgrades: bool,
}

/// The keep-alive probing that a keep-alive timeout asks for.
pub open spec fn keep_alive_of(timeout: Option<Duration>) -> Option<(nat, nat)> {
    match timeout {
        Some(timeout) => Some((timeout@, timeout@ / 4)),
        None => None,
    }
}

/// The timeout and the interval of keep-alive probing, in nanoseconds.
pub open spec fn keep_alive_nanos(keep_alive: Option<KeepAlive>) -> Option<(nat, nat)> {
    match keep_alive {
        Some(k) => Some((k.timeout@, k.interval@)),
        None => None,
    }
}

impl NewServeHttp {
    /// The layer that serves HTTP with the given HTTP/2 settings.
    pub fn layer(h2: Settings) -> (new_serve: NewServeHttp)
        ensures
            new_serve.server().max_buf_size == MAX_BUF_SIZE,
            new_serve.server().http2_initial_stream_window_size == h2.initial_stream_window_size,
            new_serve.server().http2_initial_connection_window_size
                == h2.initial_connection_window_size,
            keep_alive_nanos(new_serve.server().http2_keep_alive) == keep_alive_of(
                h2.keepalive_timeout,
            ),
    {
        Self::new(h2)
    }

    /// Configures the engine. The window sizes are taken over. With a
    /// keep-alive timeout, probes are sent at a quarter of it, so that
    /// several go out within one timeout before the peer is given up.
    fn new(h2: Settings) -> (new_serve: NewServeHttp)
        ensures
            new_serve.server().max_buf_size == MAX_BUF_SIZE,
            new_serve.server().http2_initial_stream_window_size == h2.initial_stream_window_size,
            new_serve.server().http2_initial_connection_window_size
                == h2.initial_connection_window_size,
            keep_alive_nanos(new_serve.server().http2_keep_alive) == keep_alive_of(
                h2.keepalive_timeout,
            ),
    {
        let http2_keep_alive = match h2.keepalive_timeout {
            Some(timeout) => match timeout.checked_div(KEEPALIVES_PER_TIMEOUT) {
                Some(interval) => Some(KeepAlive { timeout, interval }),
                None => None,
            },
            None => None,
        };
        NewServeHttp {
            server: Server {
                max_buf_size: MAX_BUF_SIZE,
                http2_initial_stream_window_size: h2.initial_stream_window_size,
                http2_initial_connection_window_size: h2.initial_connection_window_size,
                http2_keep_alive,
            },
        }
    }

    /// The engine's settings.
    pub closed spec fn server(&self) -> Server {
        self.server
    }

    /// The server for a target with the given HTTP version. It shares the
    /// engine's settings.
    pub fn new_service(&self, version: Version) -> (serve: ServeHttp)
        ensures
            serve.version() == version,
            serve.server() == self.server(),
    {
        ServeHttp { version, server: self.server }
    }
}

impl ServeHttp {
    /// The HTTP version that connections are served with.
    pub closed spec fn version(&self) -> Version {
        self.version
    }

    /// The engine's settings.
    pub closed spec fn server(&self) -> Server {
        self.server
    }

    /// Always ready to take a connection.
    pub fn poll_ready(&self) -> (ready: bool)
        ensures
            ready,
    {
        true
    }

    /// Takes a connection. A connection whose client address cannot be
    /// determined is not served: the error is returned. Any other is served
    /// with the version of this server: HTTP/1 with upgrades, or HTTP/2
    /// without.
    pub fn call<A, E>(&self, peer_addr: Result<A, E>) -> (r: Result<Serve<A>, E>)
        ensures
            r == match peer_addr {
                Ok(client_addr) => Ok(
                    (Serve {
                        client_addr,
                        server: self.server(),
                        http1_only: self.version() == Version::Http1,
                        http2_only: self.version() == Version::H2,
                        upgrades: self.version() == Version::Http1,
                    }),
                ),
                Err(e) => Err(e),
            },
    {
        let client_addr = match peer_addr {
            Ok(client_addr) => client_addr,
            Err(e) => {
                return Err(e);
            },
        };
        match self.version {
            Version::Http1 => Ok(
                Serve {
                    client_addr,
                    server: self.server,
                    http1_only: true,
                    http2_only: false,
                    upgrades: true,
                },
            ),
            Version::H2 => Ok(
                Serve {
                    client_addr,
                    server: self.server,
                    http1_only: false,
                    http2_only: true,
                    upgrades: false,
                },
            ),
        }
    }
}

/// Which signal started the shutdown of a connection.
#[derive(Clone, Copy, Debug, PartialEq, Eq, Hash, Structural)]
pub enum Cause {
    /// The process is shutting down.
    Drain,
    /// The inner stack closed.
    StackClosed,
}

/// The state of a served connection.
#[derive(Clone, Copy, Debug, PartialEq, Eq, Hash, Structural)]
pub enum Connection {
    /// Requests are accepted and served.
    Serving,
    /// No new requests are accepted; requests in flight are finished.
    Draining(Cause),
    /// The connection has completed and its task has returned.
    Closed,
}

/// What can happen to a served connection. `R` is what the engine reports
/// when a connection completes.
#[derive(Clone, Copy, Debug, PartialEq, Eq)]
pub enum Event<R> {
    /// The connection completed with the given report: the client closed it,
    /// the protocol was violated, or the last response was sent.
    Completed(R),
    /// The drain signal of the process fired.
    DrainSignaled,
    /// The inner stack signaled that it closed.
    StackClosed,
}

/// What the task of a connection does in answer to an event.
#[derive(Clone, Copy, Debug, PartialEq, Eq)]
pub enum Action<R> {
    /// Nothing: the event changes nothing.
    Ignore,
    /// Start a graceful shutdown of the connection and go on driving it.
    GracefulShutdown,
    /// Return with the connection's own report. With `release_drain`, the
    /// process is told first that this connection has drained.
    Return { result: R, release_drain: bool },
}

/// The transition that an event causes, and the action that goes with it.
pub open spec fn step<R>(state: Connection, event: Event<R>) -> (Connection, Action<R>) {
    match state {
        Connection::Serving => match event {
            Event::Completed(result) => (
                Connection::Closed,
                Action::Return { result, release_drain: false },
            ),
            Event::DrainSignaled => (Connection::Draining(Cause::Drain), Action::GracefulShutdown),
            Event::StackClosed => (
                Connection::Draining(Cause::StackClosed),
                Action::GracefulShutdown,
            ),
        },
        Connection::Draining(cause) => match event {
            Event::Completed(result) => (
                Connection::Closed,
                Action::Return { result, release_drain: cause == Cause::Drain },
            ),
            _ => (Connection::Draining(cause), Action::Ignore),
        },
        Connection::Closed => (Connection::Closed, Action::Ignore),
    }
}

/// The state of a connection that started in `state` and saw `events`.
pub open spec fn run<R>(state: Connection, events: Seq<Event<R>>) -> Connection
    decreases events.len(),
{
    if events.len() == 0 {
        state
    } else {
        step(run(state, events.drop_last()), events.last()).0
    }
}

/// The action that a fresh connection takes on the event at `index`, after
/// it saw the events before it.
pub open spec fn action_at<R>(events: Seq<Event<R>>, index: int) -> Action<R> {
    step(run(Connection::Serving, events.take(index)), events[index]).1
}

/// Whether none of the first `count` events is a completion.
pub open spec fn uncompleted<R>(events: Seq<Event<R>>, count: int) -> bool {
    forall|j: int| 0 <= j < count ==> !(#[trigger] events[j] is Completed)
}

/// The shutdown cause that a signal stands for.
pub open spec fn cause_of<R>(event: Event<R>) -> Cause {
    if event is DrainSignaled {
        Cause::Drain
    } else {
        Cause::StackClosed
    }
}

impl<A> Serve<A> {
    /// The state in which serving starts.
    pub fn start(&self) -> (state: Connection)
        ensures
            state == Connection::Serving,
    {
        Connection::Serving
    }
}

impl Connection {
    /// Takes an event: moves to the next state and says what to do.
    pub fn on_event<R>(&mut self, event: Event<R>) -> (action: Action<R>)
        ensures
            (*final(self), action) == step(*old(self), event),
    {
        match *self {
            Connection::Serving => match event {
                Event::Completed(result) => {
                    *self = Connection::Closed;
                    Action::Return { result, release_drain: false }
                },
                Event::DrainSignaled => {
                    *self = Connection::Draining(Cause::Drain);
                    Action::GracefulShutdown
                },
                Event::StackClosed => {
                    *self = Connection::Draining(Cause::StackClosed);
                    Action::GracefulShutdown
                },
            },
            Connection::Draining(cause) => match event {
                Event::Completed(result) => {
                    *self = Connection::Closed;
                    let release_drain = match cause {
                        Cause::Drain => true,
                        Cause::StackClosed => false,
                    };
                    Action::Return { result, release_drain }
                },
                _ => Action::Ignore,
            },
            Connection::Closed => Action::Ignore,
        }
    }

    /// Whether new requests are accepted in this state.
    pub fn accepts_requests(&self) -> (b: bool)
        ensures
            b == (*self == Connection::Serving),
    {
        match self {
            Connection::Serving => true,
            _ => false,
        }
    }
}

/// As long as a connection has not completed, it is not closed: it is
/// serving until the first signal arrives, and from then on it drains for
/// the cause of that signal, whatever signals follow.
pub proof fn open_until_completed<R>(events: Seq<Event<R>>, count: int)
    requires
        0 <= count <= events.len(),
        uncompleted(events, count),
    ensures
        run(Connection::Serving, events.take(count)) == if count == 0 {
            Connection::Serving
        } else {
            Connection::Draining(cause_of(events[0]))
        },
    decreases count,
{
    if count > 0 {
        open_until_completed(events, count - 1);
        assert(events.take(count).drop_last() == events.take(count - 1));
        assert(events.take(count).last() == events[count - 1]);
        assert(!(events[count - 1] is Completed));
    }
}

/// Once a connection has completed, it stays closed.
pub proof fn closed_after_completion<R>(events: Seq<Event<R>>, first: int, count: int)
    requires
        0 <= first < count <= events.len(),
        events[first] is Completed,
    ensures
        run(Connection::Serving, events.take(count)) == Connection::Closed,
    decreases count,
{
    assert(events.take(count).drop_last() == events.take(count - 1));
    assert(events.take(count).last() == events[count - 1]);
    if first < count - 1 {
        closed_after_completion(events, first, count - 1);
    }
}

/// The task of a connection returns only when the connection completes, and
/// then with the connection's own report. A signal never makes it return: a
/// drain signal that arrives while requests are in flight starts a graceful
/// shutdown, and the task goes on until the engine reports completion.
pub proof fn returns_only_on_completion<R>(events: Seq<Event<R>>, index: int)
    requires
        0 <= index < events.len(),
    ensures
        action_at(events, index) is Return <==> events[index] is Completed && uncompleted(
            events,
            index,
        ),
        action_at(events, index) matches Action::Return { result, release_drain } ==> {
            &&& events[index] == Event::Completed(result)
            &&& release_drain == (index > 0 && events[0] is DrainSignaled)
        },
{
    if uncompleted(events, index) {
        open_until_completed(events, index);
    } else {
        let first = choose|j: int| 0 <= j < index && (#[trigger] events[j] is Completed);
        closed_after_completion(events, first, index);
    }
}

/// A graceful shutdown is started exactly once: at the first signal, if the
/// connection has not completed before it.
pub proof fn shutdown_starts_at_first_signal<R>(events: Seq<Event<R>>, index: int)
    requires
        0 <= index < events.len(),
    ensures
        action_at(events, index) is GracefulShutdown <==> index == 0 && !(events[0] is Completed),
{
    if uncompleted(events, index) {
        open_until_completed(events, index);
    } else {
        let first = choose|j: int| 0 <= j < index && (#[trigger] events[j] is Completed);
        closed_after_completion(events, first, index);
    }
}

} // verus!
