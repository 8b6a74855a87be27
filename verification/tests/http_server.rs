use sidecar_proxy::http::h2::Settings;
use sidecar_proxy::http::server::{
    Action, Cause, Connection, Event, KeepAlive, NewServeHttp, Serve, KEEPALIVES_PER_TIMEOUT,
    MAX_BUF_SIZE,
};
use sidecar_proxy::http::Version;
use sidecar_proxy::time::Duration;

type Report = Result<(), &'static str>;

fn serve(version: Version, h2: Settings) -> Serve<&'static str> {
    let peer_addr: Result<&'static str, &'static str> = Ok("192.0.2.3:50000");
    NewServeHttp::layer(h2).new_service(version).call(peer_addr).expect("served")
}

fn run(events: Vec<Event<Report>>) -> (Connection, Vec<Action<Report>>) {
    let mut connection = serve(Version::Http1, Settings::default()).start();
    let mut actions = Vec::new();
    for event in events {
        actions.push(connection.on_event(event));
    }
    (connection, actions)
}

#[test]
fn default_settings_are_empty() {
    let settings = Settings::default();
    assert_eq!(settings.initial_stream_window_size, None);
    assert_eq!(settings.initial_connection_window_size, None);
    assert_eq!(settings.keepalive_timeout, None);
}

#[test]
fn engine_takes_over_the_settings() {
    let h2 = Settings {
        initial_stream_window_size: Some(65_535),
        initial_connection_window_size: Some(1_048_576),
        keepalive_timeout: None,
    };
    let server = serve(Version::H2, h2).server;
    assert_eq!(server.max_buf_size, 16 * 1024);
    assert_eq!(MAX_BUF_SIZE, 16 * 1024);
    assert_eq!(server.http2_initial_stream_window_size, Some(65_535));
    assert_eq!(server.http2_initial_connection_window_size, Some(1_048_576));
    assert_eq!(server.http2_keep_alive, None);
}

#[test]
fn keep_alive_interval_is_a_quarter_of_the_timeout() {
    assert_eq!(KEEPALIVES_PER_TIMEOUT, 4);
    let timeout = Duration::from_secs(10);
    let h2 = Settings { keepalive_timeout: Some(timeout), ..Settings::default() };
    let server = serve(Version::H2, h2).server;
    assert_eq!(
        server.http2_keep_alive,
        Some(KeepAlive { timeout, interval: Duration::from_millis(2500) })
    );
}

#[test]
fn keep_alive_interval_rounds_down() {
    let timeout = Duration::from_nanos(7);
    let h2 = Settings { keepalive_timeout: Some(timeout), ..Settings::default() };
    let server = serve(Version::Http1, h2).server;
    assert_eq!(
        server.http2_keep_alive,
        Some(KeepAlive { timeout, interval: Duration::from_nanos(1) })
    );
    let zero = Settings { keepalive_timeout: Some(Duration::zero()), ..Settings::default() };
    assert_eq!(
        serve(Version::H2, zero).server.http2_keep_alive,
        Some(KeepAlive { timeout: Duration::zero(), interval: Duration::zero() })
    );
}

#[test]
fn http1_is_served_with_upgrades() {
    let serve = serve(Version::Http1, Settings::default());
    assert_eq!(serve.client_addr, "192.0.2.3:50000");
    assert!(serve.http1_only);
    assert!(!serve.http2_only);
    assert!(serve.upgrades);
}

#[test]
fn h2_is_served_without_upgrades() {
    let serve = serve(Version::H2, Settings::default());
    assert!(!serve.http1_only);
    assert!(serve.http2_only);
    assert!(!serve.upgrades);
}

#[test]
fn connection_without_peer_address_is_not_served() {
    let server = NewServeHttp::layer(Settings::default()).new_service(Version::Http1);
    assert!(server.poll_ready());
    let peer_addr: Result<&str, &str> = Err("not connected");
    assert_eq!(server.call(peer_addr), Err("not connected"));
}

#[test]
fn connection_that_completes_returns_its_report() {
    let (state, actions) = run(vec![Event::Completed(Ok(()))]);
    assert_eq!(state, Connection::Closed);
    assert_eq!(actions, vec![Action::Return { result: Ok(()), release_drain: false }]);

    let (state, actions) = run(vec![Event::Completed(Err("protocol error"))]);
    assert_eq!(state, Connection::Closed);
    assert_eq!(
        actions,
        vec![Action::Return { result: Err("protocol error"), release_drain: false }]
    );
}

#[test]
fn drain_waits_for_the_connection() {
    let (state, actions) = run(vec![Event::DrainSignaled]);
    assert_eq!(state, Connection::Draining(Cause::Drain));
    assert_eq!(actions, vec![Action::GracefulShutdown]);
    assert!(!state.accepts_requests());

    let (state, actions) = run(vec![Event::DrainSignaled, Event::Completed(Ok(()))]);
    assert_eq!(state, Connection::Closed);
    assert_eq!(
        actions,
        vec![Action::GracefulShutdown, Action::Return { result: Ok(()), release_drain: true }]
    );
}

#[test]
fn stack_close_waits_for_the_connection() {
    let (state, actions) = run(vec![Event::StackClosed, Event::Completed(Err("reset"))]);
    assert_eq!(state, Connection::Closed);
    assert_eq!(
        actions,
        vec![
            Action::GracefulShutdown,
            Action::Return { result: Err("reset"), release_drain: false }
        ]
    );
}

#[test]
fn second_signal_changes_nothing() {
    let (state, actions) = run(vec![
        Event::StackClosed,
        Event::DrainSignaled,
        Event::StackClosed,
        Event::Completed(Ok(())),
    ]);
    assert_eq!(state, Connection::Closed);
    assert_eq!(
        actions,
        vec![
            Action::GracefulShutdown,
            Action::Ignore,
            Action::Ignore,
            Action::Return { result: Ok(()), release_drain: false }
        ]
    );

    let (state, actions) = run(vec![Event::DrainSignaled, Event::StackClosed]);
    assert_eq!(state, Connection::Draining(Cause::Drain));
    assert_eq!(actions, vec![Action::GracefulShutdown, Action::Ignore]);
}

#[test]
fn closed_connection_ignores_everything() {
    let (state, actions) = run(vec![
        Event::Completed(Ok(())),
        Event::DrainSignaled,
        Event::StackClosed,
        Event::Completed(Err("late")),
    ]);
    assert_eq!(state, Connection::Closed);
    assert_eq!(
        actions,
        vec![
            Action::Return { result: Ok(()), release_drain: false },
            Action::Ignore,
            Action::Ignore,
            Action::Ignore
        ]
    );
}

#[test]
fn only_a_serving_connection_accepts_requests() {
    assert!(Connection::Serving.accepts_requests());
    assert!(!Connection::Draining(Cause::Drain).accepts_requests());
    assert!(!Connection::Draining(Cause::StackClosed).accepts_requests());
    assert!(!Connection::Closed.accepts_requests());
}
