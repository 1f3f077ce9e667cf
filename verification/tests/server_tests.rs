use httpdir::config::{decimal_string, Config};
use httpdir::lifecycle::{Effect, Event, Lifecycle, Phase};
use httpdir::resolve::{resolve_static, PathKind, Resolution};

#[test]
fn decimal_rendering_of_ports() {
    assert_eq!(decimal_string(0), "0");
    assert_eq!(decimal_string(7), "7");
    assert_eq!(decimal_string(80), "80");
    assert_eq!(decimal_string(8080), "8080");
    assert_eq!(decimal_string(65535), "65535");
}

#[test]
fn socket_addr_is_addr_colon_port() {
    let config = Config::new("0.0.0.0".to_string(), 8080, ".".to_string());
    assert_eq!(config.socket_addr(), "0.0.0.0:8080");
    let config = Config::new("127.0.0.1".to_string(), 80, "/srv".to_string());
    assert_eq!(config.socket_addr(), "127.0.0.1:80");
}

#[test]
fn only_a_regular_file_is_served_statically() {
    assert_eq!(resolve_static(PathKind::RegularFile), Resolution::ServeFile);
    assert_eq!(resolve_static(PathKind::Directory), Resolution::FallbackListing);
    assert_eq!(resolve_static(PathKind::Missing), Resolution::FallbackListing);
    assert_eq!(resolve_static(PathKind::Unreadable), Resolution::FallbackListing);
}

#[test]
fn bind_failure_is_fatal() {
    let mut server = Lifecycle::new();
    assert_eq!(server.phase, Phase::Starting);
    let effect = server.step(Event::BindFailed);
    assert_eq!(effect, Effect::ExitFailure);
    assert_eq!(server.phase, Phase::Stopped);
}

#[test]
fn graceful_drain_lets_the_request_in_flight_finish() {
    let mut server = Lifecycle::new();
    assert_eq!(server.step(Event::BindSucceeded), Effect::BeginServing);
    assert_eq!(server.phase, Phase::Serving);

    assert_eq!(server.step(Event::ConnectionArrived), Effect::AcceptConnection);
    assert_eq!(server.in_flight, 1);

    assert_eq!(server.step(Event::ShutdownSignal), Effect::RefuseConnection);
    assert_eq!(server.phase, Phase::Draining);

    assert_eq!(server.step(Event::ConnectionArrived), Effect::RefuseConnection);
    assert_eq!(server.in_flight, 1);

    assert_eq!(server.step(Event::RequestCompleted), Effect::ExitSuccess);
    assert_eq!(server.phase, Phase::Stopped);
    assert_eq!(server.in_flight, 0);
}

#[test]
fn whichever_signal_arrives_first_wins() {
    let mut server = Lifecycle::new();
    server.step(Event::BindSucceeded);
    server.step(Event::ConnectionArrived);
    server.step(Event::ShutdownSignal);
    let before = server;
    assert_eq!(server.step(Event::ShutdownSignal), Effect::Ignore);
    assert_eq!(server, before);
}

#[test]
fn signal_with_nothing_in_flight_exits_at_once() {
    let mut server = Lifecycle::new();
    server.step(Event::BindSucceeded);
    assert_eq!(server.step(Event::ShutdownSignal), Effect::ExitSuccess);
    assert_eq!(server.phase, Phase::Stopped);
}

#[test]
fn draining_finishes_only_after_the_last_response() {
    let mut server = Lifecycle::new();
    server.step(Event::BindSucceeded);
    server.step(Event::ConnectionArrived);
    server.step(Event::ConnectionArrived);
    server.step(Event::ShutdownSignal);
    assert_eq!(server.step(Event::RequestCompleted), Effect::Ignore);
    assert_eq!(server.phase, Phase::Draining);
    assert_eq!(server.step(Event::RequestCompleted), Effect::ExitSuccess);
    assert_eq!(server.phase, Phase::Stopped);
}
