use http_nu_core::server::{
    address_display, connection_report, ConnectionError, HttpFault, Phase, Server, ServerAction,
    ServerEvent, DRAIN_MS,
};
use http_nu_core::shutdown::{
    on_interrupt, requests_shutdown, InterruptAction, InterruptEvent, StopSignal, INTERRUPT_POLL_MS,
};

fn run(tls: bool, events: Vec<ServerEvent<String>>) -> (Phase, Vec<String>) {
    let mut server = Server::new(tls);
    let mut done = Vec::new();
    for event in events {
        assert!(server.expects(&event));
        for action in server.on_event(event) {
            done.push(format!("{action:?}"));
        }
    }
    (server.phase, done)
}

fn started() -> Vec<ServerEvent<String>> {
    vec![ServerEvent::Engine, ServerEvent::Bound("127.0.0.1:3001".to_string())]
}

#[test]
fn tcp_addresses_become_urls() {
    assert_eq!(address_display("127.0.0.1:3001", false), "http://127.0.0.1:3001");
    assert_eq!(address_display("127.0.0.1:3001 (TLS)", true), "https://127.0.0.1:3001");
    assert_eq!(address_display("127.0.0.1:3001", true), "https://127.0.0.1:3001");
    assert_eq!(address_display("127.0.0.1:3001 (TLS)", false), "http://127.0.0.1:3001");
    assert_eq!(address_display("x (TLS) (TLS)", true), "https://x (TLS)");
    assert_eq!(address_display("", false), "http://");
}

#[test]
fn socket_paths_stay_as_they_are() {
    assert_eq!(address_display("/run/http.sock", false), "/run/http.sock");
    assert_eq!(address_display("/run/http.sock (TLS)", true), "/run/http.sock (TLS)");
}

#[test]
fn a_server_without_work_stops_at_once() {
    let (phase, done) = run(
        false,
        started().into_iter().chain([ServerEvent::Shutdown, ServerEvent::Counted(0)]).collect(),
    );
    assert_eq!(phase, Phase::Stopped);
    assert_eq!(
        done,
        vec![
            "InstallEngine",
            "Bind",
            "LogStarted(\"http://127.0.0.1:3001\")",
            "CancelStreams",
            "CountConnections",
            "LogStopped",
            "Return(Ok(()))",
        ]
    );
}

#[test]
fn the_certificate_is_loaded_before_the_listener_is_bound() {
    let (phase, done) = run(true, vec![ServerEvent::Engine]);
    assert_eq!(phase, Phase::LoadingTls);
    assert_eq!(done, vec!["InstallEngine", "LoadTls"]);
    let (phase, done) = run(true, vec![ServerEvent::Engine, ServerEvent::TlsLoaded]);
    assert_eq!(phase, Phase::Starting);
    assert_eq!(done, vec!["InstallEngine", "LoadTls", "Bind"]);
}

#[test]
fn a_certificate_that_fails_means_that_nothing_is_bound() {
    let failed = ServerEvent::StartFailed("no key".to_string());
    let (phase, done) = run(true, vec![ServerEvent::Engine, failed]);
    assert_eq!(phase, Phase::Failed);
    assert_eq!(done, vec!["InstallEngine", "LoadTls", "Return(Err(\"no key\"))"]);
}

#[test]
fn a_listener_that_fails_is_not_logged() {
    let failed = ServerEvent::StartFailed("in use".to_string());
    let (phase, done) = run(false, vec![ServerEvent::Engine, failed]);
    assert_eq!(phase, Phase::Failed);
    assert_eq!(done, vec!["InstallEngine", "Bind", "Return(Err(\"in use\"))"]);
}

#[test]
fn a_shutdown_before_the_first_engine_stops_the_server() {
    let (phase, done) = run(false, vec![ServerEvent::Shutdown]);
    assert_eq!(phase, Phase::NeverStarted);
    assert_eq!(done, vec!["LogStopped", "Return(Ok(()))"]);
}

#[test]
fn a_server_that_never_started_takes_no_engine() {
    let mut server = Server::new(false);
    server.on_event::<String>(ServerEvent::Shutdown);
    let engine: ServerEvent<String> = ServerEvent::Engine;
    assert!(!server.expects(&engine));
}

#[test]
fn replaced_engines_end_their_streams() {
    let mut events = started();
    events.push(ServerEvent::Engine);
    events.push(ServerEvent::Engine);
    let (_, done) = run(false, events);
    let mut installed = 0;
    let mut told = Vec::new();
    for line in done {
        if line == "InstallEngine" {
            installed += 1;
        }
        if line == "CancelStreams" {
            told.push(installed - 1);
        }
    }
    assert_eq!(installed, 3);
    assert_eq!(told, vec![0, 1]);
}

#[test]
fn every_further_engine_is_a_reload() {
    let mut events = started();
    events.push(ServerEvent::Engine);
    events.push(ServerEvent::Engine);
    let (_, done) = run(false, events);
    assert_eq!(done.iter().filter(|line| *line == "LogReloaded").count(), 2);
}

#[test]
fn connections_in_flight_are_waited_for() {
    let mut events = started();
    events.push(ServerEvent::Accepted);
    events.push(ServerEvent::Shutdown);
    events.push(ServerEvent::Counted(2));
    events.push(ServerEvent::Drained);
    let (phase, done) = run(false, events);
    assert_eq!(phase, Phase::Stopped);
    assert_eq!(done[3..6], ["ServeConnection", "CancelStreams", "CountConnections"]);
    assert_eq!(done[6..], ["LogStopping(2)", "AwaitDrain(10000)", "LogStopped", "Return(Ok(()))"]);
    assert_eq!(DRAIN_MS, 10_000);
}

#[test]
fn connections_that_do_not_end_are_given_up() {
    let mut events = started();
    events.push(ServerEvent::Shutdown);
    events.push(ServerEvent::Counted(1));
    events.push(ServerEvent::DrainTimedOut);
    let (phase, done) = run(false, events);
    assert_eq!(phase, Phase::Stopped);
    assert_eq!(done[5..], ["LogStopping(1)", "AwaitDrain(10000)", "LogStopTimedOut", "Return(Ok(()))"]);
}

#[test]
fn streams_end_before_an_engine_is_replaced() {
    let mut events = started();
    events.push(ServerEvent::Engine);
    let (phase, done) = run(false, events);
    assert_eq!(phase, Phase::Serving);
    assert_eq!(done[3..], ["CancelStreams", "InstallEngine", "LogReloaded"]);
}

#[test]
fn a_connection_that_cannot_be_taken_is_reported() {
    let mut events = started();
    events.push(ServerEvent::AcceptFailed("too many files".to_string()));
    let (phase, done) = run(false, events);
    assert_eq!(phase, Phase::Serving);
    assert_eq!(done[3], "Report(\"Error accepting connection: too many files\")");
}

#[test]
fn no_connection_is_taken_outside_of_service() {
    let accepted: ServerEvent<String> = ServerEvent::Accepted;
    let shutdown: ServerEvent<String> = ServerEvent::Shutdown;
    let engine: ServerEvent<String> = ServerEvent::Engine;
    let mut server = Server::new(false);
    assert!(!server.expects(&accepted));
    server.on_event::<String>(ServerEvent::Engine);
    assert!(!server.expects(&accepted));
    assert!(!server.expects(&shutdown));
    server.on_event::<String>(ServerEvent::Bound("x".to_string()));
    assert!(server.expects(&accepted));
    server.on_event::<String>(ServerEvent::Shutdown);
    assert!(!server.expects(&accepted));
    assert!(!server.expects(&shutdown));
    assert!(server.expects(&engine));
}

#[test]
fn actions_carry_what_they_need() {
    let mut server = Server::new(true);
    server.on_event::<String>(ServerEvent::Engine);
    server.on_event::<String>(ServerEvent::TlsLoaded);
    let actions = server.on_event::<String>(ServerEvent::Bound("host:443 (TLS)".to_string()));
    assert!(matches!(
        actions.as_slice(),
        [ServerAction::LogStarted(address)] if address == "https://host:443"
    ));
}

#[test]
fn clients_that_disconnect_are_not_reported() {
    let fault = |incomplete_message, body_write_aborted| ConnectionError {
        http: Some(HttpFault { incomplete_message, body_write_aborted }),
        text: "reset".to_string(),
    };
    assert_eq!(connection_report(&fault(true, false)), None);
    assert_eq!(connection_report(&fault(false, true)), None);
    assert_eq!(
        connection_report(&fault(false, false)),
        Some("Connection error: reset".to_string())
    );
    let other = ConnectionError { http: None, text: "reset".to_string() };
    assert_eq!(connection_report(&other), Some("Connection error: reset".to_string()));
}

#[test]
fn signals_ask_for_a_shutdown() {
    assert!(requests_shutdown(StopSignal::CtrlC));
    assert!(requests_shutdown(StopSignal::Terminate));
    assert!(requests_shutdown(StopSignal::Poll { interrupted: true }));
    assert!(!requests_shutdown(StopSignal::Poll { interrupted: false }));
    assert_eq!(INTERRUPT_POLL_MS, 100);
}

#[test]
fn an_interrupt_sets_the_flag_and_kills_the_jobs() {
    let actions = on_interrupt::<usize>(InterruptEvent::Raised);
    assert!(matches!(
        actions.as_slice(),
        [InterruptAction::SetFlag, InterruptAction::ListJobs]
    ));
    let jobs: Vec<usize> = vec![3, 1];
    let actions = on_interrupt(InterruptEvent::Jobs(&jobs));
    assert!(matches!(
        actions.as_slice(),
        [InterruptAction::Kill(3), InterruptAction::Kill(1)]
    ));
    assert!(on_interrupt::<usize>(InterruptEvent::Jobs(&Vec::new())).is_empty());
}
