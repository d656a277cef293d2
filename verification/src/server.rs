//! The life of the server: from the first engine to the last connection.
//!
//! The server waits for an engine, binds its listener, takes connections until
//! it is asked to stop, and then gives the connections in flight a while to end.
//! Engines that arrive on the way replace the one that runs.

use crate::text::strip_suffix;
use vstd::prelude::*;

verus! {

/// How long connections in flight may take to end after a shutdown request.
pub const DRAIN_MS: u64 = 10_000;

/// Where the server is in its life.
#[derive(Clone, Copy, Debug, PartialEq, Eq, Structural)]
pub enum Phase {
    /// No engine has arrived yet.
    AwaitingEngine,
    /// The certificate is being loaded.
    LoadingTls,
    /// The listener is being bound.
    Starting,
    /// Connections are taken.
    Serving,
    /// A shutdown was requested; the connections in flight are being counted.
    Counting,
    /// Connections in flight are being waited for.
    Draining,
    /// The server has stopped.
    Stopped,
    /// The server has stopped before it got an engine, and takes none any more.
    NeverStarted,
    /// The certificate could not be loaded, or the listener not be bound.
    Failed,
}

/// What happens to the server, `E` being the error of a failed start.
#[derive(Debug)]
pub enum ServerEvent<E> {
    /// The script source sent an engine.
    Engine,
    /// A shutdown was requested.
    Shutdown,
    /// The certificate is loaded.
    TlsLoaded,
    /// The listener is bound, and shows itself as this text.
    Bound(String),
    /// The certificate could not be loaded, or the listener not be bound.
    StartFailed(E),
    /// A connection came in.
    Accepted,
    /// A connection could not be taken, with this error text.
    AcceptFailed(String),
    /// So many connections are in flight.
    Counted(usize),
    /// The connections in flight have ended.
    Drained,
    /// The connections in flight have not ended in time.
    DrainTimedOut,
}

/// What the server does.
#[derive(Debug)]
pub enum ServerAction<E> {
    /// Let the event streams of the running engine end.
    CancelStreams,
    /// Make the engine that arrived the running one.
    InstallEngine,
    /// Log that a new engine runs.
    LogReloaded,
    /// Load the certificate.
    LoadTls,
    /// Bind the listener.
    Bind,
    /// Log that the server runs at this address.
    LogStarted(String),
    /// Handle the connection that came in.
    ServeConnection,
    /// Report this line.
    Report(String),
    /// Count the connections in flight.
    CountConnections,
    /// Log that the server stops while so many connections are in flight.
    LogStopping(usize),
    /// Wait for the connections in flight, at most so many milliseconds.
    AwaitDrain(u64),
    /// Log that the server has stopped.
    LogStopped,
    /// Log that the server has stopped with connections still in flight.
    LogStopTimedOut,
    /// Serve no longer, with this result.
    Return(Result<(), E>),
}

/// A [`ServerAction`] as a value.
pub enum ServerEffect<E> {
    CancelStreams,
    InstallEngine,
    LogReloaded,
    LoadTls,
    Bind,
    LogStarted(Seq<char>),
    ServeConnection,
    Report(Seq<char>),
    CountConnections,
    LogStopping(usize),
    AwaitDrain(u64),
    LogStopped,
    LogStopTimedOut,
    Return(Result<(), E>),
}

impl<E> View for ServerAction<E> {
    type V = ServerEffect<E>;

    open spec fn view(&self) -> ServerEffect<E> {
        match self {
            ServerAction::CancelStreams => ServerEffect::CancelStreams,
            ServerAction::InstallEngine => ServerEffect::InstallEngine,
            ServerAction::LogReloaded => ServerEffect::LogReloaded,
            ServerAction::LoadTls => ServerEffect::LoadTls,
            ServerAction::Bind => ServerEffect::Bind,
            ServerAction::LogStarted(address) => ServerEffect::LogStarted(address@),
            ServerAction::ServeConnection => ServerEffect::ServeConnection,
            ServerAction::Report(line) => ServerEffect::Report(line@),
            ServerAction::CountConnections => ServerEffect::CountConnections,
            ServerAction::LogStopping(inflight) => ServerEffect::LogStopping(*inflight),
            ServerAction::AwaitDrain(ms) => ServerEffect::AwaitDrain(*ms),
            ServerAction::LogStopped => ServerEffect::LogStopped,
            ServerAction::LogStopTimedOut => ServerEffect::LogStopTimedOut,
            ServerAction::Return(result) => ServerEffect::Return(*result),
        }
    }
}

/// The address under which the server is announced: a socket path as it is, any
/// other address as a URL, without the mark that a TLS listener shows.
pub open spec fn announced_address(shown: Seq<char>, tls: bool) -> Seq<char> {
    if shown.len() > 0 && shown[0] == '/' {
        shown
    } else if tls {
        "https://"@ + crate::text::without_suffix(shown, " (TLS)"@)
    } else {
        "http://"@ + crate::text::without_suffix(shown, " (TLS)"@)
    }
}

/// Makes the address to announce from what the listener shows.
pub fn address_display(shown: &str, tls: bool) -> (address: String)
    ensures
        address@ == announced_address(shown@, tls),
{
    if shown.unicode_len() > 0 && shown.get_char(0) == '/' {
        shown.to_owned()
    } else {
        let host: &str = strip_suffix(shown, " (TLS)");
        if tls {
            "https://".to_owned().concat(host)
        } else {
            "http://".to_owned().concat(host)
        }
    }
}

/// A listener on a TCP address is announced as the URL of that address, with the
/// scheme that fits, whether or not it shows the TLS mark.
pub proof fn law_tcp_address_is_url(address: Seq<char>, tls: bool)
    requires
        address.len() > 0,
        address[0] != '/',
        !" (TLS)"@.is_suffix_of(address),
    ensures
        announced_address(address, tls) == (if tls {
            "https://"@
        } else {
            "http://"@
        }) + address,
        announced_address(address + " (TLS)"@, tls) == (if tls {
            "https://"@
        } else {
            "http://"@
        }) + address,
{
    let marked = address + " (TLS)"@;
    assert(marked[0] == address[0]);
    assert(marked.subrange(marked.len() - " (TLS)"@.len(), marked.len() as int) =~= " (TLS)"@);
    assert(marked.take(marked.len() - " (TLS)"@.len()) =~= address);
}

/// Whether `event` can come while the server is in `phase`.
pub open spec fn possible_in<E>(phase: Phase, event: ServerEvent<E>) -> bool {
    match event {
        ServerEvent::Engine => phase != Phase::NeverStarted,
        ServerEvent::Shutdown => phase == Phase::AwaitingEngine || phase == Phase::Serving,
        ServerEvent::TlsLoaded => phase == Phase::LoadingTls,
        ServerEvent::Bound(_) => phase == Phase::Starting,
        ServerEvent::StartFailed(_) => phase == Phase::LoadingTls || phase == Phase::Starting,
        ServerEvent::Accepted | ServerEvent::AcceptFailed(_) => phase == Phase::Serving,
        ServerEvent::Counted(_) => phase == Phase::Counting,
        ServerEvent::Drained | ServerEvent::DrainTimedOut => phase == Phase::Draining,
    }
}

/// One event: the phase afterwards, and what is done, in order.
pub open spec fn server_step<E>(phase: Phase, tls: bool, event: ServerEvent<E>) -> (
    Phase,
    Seq<ServerEffect<E>>,
) {
    match event {
        ServerEvent::Engine => if phase == Phase::AwaitingEngine {
            if tls {
                (Phase::LoadingTls, seq![ServerEffect::InstallEngine, ServerEffect::LoadTls])
            } else {
                (Phase::Starting, seq![ServerEffect::InstallEngine, ServerEffect::Bind])
            }
        } else {
            (
                phase,
                seq![
                    ServerEffect::CancelStreams,
                    ServerEffect::InstallEngine,
                    ServerEffect::LogReloaded,
                ],
            )
        },
        ServerEvent::Shutdown => if phase == Phase::AwaitingEngine {
            (Phase::NeverStarted, seq![ServerEffect::LogStopped, ServerEffect::Return(Ok(()))])
        } else {
            (
                Phase::Counting,
                seq![ServerEffect::CancelStreams, ServerEffect::CountConnections],
            )
        },
        ServerEvent::TlsLoaded => (Phase::Starting, seq![ServerEffect::Bind]),
        ServerEvent::Bound(shown) => (
            Phase::Serving,
            seq![ServerEffect::LogStarted(announced_address(shown@, tls))],
        ),
        ServerEvent::StartFailed(error) => (
            Phase::Failed,
            seq![ServerEffect::Return(Err(error))],
        ),
        ServerEvent::Accepted => (phase, seq![ServerEffect::ServeConnection]),
        ServerEvent::AcceptFailed(error) => (
            phase,
            seq![ServerEffect::Report("Error accepting connection: "@ + error@)],
        ),
        ServerEvent::Counted(inflight) => if inflight > 0 {
            (
                Phase::Draining,
                seq![ServerEffect::LogStopping(inflight), ServerEffect::AwaitDrain(DRAIN_MS)],
            )
        } else {
            (Phase::Stopped, seq![ServerEffect::LogStopped, ServerEffect::Return(Ok(()))])
        },
        ServerEvent::Drained => (
            Phase::Stopped,
            seq![ServerEffect::LogStopped, ServerEffect::Return(Ok(()))],
        ),
        ServerEvent::DrainTimedOut => (
            Phase::Stopped,
            seq![ServerEffect::LogStopTimedOut, ServerEffect::Return(Ok(()))],
        ),
    }
}

/// The effects of a list of actions.
pub open spec fn effects<E>(actions: Seq<ServerAction<E>>) -> Seq<ServerEffect<E>> {
    actions.map_values(|action: ServerAction<E>| action@)
}

/// The server, between two events.
pub struct Server {
    pub phase: Phase,
    /// Whether connections are encrypted.
    pub tls: bool,
}

impl Server {
    /// A server that waits for its first engine.
    pub fn new(tls: bool) -> (server: Server)
        ensures
            server.phase == Phase::AwaitingEngine,
            server.tls == tls,
    {
        Server { phase: Phase::AwaitingEngine, tls }
    }

    /// Whether `event` can come now.
    pub fn expects<E>(&self, event: &ServerEvent<E>) -> (expected: bool)
        ensures
            expected == possible_in(self.phase, *event),
    {
        match event {
            ServerEvent::Engine => self.phase != Phase::NeverStarted,
            ServerEvent::Shutdown => self.phase == Phase::AwaitingEngine || self.phase
                == Phase::Serving,
            ServerEvent::TlsLoaded => self.phase == Phase::LoadingTls,
            ServerEvent::Bound(_) => self.phase == Phase::Starting,
            ServerEvent::StartFailed(_) => self.phase == Phase::LoadingTls || self.phase
                == Phase::Starting,
            ServerEvent::Accepted | ServerEvent::AcceptFailed(_) => self.phase == Phase::Serving,
            ServerEvent::Counted(_) => self.phase == Phase::Counting,
            ServerEvent::Drained | ServerEvent::DrainTimedOut => self.phase == Phase::Draining,
        }
    }

    /// Takes one event, and gives what is to be done, in order.
    pub fn on_event<E>(&mut self, event: ServerEvent<E>) -> (actions: Vec<ServerAction<E>>)
        requires
            possible_in(old(self).phase, event),
        ensures
            final(self).tls == old(self).tls,
            final(self).phase == server_step(old(self).phase, old(self).tls, event).0,
            effects(actions@) == server_step(old(self).phase, old(self).tls, event).1,
    {
        let ghost then = server_step(self.phase, self.tls, event);
        let mut actions: Vec<ServerAction<E>> = Vec::new();
        match event {
            ServerEvent::Engine => {
                if self.phase == Phase::AwaitingEngine {
                    actions.push(ServerAction::InstallEngine);
                    if self.tls {
                        self.phase = Phase::LoadingTls;
                        actions.push(ServerAction::LoadTls);
                    } else {
                        self.phase = Phase::Starting;
                        actions.push(ServerAction::Bind);
                    }
                } else {
                    actions.push(ServerAction::CancelStreams);
                    actions.push(ServerAction::InstallEngine);
                    actions.push(ServerAction::LogReloaded);
                }
            },
            ServerEvent::Shutdown => {
                if self.phase == Phase::AwaitingEngine {
                    self.phase = Phase::NeverStarted;
                    actions.push(ServerAction::LogStopped);
                    actions.push(ServerAction::Return(Ok(())));
                } else {
                    self.phase = Phase::Counting;
                    actions.push(ServerAction::CancelStreams);
                    actions.push(ServerAction::CountConnections);
                }
            },
            ServerEvent::TlsLoaded => {
                self.phase = Phase::Starting;
                actions.push(ServerAction::Bind);
            },
            ServerEvent::Bound(shown) => {
                self.phase = Phase::Serving;
                actions.push(ServerAction::LogStarted(address_display(shown.as_str(), self.tls)));
            },
            ServerEvent::StartFailed(error) => {
                self.phase = Phase::Failed;
                actions.push(ServerAction::Return(Err(error)));
            },
            ServerEvent::Accepted => {
                actions.push(ServerAction::ServeConnection);
            },
            ServerEvent::AcceptFailed(error) => {
                let line: String = "Error accepting connection: ".to_owned();
                actions.push(ServerAction::Report(line.concat(error.as_str())));
            },
            ServerEvent::Counted(inflight) => {
                if inflight > 0 {
                    self.phase = Phase::Draining;
                    actions.push(ServerAction::LogStopping(inflight));
                    actions.push(ServerAction::AwaitDrain(DRAIN_MS));
                } else {
                    self.phase = Phase::Stopped;
                    actions.push(ServerAction::LogStopped);
                    actions.push(ServerAction::Return(Ok(())));
                }
            },
            ServerEvent::Drained => {
                self.phase = Phase::Stopped;
                actions.push(ServerAction::LogStopped);
                actions.push(ServerAction::Return(Ok(())));
            },
            ServerEvent::DrainTimedOut => {
                self.phase = Phase::Stopped;
                actions.push(ServerAction::LogStopTimedOut);
                actions.push(ServerAction::Return(Ok(())));
            },
        }
        assert(effects(actions@) =~= then.1);
        actions
    }
}

/// What the HTTP layer says of an error on a connection.
#[derive(Clone, Copy, Debug, PartialEq, Eq, Structural)]
pub struct HttpFault {
    /// The peer went away in the middle of a message.
    pub incomplete_message: bool,
    /// The peer went away while a body was being written to it.
    pub body_write_aborted: bool,
}

/// An error that ended a connection.
#[derive(Debug)]
pub struct ConnectionError {
    /// What the HTTP layer says, where the error is one of its own.
    pub http: Option<HttpFault>,
    /// The error text.
    pub text: String,
}

/// The error is what a client leaves behind that disconnects.
pub open spec fn is_disconnect(error: ConnectionError) -> bool {
    error.http matches Some(fault) && (fault.incomplete_message || fault.body_write_aborted)
}

/// The line that reports a connection error. A client that disconnects is not
/// reported.
pub fn connection_report(error: &ConnectionError) -> (line: Option<String>)
    ensures
        line is None <==> is_disconnect(*error),
        line matches Some(line) ==> line@ == "Connection error: "@ + error.text@,
{
    if let Some(fault) = error.http {
        if fault.incomplete_message || fault.body_write_aborted {
            return None;
        }
    }
    Some("Connection error: ".to_owned().concat(error.text.as_str()))
}

/// The phase of a server after `events`, and all that it did, in order.
pub open spec fn history<E>(tls: bool, events: Seq<ServerEvent<E>>) -> (Phase, Seq<ServerEffect<E>>)
    decreases events.len(),
{
    if events.len() == 0 {
        (Phase::AwaitingEngine, Seq::empty())
    } else {
        let (phase, done) = history(tls, events.drop_last());
        let (next, more) = server_step(phase, tls, events.last());
        (next, done + more)
    }
}

/// Each of `events` can come when its turn is.
pub open spec fn can_happen<E>(tls: bool, events: Seq<ServerEvent<E>>) -> bool
    decreases events.len(),
{
    events.len() == 0 || (can_happen(tls, events.drop_last()) && possible_in(
        history(tls, events.drop_last()).0,
        events.last(),
    ))
}

/// The server has stopped, with or without having run.
pub open spec fn has_stopped(phase: Phase) -> bool {
    phase == Phase::Stopped || phase == Phase::NeverStarted
}

/// The line that ends the log of a server.
pub open spec fn ends_log<E>() -> spec_fn(ServerEffect<E>) -> bool {
    |effect: ServerEffect<E>| effect is LogStopped || effect is LogStopTimedOut
}

/// The line that announces a server.
pub open spec fn starts_log<E>() -> spec_fn(ServerEffect<E>) -> bool {
    |effect: ServerEffect<E>| effect is LogStarted
}

/// How many lines of each kind one step logs.
proof fn lemma_count_step<E>(phase: Phase, tls: bool, event: ServerEvent<E>)
    ensures
        crate::trace::count(server_step(phase, tls, event).1, starts_log()) == (if event is Bound {
            1nat
        } else {
            0nat
        }),
        crate::trace::count(server_step(phase, tls, event).1, ends_log()) == (if has_stopped(
            server_step(phase, tls, event).0,
        ) && !(event is Engine) {
            1nat
        } else {
            0nat
        }) || !possible_in(phase, event),
{
    reveal_with_fuel(crate::trace::count, 4);
    let more = server_step(phase, tls, event).1;
    if more.len() > 1 {
        assert(more.drop_last().last() == more[more.len() - 2]);
    }
    if more.len() > 2 {
        assert(more.drop_last().drop_last().last() == more[0]);
    }
}

/// A server that has stopped has logged so exactly once, and no other server has.
pub proof fn law_one_stop_line<E>(tls: bool, events: Seq<ServerEvent<E>>)
    requires
        can_happen(tls, events),
    ensures
        crate::trace::count(history(tls, events).1, ends_log()) == (if has_stopped(
            history(tls, events).0,
        ) {
            1nat
        } else {
            0nat
        }),
    decreases events.len(),
{
    if events.len() > 0 {
        law_one_stop_line(tls, events.drop_last());
        let (phase, done) = history(tls, events.drop_last());
        let more = server_step(phase, tls, events.last()).1;
        crate::trace::lemma_count_add(done, more, ends_log());
        lemma_count_step(phase, tls, events.last());
    }
}

/// A server is announced exactly once by the time it serves, and never where its
/// listener was not bound.
pub proof fn law_one_start_line<E>(tls: bool, events: Seq<ServerEvent<E>>)
    requires
        can_happen(tls, events),
    ensures
        ({
            let (phase, done) = history(tls, events);
            let lines = crate::trace::count(done, starts_log());
            match phase {
                Phase::AwaitingEngine | Phase::LoadingTls | Phase::Starting | Phase::Failed => lines
                    == 0,
                Phase::Serving | Phase::Counting | Phase::Draining => lines == 1,
                Phase::Stopped => lines == 1,
                Phase::NeverStarted => lines == 0,
            }
        }),
    decreases events.len(),
{
    if events.len() > 0 {
        law_one_start_line(tls, events.drop_last());
        let (phase, done) = history(tls, events.drop_last());
        let more = server_step(phase, tls, events.last()).1;
        crate::trace::lemma_count_add(done, more, starts_log());
        lemma_count_step(phase, tls, events.last());
    }
}

proof fn lemma_prefix_can_happen<E>(tls: bool, events: Seq<ServerEvent<E>>, n: int)
    requires
        can_happen(tls, events),
        0 <= n <= events.len(),
    ensures
        can_happen(tls, events.take(n)),
        n < events.len() ==> possible_in(history(tls, events.take(n)).0, events[n]),
    decreases events.len(),
{
    if n == events.len() {
        assert(events.take(n) =~= events);
    } else {
        let earlier = events.drop_last();
        if n == events.len() - 1 {
            assert(events.take(n) =~= earlier);
        } else {
            lemma_prefix_can_happen(tls, earlier, n);
            assert(earlier.take(n) =~= events.take(n));
        }
    }
}

/// What each phase says of the events before it.
proof fn lemma_phase_tells_events<E>(tls: bool, events: Seq<ServerEvent<E>>)
    requires
        can_happen(tls, events),
    ensures
        ({
            let phase = history(tls, events).0;
            &&& phase == Phase::AwaitingEngine || phase == Phase::LoadingTls || phase
                == Phase::Starting || phase == Phase::Serving || phase == Phase::Failed ==> forall|i: int|
                0 <= i < events.len() ==> !((#[trigger] events[i]) is Shutdown)
            &&& phase == Phase::Serving || phase == Phase::Counting || phase == Phase::Draining
                ==> exists|i: int| 0 <= i < events.len() && (#[trigger] events[i]) is Bound
        }),
    decreases events.len(),
{
    if events.len() > 0 {
        let earlier = events.drop_last();
        lemma_phase_tells_events(tls, earlier);
        assert forall|i: int| 0 <= i < earlier.len() implies earlier[i] == #[trigger] events[i] by {
        }
        let last = events.len() - 1;
        assert(events[last] == events.last());
        if exists|i: int| 0 <= i < earlier.len() && (#[trigger] earlier[i]) is Bound {
            let i = choose|i: int| 0 <= i < earlier.len() && (#[trigger] earlier[i]) is Bound;
            assert(events[i] is Bound);
        }
    }
}

/// Connections are taken only once the listener is bound, and never after a
/// shutdown was requested.
pub proof fn law_connections_between_start_and_shutdown<E>(
    tls: bool,
    events: Seq<ServerEvent<E>>,
    at: int,
)
    requires
        can_happen(tls, events),
        0 <= at < events.len(),
        events[at] is Accepted,
    ensures
        exists|i: int| 0 <= i < at && (#[trigger] events[i]) is Bound,
        forall|i: int| 0 <= i < at ==> !((#[trigger] events[i]) is Shutdown),
{
    lemma_prefix_can_happen(tls, events, at);
    let before = events.take(at);
    lemma_phase_tells_events(tls, before);
    let i = choose|i: int| 0 <= i < before.len() && (#[trigger] before[i]) is Bound;
    assert(events[i] is Bound);
    assert forall|i: int| 0 <= i < at implies !((#[trigger] events[i]) is Shutdown) by {
        assert(before[i] == events[i]);
    }
}

/// No engine loses its place to another before its event streams were told to
/// end: wherever an engine is installed after the first, they are, right before.
pub proof fn law_streams_cancelled_before_replacement<E>(
    tls: bool,
    events: Seq<ServerEvent<E>>,
    at: int,
)
    requires
        can_happen(tls, events),
        0 < at < history(tls, events).1.len(),
        history(tls, events).1[at] is InstallEngine,
    ensures
        history(tls, events).1[at - 1] is CancelStreams,
    decreases events.len(),
{
    if events.len() > 0 {
        let (phase, done) = history(tls, events.drop_last());
        let more = server_step(phase, tls, events.last()).1;
        if at < done.len() {
            law_streams_cancelled_before_replacement(tls, events.drop_last(), at);
        } else {
            assert((done + more)[at] == more[at - done.len()]);
            if phase == Phase::AwaitingEngine {
                lemma_nothing_done_while_waiting(tls, events.drop_last());
            }
        }
    }
}

proof fn lemma_nothing_done_while_waiting<E>(tls: bool, events: Seq<ServerEvent<E>>)
    requires
        can_happen(tls, events),
        history(tls, events).0 == Phase::AwaitingEngine,
    ensures
        events.len() == 0,
        history(tls, events).1.len() == 0,
    decreases events.len(),
{
    if events.len() > 0 {
        let phase = history(tls, events.drop_last()).0;
        assert(possible_in(phase, events.last()));
        assert(server_step(phase, tls, events.last()).0 == Phase::AwaitingEngine);
    }
}

/// The step of logging that the server stops while connections are in flight.
pub open spec fn stops_with_connections<E>(effect: ServerEffect<E>) -> bool {
    effect matches ServerEffect::LogStopping(inflight) && inflight > 0
}

proof fn lemma_draining_was_logged<E>(tls: bool, events: Seq<ServerEvent<E>>) -> (at: int)
    requires
        can_happen(tls, events),
        history(tls, events).0 == Phase::Draining,
    ensures
        0 <= at < history(tls, events).1.len(),
        stops_with_connections(history(tls, events).1[at]),
    decreases events.len(),
{
    let (phase, done) = history(tls, events.drop_last());
    let more = server_step(phase, tls, events.last()).1;
    assert(history(tls, events).1 == done + more);
    if phase == Phase::Draining {
        lemma_draining_was_logged(tls, events.drop_last())
    } else {
        assert(more[0] == (done + more)[done.len() as int]);
        done.len() as int
    }
}

/// The log speaks of a timeout only where it has said before that connections
/// were in flight.
#[verifier::spinoff_prover]
pub proof fn law_timeout_only_with_connections<E>(
    tls: bool,
    events: Seq<ServerEvent<E>>,
    at: int,
)
    requires
        can_happen(tls, events),
        0 <= at < history(tls, events).1.len(),
        history(tls, events).1[at] is LogStopTimedOut,
    ensures
        exists|i: int|
            0 <= i < at && #[trigger] stops_with_connections(history(tls, events).1[i]),
    decreases events.len(),
{
    let earlier = events.drop_last();
    let (phase, done) = history(tls, earlier);
    let more = server_step(phase, tls, events.last()).1;
    let all = history(tls, events).1;
    assert(all == done + more);
    if at < done.len() {
        law_timeout_only_with_connections(tls, earlier, at);
        let i = choose|i: int| 0 <= i < at && #[trigger] stops_with_connections(done[i]);
        assert(stops_with_connections(all[i]));
    } else {
        assert(more[at - done.len()] is LogStopTimedOut);
        let i = lemma_draining_was_logged(tls, earlier);
        assert(stops_with_connections(all[i]));
    }
}

/// Entry `at` of what was done told the streams to end, and the connections in
/// flight were counted right after it.
pub open spec fn cancels_then_counts<E>(done: Seq<ServerEffect<E>>, at: int) -> bool {
    &&& 0 <= at < done.len() - 1
    &&& done[at] is CancelStreams
    &&& done[at + 1] is CountConnections
}

proof fn lemma_streams_cancelled_by_counting<E>(tls: bool, events: Seq<ServerEvent<E>>) -> (at:
    int)
    requires
        can_happen(tls, events),
        history(tls, events).0 == Phase::Counting,
    ensures
        cancels_then_counts(history(tls, events).1, at),
    decreases events.len(),
{
    let (phase, done) = history(tls, events.drop_last());
    let more = server_step(phase, tls, events.last()).1;
    let all = history(tls, events).1;
    assert(all == done + more);
    if phase == Phase::Counting {
        let at = lemma_streams_cancelled_by_counting(tls, events.drop_last());
        assert(all[at] == done[at] && all[at + 1] == done[at + 1]);
        at
    } else {
        assert(all[done.len() as int] == more[0]);
        assert(all[done.len() as int + 1] == more[1]);
        done.len() as int
    }
}

/// Connections in flight are waited for only after a shutdown has told event
/// streams, which would hold them open, to end, and has then counted what is in
/// flight.
pub proof fn law_streams_cancelled_before_drain<E>(
    tls: bool,
    events: Seq<ServerEvent<E>>,
    at: int,
)
    requires
        can_happen(tls, events),
        0 <= at < history(tls, events).1.len(),
        history(tls, events).1[at] is AwaitDrain,
    ensures
        exists|i: int|
            i + 1 < at && #[trigger] cancels_then_counts(history(tls, events).1, i),
    decreases events.len(),
{
    let earlier = events.drop_last();
    let (phase, done) = history(tls, earlier);
    let more = server_step(phase, tls, events.last()).1;
    let all = history(tls, events).1;
    assert(all == done + more);
    let i = if at < done.len() {
        law_streams_cancelled_before_drain(tls, earlier, at);
        choose|i: int| i + 1 < at && #[trigger] cancels_then_counts(done, i)
    } else {
        assert(more[at - done.len()] is AwaitDrain);
        lemma_streams_cancelled_by_counting(tls, earlier)
    };
    assert(all[i] == done[i] && all[i + 1] == done[i + 1]);
    assert(cancels_then_counts(all, i));
}

/// The line that says that a new engine runs.
pub open spec fn tells_reload<E>() -> spec_fn(ServerEffect<E>) -> bool {
    |effect: ServerEffect<E>| effect is LogReloaded
}

/// The arrival of an engine.
pub open spec fn brings_engine<E>() -> spec_fn(ServerEvent<E>) -> bool {
    |event: ServerEvent<E>| event is Engine
}

proof fn lemma_count_reloads<E>(phase: Phase, tls: bool, event: ServerEvent<E>)
    ensures
        crate::trace::count(server_step(phase, tls, event).1, tells_reload()) == (if event is Engine
            && phase != Phase::AwaitingEngine {
            1nat
        } else {
            0nat
        }),
{
    reveal_with_fuel(crate::trace::count, 4);
    let more = server_step(phase, tls, event).1;
    if more.len() > 1 {
        assert(more.drop_last().last() == more[more.len() - 2]);
    }
    if more.len() > 2 {
        assert(more.drop_last().drop_last().last() == more[0]);
    }
}

/// Every engine but the first is logged as a reload, and nothing else is.
pub proof fn law_one_reload_line_per_further_engine<E>(tls: bool, events: Seq<ServerEvent<E>>)
    requires
        can_happen(tls, events),
    ensures
        ({
            let engines = crate::trace::count(events, brings_engine());
            let lines = crate::trace::count(history(tls, events).1, tells_reload());
            lines == (if engines == 0 {
                0
            } else {
                engines - 1
            })
        }),
    decreases events.len(),
{
    if events.len() > 0 {
        let earlier = events.drop_last();
        let (phase, done) = history(tls, earlier);
        let more = server_step(phase, tls, events.last()).1;
        crate::trace::lemma_count_add(done, more, tells_reload());
        lemma_count_reloads(phase, tls, events.last());
        law_one_reload_line_per_further_engine(tls, earlier);
        if phase == Phase::AwaitingEngine {
            lemma_nothing_done_while_waiting(tls, earlier);
        } else {
            lemma_engine_came(tls, earlier);
        }
    }
}

/// A server that no longer waits for its first engine has got one, unless it has
/// stopped without.
proof fn lemma_engine_came<E>(tls: bool, events: Seq<ServerEvent<E>>)
    requires
        can_happen(tls, events),
    ensures
        ({
            let phase = history(tls, events).0;
            phase == Phase::AwaitingEngine || phase == Phase::NeverStarted <==> crate::trace::count(
                events,
                brings_engine(),
            ) == 0
        }),
    decreases events.len(),
{
    if events.len() > 0 {
        lemma_engine_came(tls, events.drop_last());
    }
}

/// What `done` makes of the engines, numbered as they arrive: how many were
/// installed, so that the last of them runs, and which were told to end their
/// streams, in order. It is always the running one that is told.
pub open spec fn engines_after<E>(done: Seq<ServerEffect<E>>) -> (nat, Seq<int>)
    decreases done.len(),
{
    if done.len() == 0 {
        (0, Seq::empty())
    } else {
        let (installed, told) = engines_after(done.drop_last());
        match done.last() {
            ServerEffect::InstallEngine => (installed + 1, told),
            ServerEffect::CancelStreams => (installed, told.push(installed - 1)),
            _ => (installed, told),
        }
    }
}

/// What one step makes of the engines.
pub open spec fn engines_step<E>(
    before: (nat, Seq<int>),
    phase: Phase,
    event: ServerEvent<E>,
) -> (nat, Seq<int>) {
    match event {
        ServerEvent::Engine => if phase == Phase::AwaitingEngine {
            (before.0 + 1, before.1)
        } else {
            (before.0 + 1, before.1.push(before.0 - 1))
        },
        ServerEvent::Shutdown => if phase == Phase::AwaitingEngine {
            before
        } else {
            (before.0, before.1.push(before.0 - 1))
        },
        _ => before,
    }
}

proof fn lemma_engines_push<E>(done: Seq<ServerEffect<E>>, effect: ServerEffect<E>)
    ensures
        engines_after(done.push(effect)) == (match effect {
            ServerEffect::InstallEngine => (engines_after(done).0 + 1, engines_after(done).1),
            ServerEffect::CancelStreams => (
                engines_after(done).0,
                engines_after(done).1.push(engines_after(done).0 - 1),
            ),
            _ => engines_after(done),
        }),
{
    assert(done.push(effect).drop_last() =~= done);
}

proof fn lemma_engines_step<E>(
    done: Seq<ServerEffect<E>>,
    phase: Phase,
    tls: bool,
    event: ServerEvent<E>,
)
    ensures
        engines_after(done + server_step(phase, tls, event).1) == engines_step(
            engines_after(done),
            phase,
            event,
        ),
{
    let more = server_step(phase, tls, event).1;
    if more.len() == 0 {
        assert(done + more =~= done);
    } else if more.len() == 1 {
        assert(done + more =~= done.push(more[0]));
        lemma_engines_push(done, more[0]);
    } else if more.len() == 2 {
        assert(done + more =~= done.push(more[0]).push(more[1]));
        lemma_engines_push(done, more[0]);
        lemma_engines_push(done.push(more[0]), more[1]);
    } else {
        assert(done + more =~= done.push(more[0]).push(more[1]).push(more[2]));
        lemma_engines_push(done, more[0]);
        lemma_engines_push(done.push(more[0]), more[1]);
        lemma_engines_push(done.push(more[0]).push(more[1]), more[2]);
    }
}

/// Every engine that arrives is installed. Before a shutdown the streams of
/// exactly those engines were told to end that another has replaced, each once,
/// in the order of their arrival and while it was the running one. The last
/// engine runs, and its streams go on.
pub proof fn law_replaced_engines_end_their_streams<E>(tls: bool, events: Seq<ServerEvent<E>>)
    requires
        can_happen(tls, events),
        forall|i: int| 0 <= i < events.len() ==> !((#[trigger] events[i]) is Shutdown),
    ensures
        ({
            let arrived = crate::trace::count(events, brings_engine());
            let (installed, told) = engines_after(history(tls, events).1);
            &&& installed == arrived
            &&& told == Seq::new(
                (if arrived == 0 {
                    0
                } else {
                    arrived - 1
                }) as nat,
                |i: int| i,
            )
        }),
    decreases events.len(),
{
    if events.len() > 0 {
        let earlier = events.drop_last();
        assert forall|i: int| 0 <= i < earlier.len() implies !((
        #[trigger] earlier[i]) is Shutdown) by {
            assert(earlier[i] == events[i]);
        }
        let last = events.len() - 1;
        assert(!(events[last] is Shutdown));
        law_replaced_engines_end_their_streams(tls, earlier);
        let (phase, done) = history(tls, earlier);
        lemma_engines_step(done, phase, tls, events.last());
        lemma_engine_came(tls, earlier);
        let arrived = crate::trace::count(events, brings_engine());
        assert(engines_after(history(tls, events).1).1 =~= Seq::new(
            (if arrived == 0 {
                0
            } else {
                arrived - 1
            }) as nat,
            |i: int| i,
        ));
    }
}

/// With TLS the listener is bound only once the certificate is loaded: a
/// certificate that cannot be loaded means that nothing is bound.
pub proof fn law_bind_needs_certificate<E>(events: Seq<ServerEvent<E>>, at: int)
    requires
        can_happen(true, events),
        0 <= at < history(true, events).1.len(),
        history(true, events).1[at] is Bind,
    ensures
        exists|i: int| 0 <= i < events.len() && (#[trigger] events[i]) is TlsLoaded,
    decreases events.len(),
{
    let earlier = events.drop_last();
    let (phase, done) = history(true, earlier);
    let more = server_step(phase, true, events.last()).1;
    assert(history(true, events).1 == done + more);
    if at < done.len() {
        law_bind_needs_certificate(earlier, at);
        let i = choose|i: int| 0 <= i < earlier.len() && (#[trigger] earlier[i]) is TlsLoaded;
        assert(events[i] is TlsLoaded);
    } else {
        assert(more[at - done.len()] is Bind);
        assert(events[events.len() - 1] is TlsLoaded);
    }
}

/// The step of returning.
pub open spec fn hands_back<E>() -> spec_fn(ServerEffect<E>) -> bool {
    |effect: ServerEffect<E>| effect is Return
}

proof fn lemma_count_returns<E>(phase: Phase, tls: bool, event: ServerEvent<E>)
    requires
        possible_in(phase, event),
    ensures
        ({
            let (next, more) = server_step(phase, tls, event);
            let ends = !(event is Engine) && (has_stopped(next) || next == Phase::Failed);
            &&& crate::trace::count(more, hands_back()) == (if ends {
                1nat
            } else {
                0nat
            })
            &&& forall|i: int|
                0 <= i < more.len() && (#[trigger] more[i]) is Return ==> ends && more[i]->Return_0
                    == (match event {
                    ServerEvent::StartFailed(error) => Err(error),
                    _ => Ok(()),
                })
        }),
{
    reveal_with_fuel(crate::trace::count, 4);
    let more = server_step(phase, tls, event).1;
    if more.len() > 1 {
        assert(more.drop_last().last() == more[more.len() - 2]);
    }
    if more.len() > 2 {
        assert(more.drop_last().drop_last().last() == more[0]);
    }
}

/// A server returns exactly once, when it has stopped or failed, and returns an
/// error exactly if its start failed: the error that it failed with.
#[verifier::spinoff_prover]
pub proof fn law_result_is_that_of_the_start<E>(tls: bool, events: Seq<ServerEvent<E>>)
    requires
        can_happen(tls, events),
    ensures
        ({
            let (phase, done) = history(tls, events);
            let over = has_stopped(phase) || phase == Phase::Failed;
            &&& crate::trace::count(done, hands_back()) == (if over {
                1nat
            } else {
                0nat
            })
            &&& forall|i: int|
                0 <= i < done.len() && (#[trigger] done[i]) is Return ==> {
                    ||| has_stopped(phase) && done[i] == ServerEffect::<E>::Return(Ok(()))
                    ||| phase == Phase::Failed && done[i]->Return_0 is Err && events.contains(
                        ServerEvent::StartFailed(done[i]->Return_0->Err_0),
                    )
                }
            &&& forall|k: int|
                0 <= k < events.len() && (#[trigger] events[k]) is StartFailed ==> phase
                    == Phase::Failed
        }),
    decreases events.len(),
{
    if events.len() > 0 {
        let earlier = events.drop_last();
        let event = events.last();
        law_result_is_that_of_the_start(tls, earlier);
        let (phase, done) = history(tls, earlier);
        let (next, more) = server_step(phase, tls, event);
        let all = done + more;
        crate::trace::lemma_count_add(done, more, hands_back());
        lemma_count_returns(phase, tls, event);
        assert(events[events.len() - 1] == event);
        assert forall|i: int| 0 <= i < all.len() && (#[trigger] all[i]) is Return implies {
            ||| has_stopped(next) && all[i] == ServerEffect::<E>::Return(Ok(()))
            ||| next == Phase::Failed && all[i]->Return_0 is Err && events.contains(
                ServerEvent::StartFailed(all[i]->Return_0->Err_0),
            )
        } by {
            if i < done.len() {
                assert(done[i] is Return);
                assert(event is Engine);
                if phase == Phase::Failed {
                    let k = choose|k: int|
                        0 <= k < earlier.len() && earlier[k] == ServerEvent::StartFailed(
                            done[i]->Return_0->Err_0,
                        );
                    assert(events[k] == earlier[k]);
                }
            } else {
                assert(more[i - done.len()] is Return);
            }
        }
        assert forall|k: int|
            0 <= k < events.len() && (#[trigger] events[k]) is StartFailed implies next
            == Phase::Failed by {
            if k < earlier.len() {
                assert(earlier[k] is StartFailed);
            }
        }
    }
}

/// The connection came in.
pub open spec fn brings_connection<E>() -> spec_fn(ServerEvent<E>) -> bool {
    |event: ServerEvent<E>| event is Accepted
}

/// A connection is handled in the step of its own arrival, and nothing else makes
/// the server handle one.
pub proof fn law_connection_is_handled_when_it_comes<E>(
    phase: Phase,
    tls: bool,
    event: ServerEvent<E>,
)
    requires
        possible_in(phase, event),
    ensures
        crate::trace::times(server_step(phase, tls, event).1, ServerEffect::ServeConnection)
            == crate::trace::once_if(event is Accepted),
{
    crate::trace::lemma_count_few(
        server_step(phase, tls, event).1,
        crate::trace::equal_to(ServerEffect::ServeConnection),
    );
}

/// As many connections are handled as come in, over the whole life of a server,
/// with TLS or without.
pub proof fn law_every_connection_is_handled<E>(tls: bool, events: Seq<ServerEvent<E>>)
    requires
        can_happen(tls, events),
    ensures
        crate::trace::times(history(tls, events).1, ServerEffect::ServeConnection)
            == crate::trace::count(events, brings_connection()),
    decreases events.len(),
{
    if events.len() > 0 {
        law_every_connection_is_handled(tls, events.drop_last());
        let (phase, done) = history(tls, events.drop_last());
        let more = server_step(phase, tls, events.last()).1;
        crate::trace::lemma_count_add(
            done,
            more,
            crate::trace::equal_to(ServerEffect::ServeConnection),
        );
        law_connection_is_handled_when_it_comes(phase, tls, events.last());
    }
}

/// A connection that cannot be taken is reported with its error, and the server
/// reports nothing else.
pub proof fn law_refused_connection_is_reported<E>(
    phase: Phase,
    tls: bool,
    event: ServerEvent<E>,
    line: Seq<char>,
)
    requires
        possible_in(phase, event),
    ensures
        crate::trace::times(server_step(phase, tls, event).1, ServerEffect::Report(line))
            == crate::trace::once_if(
            event matches ServerEvent::AcceptFailed(error) && line
                == "Error accepting connection: "@ + error@,
        ),
{
    crate::trace::lemma_count_few(
        server_step(phase, tls, event).1,
        crate::trace::equal_to(ServerEffect::Report(line)),
    );
}

/// An engine that arrives is installed. If another runs, its streams are told to
/// end before that, and the reload is logged after it; if none does, neither
/// happens. Streams are told to end on a shutdown too, and else never.
pub proof fn law_engine_replaces_the_running_one<E>(phase: Phase, tls: bool, event: ServerEvent<E>)
    requires
        possible_in(phase, event),
    ensures
        ({
            let more = server_step(phase, tls, event).1;
            let first = phase == Phase::AwaitingEngine;
            &&& crate::trace::times(more, ServerEffect::InstallEngine) == crate::trace::once_if(
                event is Engine,
            )
            &&& crate::trace::times(more, ServerEffect::LogReloaded) == crate::trace::once_if(
                event is Engine && !first,
            )
            &&& crate::trace::times(more, ServerEffect::CancelStreams) == crate::trace::once_if(
                (event is Engine || event is Shutdown) && !first,
            )
            &&& crate::trace::comes_before(
                more,
                ServerEffect::CancelStreams,
                ServerEffect::InstallEngine,
            )
            &&& crate::trace::comes_before(
                more,
                ServerEffect::InstallEngine,
                ServerEffect::LogReloaded,
            )
        }),
{
    let more = server_step(phase, tls, event).1;
    crate::trace::lemma_count_few(more, crate::trace::equal_to(ServerEffect::InstallEngine));
    crate::trace::lemma_count_few(more, crate::trace::equal_to(ServerEffect::LogReloaded));
    crate::trace::lemma_count_few(more, crate::trace::equal_to(ServerEffect::CancelStreams));
}

/// The first engine makes the server load its certificate, where there is one, or
/// else bind its listener at once. A certificate that is loaded makes it bind its
/// listener, and a listener that is bound makes it announce its address. Nothing
/// else does any of this.
pub proof fn law_server_starts_in_order<E>(
    phase: Phase,
    tls: bool,
    event: ServerEvent<E>,
    address: Seq<char>,
)
    requires
        possible_in(phase, event),
    ensures
        ({
            let more = server_step(phase, tls, event).1;
            let first = event is Engine && phase == Phase::AwaitingEngine;
            &&& crate::trace::times(more, ServerEffect::LoadTls) == crate::trace::once_if(
                first && tls,
            )
            &&& crate::trace::times(more, ServerEffect::Bind) == crate::trace::once_if(
                first && !tls || event is TlsLoaded,
            )
            &&& crate::trace::times(more, ServerEffect::LogStarted(address))
                == crate::trace::once_if(
                event matches ServerEvent::Bound(shown) && address == announced_address(
                    shown@,
                    tls,
                ),
            )
            &&& crate::trace::comes_before(
                more,
                ServerEffect::InstallEngine,
                ServerEffect::LoadTls,
            )
            &&& crate::trace::comes_before(more, ServerEffect::InstallEngine, ServerEffect::Bind)
        }),
{
    let more = server_step(phase, tls, event).1;
    crate::trace::lemma_count_few(more, crate::trace::equal_to(ServerEffect::LoadTls));
    crate::trace::lemma_count_few(more, crate::trace::equal_to(ServerEffect::Bind));
    crate::trace::lemma_count_few(more, crate::trace::equal_to(ServerEffect::LogStarted(address)));
}

/// A shutdown of a server that runs makes it count its connections, after their
/// streams were told to end. Connections in flight are announced and then waited
/// for, ten seconds at most; where there are none, nothing is.
pub proof fn law_shutdown_waits_for_connections<E>(
    phase: Phase,
    tls: bool,
    event: ServerEvent<E>,
    inflight: usize,
    ms: u64,
)
    requires
        possible_in(phase, event),
    ensures
        ({
            let more = server_step(phase, tls, event).1;
            &&& crate::trace::times(more, ServerEffect::CountConnections) == crate::trace::once_if(
                event is Shutdown && phase == Phase::Serving,
            )
            &&& crate::trace::times(more, ServerEffect::LogStopping(inflight))
                == crate::trace::once_if(
                event == ServerEvent::<E>::Counted(inflight) && inflight > 0,
            )
            &&& crate::trace::times(more, ServerEffect::AwaitDrain(ms)) == crate::trace::once_if(
                ms == 10_000 && (event matches ServerEvent::Counted(n) && n > 0),
            )
            &&& crate::trace::comes_before(
                more,
                ServerEffect::CancelStreams,
                ServerEffect::CountConnections,
            )
            &&& crate::trace::comes_before(
                more,
                ServerEffect::LogStopping(inflight),
                ServerEffect::AwaitDrain(ms),
            )
        }),
{
    let more = server_step(phase, tls, event).1;
    crate::trace::lemma_count_few(more, crate::trace::equal_to(ServerEffect::CountConnections));
    crate::trace::lemma_count_few(
        more,
        crate::trace::equal_to(ServerEffect::LogStopping(inflight)),
    );
    crate::trace::lemma_count_few(more, crate::trace::equal_to(ServerEffect::AwaitDrain(ms)));
}

/// A server stops when nothing is left to wait for, and logs whether that is
/// because all connections have ended or because they took too long. It returns
/// after that, or with the error of a start that failed, and does nothing more in
/// that step.
pub proof fn law_server_stops_when_nothing_is_left<E>(
    phase: Phase,
    tls: bool,
    event: ServerEvent<E>,
    result: Result<(), E>,
)
    requires
        possible_in(phase, event),
    ensures
        ({
            let more = server_step(phase, tls, event).1;
            let ended = event is Drained || event == ServerEvent::<E>::Counted(0) || (
            event is Shutdown && phase == Phase::AwaitingEngine);
            &&& crate::trace::times(more, ServerEffect::LogStopped) == crate::trace::once_if(ended)
            &&& crate::trace::times(more, ServerEffect::LogStopTimedOut) == crate::trace::once_if(
                event is DrainTimedOut,
            )
            &&& crate::trace::times(more, ServerEffect::Return(result)) == crate::trace::once_if(
                match event {
                    ServerEvent::StartFailed(error) => result == Err::<(), E>(error),
                    _ => result == Ok::<(), E>(()) && (ended || event is DrainTimedOut),
                },
            )
            &&& forall|i: int|
                0 <= i < more.len() && (#[trigger] more[i]) is Return ==> i == more.len() - 1
        }),
{
    let more = server_step(phase, tls, event).1;
    crate::trace::lemma_count_few(more, crate::trace::equal_to(ServerEffect::LogStopped));
    crate::trace::lemma_count_few(more, crate::trace::equal_to(ServerEffect::LogStopTimedOut));
    crate::trace::lemma_count_few(more, crate::trace::equal_to(ServerEffect::Return(result)));
}

/// Where each event leads. A server keeps serving until it is shut down, whatever
/// comes of its connections and however many engines arrive; an engine moves it on
/// only if it is the first.
pub proof fn law_where_events_lead<E>(phase: Phase, tls: bool, event: ServerEvent<E>)
    requires
        possible_in(phase, event),
    ensures
        ({
            let next = server_step(phase, tls, event).0;
            let first = phase == Phase::AwaitingEngine;
            &&& event is Engine && !first ==> next == phase
            &&& event is Engine && first ==> (next == Phase::LoadingTls <==> tls)
            &&& event is Engine && first ==> (next == Phase::Starting <==> !tls)
            &&& event is Accepted || event is AcceptFailed ==> next == Phase::Serving
            &&& next == Phase::Serving && phase != Phase::Serving <==> event is Bound
            &&& event is TlsLoaded ==> next == Phase::Starting
            &&& event is StartFailed <==> next == Phase::Failed && phase != Phase::Failed
            &&& event is Shutdown ==> (next == Phase::NeverStarted <==> first)
            &&& event is Shutdown ==> (next == Phase::Counting <==> !first)
            &&& event matches ServerEvent::Counted(n) ==> (next == Phase::Draining <==> n > 0)
            &&& event matches ServerEvent::Counted(n) ==> (next == Phase::Stopped <==> n == 0)
            &&& event is Drained || event is DrainTimedOut ==> next == Phase::Stopped
        }),
{
}

/// In every phase there is something that can come: an engine unless the server
/// never started, a shutdown while it waits or serves, the outcomes of a start
/// that is under way, connections while it serves, and what a stop waits for.
pub proof fn law_what_can_come<E>(
    phase: Phase,
    text: String,
    error: E,
    inflight: usize,
)
    ensures
        possible_in(phase, ServerEvent::<E>::Engine) <==> phase != Phase::NeverStarted,
        possible_in(phase, ServerEvent::<E>::Shutdown) <==> phase == Phase::AwaitingEngine || phase
            == Phase::Serving,
        possible_in(phase, ServerEvent::<E>::TlsLoaded) <==> phase == Phase::LoadingTls,
        possible_in(phase, ServerEvent::<E>::Bound(text)) <==> phase == Phase::Starting,
        possible_in(phase, ServerEvent::StartFailed(error)) <==> phase == Phase::LoadingTls || phase
            == Phase::Starting,
        possible_in(phase, ServerEvent::<E>::Accepted) <==> phase == Phase::Serving,
        possible_in(phase, ServerEvent::<E>::AcceptFailed(text)) <==> phase == Phase::Serving,
        possible_in(phase, ServerEvent::<E>::Counted(inflight)) <==> phase == Phase::Counting,
        possible_in(phase, ServerEvent::<E>::Drained) <==> phase == Phase::Draining,
        possible_in(phase, ServerEvent::<E>::DrainTimedOut) <==> phase == Phase::Draining,
{
}

/// What is announced names what the listener shows: a socket path as it is, and
/// any other address behind the scheme that fits, less one mark at its end if it
/// has one.
pub proof fn law_announced_address_names_the_listener(shown: Seq<char>, tls: bool)
    ensures
        ({
            let announced = announced_address(shown, tls);
            let scheme = if tls {
                "https://"@
            } else {
                "http://"@
            };
            let socket = shown.len() > 0 && shown[0] == '/';
            &&& socket ==> announced == shown
            &&& !socket && !" (TLS)"@.is_suffix_of(shown) ==> announced == scheme + shown
            &&& !socket && " (TLS)"@.is_suffix_of(shown) ==> announced + " (TLS)"@ == scheme + shown
        }),
{
    if " (TLS)"@.is_suffix_of(shown) {
        let host = shown.take(shown.len() - " (TLS)"@.len());
        assert(host + " (TLS)"@ =~= shown);
        assert("https://"@ + host + " (TLS)"@ =~= "https://"@ + shown);
        assert("http://"@ + host + " (TLS)"@ =~= "http://"@ + shown);
    }
}

/// An error is passed over exactly if the HTTP layer says that the client went
/// away. One that is not the layer's own never is.
pub proof fn law_only_disconnects_are_passed_over(error: ConnectionError)
    ensures
        error.http is None ==> !is_disconnect(error),
        error.http matches Some(fault) ==> (is_disconnect(error) <==> fault.incomplete_message
            || fault.body_write_aborted),
{
}

/// What is asked for is seen as it is: nothing is added, left out or changed.
pub proof fn law_actions_are_seen_as_they_are<E>(actions: Seq<ServerAction<E>>, at: int)
    requires
        0 <= at < actions.len(),
    ensures
        effects(actions).len() == actions.len(),
        match (actions[at], effects(actions)[at]) {
            (ServerAction::LogStarted(a), ServerEffect::LogStarted(b)) => a@ == b,
            (ServerAction::Report(a), ServerEffect::Report(b)) => a@ == b,
            (ServerAction::LogStopping(a), ServerEffect::LogStopping(b)) => a == b,
            (ServerAction::AwaitDrain(a), ServerEffect::AwaitDrain(b)) => a == b,
            (ServerAction::Return(a), ServerEffect::Return(b)) => a == b,
            (a, b) => {
                ||| a is CancelStreams && b is CancelStreams
                ||| a is InstallEngine && b is InstallEngine
                ||| a is LogReloaded && b is LogReloaded
                ||| a is LoadTls && b is LoadTls
                ||| a is Bind && b is Bind
                ||| a is ServeConnection && b is ServeConnection
                ||| a is CountConnections && b is CountConnections
                ||| a is LogStopped && b is LogStopped
                ||| a is LogStopTimedOut && b is LogStopTimedOut
            },
        },
{
}

} // verus!
