//! The listener of one virtual server, as a state machine.
//!
//! The listener does not touch a socket. It is told what happened (the
//! pipeline was built, the port was bound, a connection came in) and answers
//! with what to do next. Whoever runs it performs the action and reports the
//! next event.

use crate::config::{BackendConfig, ServerConfig};
use crate::error::{ConfigError, ServerError};
use crate::layer::balance::{idle, pool_fault, targets_of, Endpoints};
use crate::layer::limiter::{initial, Limiter};
use vstd::prelude::*;

verus! {

/// The status code of the response sent when a request could not be relayed.
pub const BAD_GATEWAY: u16 = 502;

/// Where a listener is in its life.
#[derive(Debug, Clone, Copy, PartialEq, Eq, Structural)]
pub enum Phase {
    /// Nothing has happened yet.
    Idle,
    /// The pipeline is being built.
    Building,
    /// The listen port is being bound.
    Binding,
    /// Connections are being accepted.
    Listening,
    /// The listener gave up before serving anything.
    Failed,
}

/// What a listener is told.
#[derive(Debug, Clone, Copy, PartialEq, Eq, Structural)]
pub enum ServerEvent {
    /// The server is to start.
    Start,
    /// The pipeline was built.
    Built,
    /// The pipeline could not be built.
    BuildFailed(ConfigError),
    /// The listen port was bound.
    Bound,
    /// The listen port could not be bound.
    BindFailed,
    /// A connection came in.
    Accepted,
    /// Accepting a connection failed.
    AcceptFailed,
    /// A connection ended, cleanly or on a fault of its own.
    ConnectionEnded,
}

/// What a listener asks for.
#[derive(Debug, Clone, Copy, PartialEq, Eq, Structural)]
pub enum ServerAction {
    /// Build the pipeline and report `Built` or `BuildFailed`.
    Build,
    /// Bind the port and report `Bound` or `BindFailed`.
    Bind { port: u16 },
    /// Wait for the next connection and report `Accepted` or `AcceptFailed`.
    Accept,
    /// Serve the connection that came in on a task of its own, over the
    /// pipeline, and go on accepting.
    Serve,
    /// Stop: the server cannot run.
    Abort(ServerError),
    /// Nothing to do.
    Ignore,
}

/// The phase after `event`, for a server listening on `port`.
pub open spec fn next_phase(phase: Phase, event: ServerEvent) -> Phase {
    match (phase, event) {
        (Phase::Idle, ServerEvent::Start) => Phase::Building,
        (Phase::Building, ServerEvent::Built) => Phase::Binding,
        (Phase::Building, ServerEvent::BuildFailed(_)) => Phase::Failed,
        (Phase::Binding, ServerEvent::Bound) => Phase::Listening,
        (Phase::Binding, ServerEvent::BindFailed) => Phase::Failed,
        _ => phase,
    }
}

/// What is asked for on `event`, for a server listening on `port`.
pub open spec fn next_action(phase: Phase, port: u16, event: ServerEvent) -> ServerAction {
    match (phase, event) {
        (Phase::Idle, ServerEvent::Start) => ServerAction::Build,
        (Phase::Building, ServerEvent::Built) => ServerAction::Bind { port },
        (Phase::Building, ServerEvent::BuildFailed(fault)) => ServerAction::Abort(
            ServerError::Config(fault),
        ),
        (Phase::Binding, ServerEvent::Bound) => ServerAction::Accept,
        (Phase::Binding, ServerEvent::BindFailed) => ServerAction::Abort(
            ServerError::Bind { port },
        ),
        (Phase::Listening, ServerEvent::Accepted) => ServerAction::Serve,
        (Phase::Listening, ServerEvent::AcceptFailed) => ServerAction::Accept,
        _ => ServerAction::Ignore,
    }
}

/// What is wrong with a server definition, if anything: a listen port that is 0,
/// or else whatever is wrong with its backends.
pub open spec fn server_fault(port: u16, backends: Seq<BackendConfig>) -> Option<ConfigError> {
    if port == 0 {
        Some(ConfigError::InvalidPort)
    } else {
        pool_fault(backends)
    }
}

/// The answer to one request.
#[derive(Debug)]
pub enum Reply<R> {
    /// The backend's response, as it came.
    Upstream(R),
    /// The request could not be relayed: a bad-gateway response.
    BadGateway,
}

impl<R> Reply<R> {
    /// The status the proxy itself puts on the response, if it is the
    /// proxy's own; a backend's response keeps the status it came with.
    pub fn own_status(&self) -> (status: Option<u16>)
        ensures
            status == match *self {
                Reply::Upstream(_) => None::<u16>,
                Reply::BadGateway => Some(BAD_GATEWAY),
            },
    {
        match self {
            Reply::Upstream(_) => None,
            Reply::BadGateway => Some(BAD_GATEWAY),
        }
    }
}

/// Turns the outcome of relaying one request into the answer for the client:
/// a response goes back untouched, a failure becomes a bad-gateway response
/// for that request alone.
pub fn reply<R, E>(outcome: Result<R, E>) -> (answer: Reply<R>)
    ensures
        answer == match outcome {
            Ok(response) => Reply::Upstream(response),
            Err(_) => Reply::BadGateway,
        },
{
    match outcome {
        Ok(response) => Reply::Upstream(response),
        Err(_) => Reply::BadGateway,
    }
}

/// The listener of one virtual server.
#[derive(Debug)]
pub struct HttpServer {
    config: ServerConfig,
    phase: Phase,
}

impl HttpServer {
    /// The server's definition.
    pub closed spec fn config(&self) -> ServerConfig {
        self.config
    }

    /// Where the listener is in its life.
    pub closed spec fn phase(&self) -> Phase {
        self.phase
    }

    /// A listener for `config` that has not started.
    pub fn new(config: ServerConfig) -> (server: Self)
        ensures
            server.config() == config,
            server.phase() == Phase::Idle,
    {
        HttpServer { config, phase: Phase::Idle }
    }

    /// The server's definition.
    pub fn definition(&self) -> (config: &ServerConfig)
        ensures
            *config == self.config(),
    {
        &self.config
    }

    /// Where the listener is in its life.
    pub fn current_phase(&self) -> (phase: Phase)
        ensures
            phase == self.phase(),
    {
        self.phase
    }

    /// Builds the pipeline that requests to this server go through: a pool
    /// over the server's backends, in their order, with every load at zero.
    /// It fails, building nothing, on a listen port that is 0, on a server
    /// without backends and on a faulty backend.
    pub fn pipeline(&self) -> (built: Result<Endpoints, ConfigError>)
        ensures
            match built {
                Ok(pool) => {
                    &&& pool.wf()
                    &&& server_fault(self.config().listen_port(), self.config().definitions())
                        is None
                    &&& pool.targets() == targets_of(self.config().definitions())
                    &&& pool.loads() == idle(self.config().definitions().len())
                },
                Err(fault) => server_fault(
                    self.config().listen_port(),
                    self.config().definitions(),
                ) == Some(fault),
            },
    {
        if self.config.port() == 0 {
            return Err(ConfigError::InvalidPort);
        }
        Endpoints::new(self.config.backends())
    }

    /// Builds the pipeline with a rate limiter around the pool, letting
    /// `qps` calls through per second. It fails as `pipeline` does.
    pub fn throttled_pipeline(&self, qps: u64) -> (built: Result<Limiter<Endpoints>, ConfigError>)
        requires
            qps > 0,
        ensures
            match built {
                Ok(limiter) => {
                    &&& limiter.qps() == qps
                    &&& limiter.window() == initial(qps)
                    &&& limiter.inner().wf()
                    &&& server_fault(self.config().listen_port(), self.config().definitions())
                        is None
                    &&& limiter.inner().targets() == targets_of(self.config().definitions())
                    &&& limiter.inner().loads() == idle(self.config().definitions().len())
                },
                Err(fault) => server_fault(
                    self.config().listen_port(),
                    self.config().definitions(),
                ) == Some(fault),
            },
    {
        match self.pipeline() {
            Ok(pool) => Ok(Limiter::new(pool, qps)),
            Err(fault) => Err(fault),
        }
    }

    /// Takes one event and says what to do about it. Events that make no
    /// sense in the current phase are ignored and change nothing.
    pub fn step(&mut self, event: ServerEvent) -> (action: ServerAction)
        ensures
            final(self).config() == old(self).config(),
            final(self).phase() == next_phase(old(self).phase(), event),
            action == next_action(old(self).phase(), old(self).config().listen_port(), event),
    {
        let port = self.config.port();
        match (self.phase, event) {
            (Phase::Idle, ServerEvent::Start) => {
                self.phase = Phase::Building;
                ServerAction::Build
            },
            (Phase::Building, ServerEvent::Built) => {
                self.phase = Phase::Binding;
                ServerAction::Bind { port }
            },
            (Phase::Building, ServerEvent::BuildFailed(fault)) => {
                self.phase = Phase::Failed;
                ServerAction::Abort(ServerError::Config(fault))
            },
            (Phase::Binding, ServerEvent::Bound) => {
                self.phase = Phase::Listening;
                ServerAction::Accept
            },
            (Phase::Binding, ServerEvent::BindFailed) => {
                self.phase = Phase::Failed;
                ServerAction::Abort(ServerError::Bind { port })
            },
            (Phase::Listening, ServerEvent::Accepted) => ServerAction::Serve,
            (Phase::Listening, ServerEvent::AcceptFailed) => ServerAction::Accept,
            _ => ServerAction::Ignore,
        }
    }
}

/// The phase of a new listener after a history of events.
pub open spec fn phase_after(events: Seq<ServerEvent>) -> Phase
    decreases events.len(),
{
    if events.len() == 0 {
        Phase::Idle
    } else {
        next_phase(phase_after(events.drop_last()), events.last())
    }
}

/// Once a listener accepts connections it goes on doing so whatever
/// happens: a failed accept is followed by another accept, a connection
/// that ends takes nothing else with it, and no event stops the listener or
/// makes it abort.
pub proof fn law_listening_never_ends(port: u16, event: ServerEvent)
    ensures
        next_phase(Phase::Listening, event) == Phase::Listening,
        !(next_action(Phase::Listening, port, event) is Abort),
        event == ServerEvent::AcceptFailed ==> next_action(Phase::Listening, port, event)
            == ServerAction::Accept,
        event == ServerEvent::ConnectionEnded ==> next_action(Phase::Listening, port, event)
            == ServerAction::Ignore,
{
}

/// A listener that gave up stays down and asks for nothing more.
pub proof fn law_failed_is_final(port: u16, event: ServerEvent)
    ensures
        next_phase(Phase::Failed, event) == Phase::Failed,
        next_action(Phase::Failed, port, event) == ServerAction::Ignore,
{
}

/// No traffic before the pipeline stands and the port is bound: a listener
/// that accepts connections was told, in this order, that the pipeline was
/// built and that the port was bound, and never that either failed before
/// that.
pub proof fn law_listening_needs_pipeline_and_port(events: Seq<ServerEvent>)
    requires
        phase_after(events) == Phase::Listening,
    ensures
        exists|i: int, j: int|
            0 <= i < j < events.len() && events[i] == ServerEvent::Built && events[j]
                == ServerEvent::Bound && phase_after(events.take(i)) == Phase::Building
                && phase_after(events.take(j)) == Phase::Binding,
    decreases events.len(),
{
    let before = events.drop_last();
    let last = events.len() - 1;
    if phase_after(before) == Phase::Listening {
        law_listening_needs_pipeline_and_port(before);
        let (i, j) = choose|i: int, j: int|
            0 <= i < j < before.len() && before[i] == ServerEvent::Built && before[j]
                == ServerEvent::Bound && phase_after(before.take(i)) == Phase::Building
                && phase_after(before.take(j)) == Phase::Binding;
        assert(events.take(i) =~= before.take(i));
        assert(events.take(j) =~= before.take(j));
        assert(events[i] == before[i] && events[j] == before[j]);
    } else {
        assert(phase_after(before) == Phase::Binding && events[last] == ServerEvent::Bound);
        lemma_binding_needs_pipeline(before);
        let i = choose|i: int|
            0 <= i < before.len() && before[i] == ServerEvent::Built && phase_after(
                before.take(i),
            ) == Phase::Building;
        assert(events.take(i) =~= before.take(i));
        assert(events.take(last) =~= before);
        assert(events[i] == before[i]);
    }
}

/// A listener that is binding its port was told that the pipeline was
/// built.
proof fn lemma_binding_needs_pipeline(events: Seq<ServerEvent>)
    requires
        phase_after(events) == Phase::Binding,
    ensures
        exists|i: int|
            0 <= i < events.len() && events[i] == ServerEvent::Built && phase_after(
                events.take(i),
            ) == Phase::Building,
    decreases events.len(),
{
    let before = events.drop_last();
    let last = events.len() - 1;
    if phase_after(before) == Phase::Binding {
        lemma_binding_needs_pipeline(before);
        let i = choose|i: int|
            0 <= i < before.len() && before[i] == ServerEvent::Built && phase_after(
                before.take(i),
            ) == Phase::Building;
        assert(events.take(i) =~= before.take(i));
        assert(events[i] == before[i]);
    } else {
        assert(phase_after(before) == Phase::Building && events[last] == ServerEvent::Built);
        assert(events.take(last) =~= before);
    }
}

} // verus!
