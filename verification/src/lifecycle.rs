//! The server lifecycle controller: graceful start, stop and restart over
//! the owned socket-server state.  The actual listener, its task and the
//! shutdown signal live outside the library; this state machine decides what
//! they do, and how the outcome of awaiting the old task maps to a status.
use crate::config::ServerConfig;
use crate::socket_server::SocketServer;
use vstd::prelude::*;

verus! {

/// What can go wrong around the server's lifetime.
pub enum ServerError {
    /// The server is already running.
    AlreadyRunning,
    /// An input or output operation failed; the text says which.
    Io(String),
    /// TLS could not be set up.
    Tls(String),
    /// A certificate could not be loaded.
    Certificate(String),
    /// Anything else.
    Other(String),
}

/// How a shutdown went.
#[derive(Clone, Copy, PartialEq, Eq, Structural, Debug)]
pub enum ShutdownStatus {
    /// The server finished cleanly within the wait.
    Graceful,
    /// The server finished, but reported an error or was torn down.
    WithIssues,
    /// The server did not finish within the wait.
    Timeout,
    /// There was nothing to stop.
    NotRunning,
}

/// How awaiting the old server task ended: it finished cleanly, it finished
/// with an error, its task was torn down, or the wait ran out.
pub enum AwaitOutcome {
    FinishedOk,
    FinishedErr,
    JoinFailed,
    TimedOut,
}

/// The status a shutdown reports for each way the wait can end.
pub open spec fn spec_shutdown_status(o: AwaitOutcome) -> ShutdownStatus {
    match o {
        AwaitOutcome::FinishedOk => ShutdownStatus::Graceful,
        AwaitOutcome::FinishedErr => ShutdownStatus::WithIssues,
        AwaitOutcome::JoinFailed => ShutdownStatus::WithIssues,
        AwaitOutcome::TimedOut => ShutdownStatus::Timeout,
    }
}

/// Map the outcome of awaiting the old server task to the reported status.
pub fn shutdown_status_of(outcome: AwaitOutcome) -> (r: ShutdownStatus)
    ensures
        r == spec_shutdown_status(outcome),
{
    match outcome {
        AwaitOutcome::FinishedOk => ShutdownStatus::Graceful,
        AwaitOutcome::FinishedErr => ShutdownStatus::WithIssues,
        AwaitOutcome::JoinFailed => ShutdownStatus::WithIssues,
        AwaitOutcome::TimedOut => ShutdownStatus::Timeout,
    }
}

/// The lifecycle controller's own state: the configuration the running
/// listener was started with, if one runs, and the socket server it owns.
pub struct ServerHandle {
    pub running: Option<ServerConfig>,
    pub socket_server: Option<SocketServer>,
}

impl ServerHandle {
    /// A controller with nothing running.
    pub fn new() -> (r: ServerHandle)
        ensures
            r.running is None,
            r.socket_server is None,
    {
        ServerHandle { running: None, socket_server: None }
    }

    /// Whether a server is running.
    pub fn is_running(&self) -> (r: bool)
        ensures
            r == (self.running is Some),
    {
        self.running.is_some()
    }

    /// Tear the running server down, given how awaiting its task went, and
    /// report the status.  All in-memory connection state is dropped with it.
    pub fn reset(&mut self, outcome: AwaitOutcome) -> (r: ShutdownStatus)
        ensures
            final(self).running is None,
            final(self).socket_server is None,
            old(self).running is Some ==> r == spec_shutdown_status(outcome),
            old(self).running is None ==> r == ShutdownStatus::NotRunning,
    {
        if self.running.is_none() {
            self.socket_server = None;
            return ShutdownStatus::NotRunning;
        }
        self.running = None;
        match &mut self.socket_server {
            Some(s) => s.clear_all_connections(),
            None => {},
        }
        self.socket_server = None;
        shutdown_status_of(outcome)
    }

    /// Stop the running server, if any.
    pub fn stop(&mut self, outcome: AwaitOutcome) -> (r: ShutdownStatus)
        ensures
            final(self).running is None,
            final(self).socket_server is None,
            old(self).running is Some ==> r == spec_shutdown_status(outcome),
            old(self).running is None ==> r == ShutdownStatus::NotRunning,
    {
        self.reset(outcome)
    }

    /// Start a server under the given configuration.  A running server is
    /// torn down first, and the socket-server state is built afresh, so
    /// nothing leaks across restarts.
    pub fn start(&mut self, config: ServerConfig, outcome_if_running: AwaitOutcome)
        ensures
            ({
                let r = final(self).running;
                &&& r matches Some(c) && c.port == config.port && c.host@ == config.host@
                    && c.enable_reactotron_server == config.enable_reactotron_server
            }),
            final(self).socket_server matches Some(s) && s.clients@.len() == 0
                && s.devtools@.len() == 0
                && s.react_native_inspector_manager.connections@.len() == 0
                && s.response_bodies@.len() == 0 && (config.enable_reactotron_server
                <==> s.reactotron_server is Some),
    {
        if self.running.is_some() {
            let _status = self.reset(outcome_if_running);
        }
        let fresh = SocketServer::new(config.enable_reactotron_server);
        self.socket_server = Some(fresh);
        self.running = Some(config);
    }
}

/// Graceful restart idempotence: starting under one configuration and then
/// under another leaves exactly one running server, under the second
/// configuration, with no connection state left over from the first.
pub proof fn lemma_restart_idempotent(
    h0: ServerHandle,
    h1: ServerHandle,
    h2: ServerHandle,
    c1: ServerConfig,
    c2: ServerConfig,
)
    requires
        start_rel(h0, h1, c1),
        start_rel(h1, h2, c2),
    ensures
        h2.running matches Some(c) && c.port == c2.port && c.host@ == c2.host@,
        h2.socket_server matches Some(s) && s.clients@.len() == 0 && s.devtools@.len() == 0
            && s.react_native_inspector_manager.connections@.len() == 0
            && s.response_bodies@.len() == 0,
{
}

/// What `start` leaves behind, as a relation over controller states.
pub open spec fn start_rel(pre: ServerHandle, post: ServerHandle, config: ServerConfig) -> bool {
    &&& (post.running matches Some(c) && c.port == config.port && c.host@ == config.host@
        && c.enable_reactotron_server == config.enable_reactotron_server)
    &&& (post.socket_server matches Some(s) && s.clients@.len() == 0 && s.devtools@.len() == 0
        && s.react_native_inspector_manager.connections@.len() == 0 && s.response_bodies@.len()
        == 0 && (config.enable_reactotron_server <==> s.reactotron_server is Some))
}

} // verus!
