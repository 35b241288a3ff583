use vstd::prelude::*;

use crate::config::Config;

verus! {

/// The operation that the server's transport accept loop waits on.
#[derive(Debug, Clone, Copy, PartialEq, Eq, Structural)]
pub enum ServerPhase {
    /// Binding the transport listener.
    Bind,
    /// Accepting the next transport connection.
    AcceptTransport,
    /// Wrapping the connection just accepted in a server-role session.
    NewSession,
    /// A listener error ended the egress.
    Stopped,
}

/// The outcome of one operation of the accept loop: what to wait on next,
/// and whether to start a stream-accepting loop for the new session.
#[derive(Debug, Clone, Copy, PartialEq, Eq, Structural)]
pub struct ServerStep {
    pub next: ServerPhase,
    pub spawn_session: bool,
}

/// The operation that one session's loop waits on.
#[derive(Debug, Clone, Copy, PartialEq, Eq, Structural)]
pub enum SessionPhase {
    /// Accepting the next stream of the session.
    AcceptStream,
    /// The session failed; it accepts no more streams.
    Ended,
}

/// The outcome of one stream accept: what to wait on next, and whether to
/// connect the new stream to the target and relay it.
#[derive(Debug, Clone, Copy, PartialEq, Eq, Structural)]
pub struct SessionStep {
    pub next: SessionPhase,
    pub spawn_handler: bool,
}

/// The step of the accept loop that follows `phase`. Only listener failures
/// are fatal; a connection that cannot become a session is dropped.
pub open spec fn server_step(phase: ServerPhase, ok: bool) -> ServerStep {
    match phase {
        ServerPhase::Bind => ServerStep {
            next: if ok { ServerPhase::AcceptTransport } else { ServerPhase::Stopped },
            spawn_session: false,
        },
        ServerPhase::AcceptTransport => ServerStep {
            next: if ok { ServerPhase::NewSession } else { ServerPhase::Stopped },
            spawn_session: false,
        },
        ServerPhase::NewSession => ServerStep {
            next: ServerPhase::AcceptTransport,
            spawn_session: ok,
        },
        ServerPhase::Stopped => ServerStep { next: ServerPhase::Stopped, spawn_session: false },
    }
}

/// The step of a session's loop that follows `phase`: each accepted stream
/// gets a handler, and a failed accept ends this session's loop.
pub open spec fn session_step(phase: SessionPhase, ok: bool) -> SessionStep {
    match phase {
        SessionPhase::AcceptStream => if ok {
            SessionStep { next: SessionPhase::AcceptStream, spawn_handler: true }
        } else {
            SessionStep { next: SessionPhase::Ended, spawn_handler: false }
        },
        SessionPhase::Ended => SessionStep { next: SessionPhase::Ended, spawn_handler: false },
    }
}

/// Decides what the accept loop does after `phase` succeeded or failed.
pub fn next_server_step(phase: ServerPhase, ok: bool) -> (r: ServerStep)
    ensures
        r == server_step(phase, ok),
{
    match phase {
        ServerPhase::Bind => ServerStep {
            next: if ok { ServerPhase::AcceptTransport } else { ServerPhase::Stopped },
            spawn_session: false,
        },
        ServerPhase::AcceptTransport => ServerStep {
            next: if ok { ServerPhase::NewSession } else { ServerPhase::Stopped },
            spawn_session: false,
        },
        ServerPhase::NewSession => ServerStep {
            next: ServerPhase::AcceptTransport,
            spawn_session: ok,
        },
        ServerPhase::Stopped => ServerStep { next: ServerPhase::Stopped, spawn_session: false },
    }
}

/// Decides what a session's loop does after a stream accept succeeded or
/// failed.
pub fn next_session_step(phase: SessionPhase, ok: bool) -> (r: SessionStep)
    ensures
        r == session_step(phase, ok),
{
    match phase {
        SessionPhase::AcceptStream => if ok {
            SessionStep { next: SessionPhase::AcceptStream, spawn_handler: true }
        } else {
            SessionStep { next: SessionPhase::Ended, spawn_handler: false }
        },
        SessionPhase::Ended => SessionStep { next: SessionPhase::Ended, spawn_handler: false },
    }
}

/// The phases of all sessions after session `k` saw an accept outcome.
pub open spec fn sessions_after(sessions: Seq<SessionPhase>, k: int, ok: bool) -> Seq<
    SessionPhase,
> {
    sessions.update(k, session_step(sessions[k], ok).next)
}

/// Tearing down one session ends its own stream acceptance only: every
/// other session goes on accepting as before, and so does the transport
/// accept loop, which never looks at a session's outcome.
pub proof fn lemma_session_independence(
    sessions: Seq<SessionPhase>,
    k: int,
    listener: ServerPhase,
)
    requires
        0 <= k < sessions.len(),
    ensures
        sessions_after(sessions, k, false)[k] == SessionPhase::Ended,
        forall|j: int|
            0 <= j < sessions.len() && j != k ==> #[trigger] sessions_after(sessions, k, false)[j]
                == sessions[j],
        sessions_after(sessions, k, false).len() == sessions.len(),
        listener == ServerPhase::AcceptTransport ==> server_step(listener, true).next
            == ServerPhase::NewSession,
        server_step(ServerPhase::NewSession, false) == (ServerStep {
            next: ServerPhase::AcceptTransport,
            spawn_session: false,
        }),
{
}

/// The server role: a transport listener whose every connection becomes a
/// session, each of whose streams is relayed to one fixed target.
pub struct Server {
    config: Config,
}

impl Server {
    pub closed spec fn config_spec(&self) -> Config {
        self.config
    }

    pub fn new(config: Config) -> (r: Self)
        ensures
            r.config_spec() == config,
    {
        Server { config }
    }

    pub fn config(&self) -> (r: &Config)
        ensures
            *r == self.config_spec(),
    {
        &self.config
    }
}

} // verus!
