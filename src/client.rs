use vstd::prelude::*;

use crate::config::Config;

verus! {

/// The operation that the client ingress waits on.
#[derive(Debug, Clone, Copy, PartialEq, Eq, Structural)]
pub enum ClientPhase {
    /// Dialing the one transport connection to the server.
    Dial,
    /// Wrapping that connection in a client-role session.
    NewSession,
    /// Binding the local TCP listener.
    Bind,
    /// Accepting the next local TCP connection.
    Accept,
    /// Opening a stream for the connection just accepted.
    OpenStream,
    /// A setup or listener error ended the ingress.
    Stopped,
}

/// The outcome of one operation: what to wait on next, and whether to hand
/// the accepted connection and its new stream to a relay of their own.
#[derive(Debug, Clone, Copy, PartialEq, Eq, Structural)]
pub struct ClientStep {
    pub next: ClientPhase,
    pub spawn_relay: bool,
}

/// The step that follows `phase` when its operation succeeded (`ok`) or
/// failed. Setup and listener failures are fatal; a stream that cannot be
/// opened only drops its connection.
pub open spec fn client_step(phase: ClientPhase, ok: bool) -> ClientStep {
    match phase {
        ClientPhase::Dial => ClientStep {
            next: if ok { ClientPhase::NewSession } else { ClientPhase::Stopped },
            spawn_relay: false,
        },
        ClientPhase::NewSession => ClientStep {
            next: if ok { ClientPhase::Bind } else { ClientPhase::Stopped },
            spawn_relay: false,
        },
        ClientPhase::Bind => ClientStep {
            next: if ok { ClientPhase::Accept } else { ClientPhase::Stopped },
            spawn_relay: false,
        },
        ClientPhase::Accept => ClientStep {
            next: if ok { ClientPhase::OpenStream } else { ClientPhase::Stopped },
            spawn_relay: false,
        },
        ClientPhase::OpenStream => ClientStep { next: ClientPhase::Accept, spawn_relay: ok },
        ClientPhase::Stopped => ClientStep { next: ClientPhase::Stopped, spawn_relay: false },
    }
}

/// Decides what the client ingress does after `phase` succeeded or failed.
pub fn next_client_step(phase: ClientPhase, ok: bool) -> (r: ClientStep)
    ensures
        r == client_step(phase, ok),
{
    match phase {
        ClientPhase::Dial => ClientStep {
            next: if ok { ClientPhase::NewSession } else { ClientPhase::Stopped },
            spawn_relay: false,
        },
        ClientPhase::NewSession => ClientStep {
            next: if ok { ClientPhase::Bind } else { ClientPhase::Stopped },
            spawn_relay: false,
        },
        ClientPhase::Bind => ClientStep {
            next: if ok { ClientPhase::Accept } else { ClientPhase::Stopped },
            spawn_relay: false,
        },
        ClientPhase::Accept => ClientStep {
            next: if ok { ClientPhase::OpenStream } else { ClientPhase::Stopped },
            spawn_relay: false,
        },
        ClientPhase::OpenStream => ClientStep { next: ClientPhase::Accept, spawn_relay: ok },
        ClientPhase::Stopped => ClientStep { next: ClientPhase::Stopped, spawn_relay: false },
    }
}

/// The steps that a run of operation outcomes leads through, from `phase`.
pub open spec fn client_run(phase: ClientPhase, outcomes: Seq<bool>) -> ClientPhase
    decreases outcomes.len(),
{
    if outcomes.len() == 0 {
        phase
    } else {
        client_run(client_step(phase, outcomes[0]).next, outcomes.skip(1))
    }
}

/// When the session refuses to open a stream, the connection is dropped and
/// the ingress goes back to accepting; a run of accepted connections whose
/// streams all fail to open never stops it.
pub proof fn lemma_open_stream_failure_keeps_accepting(n: nat)
    ensures
        client_step(ClientPhase::OpenStream, false) == (ClientStep {
            next: ClientPhase::Accept,
            spawn_relay: false,
        }),
        client_run(ClientPhase::Accept, Seq::new(2 * n, |i: int| i % 2 == 0))
            == ClientPhase::Accept,
    decreases n,
{
    let s = Seq::new(2 * n, |i: int| i % 2 == 0);
    if n > 0 {
        lemma_open_stream_failure_keeps_accepting((n - 1) as nat);
        let t = Seq::new(2 * (n - 1) as nat, |i: int| i % 2 == 0);
        assert(s.skip(1).skip(1) =~= t);
        assert(s[0]);
        assert(!s.skip(1)[0]);
        assert(client_run(ClientPhase::OpenStream, s.skip(1)) == client_run(
            ClientPhase::Accept,
            s.skip(1).skip(1),
        ));
        assert(client_run(ClientPhase::Accept, s) == client_run(
            ClientPhase::OpenStream,
            s.skip(1),
        ));
    }
}

/// The client role: one transport connection, one session over it, and a
/// local listener whose connections each get a stream of that session.
pub struct Client {
    config: Config,
}

impl Client {
    pub closed spec fn config_spec(&self) -> Config {
        self.config
    }

    pub fn new(config: Config) -> (r: Self)
        ensures
            r.config_spec() == config,
    {
        Client { config }
    }

    pub fn config(&self) -> (r: &Config)
        ensures
            *r == self.config_spec(),
    {
        &self.config
    }
}

} // verus!
