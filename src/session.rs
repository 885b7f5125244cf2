use vstd::prelude::*;
use crate::messages::Handshake;

verus! {

/// Lifecycle of one session; `Disconnected` is terminal.
#[derive(Clone, Copy, Debug, PartialEq, Eq, Structural)]
pub enum SessionState {
    Connecting,
    Connected,
    Disconnected,
}

/// What can happen to a session.
#[derive(Clone, Copy, Debug, PartialEq, Eq, Structural)]
pub enum SessionEvent {
    /// A connect request declaring `declared`, checked against the server's `expected`.
    Handshake { declared: u32, expected: u32 },
    /// No traffic within the liveness timeout.
    LivenessLost,
    /// The peer said goodbye.
    DisconnectMessage,
    /// A reliable message was never acknowledged.
    RetransmissionExhausted,
}

/// The transition relation of a session.
pub open spec fn transition(s: SessionState, e: SessionEvent) -> SessionState {
    match s {
        SessionState::Connecting => match e {
            SessionEvent::Handshake { declared, expected } => if declared == expected {
                SessionState::Connected
            } else {
                SessionState::Disconnected
            },
            _ => SessionState::Disconnected,
        },
        SessionState::Connected => match e {
            // A handshake is not repeated inside a session.
            SessionEvent::Handshake { .. } => SessionState::Connected,
            _ => SessionState::Disconnected,
        },
        SessionState::Disconnected => SessionState::Disconnected,
    }
}

pub fn next_state(s: SessionState, e: SessionEvent) -> (r: SessionState)
    ensures
        r == transition(s, e),
{
    match s {
        SessionState::Connecting => match e {
            SessionEvent::Handshake { declared, expected } => if declared == expected {
                SessionState::Connected
            } else {
                SessionState::Disconnected
            },
            _ => SessionState::Disconnected,
        },
        SessionState::Connected => match e {
            SessionEvent::Handshake { .. } => SessionState::Connected,
            _ => SessionState::Disconnected,
        },
        SessionState::Disconnected => SessionState::Disconnected,
    }
}

/// A handshake that declares another protocol than the server's never connects the
/// session: it ends rejected.
pub proof fn lemma_mismatch_never_connects(declared: u32, expected: u32)
    requires
        declared != expected,
    ensures
        transition(
            SessionState::Connecting,
            SessionEvent::Handshake { declared, expected },
        ) == SessionState::Disconnected,
{
}

/// The server refuses every connect request that declares another protocol than its
/// own, whatever else holds.
pub proof fn lemma_mismatch_is_refused(c: ServerConfig, live: nat, taken: bool, req: Handshake)
    requires
        req.protocol_id != c.protocol_id,
    ensures
        handshake_outcome(c, live, taken, req) is Err,
{
}

/// Once disconnected, a session stays disconnected whatever happens next.
pub proof fn lemma_disconnected_is_terminal(e: SessionEvent)
    ensures
        transition(SessionState::Disconnected, e) == SessionState::Disconnected,
{
}

/// Server settings.
#[derive(Clone, Copy, Debug, PartialEq, Eq, Structural)]
pub struct ServerConfig {
    pub port: u16,
    pub max_sessions: usize,
    pub protocol_id: u32,
    /// Time without traffic after which a session is lost, in the caller's monotonic units.
    pub liveness_timeout: u64,
    /// Accept self-asserted client ids. This is the only authentication implemented, and
    /// fit for trusted deployments only; with the flag off every connect request is refused.
    pub allow_insecure: bool,
}

impl ServerConfig {
    /// Port 5000, ten sessions, protocol 0, five seconds (in milliseconds) of liveness,
    /// insecure mode on.
    pub fn default_config() -> (r: ServerConfig)
        ensures
            r.port == 5000,
            r.max_sessions == 10,
            r.protocol_id == 0,
            r.liveness_timeout == 5000,
            r.allow_insecure,
    {
        ServerConfig {
            port: crate::SERVER_PORT,
            max_sessions: 10,
            protocol_id: 0,
            liveness_timeout: 5000,
            allow_insecure: true,
        }
    }
}

/// A connected client as the server sees it. The client id is self-asserted and not
/// verified: this is the insecure mode, fit for trusted deployments only.
#[derive(Clone, Copy, Debug, PartialEq, Eq, Structural)]
pub struct Session {
    pub id: u64,
    pub last_activity: u64,
}

/// Why a connect request was turned down.
#[derive(Clone, Copy, Debug, PartialEq, Eq, Structural)]
pub enum HandshakeError {
    ProtocolMismatch,
    ServerFull,
    /// A live session already holds this client id.
    IdInUse,
    /// Insecure mode is off, and no other authentication exists.
    InsecureRefused,
}

/// The answer to connect request `req` at a server with settings `c`, `live` live
/// sessions, and `taken` telling whether the client id is already in use.
pub open spec fn handshake_outcome(c: ServerConfig, live: nat, taken: bool, req: Handshake) -> Result<
    u64,
    HandshakeError,
> {
    if !c.allow_insecure {
        Err(HandshakeError::InsecureRefused)
    } else if req.protocol_id != c.protocol_id {
        Err(HandshakeError::ProtocolMismatch)
    } else if live >= c.max_sessions {
        Err(HandshakeError::ServerFull)
    } else if taken {
        Err(HandshakeError::IdInUse)
    } else {
        Ok(req.client_id)
    }
}

pub open spec fn timed_out(s: Session, now: u64, timeout: u64) -> bool {
    now >= s.last_activity && now - s.last_activity > timeout
}

/// The sessions of `s` that are still live at `now`, in order.
pub open spec fn live_sessions(s: Seq<Session>, now: u64, timeout: u64) -> Seq<Session>
    decreases s.len(),
{
    if s.len() == 0 {
        s
    } else {
        let rest = live_sessions(s.drop_last(), now, timeout);
        if timed_out(s.last(), now, timeout) {
            rest
        } else {
            rest.push(s.last())
        }
    }
}

/// The ids of the sessions of `s` that have timed out at `now`, in order.
pub open spec fn expired_ids(s: Seq<Session>, now: u64, timeout: u64) -> Seq<u64>
    decreases s.len(),
{
    if s.len() == 0 {
        Seq::empty()
    } else {
        let rest = expired_ids(s.drop_last(), now, timeout);
        if timed_out(s.last(), now, timeout) {
            rest.push(s.last().id)
        } else {
            rest
        }
    }
}

pub open spec fn has_id(s: Seq<Session>, id: u64) -> bool {
    exists|i: int| 0 <= i < s.len() && #[trigger] s[i].id == id
}

/// The table of live sessions; ids are unique.
pub struct SessionTable {
    pub config: ServerConfig,
    pub sessions: Vec<Session>,
}

impl SessionTable {
    pub open spec fn wf(&self) -> bool {
        forall|i: int, j: int|
            0 <= i < j < self.sessions@.len() ==> #[trigger] self.sessions@[i].id
                != #[trigger] self.sessions@[j].id
    }

    pub fn new(config: ServerConfig) -> (r: SessionTable)
        ensures
            r.wf(),
            r.config == config,
            r.sessions@.len() == 0,
    {
        SessionTable { config, sessions: Vec::new() }
    }

    pub fn find(&self, id: u64) -> (r: Option<usize>)
        ensures
            match r {
                Some(i) => i < self.sessions@.len() && self.sessions@[i as int].id == id,
                None => !has_id(self.sessions@, id),
            },
    {
        let mut i: usize = 0;
        while i < self.sessions.len()
            invariant
                i <= self.sessions@.len(),
                forall|k: int| 0 <= k < i ==> #[trigger] self.sessions@[k].id != id,
            decreases self.sessions@.len() - i,
        {
            if self.sessions[i].id == id {
                return Some(i);
            }
            i = i + 1;
        }
        None
    }

    /// Runs a connect request through the handshake. The session id is the client id.
    pub fn connect(&mut self, req: Handshake, now: u64) -> (r: Result<u64, HandshakeError>)
        requires
            old(self).wf(),
        ensures
            final(self).wf(),
            final(self).config == old(self).config,
            r == handshake_outcome(
                old(self).config,
                old(self).sessions@.len(),
                has_id(old(self).sessions@, req.client_id),
                req,
            ),
            r is Ok ==> final(self).sessions@ == old(self).sessions@.push(
                Session { id: req.client_id, last_activity: now },
            ),
            r is Err ==> final(self).sessions@ == old(self).sessions@,
    {
        if !self.config.allow_insecure {
            return Err(HandshakeError::InsecureRefused);
        }
        let st = next_state(
            SessionState::Connecting,
            SessionEvent::Handshake { declared: req.protocol_id, expected: self.config.protocol_id },
        );
        if st != SessionState::Connected {
            return Err(HandshakeError::ProtocolMismatch);
        }
        if self.sessions.len() >= self.config.max_sessions {
            return Err(HandshakeError::ServerFull);
        }
        match self.find(req.client_id) {
            Some(_) => Err(HandshakeError::IdInUse),
            None => {
                self.sessions.push(Session { id: req.client_id, last_activity: now });
                assert forall|i: int, j: int|
                    0 <= i < j < self.sessions@.len() implies #[trigger] self.sessions@[i].id
                    != #[trigger] self.sessions@[j].id by {
                    if j == self.sessions@.len() - 1 {
                        assert(old(self).sessions@[i].id != req.client_id);
                    }
                }
                Ok(req.client_id)
            },
        }
    }

    /// Records traffic from session `id`; `false` if no such session is live.
    pub fn touch(&mut self, id: u64, now: u64) -> (r: bool)
        requires
            old(self).wf(),
        ensures
            final(self).wf(),
            final(self).config == old(self).config,
            r == has_id(old(self).sessions@, id),
            final(self).sessions@.len() == old(self).sessions@.len(),
            forall|i: int|
                0 <= i < old(self).sessions@.len() ==> #[trigger] final(self).sessions@[i] == (
                if old(self).sessions@[i].id == id {
                    Session { id, last_activity: now }
                } else {
                    old(self).sessions@[i]
                }),
    {
        match self.find(id) {
            Some(i) => {
                self.sessions.set(i, Session { id, last_activity: now });
                true
            },
            None => false,
        }
    }

    /// Ends session `id` on an explicit disconnect message; `false` if it was not live.
    pub fn disconnect(&mut self, id: u64) -> (r: bool)
        requires
            old(self).wf(),
        ensures
            final(self).wf(),
            final(self).config == old(self).config,
            r == has_id(old(self).sessions@, id),
            !has_id(final(self).sessions@, id),
            forall|k: u64| k != id ==> has_id(final(self).sessions@, k) == has_id(old(self).sessions@, k),
    {
        match self.find(id) {
            Some(i) => {
                let ghost before = self.sessions@;
                self.sessions.remove(i);
                assert forall|k: u64| k != id implies has_id(self.sessions@, k) == has_id(before, k) by {
                    if has_id(before, k) {
                        let j = choose|j: int| 0 <= j < before.len() && #[trigger] before[j].id == k;
                        if j < i {
                            assert(self.sessions@[j] == before[j]);
                        } else {
                            assert(self.sessions@[j - 1] == before[j]);
                        }
                    }
                    if has_id(self.sessions@, k) {
                        let j = choose|j: int| 0 <= j < self.sessions@.len() && #[trigger] self.sessions@[j].id == k;
                        if j < i {
                            assert(self.sessions@[j] == before[j]);
                        } else {
                            assert(self.sessions@[j] == before[j + 1]);
                        }
                    }
                }
                assert(!has_id(self.sessions@, id)) by {
                    if has_id(self.sessions@, id) {
                        let j = choose|j: int| 0 <= j < self.sessions@.len() && #[trigger] self.sessions@[j].id == id;
                        if j < i {
                            assert(self.sessions@[j] == before[j]);
                        } else {
                            assert(self.sessions@[j] == before[j + 1]);
                        }
                    }
                }
                true
            },
            None => false,
        }
    }

    /// Ends every session that has been silent for longer than the liveness timeout at
    /// `now`, and returns their ids in table order.
    pub fn check_timeouts(&mut self, now: u64) -> (r: Vec<u64>)
        requires
            old(self).wf(),
        ensures
            final(self).wf(),
            final(self).config == old(self).config,
            final(self).sessions@ == live_sessions(
                old(self).sessions@,
                now,
                old(self).config.liveness_timeout,
            ),
            r@ == expired_ids(old(self).sessions@, now, old(self).config.liveness_timeout),
    {
        let ghost s = self.sessions@;
        let timeout = self.config.liveness_timeout;
        let mut kept: Vec<Session> = Vec::new();
        let mut ids: Vec<u64> = Vec::new();
        let mut i: usize = 0;
        while i < self.sessions.len()
            invariant
                self.sessions@ == s,
                self.config.liveness_timeout == timeout,
                self.wf(),
                i <= s.len(),
                kept@ == live_sessions(s.take(i as int), now, timeout),
                ids@ == expired_ids(s.take(i as int), now, timeout),
                forall|k: int| 0 <= k < kept@.len() ==> exists|j: int| 0 <= j < i && #[trigger] kept@[k] == s[j],
                forall|a: int, b: int|
                    0 <= a < b < kept@.len() ==> #[trigger] kept@[a].id != #[trigger] kept@[b].id,
            decreases s.len() - i,
        {
            let x = self.sessions[i];
            assert(s.take(i + 1).drop_last() =~= s.take(i as int));
            assert(s.take(i + 1).last() == x);
            if now >= x.last_activity && now - x.last_activity > timeout {
                ids.push(x.id);
            } else {
                assert forall|a: int| 0 <= a < kept@.len() implies #[trigger] kept@[a].id != x.id by {
                    let j = choose|j: int| 0 <= j < i && #[trigger] kept@[a] == s[j];
                    assert(s[j].id != s[i as int].id);
                }
                kept.push(x);
            }
            i = i + 1;
        }
        assert(s.take(i as int) =~= s);
        self.sessions = kept;
        ids
    }
}

/// Checking for timeouts a second time at the same instant ends no further session and
/// leaves the table as it is: a lost session is reported exactly once.
pub proof fn lemma_timeout_fires_once(s: Seq<Session>, now: u64, timeout: u64)
    ensures
        expired_ids(live_sessions(s, now, timeout), now, timeout).len() == 0,
        live_sessions(live_sessions(s, now, timeout), now, timeout) == live_sessions(s, now, timeout),
    decreases s.len(),
{
    if s.len() > 0 {
        lemma_timeout_fires_once(s.drop_last(), now, timeout);
        let rest = live_sessions(s.drop_last(), now, timeout);
        if !timed_out(s.last(), now, timeout) {
            assert(rest.push(s.last()).drop_last() =~= rest);
        }
    }
}

} // verus!
