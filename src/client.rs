use vstd::prelude::*;
use crate::events::{PingEvent, PingPongCounter};
use crate::messages::{CounterUpdate, Despawn, Handshake, HandshakeReply};
use crate::session::SessionState;

verus! {

/// A client's copy of one replicated entity.
#[derive(Clone, Copy, Debug, PartialEq, Eq, Structural)]
pub struct MirrorEntity {
    pub entity_id: u64,
    pub counter: PingPongCounter,
}

/// The counter the mirror `s` holds for entity `id`: the latest entry wins.
pub open spec fn lookup(s: Seq<MirrorEntity>, id: u64) -> Option<PingPongCounter>
    decreases s.len(),
{
    if s.len() == 0 {
        None
    } else if s.last().entity_id == id {
        Some(s.last().counter)
    } else {
        lookup(s.drop_last(), id)
    }
}

/// The client's mirror of the server's entities. It is written only from the
/// replication stream.
pub struct ClientMirror {
    pub entities: Vec<MirrorEntity>,
}

impl ClientMirror {
    pub open spec fn view(&self) -> Seq<MirrorEntity> {
        self.entities@
    }

    pub fn new() -> (r: ClientMirror)
        ensures
            forall|k: u64| lookup(r@, k).is_none(),
    {
        ClientMirror { entities: Vec::new() }
    }

    /// The entries of the mirror without entity `id`.
    fn without(&self, id: u64) -> (r: Vec<MirrorEntity>)
        ensures
            forall|k: u64| #[trigger] lookup(r@, k) == if k == id { None } else { lookup(self@, k) },
    {
        let mut kept: Vec<MirrorEntity> = Vec::new();
        let mut i: usize = 0;
        while i < self.entities.len()
            invariant
                i <= self@.len(),
                forall|k: u64|
                    #[trigger] lookup(kept@, k) == if k == id {
                        None
                    } else {
                        lookup(self@.take(i as int), k)
                    },
            decreases self@.len() - i,
        {
            let e = self.entities[i];
            let ghost pre = self@.take(i + 1);
            assert(pre.drop_last() =~= self@.take(i as int));
            assert(pre.last() == e);
            let ghost before = kept@;
            if e.entity_id != id {
                kept.push(e);
                assert(kept@.drop_last() =~= before);
            }
            assert forall|k: u64| #[trigger] lookup(kept@, k) == if k == id { None } else { lookup(pre, k) } by {
                if e.entity_id != id {
                    assert(lookup(kept@, k) == if e.entity_id == k { Some(e.counter) } else { lookup(before, k) });
                }
                assert(lookup(pre, k) == if e.entity_id == k {
                    Some(e.counter)
                } else {
                    lookup(self@.take(i as int), k)
                });
            }
            i = i + 1;
        }
        assert(self@.take(i as int) =~= self@);
        kept
    }

    /// Applies a replicated value: the entity is created if unseen, and its counter
    /// becomes the received one; other entities keep theirs.
    pub fn apply_update(&mut self, u: CounterUpdate)
        ensures
            forall|k: u64|
                #[trigger] lookup(final(self)@, k) == if k == u.entity_id {
                    Some(PingPongCounter { count: u.count })
                } else {
                    lookup(old(self)@, k)
                },
    {
        let mut kept = self.without(u.entity_id);
        let ghost before = kept@;
        let e = MirrorEntity { entity_id: u.entity_id, counter: PingPongCounter { count: u.count } };
        kept.push(e);
        assert(kept@.drop_last() =~= before);
        assert forall|k: u64| #[trigger] lookup(kept@, k) == if k == u.entity_id {
            Some(PingPongCounter { count: u.count })
        } else {
            lookup(self@, k)
        } by {
            assert(lookup(kept@, k) == if e.entity_id == k { Some(e.counter) } else { lookup(before, k) });
        }
        self.entities = kept;
    }

    /// Applies a despawn message: the entity is gone, the others stay.
    pub fn apply_despawn(&mut self, d: Despawn)
        ensures
            forall|k: u64|
                #[trigger] lookup(final(self)@, k) == if k == d.entity_id {
                    None
                } else {
                    lookup(old(self)@, k)
                },
    {
        self.entities = self.without(d.entity_id);
    }

    /// The counter the mirror holds for entity `id`.
    pub fn counter_of(&self, id: u64) -> (r: Option<PingPongCounter>)
        ensures
            r == lookup(self@, id),
    {
        let mut i: usize = self.entities.len();
        assert(self@.take(i as int) =~= self@);
        while i > 0
            invariant
                i <= self@.len(),
                lookup(self@, id) == lookup(self@.take(i as int), id),
            decreases i,
        {
            let e = self.entities[i - 1];
            assert(self@.take(i as int).drop_last() =~= self@.take(i - 1));
            if e.entity_id == id {
                return Some(e.counter);
            }
            i = i - 1;
        }
        None
    }
}

/// The client's side of its connection.
#[derive(Clone, Copy, Debug, PartialEq, Eq, Structural)]
pub struct ClientConnection {
    pub client_id: u64,
    pub protocol_id: u32,
    pub state: SessionState,
}

impl ClientConnection {
    /// A connection about to handshake. The client id is self-chosen (a timestamp will
    /// do) and not verified by the server: insecure mode.
    pub fn new(client_id: u64, protocol_id: u32) -> (r: ClientConnection)
        ensures
            r == (ClientConnection { client_id, protocol_id, state: SessionState::Connecting }),
    {
        ClientConnection { client_id, protocol_id, state: SessionState::Connecting }
    }

    /// The connect request this client sends.
    pub fn handshake(&self) -> (r: Handshake)
        ensures
            r == (Handshake { client_id: self.client_id, protocol_id: self.protocol_id }),
    {
        Handshake { client_id: self.client_id, protocol_id: self.protocol_id }
    }

    /// Takes the server's answer. A connecting client is connected only by an acceptance
    /// for its own id, and ends rejected otherwise; in any other state nothing changes.
    pub fn on_reply(&mut self, reply: HandshakeReply)
        ensures
            final(self).client_id == old(self).client_id,
            final(self).protocol_id == old(self).protocol_id,
            old(self).state == SessionState::Connecting ==> final(self).state == (if reply.accepted
                && reply.session_id == old(self).client_id {
                SessionState::Connected
            } else {
                SessionState::Disconnected
            }),
            old(self).state != SessionState::Connecting ==> final(self).state == old(self).state,
    {
        if self.state == SessionState::Connecting {
            if reply.accepted && reply.session_id == self.client_id {
                self.state = SessionState::Connected;
            } else {
                self.state = SessionState::Disconnected;
            }
        }
    }

    /// The connection is lost (liveness timeout or retransmission failure) or closed.
    pub fn on_lost(&mut self)
        ensures
            final(self).client_id == old(self).client_id,
            final(self).protocol_id == old(self).protocol_id,
            final(self).state == SessionState::Disconnected,
    {
        self.state = SessionState::Disconnected;
    }

    /// Only a connected client emits events.
    pub fn is_connected(&self) -> (r: bool)
        ensures
            r == (self.state == SessionState::Connected),
    {
        self.state == SessionState::Connected
    }
}

/// Paces a client's pings: one whenever more than `interval` has passed while connected.
#[derive(Clone, Copy, Debug, PartialEq, Eq, Structural)]
pub struct PingTimer {
    pub elapsed: u64,
    pub interval: u64,
}

impl PingTimer {
    pub fn new(interval: u64) -> (r: PingTimer)
        ensures
            r == (PingTimer { elapsed: 0, interval }),
    {
        PingTimer { elapsed: 0, interval }
    }

    /// Advances by `delta` if connected, and reports whether a ping is due; a due ping
    /// restarts the timer. While not connected the timer stands still.
    pub fn tick(&mut self, delta: u64, connected: bool) -> (r: bool)
        ensures
            final(self).interval == old(self).interval,
            !connected ==> !r && *final(self) == *old(self),
            connected ==> r == (old(self).elapsed + delta > old(self).interval),
            connected && r ==> final(self).elapsed == 0,
            connected && !r ==> final(self).elapsed == old(self).elapsed + delta,
    {
        if !connected {
            return false;
        }
        if delta > self.interval || self.elapsed > self.interval - delta {
            self.elapsed = 0;
            true
        } else {
            self.elapsed = self.elapsed + delta;
            false
        }
    }
}

/// The client's per-tick ping decision: a ping carrying `message` when the connection is
/// up and the timer fires, nothing otherwise.
pub fn poll_ping(
    timer: &mut PingTimer,
    conn: &ClientConnection,
    delta: u64,
    message: String,
) -> (r: Option<PingEvent>)
    ensures
        final(timer).interval == old(timer).interval,
        conn.state != SessionState::Connected ==> r.is_none() && *final(timer) == *old(timer),
        conn.state == SessionState::Connected ==> (r.is_some() == (old(timer).elapsed + delta
            > old(timer).interval)),
        r matches Some(p) ==> p.message@ == message@ && final(timer).elapsed == 0,
{
    if timer.tick(delta, conn.is_connected()) {
        Some(PingEvent { message })
    } else {
        None
    }
}

} // verus!
