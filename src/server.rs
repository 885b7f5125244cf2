use vstd::prelude::*;
use crate::events::{PingEvent, PingPongCounter, PongEvent, pong_for, pong_text};
use crate::messages::{CounterUpdate, Handshake};
use crate::session::{
    HandshakeError, ServerConfig, Session, SessionTable, expired_ids, handshake_outcome, has_id,
    live_sessions,
};

verus! {

/// A server-authoritative entity, spawned for one connection, with its counter.
#[derive(Clone, Copy, Debug, PartialEq, Eq, Structural)]
pub struct ReplicatedEntity {
    pub entity_id: u64,
    /// The session the entity was spawned for.
    pub owner: u64,
    pub counter: PingPongCounter,
    /// Changed since it was last streamed.
    pub dirty: bool,
}

/// A server event addressed to one session.
#[derive(Debug)]
pub struct Delivery {
    pub session: u64,
    pub event: PongEvent,
}

/// What one replication pass streams: every update goes to every target session.
#[derive(Debug)]
pub struct Replication {
    pub targets: Vec<u64>,
    pub updates: Vec<CounterUpdate>,
}

/// Why a client event was not processed.
#[derive(Clone, Copy, Debug, PartialEq, Eq, Structural)]
pub enum DispatchError {
    /// The sender is not a live session with an entity; the event is discarded.
    UnknownSession,
    /// The sender's counter is at its largest value and cannot count another ping.
    CounterExhausted,
}

pub open spec fn has_owner(e: Seq<ReplicatedEntity>, id: u64) -> bool {
    exists|i: int| 0 <= i < e.len() && #[trigger] e[i].owner == id
}

pub open spec fn update_of(e: ReplicatedEntity) -> CounterUpdate {
    CounterUpdate { entity_id: e.entity_id, count: e.counter.count }
}

/// The updates of the entities of `e` that changed, in order.
pub open spec fn dirty_updates(e: Seq<ReplicatedEntity>) -> Seq<CounterUpdate>
    decreases e.len(),
{
    if e.len() == 0 {
        Seq::empty()
    } else if e.last().dirty {
        dirty_updates(e.drop_last()).push(update_of(e.last()))
    } else {
        dirty_updates(e.drop_last())
    }
}

/// `e` after one more ping: counter up by one, marked changed.
pub open spec fn counted(e: ReplicatedEntity) -> ReplicatedEntity {
    ReplicatedEntity {
        counter: PingPongCounter { count: (e.counter.count + 1) as u32 },
        dirty: true,
        ..e
    }
}

/// `e` once streamed.
pub open spec fn cleaned(e: ReplicatedEntity) -> ReplicatedEntity {
    ReplicatedEntity { dirty: false, ..e }
}

/// `out` addresses one pong reporting `count` to each session of `sessions`, in order.
pub open spec fn pongs_to_all(out: Seq<Delivery>, sessions: Seq<Session>, count: nat) -> bool {
    &&& out.len() == sessions.len()
    &&& forall|i: int|
        0 <= i < out.len() ==> (#[trigger] out[i]).session == sessions[i].id
            && out[i].event.response@ == pong_text(count)
}

/// The authoritative side: live sessions and the entities spawned for connections.
pub struct Server {
    pub table: SessionTable,
    pub entities: Vec<ReplicatedEntity>,
}

impl Server {
    /// Entity ids are positions in the store; owners are unique.
    pub open spec fn wf(&self) -> bool {
        &&& self.table.wf()
        &&& forall|i: int| 0 <= i < self.entities@.len() ==> #[trigger] self.entities@[i].entity_id == i
        &&& forall|i: int, j: int|
            0 <= i < j < self.entities@.len() ==> #[trigger] self.entities@[i].owner
                != #[trigger] self.entities@[j].owner
    }

    pub fn new(config: ServerConfig) -> (r: Server)
        ensures
            r.wf(),
            r.table.config == config,
            r.table.sessions@.len() == 0,
            r.entities@.len() == 0,
    {
        Server { table: SessionTable::new(config), entities: Vec::new() }
    }

    fn find_owner(&self, id: u64) -> (r: Option<usize>)
        ensures
            match r {
                Some(i) => i < self.entities@.len() && self.entities@[i as int].owner == id,
                None => !has_owner(self.entities@, id),
            },
    {
        let mut i: usize = 0;
        while i < self.entities.len()
            invariant
                i <= self.entities@.len(),
                forall|k: int| 0 <= k < i ==> #[trigger] self.entities@[k].owner != id,
            decreases self.entities@.len() - i,
        {
            if self.entities[i].owner == id {
                return Some(i);
            }
            i = i + 1;
        }
        None
    }

    /// Runs a connect request. An accepted connection gets exactly one new entity, with
    /// its counter at zero; a rejected one changes nothing. A client id that already
    /// has an entity is not accepted again.
    pub fn accept(&mut self, req: Handshake, now: u64) -> (r: Result<u64, HandshakeError>)
        requires
            old(self).wf(),
        ensures
            final(self).wf(),
            final(self).table.config == old(self).table.config,
            r == handshake_outcome(
                old(self).table.config,
                old(self).table.sessions@.len(),
                has_id(old(self).table.sessions@, req.client_id) || has_owner(
                    old(self).entities@,
                    req.client_id,
                ),
                req,
            ),
            r is Ok ==> final(self).entities@ == old(self).entities@.push(
                ReplicatedEntity {
                    entity_id: old(self).entities@.len() as u64,
                    owner: req.client_id,
                    counter: PingPongCounter { count: 0 },
                    dirty: true,
                },
            ),
            r is Ok ==> has_id(final(self).table.sessions@, req.client_id),
            r is Err ==> final(self).entities@ == old(self).entities@ && final(self).table.sessions@
                == old(self).table.sessions@,
    {
        if self.table.config.allow_insecure && req.protocol_id == self.table.config.protocol_id
            && self.table.sessions.len()
            < self.table.config.max_sessions {
            match self.find_owner(req.client_id) {
                Some(_) => {
                    return Err(HandshakeError::IdInUse);
                },
                None => {},
            }
        }
        let r = self.table.connect(req, now);
        match r {
            Ok(id) => {
                let n = self.entities.len();
                self.entities.push(
                    ReplicatedEntity {
                        entity_id: n as u64,
                        owner: id,
                        counter: PingPongCounter { count: 0 },
                        dirty: true,
                    },
                );
                let ghost s = self.table.sessions@;
                assert(s[s.len() - 1].id == req.client_id);
                assert forall|i: int, j: int|
                    0 <= i < j < self.entities@.len() implies #[trigger] self.entities@[i].owner
                    != #[trigger] self.entities@[j].owner by {
                    if j == n {
                        assert(old(self).entities@[i].owner != req.client_id);
                    }
                }
                Ok(id)
            },
            Err(e) => Err(e),
        }
    }

    /// Processes a ping from session `from`: its entity's counter goes up by one, the
    /// sender's liveness is refreshed, and one pong carrying the new value is addressed to
    /// every live session, the sender included, in table order.
    pub fn handle_ping(&mut self, from: u64, ping: &PingEvent, now: u64) -> (r: Result<
        Vec<Delivery>,
        DispatchError,
    >)
        requires
            old(self).wf(),
        ensures
            final(self).wf(),
            final(self).table.config == old(self).table.config,
            !(has_id(old(self).table.sessions@, from) && has_owner(old(self).entities@, from))
                ==> r == Err::<Vec<Delivery>, DispatchError>(DispatchError::UnknownSession),
            r == Err::<Vec<Delivery>, DispatchError>(DispatchError::CounterExhausted) <==> (has_id(
                old(self).table.sessions@,
                from,
            ) && exists|e: int|
                0 <= e < old(self).entities@.len() && #[trigger] old(self).entities@[e].owner == from
                    && old(self).entities@[e].counter.count == u32::MAX),
            r == Err::<Vec<Delivery>, DispatchError>(DispatchError::UnknownSession) ==> !(has_id(
                old(self).table.sessions@,
                from,
            ) && has_owner(old(self).entities@, from)),
            r is Err ==> final(self).entities@ == old(self).entities@ && final(self).table.sessions@
                == old(self).table.sessions@,
            r matches Ok(out) ==> exists|e: int|
                0 <= e < old(self).entities@.len() && #[trigger] old(self).entities@[e].owner == from
                    && old(self).entities@[e].counter.count < u32::MAX && final(self).entities@
                    == old(self).entities@.update(e, counted(old(self).entities@[e]))
                    && pongs_to_all(
                    out@,
                    final(self).table.sessions@,
                    old(self).entities@[e].counter.count as nat + 1,
                ),
            r is Ok ==> has_id(old(self).table.sessions@, from),
            final(self).table.sessions@.len() == old(self).table.sessions@.len(),
            forall|i: int|
                0 <= i < old(self).table.sessions@.len() ==> final(self).table.sessions@[i].id
                    == old(self).table.sessions@[i].id,
    {
        match self.table.find(from) {
            None => {
                return Err(DispatchError::UnknownSession);
            },
            Some(_) => {},
        }
        let e = match self.find_owner(from) {
            None => {
                return Err(DispatchError::UnknownSession);
            },
            Some(e) => e,
        };
        let old_entity = self.entities[e];
        if old_entity.counter.count == u32::MAX {
            assert forall|k: int|
                0 <= k < self.entities@.len() && #[trigger] self.entities@[k].owner == from implies k
                    == e by {}
            return Err(DispatchError::CounterExhausted);
        }
        let count = old_entity.counter.count + 1;
        self.entities.set(
            e,
            ReplicatedEntity { counter: PingPongCounter { count }, dirty: true, ..old_entity },
        );
        let _ = self.table.touch(from, now);
        let mut out: Vec<Delivery> = Vec::new();
        let mut i: usize = 0;
        while i < self.table.sessions.len()
            invariant
                i <= self.table.sessions@.len(),
                out@.len() == i,
                forall|k: int|
                    0 <= k < i ==> (#[trigger] out@[k]).session == self.table.sessions@[k].id
                        && out@[k].event.response@ == pong_text(count as nat),
            decreases self.table.sessions@.len() - i,
        {
            let id = self.table.sessions[i].id;
            out.push(Delivery { session: id, event: pong_for(count) });
            i = i + 1;
        }
        assert forall|k: int|
            0 <= k < old(self).entities@.len() && #[trigger] old(self).entities@[k].owner == from
                && old(self).entities@[k].counter.count == u32::MAX implies false by {
            if k < e {
                assert(old(self).entities@[k].owner != old(self).entities@[e as int].owner);
            } else if k > e {
                assert(old(self).entities@[e as int].owner != old(self).entities@[k].owner);
            }
        }
        Ok(out)
    }

    /// The full state of every entity, for a client that has just connected.
    pub fn snapshot(&self) -> (r: Vec<CounterUpdate>)
        ensures
            r@ == self.entities@.map_values(|e: ReplicatedEntity| update_of(e)),
    {
        let mut out: Vec<CounterUpdate> = Vec::new();
        let mut i: usize = 0;
        while i < self.entities.len()
            invariant
                i <= self.entities@.len(),
                out@ == self.entities@.take(i as int).map_values(|e: ReplicatedEntity| update_of(e)),
            decreases self.entities@.len() - i,
        {
            let e = self.entities[i];
            out.push(CounterUpdate { entity_id: e.entity_id, count: e.counter.count });
            let ghost upd = |e: ReplicatedEntity| update_of(e);
            assert(self.entities@.take(i + 1).map_values(upd) =~= self.entities@.take(
                i as int,
            ).map_values(upd).push(update_of(e)));
            i = i + 1;
        }
        assert(self.entities@.take(i as int) =~= self.entities@);
        out
    }

    /// One replication pass: the full value of each entity changed since the last pass,
    /// addressed to every live session; afterwards no entity is marked changed.
    pub fn replicate(&mut self) -> (r: Replication)
        requires
            old(self).wf(),
        ensures
            final(self).wf(),
            final(self).table == old(self).table,
            r.updates@ == dirty_updates(old(self).entities@),
            r.targets@ == old(self).table.sessions@.map_values(|s: Session| s.id),
            final(self).entities@.len() == old(self).entities@.len(),
            forall|i: int|
                0 <= i < old(self).entities@.len() ==> #[trigger] final(self).entities@[i]
                    == cleaned(old(self).entities@[i]),
    {
        let ghost e0 = self.entities@;
        let mut updates: Vec<CounterUpdate> = Vec::new();
        let mut i: usize = 0;
        while i < self.entities.len()
            invariant
                self.table == old(self).table,
                self.entities@.len() == e0.len(),
                i <= e0.len(),
                updates@ == dirty_updates(e0.take(i as int)),
                forall|k: int| 0 <= k < i ==> #[trigger] self.entities@[k] == cleaned(e0[k]),
                forall|k: int| i <= k < e0.len() ==> #[trigger] self.entities@[k] == e0[k],
            decreases e0.len() - i,
        {
            let e = self.entities[i];
            assert(e0.take(i + 1).drop_last() =~= e0.take(i as int));
            assert(e0.take(i + 1).last() == e);
            if e.dirty {
                updates.push(CounterUpdate { entity_id: e.entity_id, count: e.counter.count });
            }
            self.entities.set(i, ReplicatedEntity { dirty: false, ..e });
            i = i + 1;
        }
        assert(e0.take(i as int) =~= e0);
        let mut targets: Vec<u64> = Vec::new();
        let mut j: usize = 0;
        while j < self.table.sessions.len()
            invariant
                j <= self.table.sessions@.len(),
                targets@ == self.table.sessions@.take(j as int).map_values(|s: Session| s.id),
            decreases self.table.sessions@.len() - j,
        {
            targets.push(self.table.sessions[j].id);
            let ghost sid = |s: Session| s.id;
            let ghost ss = self.table.sessions@;
            assert(ss.take(j + 1).map_values(sid) =~= ss.take(j as int).map_values(sid).push(
                ss[j as int].id,
            ));
            j = j + 1;
        }
        assert(self.table.sessions@.take(j as int) =~= self.table.sessions@);
        Replication { targets, updates }
    }

    /// Addresses `event` to one session; a session that is no longer live is an error,
    /// and nothing is sent.
    pub fn send_to(&self, session: u64, event: PongEvent) -> (r: Result<Delivery, DispatchError>)
        ensures
            has_id(self.table.sessions@, session) ==> (r matches Ok(d) && d.session == session
                && d.event.response@ == event.response@),
            !has_id(self.table.sessions@, session) ==> r == Err::<Delivery, DispatchError>(
                DispatchError::UnknownSession),
    {
        match self.table.find(session) {
            Some(_) => Ok(Delivery { session, event }),
            None => Err(DispatchError::UnknownSession),
        }
    }

    /// Records traffic from `session`; `false` if it is not live.
    pub fn touch(&mut self, session: u64, now: u64) -> (r: bool)
        requires
            old(self).wf(),
        ensures
            final(self).wf(),
            final(self).entities@ == old(self).entities@,
            final(self).table.config == old(self).table.config,
            r == has_id(old(self).table.sessions@, session),
    {
        self.table.touch(session, now)
    }

    /// Ends a session on its explicit disconnect message. Its entity stays in the store.
    pub fn disconnect(&mut self, session: u64) -> (r: bool)
        requires
            old(self).wf(),
        ensures
            final(self).wf(),
            final(self).entities@ == old(self).entities@,
            final(self).table.config == old(self).table.config,
            r == has_id(old(self).table.sessions@, session),
            !has_id(final(self).table.sessions@, session),
    {
        self.table.disconnect(session)
    }

    /// Ends the sessions that went silent for longer than the liveness timeout and
    /// returns their ids; entities stay in the store.
    pub fn check_timeouts(&mut self, now: u64) -> (r: Vec<u64>)
        requires
            old(self).wf(),
        ensures
            final(self).wf(),
            final(self).entities@ == old(self).entities@,
            final(self).table.config == old(self).table.config,
            final(self).table.sessions@ == live_sessions(
                old(self).table.sessions@,
                now,
                old(self).table.config.liveness_timeout,
            ),
            r@ == expired_ids(old(self).table.sessions@, now, old(self).table.config.liveness_timeout),
    {
        self.table.check_timeouts(now)
    }
}

} // verus!
