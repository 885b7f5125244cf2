use pingpong_replication::events::{PingEvent, PingPongCounter};
use pingpong_replication::client::{poll_ping, ClientConnection, ClientMirror, PingTimer};
use pingpong_replication::messages::{
    decode_handshake, decode_reply, decode_update, encode_handshake, encode_reply, encode_update,
    CounterUpdate, Despawn, Handshake, HandshakeReply,
};
use pingpong_replication::server::{DispatchError, Server};
use pingpong_replication::session::{
    next_state, HandshakeError, ServerConfig, SessionEvent, SessionState, SessionTable,
};
use pingpong_replication::SERVER_PORT;

fn server() -> Server {
    Server::new(ServerConfig::default_config())
}

fn ping(text: &str) -> PingEvent {
    PingEvent { message: text.to_string() }
}

#[test]
fn default_config_values() {
    let c = ServerConfig::default_config();
    assert_eq!(c.port, SERVER_PORT);
    assert_eq!(c.port, 5000);
    assert_eq!(c.max_sessions, 10);
    assert_eq!(c.protocol_id, 0);
    assert_eq!(c.liveness_timeout, 5000);
}

#[test]
fn state_machine_transitions() {
    let hs = |d, e| SessionEvent::Handshake { declared: d, expected: e };
    assert_eq!(next_state(SessionState::Connecting, hs(0, 0)), SessionState::Connected);
    assert_eq!(next_state(SessionState::Connecting, hs(1, 0)), SessionState::Disconnected);
    assert_eq!(next_state(SessionState::Connected, hs(0, 0)), SessionState::Connected);
    assert_eq!(next_state(SessionState::Connected, SessionEvent::LivenessLost), SessionState::Disconnected);
    assert_eq!(next_state(SessionState::Connected, SessionEvent::DisconnectMessage), SessionState::Disconnected);
    assert_eq!(
        next_state(SessionState::Connected, SessionEvent::RetransmissionExhausted),
        SessionState::Disconnected
    );
    assert_eq!(next_state(SessionState::Disconnected, hs(0, 0)), SessionState::Disconnected);
}

#[test]
fn protocol_mismatch_is_rejected() {
    let mut s = server();
    let r = s.accept(Handshake { client_id: 1, protocol_id: 7 }, 0);
    assert_eq!(r, Err(HandshakeError::ProtocolMismatch));
    assert!(s.entities.is_empty());
    assert!(s.table.sessions.is_empty());
}

#[test]
fn insecure_mode_off_refuses_every_client() {
    let mut config = ServerConfig::default_config();
    assert!(config.allow_insecure);
    config.allow_insecure = false;
    let mut s = Server::new(config);
    assert_eq!(s.accept(Handshake { client_id: 1, protocol_id: 0 }, 0), Err(HandshakeError::InsecureRefused));
    assert!(s.entities.is_empty());
}

#[test]
fn client_rejected_on_mismatch_stays_disconnected() {
    let mut s = server();
    let mut c = ClientConnection::new(5, 3);
    let r = s.accept(c.handshake(), 0);
    c.on_reply(HandshakeReply { accepted: r.is_ok(), session_id: 5 });
    assert_eq!(c.state, SessionState::Disconnected);
    assert!(!c.is_connected());
    c.on_reply(HandshakeReply { accepted: true, session_id: 5 });
    assert_eq!(c.state, SessionState::Disconnected);
}

#[test]
fn server_full_and_id_in_use() {
    let mut s = Server::new(ServerConfig {
        port: 1,
        max_sessions: 2,
        protocol_id: 0,
        liveness_timeout: 10,
        allow_insecure: true,
    });
    assert_eq!(s.accept(Handshake { client_id: 1, protocol_id: 0 }, 0), Ok(1));
    assert_eq!(s.accept(Handshake { client_id: 1, protocol_id: 0 }, 0), Err(HandshakeError::IdInUse));
    assert_eq!(s.accept(Handshake { client_id: 2, protocol_id: 0 }, 0), Ok(2));
    assert_eq!(s.accept(Handshake { client_id: 3, protocol_id: 0 }, 0), Err(HandshakeError::ServerFull));
    assert!(s.disconnect(1));
    assert_eq!(s.accept(Handshake { client_id: 1, protocol_id: 0 }, 0), Err(HandshakeError::IdInUse));
    assert_eq!(s.entities.len(), 2);
}

#[test]
fn each_accepted_connection_spawns_one_zero_counter() {
    let mut s = server();
    for id in 1..=4u64 {
        assert_eq!(s.accept(Handshake { client_id: id, protocol_id: 0 }, 0), Ok(id));
    }
    assert_eq!(s.accept(Handshake { client_id: 9, protocol_id: 1 }, 0), Err(HandshakeError::ProtocolMismatch));
    assert_eq!(s.entities.len(), 4);
    for (i, e) in s.entities.iter().enumerate() {
        assert_eq!(e.entity_id, i as u64);
        assert_eq!(e.owner, i as u64 + 1);
        assert_eq!(e.counter, PingPongCounter { count: 0 });
    }
}

#[test]
fn two_clients_ping_from_a_pongs_to_both() {
    let mut s = server();
    s.accept(Handshake { client_id: 10, protocol_id: 0 }, 0).unwrap();
    s.accept(Handshake { client_id: 20, protocol_id: 0 }, 0).unwrap();
    let out = s.handle_ping(10, &ping("hi"), 1).unwrap();
    let targets: Vec<u64> = out.iter().map(|d| d.session).collect();
    assert_eq!(targets, vec![10, 20]);
    for d in &out {
        assert_eq!(d.event.response, "Pong! Counter: 1");
    }
    assert_eq!(s.entities[0].counter.count, 1);
    assert_eq!(s.entities[1].counter.count, 0);
}

#[test]
fn every_ping_adds_exactly_one() {
    let mut s = server();
    s.accept(Handshake { client_id: 1, protocol_id: 0 }, 0).unwrap();
    for n in 1..=3u32 {
        let out = s.handle_ping(1, &ping("p"), 0).unwrap();
        assert_eq!(out.len(), 1);
        assert_eq!(out[0].event.response, format!("Pong! Counter: {}", n));
        assert_eq!(s.entities[0].counter.count, n);
    }
}

#[test]
fn ping_from_unknown_session_is_discarded() {
    let mut s = server();
    s.accept(Handshake { client_id: 1, protocol_id: 0 }, 0).unwrap();
    assert_eq!(s.handle_ping(2, &ping("x"), 0).unwrap_err(), DispatchError::UnknownSession);
    s.disconnect(1);
    assert_eq!(s.handle_ping(1, &ping("x"), 0).unwrap_err(), DispatchError::UnknownSession);
    assert_eq!(s.entities[0].counter.count, 0);
}

#[test]
fn exhausted_counter_is_an_error() {
    let mut s = server();
    s.accept(Handshake { client_id: 1, protocol_id: 0 }, 0).unwrap();
    s.entities[0].counter.count = u32::MAX;
    assert_eq!(s.handle_ping(1, &ping("x"), 0).unwrap_err(), DispatchError::CounterExhausted);
    assert_eq!(s.entities[0].counter.count, u32::MAX);
}

#[test]
fn send_to_unknown_session_fails() {
    let mut s = server();
    s.accept(Handshake { client_id: 1, protocol_id: 0 }, 0).unwrap();
    let pong = pingpong_replication::events::pong_for(3);
    assert_eq!(s.send_to(1, pong.clone()).unwrap().session, 1);
    assert_eq!(s.send_to(2, pong).unwrap_err(), DispatchError::UnknownSession);
}

#[test]
fn replication_streams_changed_entities_once() {
    let mut s = server();
    s.accept(Handshake { client_id: 1, protocol_id: 0 }, 0).unwrap();
    s.accept(Handshake { client_id: 2, protocol_id: 0 }, 0).unwrap();
    let first = s.replicate();
    assert_eq!(first.targets, vec![1, 2]);
    assert_eq!(first.updates.len(), 2);
    assert!(s.replicate().updates.is_empty());
    s.handle_ping(2, &ping("x"), 0).unwrap();
    let third = s.replicate();
    assert_eq!(third.updates, vec![CounterUpdate { entity_id: 1, count: 1 }]);
    let snap = s.snapshot();
    assert_eq!(snap, vec![CounterUpdate { entity_id: 0, count: 0 }, CounterUpdate { entity_id: 1, count: 1 }]);
}

#[test]
fn timeout_disconnects_exactly_once() {
    let mut s = server();
    s.accept(Handshake { client_id: 1, protocol_id: 0 }, 0).unwrap();
    s.accept(Handshake { client_id: 2, protocol_id: 0 }, 4000).unwrap();
    assert!(s.check_timeouts(5000).is_empty());
    assert_eq!(s.check_timeouts(5001), vec![1]);
    assert!(s.check_timeouts(5001).is_empty());
    assert!(s.check_timeouts(6000).is_empty());
    assert!(s.touch(2, 6000));
    assert!(!s.touch(1, 6000));
    assert!(s.check_timeouts(11000).is_empty());
    assert_eq!(s.check_timeouts(11001), vec![2]);
    assert!(s.check_timeouts(20000).is_empty());
    assert_eq!(s.entities.len(), 2);
}

#[test]
fn table_connect_and_disconnect() {
    let mut t = SessionTable::new(ServerConfig::default_config());
    assert_eq!(t.connect(Handshake { client_id: 3, protocol_id: 0 }, 0), Ok(3));
    assert_eq!(t.find(3), Some(0));
    assert!(t.disconnect(3));
    assert!(!t.disconnect(3));
    assert_eq!(t.find(3), None);
}

#[test]
fn mirror_applies_updates_and_despawns() {
    let mut m = ClientMirror::new();
    assert_eq!(m.counter_of(0), None);
    m.apply_update(CounterUpdate { entity_id: 0, count: 2 });
    m.apply_update(CounterUpdate { entity_id: 1, count: 5 });
    m.apply_update(CounterUpdate { entity_id: 0, count: 3 });
    assert_eq!(m.counter_of(0), Some(PingPongCounter { count: 3 }));
    assert_eq!(m.counter_of(1), Some(PingPongCounter { count: 5 }));
    m.apply_despawn(Despawn { entity_id: 0 });
    assert_eq!(m.counter_of(0), None);
    assert_eq!(m.counter_of(1), Some(PingPongCounter { count: 5 }));
}

#[test]
fn ping_timer_paces_pings_while_connected() {
    let mut t = PingTimer::new(2000);
    assert!(!t.tick(1500, true));
    assert!(!t.tick(500, true));
    assert!(t.tick(1, true));
    assert_eq!(t.elapsed, 0);
    assert!(!t.tick(5000, false));
    assert_eq!(t.elapsed, 0);
    assert!(t.tick(u64::MAX, true));
}

#[test]
fn ping_only_when_connected() {
    let mut t = PingTimer::new(2000);
    let mut c = ClientConnection::new(1, 0);
    assert!(poll_ping(&mut t, &c, 3000, "a".to_string()).is_none());
    c.on_reply(HandshakeReply { accepted: true, session_id: 1 });
    let p = poll_ping(&mut t, &c, 3000, "a".to_string()).unwrap();
    assert_eq!(p.message, "a");
    c.on_lost();
    assert!(poll_ping(&mut t, &c, 3000, "a".to_string()).is_none());
}

#[test]
fn hello_ping_round_trip_scenario() {
    let mut s = server();
    let mut client = ClientConnection::new(1_700_000_000_000, 0);
    let mut mirror = ClientMirror::new();
    // handshake over the wire
    let req = decode_handshake(&encode_handshake(&client.handshake())).unwrap();
    let id = s.accept(req, 0).unwrap();
    let reply = decode_reply(&encode_reply(&HandshakeReply { accepted: true, session_id: id })).unwrap();
    client.on_reply(reply);
    assert!(client.is_connected());
    for u in s.snapshot() {
        mirror.apply_update(decode_update(&encode_update(&u)).unwrap());
    }
    assert_eq!(mirror.counter_of(0), Some(PingPongCounter { count: 0 }));
    // ping at t = 0, handled at the server's next tick
    let out = s.handle_ping(id, &ping("hello"), 0).unwrap();
    assert_eq!(s.entities[0].counter.count, 1);
    assert_eq!(out.len(), 1);
    assert_eq!(out[0].session, id);
    assert_eq!(out[0].event.response, "Pong! Counter: 1");
    let rep = s.replicate();
    assert_eq!(rep.targets, vec![id]);
    for u in rep.updates {
        mirror.apply_update(decode_update(&encode_update(&u)).unwrap());
    }
    assert_eq!(mirror.counter_of(0), Some(PingPongCounter { count: 1 }));
}
