use pingpong_replication::events::{decode_ping, decode_pong, encode_ping, encode_pong, PingEvent, PongEvent};
use pingpong_replication::frame::{schema, CLIENT_EVENT_CHANNEL, HANDSHAKE_CHANNEL};
use pingpong_replication::reliable::{RetransmitAction, Retransmission};

#[test]
fn ping_payload_round_trip() {
    let p = PingEvent { message: "hello".to_string() };
    let bytes = encode_ping(&p);
    assert_eq!(bytes, b"hello".to_vec());
    assert_eq!(decode_ping(bytes).unwrap().message, "hello");
}

#[test]
fn pong_payload_round_trip_non_ascii() {
    let p = PongEvent { response: "Pong! Z\u{e4}hler: 1 \u{2713}".to_string() };
    let bytes = encode_pong(&p);
    assert_eq!(bytes, "Pong! Z\u{e4}hler: 1 \u{2713}".as_bytes().to_vec());
    assert_eq!(decode_pong(bytes).unwrap().response, p.response);
}

#[test]
fn invalid_utf8_payload_is_rejected() {
    assert!(decode_ping(vec![0xff, 0xfe]).is_none());
    assert!(decode_pong(vec![b'a', 0xc3]).is_none());
    assert_eq!(decode_ping(vec![]).unwrap().message, "");
}

#[test]
fn schema_orders_all_but_handshake() {
    let t = schema();
    assert_eq!(t.policies.len(), 5);
    assert!(!t.policies[HANDSHAKE_CHANNEL as usize].ordered);
    assert!(t.policies[HANDSHAKE_CHANNEL as usize].reliable);
    assert!(t.policies[CLIENT_EVENT_CHANNEL as usize].ordered);
}

#[test]
fn retransmission_backs_off_exponentially() {
    let mut r = Retransmission::new(100, 10, 1000);
    assert_eq!(r.next_due, 110);
    assert_eq!(r.poll(105), RetransmitAction::Wait);
    assert_eq!(r.poll(110), RetransmitAction::Resend);
    assert_eq!((r.delay, r.next_due, r.attempts), (20, 130, 1));
    assert_eq!(r.poll(129), RetransmitAction::Wait);
    assert_eq!(r.poll(130), RetransmitAction::Resend);
    assert_eq!((r.delay, r.next_due, r.attempts), (40, 170, 2));
    assert_eq!(r.poll(1100), RetransmitAction::GiveUp);
    assert_eq!(r.poll(1100), RetransmitAction::GiveUp);
}

#[test]
fn retransmission_saturates() {
    let mut r = Retransmission::new(u64::MAX - 1, u64::MAX, u64::MAX);
    assert_eq!(r.next_due, u64::MAX);
    assert_eq!(r.poll(u64::MAX), RetransmitAction::Resend);
    assert_eq!(r.delay, u64::MAX);
    assert_eq!(r.next_due, u64::MAX);
}
