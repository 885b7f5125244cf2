use pingpong_replication::channel::{Message, OrderedReceiver, OrderedSender};

fn seqs(v: &[Message]) -> Vec<u32> {
    v.iter().map(|m| m.sequence).collect()
}

#[test]
fn sender_numbers_messages_in_order() {
    let mut s = OrderedSender::new();
    let a = s.send(vec![1]).unwrap();
    let b = s.send(vec![2]).unwrap();
    assert_eq!((a.sequence, b.sequence), (0, 1));
    assert_eq!(b.payload, vec![2]);
    assert_eq!(s.next, 2);
}

#[test]
fn sender_stops_when_sequence_space_is_used() {
    let mut s = OrderedSender { next: 0x1_0000_0000 };
    assert!(s.send(vec![]).is_none());
}

#[test]
fn reordered_datagrams_are_delivered_in_send_order() {
    let mut sender = OrderedSender::new();
    let sent: Vec<Message> = (0u8..5).map(|i| sender.send(vec![i]).unwrap()).collect();
    let mut r = OrderedReceiver::new(8);
    let mut delivered = Vec::new();
    for idx in [3usize, 1, 4, 0, 2] {
        let m = Message { sequence: sent[idx].sequence, payload: sent[idx].payload.clone() };
        delivered.extend(r.receive(m));
    }
    assert_eq!(seqs(&delivered), vec![0, 1, 2, 3, 4]);
    let payloads: Vec<Vec<u8>> = delivered.iter().map(|m| m.payload.clone()).collect();
    assert_eq!(payloads, vec![vec![0], vec![1], vec![2], vec![3], vec![4]]);
    assert_eq!(r.next, 5);
    assert!(r.pending.is_empty());
}

#[test]
fn early_message_waits_for_predecessor() {
    let mut r = OrderedReceiver::new(4);
    assert!(r.receive(Message { sequence: 1, payload: vec![1] }).is_empty());
    let out = r.receive(Message { sequence: 0, payload: vec![0] });
    assert_eq!(seqs(&out), vec![0, 1]);
}

#[test]
fn duplicates_and_stale_messages_are_dropped() {
    let mut r = OrderedReceiver::new(4);
    assert_eq!(seqs(&r.receive(Message { sequence: 0, payload: vec![] })), vec![0]);
    assert!(r.receive(Message { sequence: 0, payload: vec![] }).is_empty());
    assert!(r.receive(Message { sequence: 2, payload: vec![] }).is_empty());
    assert!(r.receive(Message { sequence: 2, payload: vec![] }).is_empty());
    assert_eq!(r.pending.len(), 1);
}

#[test]
fn message_beyond_window_is_dropped() {
    let mut r = OrderedReceiver::new(2);
    assert!(r.receive(Message { sequence: 2, payload: vec![] }).is_empty());
    assert!(r.pending.is_empty());
    assert!(r.receive(Message { sequence: 1, payload: vec![] }).is_empty());
    assert_eq!(r.pending.len(), 1);
}

#[test]
fn reset_drops_buffered_messages() {
    let mut r = OrderedReceiver::new(4);
    r.receive(Message { sequence: 2, payload: vec![] });
    r.reset();
    assert!(r.pending.is_empty());
    assert!(r.receive(Message { sequence: 1, payload: vec![] }).is_empty());
    assert_eq!(seqs(&r.receive(Message { sequence: 0, payload: vec![] })), vec![0, 1]);
}
