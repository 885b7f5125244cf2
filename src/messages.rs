use vstd::prelude::*;
use crate::events::PingPongCounter;
use crate::wire::{
    be32, be64, get32, get64, lemma_be32, lemma_be64, lemma_read32_at, lemma_read64_at, push32,
    push64, read32, read64,
};

verus! {

/// The connect request: a self-chosen client id and the protocol the client speaks.
#[derive(Clone, Copy, Debug, PartialEq, Eq, Structural)]
pub struct Handshake {
    pub client_id: u64,
    pub protocol_id: u32,
}

/// The server's answer to a connect request.
#[derive(Clone, Copy, Debug, PartialEq, Eq, Structural)]
pub struct HandshakeReply {
    pub accepted: bool,
    pub session_id: u64,
}

/// The full value of an entity's counter, as streamed on the replication channel.
#[derive(Clone, Copy, Debug, PartialEq, Eq, Structural)]
pub struct CounterUpdate {
    pub entity_id: u64,
    pub count: u32,
}

/// Removes an entity from a client's mirror.
#[derive(Clone, Copy, Debug, PartialEq, Eq, Structural)]
pub struct Despawn {
    pub entity_id: u64,
}

pub open spec fn counter_bytes(c: PingPongCounter) -> Seq<u8> {
    be32(c.count)
}

pub open spec fn parse_counter(b: Seq<u8>) -> Option<PingPongCounter> {
    if b.len() == 4 {
        Some(PingPongCounter { count: read32(b, 0) })
    } else {
        None
    }
}

pub open spec fn handshake_bytes(h: Handshake) -> Seq<u8> {
    be64(h.client_id) + be32(h.protocol_id)
}

pub open spec fn parse_handshake(b: Seq<u8>) -> Option<Handshake> {
    if b.len() == 12 {
        Some(Handshake { client_id: read64(b, 0), protocol_id: read32(b, 8) })
    } else {
        None
    }
}

pub open spec fn reply_bytes(r: HandshakeReply) -> Seq<u8> {
    seq![if r.accepted { 1u8 } else { 0u8 }] + be64(r.session_id)
}

pub open spec fn parse_reply(b: Seq<u8>) -> Option<HandshakeReply> {
    if b.len() == 9 && (b[0] == 0 || b[0] == 1) {
        Some(HandshakeReply { accepted: b[0] == 1, session_id: read64(b, 1) })
    } else {
        None
    }
}

pub open spec fn update_bytes(u: CounterUpdate) -> Seq<u8> {
    be64(u.entity_id) + be32(u.count)
}

pub open spec fn parse_update(b: Seq<u8>) -> Option<CounterUpdate> {
    if b.len() == 12 {
        Some(CounterUpdate { entity_id: read64(b, 0), count: read32(b, 8) })
    } else {
        None
    }
}

pub open spec fn despawn_bytes(d: Despawn) -> Seq<u8> {
    be64(d.entity_id)
}

pub open spec fn parse_despawn(b: Seq<u8>) -> Option<Despawn> {
    if b.len() == 8 {
        Some(Despawn { entity_id: read64(b, 0) })
    } else {
        None
    }
}

pub fn encode_counter(c: &PingPongCounter) -> (r: Vec<u8>)
    ensures
        r@ == counter_bytes(*c),
{
    let mut v: Vec<u8> = Vec::new();
    push32(&mut v, c.count);
    assert(v@ =~= counter_bytes(*c));
    v
}

pub fn decode_counter(b: &Vec<u8>) -> (r: Option<PingPongCounter>)
    ensures
        r == parse_counter(b@),
{
    if b.len() == 4 {
        Some(PingPongCounter { count: get32(b, 0) })
    } else {
        None
    }
}

pub fn encode_handshake(h: &Handshake) -> (r: Vec<u8>)
    ensures
        r@ == handshake_bytes(*h),
{
    let mut v: Vec<u8> = Vec::new();
    push64(&mut v, h.client_id);
    push32(&mut v, h.protocol_id);
    assert(v@ =~= handshake_bytes(*h));
    v
}

pub fn decode_handshake(b: &Vec<u8>) -> (r: Option<Handshake>)
    ensures
        r == parse_handshake(b@),
{
    if b.len() == 12 {
        Some(Handshake { client_id: get64(b, 0), protocol_id: get32(b, 8) })
    } else {
        None
    }
}

pub fn encode_reply(r: &HandshakeReply) -> (out: Vec<u8>)
    ensures
        out@ == reply_bytes(*r),
{
    let mut v: Vec<u8> = Vec::new();
    v.push(if r.accepted { 1u8 } else { 0u8 });
    push64(&mut v, r.session_id);
    assert(v@ =~= reply_bytes(*r));
    v
}

pub fn decode_reply(b: &Vec<u8>) -> (r: Option<HandshakeReply>)
    ensures
        r == parse_reply(b@),
{
    if b.len() == 9 && (b[0] == 0 || b[0] == 1) {
        Some(HandshakeReply { accepted: b[0] == 1, session_id: get64(b, 1) })
    } else {
        None
    }
}

pub fn encode_update(u: &CounterUpdate) -> (r: Vec<u8>)
    ensures
        r@ == update_bytes(*u),
{
    let mut v: Vec<u8> = Vec::new();
    push64(&mut v, u.entity_id);
    push32(&mut v, u.count);
    assert(v@ =~= update_bytes(*u));
    v
}

pub fn decode_update(b: &Vec<u8>) -> (r: Option<CounterUpdate>)
    ensures
        r == parse_update(b@),
{
    if b.len() == 12 {
        Some(CounterUpdate { entity_id: get64(b, 0), count: get32(b, 8) })
    } else {
        None
    }
}

pub fn encode_despawn(d: &Despawn) -> (r: Vec<u8>)
    ensures
        r@ == despawn_bytes(*d),
{
    let mut v: Vec<u8> = Vec::new();
    push64(&mut v, d.entity_id);
    v
}

pub fn decode_despawn(b: &Vec<u8>) -> (r: Option<Despawn>)
    ensures
        r == parse_despawn(b@),
{
    if b.len() == 8 {
        Some(Despawn { entity_id: get64(b, 0) })
    } else {
        None
    }
}

/// A counter value read back on the peer equals the value that was sent.
pub proof fn lemma_counter_round_trip(c: PingPongCounter)
    ensures
        parse_counter(counter_bytes(c)) == Some(c),
{
    lemma_be32(c.count);
}

/// Twelve bytes made of a 64-bit and a 32-bit value read back as those values.
proof fn lemma_pair_round_trip(a: u64, b: u32)
    ensures
        read64(be64(a) + be32(b), 0) == a,
        read32(be64(a) + be32(b), 8) == b,
{
    let s = be64(a) + be32(b);
    lemma_be64(a);
    lemma_be32(b);
    assert(s.subrange(0, 8) =~= be64(a).subrange(0, 8));
    lemma_read64_at(s, be64(a), 0, 0);
    lemma_read32_at(s, be32(b), 8, 0);
}

/// A handshake read back on the server equals the one the client sent.
pub proof fn lemma_handshake_round_trip(h: Handshake)
    ensures
        parse_handshake(handshake_bytes(h)) == Some(h),
{
    lemma_pair_round_trip(h.client_id, h.protocol_id);
}

/// A handshake reply read back on the client equals the one the server sent.
pub proof fn lemma_reply_round_trip(r: HandshakeReply)
    ensures
        parse_reply(reply_bytes(r)) == Some(r),
{
    let s = reply_bytes(r);
    lemma_be64(r.session_id);
    assert(s.subrange(1, 9) =~= be64(r.session_id).subrange(0, 8));
    lemma_read64_at(s, be64(r.session_id), 1, 0);
}

/// A replicated counter update read back on the client equals the one the server sent.
pub proof fn lemma_update_round_trip(u: CounterUpdate)
    ensures
        parse_update(update_bytes(u)) == Some(u),
{
    lemma_pair_round_trip(u.entity_id, u.count);
}

/// A despawn message read back on the client names the entity the server named.
pub proof fn lemma_despawn_round_trip(d: Despawn)
    ensures
        parse_despawn(despawn_bytes(d)) == Some(d),
{
    lemma_be64(d.entity_id);
}

} // verus!
