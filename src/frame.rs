use vstd::prelude::*;
use crate::wire::{be16, be32, read16, read32, push16, push32, get16, get32};

verus! {

/// How one logical channel treats its messages.
#[derive(Clone, Copy, Debug, PartialEq, Eq, Structural)]
pub struct ChannelPolicy {
    /// Messages carry a sequence number and reach the application in send order.
    pub ordered: bool,
    /// Messages are acknowledged and retransmitted until they arrive.
    pub reliable: bool,
}

/// The schema both peers agree on: the policy of each channel, indexed by channel id.
pub struct ChannelTable {
    pub policies: Vec<ChannelPolicy>,
}

impl ChannelTable {
    /// For each channel id, whether the channel is ordered.
    pub open spec fn ordered_view(&self) -> Seq<bool> {
        self.policies@.map_values(|p: ChannelPolicy| p.ordered)
    }
}

/// Handshake requests and replies.
pub const HANDSHAKE_CHANNEL: u16 = 0;
/// Client-to-server events.
pub const CLIENT_EVENT_CHANNEL: u16 = 1;
/// Server-to-client events.
pub const SERVER_EVENT_CHANNEL: u16 = 2;
/// Entity state, server to client.
pub const REPLICATION_CHANNEL: u16 = 3;
/// Entity removal, server to client.
pub const DESPAWN_CHANNEL: u16 = 4;

/// The schema both peers are built with: handshake traffic reliable and unordered, every
/// other channel ordered.
pub fn schema() -> (r: ChannelTable)
    ensures
        r.policies@ == seq![
            ChannelPolicy { ordered: false, reliable: true },
            ChannelPolicy { ordered: true, reliable: false },
            ChannelPolicy { ordered: true, reliable: false },
            ChannelPolicy { ordered: true, reliable: false },
            ChannelPolicy { ordered: true, reliable: false },
        ],
{
    let policies = vec![
        ChannelPolicy { ordered: false, reliable: true },
        ChannelPolicy { ordered: true, reliable: false },
        ChannelPolicy { ordered: true, reliable: false },
        ChannelPolicy { ordered: true, reliable: false },
        ChannelPolicy { ordered: true, reliable: false },
    ];
    ChannelTable { policies }
}

/// A datagram, split into its channel, its sequence number (ordered channels only) and
/// its payload.
#[derive(Debug)]
pub struct Frame {
    pub channel: u16,
    pub sequence: Option<u32>,
    pub payload: Vec<u8>,
}

/// An inbound datagram that cannot be read; it is dropped and counted.
#[derive(Clone, Copy, Debug, PartialEq, Eq, Structural)]
pub enum WireError {
    MalformedMessage,
}

pub open spec fn seq_bytes(sequence: Option<u32>) -> Seq<u8> {
    match sequence {
        Some(s) => be32(s),
        None => Seq::empty(),
    }
}

/// The bytes of a datagram: `[channel: u16][sequence: u32, ordered only][payload]`.
pub open spec fn frame_bytes(channel: u16, sequence: Option<u32>, payload: Seq<u8>) -> Seq<u8> {
    be16(channel) + seq_bytes(sequence) + payload
}

/// What a datagram reads as under a channel schema, or `None` where it is malformed:
/// too short, or naming a channel the schema does not hold.
pub open spec fn parse_frame(ordered: Seq<bool>, b: Seq<u8>) -> Option<(u16, Option<u32>, Seq<u8>)> {
    if b.len() < 2 {
        None
    } else {
        let ch = read16(b, 0);
        if ch >= ordered.len() {
            None
        } else if ordered[ch as int] {
            if b.len() < 6 {
                None
            } else {
                Some((ch, Some(read32(b, 2)), b.subrange(6, b.len() as int)))
            }
        } else {
            Some((ch, None, b.subrange(2, b.len() as int)))
        }
    }
}

/// Frames a message for sending.
pub fn encode_frame(f: Frame) -> (r: Vec<u8>)
    ensures
        r@ == frame_bytes(f.channel, f.sequence, f.payload@),
{
    let mut out: Vec<u8> = Vec::new();
    push16(&mut out, f.channel);
    match f.sequence {
        Some(s) => push32(&mut out, s),
        None => {},
    }
    let mut payload = f.payload;
    out.append(&mut payload);
    assert(out@ =~= frame_bytes(f.channel, f.sequence, f.payload@));
    out
}

/// Reads a datagram under the channel schema; a malformed one is an error, never a panic.
pub fn decode_frame(table: &ChannelTable, bytes: Vec<u8>) -> (r: Result<Frame, WireError>)
    ensures
        match parse_frame(table.ordered_view(), bytes@) {
            Some((ch, sq, p)) => r matches Ok(f) && f.channel == ch && f.sequence == sq
                && f.payload@ == p,
            None => r == Err::<Frame, WireError>(WireError::MalformedMessage),
        },
{
    let mut bytes = bytes;
    let n = bytes.len();
    if n < 2 {
        return Err(WireError::MalformedMessage);
    }
    let ch = get16(&bytes, 0);
    if ch as usize >= table.policies.len() {
        return Err(WireError::MalformedMessage);
    }
    if table.policies[ch as usize].ordered {
        if n < 6 {
            return Err(WireError::MalformedMessage);
        }
        let s = get32(&bytes, 2);
        let payload = bytes.split_off(6);
        Ok(Frame { channel: ch, sequence: Some(s), payload })
    } else {
        let payload = bytes.split_off(2);
        Ok(Frame { channel: ch, sequence: None, payload })
    }
}

/// A framed message reads back as the channel, sequence number and payload it was
/// framed with, whenever the channel is in the schema and carries a sequence number
/// exactly when it is ordered.
pub proof fn lemma_frame_round_trip(
    ordered: Seq<bool>,
    channel: u16,
    sequence: Option<u32>,
    payload: Seq<u8>,
)
    requires
        channel < ordered.len(),
        sequence.is_some() == ordered[channel as int],
    ensures
        parse_frame(ordered, frame_bytes(channel, sequence, payload)) == Some(
            (channel, sequence, payload),
        ),
{
    let b = frame_bytes(channel, sequence, payload);
    crate::wire::lemma_be16(channel);
    assert(b[0] == be16(channel)[0]);
    assert(b[1] == be16(channel)[1]);
    assert(read16(b, 0) == read16(be16(channel), 0));
    match sequence {
        Some(s) => {
            crate::wire::lemma_be32(s);
            assert(b[2] == be32(s)[0]);
            assert(b[3] == be32(s)[1]);
            assert(b[4] == be32(s)[2]);
            assert(b[5] == be32(s)[3]);
            assert(read32(b, 2) == read32(be32(s), 0));
            assert(b.subrange(6, b.len() as int) =~= payload);
        },
        None => {
            assert(b.subrange(2, b.len() as int) =~= payload);
        },
    }
}

} // verus!
