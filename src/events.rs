use vstd::prelude::*;
use vstd::utf8::{decode_utf8, encode_utf8, valid_utf8, encode_utf8_decode_utf8, encode_utf8_valid_utf8};

verus! {

/// Sent by a client to the server on the ordered event channel.
#[derive(Clone, Debug)]
pub struct PingEvent {
    pub message: String,
}

/// Sent by the server to clients, in reply to a ping.
#[derive(Clone, Debug)]
pub struct PongEvent {
    pub response: String,
}

/// The replicated component: how many pings the server has processed for a connection.
#[derive(Clone, Copy, Debug, PartialEq, Eq, Structural)]
pub struct PingPongCounter {
    pub count: u32,
}

/// The character of a decimal digit.
pub open spec fn digit_char(d: nat) -> char {
    seq!['0', '1', '2', '3', '4', '5', '6', '7', '8', '9'][d as int]
}

/// The decimal digits of `n`, most significant first, without leading zeros.
pub open spec fn decimal(n: nat) -> Seq<char>
    decreases n,
{
    if n < 10 {
        seq![digit_char(n)]
    } else {
        decimal(n / 10).push(digit_char(n % 10))
    }
}

pub open spec fn pong_prefix() -> Seq<char> {
    seq!['P', 'o', 'n', 'g', '!', ' ', 'C', 'o', 'u', 'n', 't', 'e', 'r', ':', ' ']
}

/// The text of the pong that reports counter value `n`: `Pong! Counter: <n>`.
pub open spec fn pong_text(n: nat) -> Seq<char> {
    pong_prefix() + decimal(n)
}

/// Appends the decimal digits of `n`.
pub fn push_decimal(v: &mut Vec<char>, n: u32)
    ensures
        final(v)@ == old(v)@ + decimal(n as nat),
    decreases n,
{
    if n >= 10 {
        push_decimal(v, n / 10);
    }
    let digits: Vec<char> = vec!['0', '1', '2', '3', '4', '5', '6', '7', '8', '9'];
    let d: usize = (n % 10) as usize;
    v.push(digits[d]);
    assert(final(v)@ =~= old(v)@ + decimal(n as nat));
}

/// Relies on `FromIterator<char> for String`: collecting characters gives the string
/// made of them, in order.
#[verifier::external_body]
fn string_from_chars(c: Vec<char>) -> (r: String)
    ensures
        r@ == c@,
{
    c.into_iter().collect()
}

/// The pong that reports counter value `count`.
pub fn pong_for(count: u32) -> (r: PongEvent)
    ensures
        r.response@ == pong_text(count as nat),
{
    let mut v: Vec<char> = vec![
        'P', 'o', 'n', 'g', '!', ' ', 'C', 'o', 'u', 'n', 't', 'e', 'r', ':', ' ',
    ];
    assert(v@ =~= pong_prefix());
    push_decimal(&mut v, count);
    PongEvent { response: string_from_chars(v) }
}

/// Relies on `String::from_utf8`: it succeeds exactly on valid UTF-8, and the string it
/// gives holds the characters those bytes encode.
#[verifier::external_body]
fn string_from_utf8(b: Vec<u8>) -> (r: Option<String>)
    ensures
        r.is_some() == valid_utf8(b@),
        r matches Some(s) ==> s@ == decode_utf8(b@),
{
    String::from_utf8(b).ok()
}

/// The UTF-8 bytes of a string, as a vector.
fn text_bytes(s: &String) -> (r: Vec<u8>)
    ensures
        r@ == encode_utf8(s@),
{
    let b: &[u8] = s.as_str().as_bytes();
    let mut out: Vec<u8> = Vec::new();
    let mut i: usize = 0;
    while i < b.len()
        invariant
            i <= b@.len(),
            out@ == b@.take(i as int),
        decreases b@.len() - i,
    {
        out.push(b[i]);
        assert(b@.take(i + 1) =~= b@.take(i as int).push(b@[i as int]));
        i = i + 1;
    }
    assert(b@.take(i as int) =~= b@);
    out
}

/// The payload of a ping: the UTF-8 bytes of its message.
pub fn encode_ping(p: &PingEvent) -> (r: Vec<u8>)
    ensures
        r@ == encode_utf8(p.message@),
{
    text_bytes(&p.message)
}

/// Reads a ping payload; `None` where the bytes are not UTF-8.
pub fn decode_ping(b: Vec<u8>) -> (r: Option<PingEvent>)
    ensures
        r.is_some() == valid_utf8(b@),
        r matches Some(p) ==> p.message@ == decode_utf8(b@),
{
    match string_from_utf8(b) {
        Some(message) => Some(PingEvent { message }),
        None => None,
    }
}

/// The payload of a pong: the UTF-8 bytes of its response.
pub fn encode_pong(p: &PongEvent) -> (r: Vec<u8>)
    ensures
        r@ == encode_utf8(p.response@),
{
    text_bytes(&p.response)
}

/// Reads a pong payload; `None` where the bytes are not UTF-8.
pub fn decode_pong(b: Vec<u8>) -> (r: Option<PongEvent>)
    ensures
        r.is_some() == valid_utf8(b@),
        r matches Some(p) ==> p.response@ == decode_utf8(b@),
{
    match string_from_utf8(b) {
        Some(response) => Some(PongEvent { response }),
        None => None,
    }
}

/// The text of an event read back on the peer equals the text that was sent.
pub proof fn lemma_event_text_round_trip(text: Seq<char>)
    ensures
        valid_utf8(encode_utf8(text)),
        decode_utf8(encode_utf8(text)) == text,
{
    encode_utf8_valid_utf8(text);
    encode_utf8_decode_utf8(text);
}

} // verus!
