//! The binary layout of the unconnected ping and of its pong reply.
use vstd::prelude::*;
use vstd::slice::slice_subrange;
use vstd::utf8::{decode_utf8, valid_utf8};

use crate::error::QueryError;

verus! {

/// Message id of an unconnected ping.
pub const PING_ID: u8 = 0x01;

/// Message id of an unconnected pong.
pub const PONG_ID: u8 = 0x1C;

/// Length of a ping request: id, timestamp, magic and client GUID.
pub const REQUEST_LEN: usize = 33;

/// A reply must reach this length to hold the server GUID.
pub const MIN_REPLY_LEN: usize = 17;

/// Bytes set aside for a reply; a longer datagram is cut to this length.
pub const REPLY_BUFFER_LEN: usize = 1024;

/// Offset of the text payload in a reply.
pub const PAYLOAD_OFFSET: usize = 41;

/// The sixteen bytes that mark a RakNet offline message.
pub open spec fn magic() -> Seq<u8> {
    seq![
        0x00u8, 0xFFu8, 0xFFu8, 0x00u8, 0xFEu8, 0xFEu8, 0xFEu8, 0xFEu8,
        0xFDu8, 0xFDu8, 0xFDu8, 0xFDu8, 0x12u8, 0x34u8, 0x56u8, 0x78u8,
    ]
}

/// `x` written as eight bytes, most significant first.
pub open spec fn be_bytes(x: u64) -> Seq<u8> {
    seq![
        (x >> 56u64) as u8, (x >> 48u64) as u8, (x >> 40u64) as u8, (x >> 32u64) as u8,
        (x >> 24u64) as u8, (x >> 16u64) as u8, (x >> 8u64) as u8, x as u8,
    ]
}

/// The integer that eight bytes spell, most significant first.
pub open spec fn be_u64(b: Seq<u8>) -> u64
    recommends
        b.len() == 8,
{
    ((b[0] as u64) << 56u64) | ((b[1] as u64) << 48u64) | ((b[2] as u64) << 40u64)
        | ((b[3] as u64) << 32u64) | ((b[4] as u64) << 24u64) | ((b[5] as u64) << 16u64)
        | ((b[6] as u64) << 8u64) | (b[7] as u64)
}

/// The signed big-endian integer at `start..start + 8` of `b`.
pub open spec fn be_i64_at(b: Seq<u8>, start: int) -> i64 {
    be_u64(b.subrange(start, start + 8)) as i64
}

/// The ping datagram for a timestamp in milliseconds and a client GUID.
pub open spec fn request_bytes(millis: u64, client_guid: Seq<u8>) -> Seq<u8> {
    seq![PING_ID] + be_bytes(millis) + magic() + client_guid
}

/// A pong as a server writes it: id, timestamp, server GUID, magic, the
/// server GUID again, then the payload bytes.
pub open spec fn reply_bytes(millis: u64, guid: i64, echo: u64, payload: Seq<u8>) -> Seq<u8> {
    seq![PONG_ID] + be_bytes(millis) + be_bytes(guid as u64) + magic() + be_bytes(echo) + payload
}

/// The bytes of a reply that hold its text payload: none up to the offset.
pub open spec fn payload_bytes(reply: Seq<u8>) -> Seq<u8> {
    if reply.len() <= PAYLOAD_OFFSET {
        Seq::empty()
    } else {
        reply.subrange(PAYLOAD_OFFSET as int, reply.len() as int)
    }
}

/// Reading eight bytes back gives the integer they were written from.
pub proof fn lemma_be_round_trip(x: u64)
    ensures
        be_u64(be_bytes(x)) == x,
{
    let b = be_bytes(x);
    let (b0, b1, b2, b3) = (b[0], b[1], b[2], b[3]);
    let (b4, b5, b6, b7) = (b[4], b[5], b[6], b[7]);
    assert(b0 == (x >> 56u64) as u8 && b1 == (x >> 48u64) as u8 && b2 == (x >> 40u64) as u8
        && b3 == (x >> 32u64) as u8 && b4 == (x >> 24u64) as u8 && b5 == (x >> 16u64) as u8
        && b6 == (x >> 8u64) as u8 && b7 == x as u8);
    assert(((b0 as u64) << 56u64) | ((b1 as u64) << 48u64) | ((b2 as u64) << 40u64)
        | ((b3 as u64) << 32u64) | ((b4 as u64) << 24u64) | ((b5 as u64) << 16u64)
        | ((b6 as u64) << 8u64) | (b7 as u64) == x) by (bit_vector)
        requires
            b0 == (x >> 56u64) as u8,
            b1 == (x >> 48u64) as u8,
            b2 == (x >> 40u64) as u8,
            b3 == (x >> 32u64) as u8,
            b4 == (x >> 24u64) as u8,
            b5 == (x >> 16u64) as u8,
            b6 == (x >> 8u64) as u8,
            b7 == x as u8,
    ;
}

/// Appends `x` as eight big-endian bytes.
fn push_be(out: &mut Vec<u8>, x: u64)
    ensures
        final(out)@ == old(out)@ + be_bytes(x),
{
    out.push(#[verifier::truncate] ((x >> 56u64) as u8));
    out.push(#[verifier::truncate] ((x >> 48u64) as u8));
    out.push(#[verifier::truncate] ((x >> 40u64) as u8));
    out.push(#[verifier::truncate] ((x >> 32u64) as u8));
    out.push(#[verifier::truncate] ((x >> 24u64) as u8));
    out.push(#[verifier::truncate] ((x >> 16u64) as u8));
    out.push(#[verifier::truncate] ((x >> 8u64) as u8));
    out.push(#[verifier::truncate] (x as u8));
    assert(final(out)@ =~= old(out)@ + be_bytes(x));
}

/// Appends every byte of `src`.
fn push_all(out: &mut Vec<u8>, src: &[u8])
    ensures
        final(out)@ == old(out)@ + src@,
{
    let ghost start = out@;
    let mut i: usize = 0;
    while i < src.len()
        invariant
            i <= src@.len(),
            out@ == start + src@.subrange(0, i as int),
        decreases src@.len() - i,
    {
        out.push(src[i]);
        i = i + 1;
        assert(out@ =~= start + src@.subrange(0, i as int));
    }
    assert(src@.subrange(0, i as int) =~= src@);
}

/// The offline-message magic as bytes.
fn magic_bytes() -> (r: [u8; 16])
    ensures
        r@ == magic(),
{
    let r: [u8; 16] = [
        0x00, 0xFF, 0xFF, 0x00, 0xFE, 0xFE, 0xFE, 0xFE, 0xFD, 0xFD, 0xFD, 0xFD, 0x12, 0x34, 0x56,
        0x78,
    ];
    assert(r@ =~= magic());
    r
}

/// Builds the ping datagram for a clock reading in milliseconds since the
/// Unix epoch and a client GUID. A reading that does not fit a signed 64-bit
/// integer cannot be sent and fails with `ClockError`.
pub fn build_request(millis: u128, client_guid: [u8; 8]) -> (r: Result<Vec<u8>, QueryError>)
    ensures
        millis <= i64::MAX ==> r is Ok && r->Ok_0@ == request_bytes(millis as u64, client_guid@),
        millis > i64::MAX ==> r == Err::<Vec<u8>, QueryError>(QueryError::ClockError),
        r is Ok ==> r->Ok_0@.len() == REQUEST_LEN,
        r is Ok ==> r->Ok_0@.subrange(9, 25) == magic(),
{
    if millis > i64::MAX as u128 {
        return Err(QueryError::ClockError);
    }
    let mut buf: Vec<u8> = Vec::new();
    buf.push(PING_ID);
    push_be(&mut buf, millis as u64);
    let m = magic_bytes();
    push_all(&mut buf, &m);
    push_all(&mut buf, &client_guid);
    let ghost b = request_bytes(millis as u64, client_guid@);
    assert(buf@ =~= b);
    assert(b.subrange(9, 25) =~= magic());
    Ok(buf)
}

/// Relies on rand's `OsRng::try_fill_bytes` (rand_core's, through getrandom):
/// eight bytes from the operating system, or `None` where it cannot supply
/// them. Nothing is known of their values.
#[verifier::external_body]
fn random_guid() -> Option<[u8; 8]> {
    let mut b = [0u8; 8];
    match rand::RngCore::try_fill_bytes(&mut rand::rngs::OsRng, &mut b) {
        Ok(()) => Some(b),
        Err(_) => None,
    }
}

/// Builds the ping datagram for a clock reading in milliseconds since the
/// Unix epoch, with a freshly drawn client GUID. The GUID only helps to tell
/// requests apart and need not be unique: where no random bytes can be had,
/// it is eight zero bytes.
pub fn ping_request(millis: u128) -> (r: Result<Vec<u8>, QueryError>)
    ensures
        r is Ok <==> millis <= i64::MAX,
        r is Err ==> r->Err_0 == QueryError::ClockError,
        r is Ok ==> r->Ok_0@.len() == REQUEST_LEN,
        r is Ok ==> r->Ok_0@.subrange(0, 9) == seq![PING_ID] + be_bytes(millis as u64),
        r is Ok ==> r->Ok_0@.subrange(9, 25) == magic(),
{
    let guid = match random_guid() {
        Some(g) => g,
        None => [0u8; 8],
    };
    let r = build_request(millis, guid);
    proof {
        if millis <= i64::MAX {
            let b = request_bytes(millis as u64, guid@);
            assert(b.subrange(0, 9) =~= seq![PING_ID] + be_bytes(millis as u64));
        }
    }
    r
}

/// A decoded pong: the server GUID and the text payload.
pub struct Pong {
    pub guid: i64,
    pub payload: String,
}

/// Relies on std::str::from_utf8: it succeeds exactly on valid UTF-8 and then
/// holds the characters those bytes encode.
#[verifier::external_body]
fn utf8_text(b: &[u8]) -> (r: Option<&str>)
    ensures
        r is Some <==> valid_utf8(b@),
        r is Some ==> r->0@ == decode_utf8(b@),
{
    std::str::from_utf8(b).ok()
}

/// The big-endian signed integer at `start..start + 8`.
fn read_be_i64(b: &[u8], start: usize) -> (r: i64)
    requires
        start + 8 <= b@.len(),
    ensures
        r == be_i64_at(b@, start as int),
{
    let v: u64 = ((b[start] as u64) << 56u64) | ((b[start + 1] as u64) << 48u64) | ((b[start
        + 2] as u64) << 40u64) | ((b[start + 3] as u64) << 32u64) | ((b[start + 4] as u64)
        << 24u64) | ((b[start + 5] as u64) << 16u64) | ((b[start + 6] as u64) << 8u64) | (b[start
        + 7] as u64);
    assert(v == be_u64(b@.subrange(start as int, start + 8)));
    #[verifier::truncate]
    (v as i64)
}

/// Decodes a pong reply, given as the bytes that arrived. The server GUID
/// stands at `9..17`; the text payload runs from offset 41 to the end and is
/// empty for a shorter reply.
pub fn decode_reply(reply: &[u8]) -> (r: Result<Pong, QueryError>)
    ensures
        reply@.len() < MIN_REPLY_LEN ==> r is Err && r->Err_0 == QueryError::TooShort,
        reply@.len() >= MIN_REPLY_LEN && !valid_utf8(payload_bytes(reply@)) ==> r is Err
            && r->Err_0 == QueryError::EncodingError,
        reply@.len() >= MIN_REPLY_LEN && valid_utf8(payload_bytes(reply@)) ==> r is Ok
            && r->Ok_0.guid == be_i64_at(reply@, 9) && r->Ok_0.payload@ == decode_utf8(
            payload_bytes(reply@),
        ),
        MIN_REPLY_LEN <= reply@.len() <= PAYLOAD_OFFSET ==> r is Ok && r->Ok_0.payload@.len()
            == 0,
{
    let n = reply.len();
    if n < MIN_REPLY_LEN {
        return Err(QueryError::TooShort);
    }
    let guid = read_be_i64(reply, 9);
    let start = if n < PAYLOAD_OFFSET {
        n
    } else {
        PAYLOAD_OFFSET
    };
    let tail = slice_subrange(reply, start, n);
    assert(tail@ =~= payload_bytes(reply@));
    match utf8_text(tail) {
        Some(text) => Ok(Pong { guid, payload: text.to_owned() }),
        None => Err(QueryError::EncodingError),
    }
}

} // verus!
