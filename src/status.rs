//! The typed result of a status query, and how a pong maps onto it.
use vstd::prelude::*;

use crate::error::QueryError;
use crate::fields::{
    has_sign, join_fields, lemma_split_join, magnitude_part, no_separator, parse_i32,
    parse_i32_text, payload_fields, split_payload, texts,
};
use crate::wire::{
    be_bytes, be_i64_at, decode_reply, lemma_be_round_trip, payload_bytes, reply_bytes,
    MIN_REPLY_LEN, PAYLOAD_OFFSET,
};
use vstd::utf8::{
    decode_utf8, encode_utf8, encode_utf8_decode_utf8, encode_utf8_valid_utf8, valid_utf8,
};

verus! {

/// The port queried when the caller names none.
pub const DEFAULT_PORT: i32 = 19132;

/// The protocol number reported when the payload's protocol field is missing or malformed.
pub const DEFAULT_PROTOCOL: i32 = 1;

/// A player count that the payload did not give.
pub const UNKNOWN_COUNT: i32 = -1;

/// The server that answered.
#[derive(Debug)]
pub struct Server {
    /// The host as the caller named it.
    pub host: String,
    /// The port queried.
    pub port: i32,
    /// The address the reply came from.
    pub remote_host: String,
    /// The server GUID from the binary header of the reply.
    pub guid: i64,
    /// The edition tag, such as `MCPE`.
    pub edition: String,
    /// The two lines of the message of the day.
    pub motd: [String; 2],
}

/// Player counts.
#[derive(Debug, Clone, Copy)]
pub struct Players {
    pub online: i32,
    pub max: i32,
}

/// The server's protocol number and version name.
#[derive(Debug)]
pub struct Version {
    pub protocol: i32,
    pub name: String,
}

/// The result of one status query.
#[derive(Debug)]
pub struct Status {
    pub server: Server,
    pub version: Version,
    pub players: Players,
}

/// Field `i` of a payload, empty where the payload has fewer fields.
pub open spec fn field(parts: Seq<Seq<char>>, i: int) -> Seq<char> {
    if 0 <= i < parts.len() {
        parts[i]
    } else {
        Seq::empty()
    }
}

/// Field `i` read as an `i32`, or `default` where it is missing or malformed.
pub open spec fn int_field(parts: Seq<Seq<char>>, i: int, default: i32) -> i32 {
    match parse_i32(field(parts, i)) {
        Some(v) => v,
        None => default,
    }
}

/// `r` is the status that a query of `host` and `port`, answered from
/// `remote` by the server `guid` with the payload fields `parts`, reports.
pub open spec fn describes(
    r: Status,
    host: Seq<char>,
    port: i32,
    remote: Seq<char>,
    guid: i64,
    parts: Seq<Seq<char>>,
) -> bool {
    &&& r.server.host@ == host
    &&& r.server.port == port
    &&& r.server.remote_host@ == remote
    &&& r.server.guid == guid
    &&& r.server.edition@ == field(parts, 0)
    &&& r.server.motd[0]@ == field(parts, 1)
    &&& r.server.motd[1]@ == field(parts, 7)
    &&& r.version.protocol == int_field(parts, 2, DEFAULT_PROTOCOL)
    &&& r.version.name@ == field(parts, 3)
    &&& r.players.online == int_field(parts, 4, UNKNOWN_COUNT)
    &&& r.players.max == int_field(parts, 5, UNKNOWN_COUNT)
}

/// The port to query: the one given, else the default.
pub fn effective_port(p: Option<i32>) -> (r: i32)
    ensures
        r == match p {
            Some(x) => x,
            None => DEFAULT_PORT,
        },
{
    match p {
        Some(x) => x,
        None => DEFAULT_PORT,
    }
}

fn part_text(parts: &Vec<String>, i: usize) -> (r: String)
    ensures
        r@ == field(texts(parts@), i as int),
{
    if i < parts.len() {
        parts[i].clone()
    } else {
        String::new()
    }
}

fn part_int(parts: &Vec<String>, i: usize, default: i32) -> (r: i32)
    ensures
        r == int_field(texts(parts@), i as int, default),
{
    let t = part_text(parts, i);
    match parse_i32_text(t.as_str()) {
        Some(v) => v,
        None => default,
    }
}

/// Assembles the status from the query's parameters, the server GUID and the
/// payload fields (edition, motd line 1, protocol, version name, players
/// online, max players, server id, motd line 2, game mode).
pub fn status_from_fields(
    host: String,
    port: i32,
    remote_host: String,
    guid: i64,
    parts: &Vec<String>,
) -> (r: Status)
    ensures
        describes(r, host@, port, remote_host@, guid, texts(parts@)),
{
    let edition = part_text(parts, 0);
    let motd = [part_text(parts, 1), part_text(parts, 7)];
    let protocol = part_int(parts, 2, DEFAULT_PROTOCOL);
    let name = part_text(parts, 3);
    let online = part_int(parts, 4, UNKNOWN_COUNT);
    let max = part_int(parts, 5, UNKNOWN_COUNT);
    Status {
        server: Server { host, port, remote_host, guid, edition, motd },
        version: Version { protocol, name },
        players: Players { online, max },
    }
}

/// Decodes a pong, given as the bytes that arrived from `remote_host`, into
/// the status of `host` and `port`.
pub fn status_from_reply(host: String, port: i32, remote_host: String, reply: &[u8]) -> (r:
    Result<Status, QueryError>)
    ensures
        reply@.len() < MIN_REPLY_LEN ==> r is Err && r->Err_0 == QueryError::TooShort,
        reply@.len() >= MIN_REPLY_LEN && !valid_utf8(payload_bytes(reply@)) ==> r is Err
            && r->Err_0 == QueryError::EncodingError,
        reply@.len() >= MIN_REPLY_LEN && valid_utf8(payload_bytes(reply@)) ==> r is Ok
            && describes(
            r->Ok_0,
            host@,
            port,
            remote_host@,
            be_i64_at(reply@, 9),
            payload_fields(decode_utf8(payload_bytes(reply@))),
        ),
{
    match decode_reply(reply) {
        Err(e) => Err(e),
        Ok(pong) => {
            let parts = split_payload(pong.payload.as_str());
            Ok(status_from_fields(host, port, remote_host, pong.guid, &parts))
        },
    }
}

/// A pong written with up to nine fields, none holding `;`, decodes back to
/// the server GUID and the fields it was written with.
pub proof fn lemma_reply_round_trip(millis: u64, guid: i64, echo: u64, fields: Seq<Seq<char>>)
    requires
        1 <= fields.len() <= 9,
        forall|i: int| 0 <= i < fields.len() ==> no_separator(#[trigger] fields[i]),
    ensures
        ({
            let b = reply_bytes(millis, guid, echo, encode_utf8(join_fields(fields)));
            &&& b.len() >= MIN_REPLY_LEN
            &&& valid_utf8(payload_bytes(b))
            &&& be_i64_at(b, 9) == guid
            &&& payload_fields(decode_utf8(payload_bytes(b))) == fields
        }),
{
    let text = join_fields(fields);
    let enc = encode_utf8(text);
    let b = reply_bytes(millis, guid, echo, enc);
    assert(b.subrange(9, 17) =~= be_bytes(guid as u64));
    lemma_be_round_trip(guid as u64);
    assert((guid as u64) as i64 == guid) by (bit_vector);
    assert(payload_bytes(b) =~= enc) by {
        if b.len() <= PAYLOAD_OFFSET {
            assert(enc.len() == 0);
        } else {
            assert(b.subrange(PAYLOAD_OFFSET as int, b.len() as int) =~= enc);
        }
    }
    encode_utf8_valid_utf8(text);
    encode_utf8_decode_utf8(text);
    lemma_split_join(fields);
}

/// Where the payload has fewer than six fields the maximum player count is
/// unknown, and where it has fewer than five the online count is too. (With
/// exactly five, the online count is the fifth field.)
pub proof fn lemma_absent_player_counts(
    r: Status,
    host: Seq<char>,
    port: i32,
    remote: Seq<char>,
    guid: i64,
    parts: Seq<Seq<char>>,
)
    requires
        describes(r, host, port, remote, guid, parts),
        parts.len() < 6,
    ensures
        r.players.max == UNKNOWN_COUNT,
        parts.len() < 5 ==> r.players.online == UNKNOWN_COUNT,
{
    let none: Seq<char> = Seq::empty();
    assert(!has_sign(none));
    assert(magnitude_part(none).len() == 0);
    assert(parse_i32(none) is None);
    assert(parts.len() < 5 ==> field(parts, 4) == none);
    assert(field(parts, 5) == none);
}

/// A protocol field that does not parse as an `i32` reads as the default
/// protocol, and the status is still produced.
pub proof fn lemma_malformed_protocol(
    r: Status,
    host: Seq<char>,
    port: i32,
    remote: Seq<char>,
    guid: i64,
    parts: Seq<Seq<char>>,
)
    requires
        describes(r, host, port, remote, guid, parts),
        parse_i32(field(parts, 2)) is None,
    ensures
        r.version.protocol == DEFAULT_PROTOCOL,
{
}

} // verus!
