use bedrock_ping::fields::{parse_i32_text, split_payload};
use bedrock_ping::status::{effective_port, status_from_fields, status_from_reply};
use bedrock_ping::wire::{build_request, decode_reply, ping_request};
use bedrock_ping::QueryError;

const MAGIC: [u8; 16] = [
    0x00, 0xFF, 0xFF, 0x00, 0xFE, 0xFE, 0xFE, 0xFE, 0xFD, 0xFD, 0xFD, 0xFD, 0x12, 0x34, 0x56, 0x78,
];

const GOLDEN: &str =
    "MCPE;Dedicated Server;475;1.18.0;5;20;1234567890;Bedrock level;Survival;1;19132;19133;";

fn reply_with(guid: i64, payload: &[u8]) -> Vec<u8> {
    let mut b = vec![0x1Cu8];
    b.extend_from_slice(&1_650_000_000_000i64.to_be_bytes());
    b.extend_from_slice(&guid.to_be_bytes());
    b.extend_from_slice(&MAGIC);
    b.extend_from_slice(&guid.to_be_bytes());
    b.extend_from_slice(payload);
    b
}

#[test]
fn request_layout_is_exact() {
    let millis: u128 = 1_700_000_000_123;
    let guid = [1u8, 2, 3, 4, 5, 6, 7, 8];
    let r = build_request(millis, guid).unwrap();
    assert_eq!(r.len(), 33);
    assert_eq!(r[0], 0x01);
    assert_eq!(&r[1..9], &(millis as i64).to_be_bytes());
    assert_eq!(&r[9..25], &MAGIC);
    assert_eq!(&r[25..33], &guid);
}

#[test]
fn request_at_epoch_and_at_limit() {
    let r = build_request(0, [0u8; 8]).unwrap();
    assert_eq!(&r[1..9], &[0u8; 8]);
    let r = build_request(i64::MAX as u128, [9u8; 8]).unwrap();
    assert_eq!(&r[1..9], &[0x7F, 0xFF, 0xFF, 0xFF, 0xFF, 0xFF, 0xFF, 0xFF]);
}

#[test]
fn request_clock_out_of_range() {
    assert_eq!(build_request(i64::MAX as u128 + 1, [0u8; 8]), Err(QueryError::ClockError));
    assert_eq!(ping_request(u128::MAX), Err(QueryError::ClockError));
}

#[test]
fn ping_request_has_magic_and_length() {
    let millis: u128 = 1_700_000_000_000;
    let r = ping_request(millis).unwrap();
    assert_eq!(r.len(), 33);
    assert_eq!(r[0], 0x01);
    assert_eq!(&r[1..9], &(millis as i64).to_be_bytes());
    assert_eq!(&r[9..25], &MAGIC);
}

#[test]
fn decode_too_short() {
    assert!(matches!(decode_reply(&[]), Err(QueryError::TooShort)));
    assert!(matches!(decode_reply(&[0u8; 16]), Err(QueryError::TooShort)));
}

#[test]
fn decode_header_only_gives_empty_payload() {
    for n in [17usize, 30, 40, 41] {
        let mut b = vec![0u8; n];
        b[9..17].copy_from_slice(&42i64.to_be_bytes());
        let pong = decode_reply(&b).unwrap();
        assert_eq!(pong.guid, 42);
        assert_eq!(pong.payload, "");
    }
}

#[test]
fn decode_negative_guid() {
    let b = reply_with(-2, b"x");
    let pong = decode_reply(&b).unwrap();
    assert_eq!(pong.guid, -2);
    assert_eq!(pong.payload, "x");
}

#[test]
fn decode_invalid_utf8() {
    let b = reply_with(7, &[b'M', 0xFF, 0xFE]);
    assert!(matches!(decode_reply(&b), Err(QueryError::EncodingError)));
}

#[test]
fn decode_multibyte_text() {
    let b = reply_with(7, "Caf\u{e9};\u{2603}".as_bytes());
    let pong = decode_reply(&b).unwrap();
    assert_eq!(pong.payload, "Caf\u{e9};\u{2603}");
    assert_eq!(split_payload(&pong.payload), vec!["Caf\u{e9}".to_string(), "\u{2603}".to_string()]);
}

#[test]
fn golden_reply_round_trip() {
    let guid: i64 = 1234567890;
    let b = reply_with(guid, GOLDEN.as_bytes());
    let s = status_from_reply("example.net".to_string(), 19132, "10.0.0.1:19132".to_string(), &b)
        .unwrap();
    assert_eq!(s.server.host, "example.net");
    assert_eq!(s.server.port, 19132);
    assert_eq!(s.server.remote_host, "10.0.0.1:19132");
    assert_eq!(s.server.guid, guid);
    assert_eq!(s.server.edition, "MCPE");
    assert_eq!(s.server.motd[0], "Dedicated Server");
    assert_eq!(s.server.motd[1], "Bedrock level");
    assert_eq!(s.version.protocol, 475);
    assert_eq!(s.version.name, "1.18.0");
    assert_eq!(s.players.online, 5);
    assert_eq!(s.players.max, 20);
}

#[test]
fn status_from_short_reply_fails() {
    let r = status_from_reply("h".to_string(), 1, "r".to_string(), &[0u8; 10]);
    assert!(matches!(r, Err(QueryError::TooShort)));
    let b = reply_with(1, &[0xC3]);
    let r = status_from_reply("h".to_string(), 1, "r".to_string(), &b);
    assert!(matches!(r, Err(QueryError::EncodingError)));
}

#[test]
fn split_keeps_first_nine() {
    let parts = split_payload(GOLDEN);
    assert_eq!(parts.len(), 9);
    assert_eq!(parts[0], "MCPE");
    assert_eq!(parts[6], "1234567890");
    assert_eq!(parts[8], "Survival");
}

#[test]
fn split_empty_and_adjacent_separators() {
    assert_eq!(split_payload(""), vec![String::new()]);
    assert_eq!(split_payload("a;;b"), vec!["a".to_string(), String::new(), "b".to_string()]);
    assert_eq!(split_payload(";"), vec![String::new(), String::new()]);
}

#[test]
fn parse_integers() {
    assert_eq!(parse_i32_text("475"), Some(475));
    assert_eq!(parse_i32_text("+5"), Some(5));
    assert_eq!(parse_i32_text("-1"), Some(-1));
    assert_eq!(parse_i32_text("007"), Some(7));
    assert_eq!(parse_i32_text("2147483647"), Some(i32::MAX));
    assert_eq!(parse_i32_text("-2147483648"), Some(i32::MIN));
}

#[test]
fn parse_rejects_malformed() {
    for s in ["", "abc", "-", "+", "12a", " 1", "1 ", "2147483648", "-2147483649", "99999999999999"] {
        assert_eq!(parse_i32_text(s), None, "{}", s);
        assert_eq!(parse_i32_text(s), s.parse::<i32>().ok(), "{}", s);
    }
}

#[test]
fn malformed_protocol_defaults_to_one() {
    let b = reply_with(3, b"MCPE;motd;abc;1.0;1;2");
    let s = status_from_reply("h".to_string(), 1, "r".to_string(), &b).unwrap();
    assert_eq!(s.version.protocol, 1);
    assert_eq!(s.players.online, 1);
    assert_eq!(s.players.max, 2);
}

#[test]
fn absent_player_counts_are_unknown() {
    let parts = split_payload("MCPE;motd;475");
    let s = status_from_fields("h".to_string(), 1, "r".to_string(), 0, &parts);
    assert_eq!(s.players.online, -1);
    assert_eq!(s.players.max, -1);
    assert_eq!(s.version.protocol, 475);
    assert_eq!(s.server.motd[1], "");
}

#[test]
fn five_fields_give_online_count_only() {
    let parts = split_payload("MCPE;m;1;v;5");
    let s = status_from_fields("h".to_string(), 1, "r".to_string(), 0, &parts);
    assert_eq!(s.players.online, 5);
    assert_eq!(s.players.max, -1);
}

#[test]
fn empty_payload_maps_to_defaults() {
    let s = status_from_reply("h".to_string(), 5, "r".to_string(), &[0u8; 41]).unwrap();
    assert_eq!(s.server.edition, "");
    assert_eq!(s.version.protocol, 1);
    assert_eq!(s.version.name, "");
    assert_eq!(s.players.online, -1);
    assert_eq!(s.players.max, -1);
}

#[test]
fn default_port() {
    assert_eq!(effective_port(None), 19132);
    assert_eq!(effective_port(Some(25565)), 25565);
}
