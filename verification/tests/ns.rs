//! The framed text messages of the naming service.

use ibkr_dx::protocol::ns::{
    is_ns_text, ns_build, ns_build_heart_beat, ns_parse, ns_recv, parse_test_request_timestamp,
    NsErrorKind, NS_AUTH_START, NS_BACKUP_HOST, NS_CONNECT_REQUEST, NS_CONNECT_RESPONSE,
    NS_ERROR_RESPONSE, NS_FIX_START, NS_HEART_BEAT, NS_MAGIC, NS_MISC_URLS_REQUEST,
    NS_MISC_URLS_RESPONSE, NS_NEWCOMMPORTTYPE, NS_REDIRECT, NS_SECURE_CONNECT,
    NS_SECURE_CONNECTION_START, NS_SECURE_ERROR, NS_SECURE_MESSAGE, NS_TEST_REQUEST,
};
use std::collections::HashSet;

#[test]
fn build_structure() {
    let msg = ns_build(50, 521, &["user", "1234"], "");
    assert_eq!(&msg[..4], NS_MAGIC);
    let len = u32::from_be_bytes([msg[4], msg[5], msg[6], msg[7]]) as usize;
    assert_eq!(msg.len(), 8 + len);
    let payload = std::str::from_utf8(&msg[8..]).unwrap();
    assert!(payload.starts_with("50;521;"));
}

#[test]
fn build_with_prefix() {
    let msg = ns_build(38, 528, &[], "MISC");
    let payload = std::str::from_utf8(&msg[8..]).unwrap();
    assert!(payload.starts_with("MISC38;528;"));
}

#[test]
fn parse_roundtrip() {
    let msg = ns_build(50, 521, &["user", "1234", "info"], "");
    let payload = &msg[8..];
    let (version, msg_type, fields) = ns_parse(payload).unwrap();
    assert_eq!(version, 50);
    assert_eq!(msg_type, 521);
    assert_eq!(fields, vec!["user", "1234", "info"]);
}

#[test]
fn parse_misc_prefix() {
    let msg = ns_build(38, 529, &["key=val"], "MISC");
    let payload = &msg[8..];
    let (version, msg_type, fields) = ns_parse(payload).unwrap();
    assert_eq!(version, 38);
    assert_eq!(msg_type, 529);
    assert_eq!(fields, vec!["key=val"]);
}

#[test]
fn heart_beat_echoes_timestamp() {
    let msg = ns_build_heart_beat(50, "20260430-22:58:25");
    let payload = std::str::from_utf8(&msg[8..]).unwrap();
    // Must use MISC prefix, type 531, and carry the original timestamp.
    assert!(payload.starts_with("MISC50;531;20260430-22:58:25;"), "got {payload}");
}

#[test]
fn parse_test_request_extracts_timestamp() {
    let msg = ns_build(50, NS_TEST_REQUEST, &["20260430-22:58:25"], "MISC");
    let payload = &msg[8..];
    assert_eq!(
        parse_test_request_timestamp(payload),
        Some("20260430-22:58:25".to_string())
    );
}

#[test]
fn parse_test_request_rejects_wrong_type() {
    let msg = ns_build(50, NS_HEART_BEAT, &["20260430-22:58:25"], "MISC");
    let payload = &msg[8..];
    assert_eq!(parse_test_request_timestamp(payload), None);
}

#[test]
fn recv_roundtrip() {
    let msg = ns_build(50, 534, &["data"], "");
    let (payload, total) = ns_recv(&msg).unwrap();
    assert_eq!(total, msg.len());
    let (version, msg_type, _) = ns_parse(&payload).unwrap();
    assert_eq!(version, 50);
    assert_eq!(msg_type, 534);
}

#[test]
fn is_ns_text_checks() {
    assert!(is_ns_text(b"50;521;user;"));
    assert!(!is_ns_text(b"\x00\x00\x00\x17")); // XYZ binary
    assert!(!is_ns_text(b""));
}

#[test]
fn build_empty_fields() {
    let msg = ns_build(1, 2, &[], "");
    let payload = std::str::from_utf8(&msg[8..]).unwrap();
    assert_eq!(payload, "1;2;");
}

#[test]
fn build_many_fields() {
    let fields: Vec<&str> = (0..20).map(|_| "x").collect();
    let msg = ns_build(10, 99, &fields, "");
    let payload = std::str::from_utf8(&msg[8..]).unwrap();
    // version;msg_type; plus 20 "x;" entries
    assert!(payload.starts_with("10;99;"));
    assert_eq!(payload.matches("x;").count(), 20);
}

#[test]
fn parse_empty_payload_returns_none() {
    assert!(ns_parse(b"").is_none());
}

#[test]
fn parse_single_field_no_trailing_semicolon_returns_none() {
    // "50" with no semicolons → split yields ["50"], len < 2 → None
    assert!(ns_parse(b"50").is_none());
}

#[test]
fn parse_non_numeric_version_returns_none() {
    assert!(ns_parse(b"abc;521;field;").is_none());
}

#[test]
fn parse_misc_prefix_lowercase() {
    // "misc" in lowercase — to_uppercase converts to "MISC", so it should still strip.
    let payload = b"misc38;529;val;";
    let (version, msg_type, fields) = ns_parse(payload).unwrap();
    assert_eq!(version, 38);
    assert_eq!(msg_type, 529);
    assert_eq!(fields, vec!["val"]);
}

#[test]
fn recv_bad_magic_returns_error() {
    let bad = b"AAAA\x00\x00\x00\x02ok";
    let result = ns_recv(bad);
    assert!(result.is_err());
    let err = result.unwrap_err();
    assert_eq!(err.kind(), NsErrorKind::InvalidData);
    assert!(err.to_string().contains("#%#%"));
}

#[test]
fn recv_zero_length_payload() {
    let mut msg = Vec::new();
    msg.extend_from_slice(NS_MAGIC);
    msg.extend_from_slice(&0u32.to_be_bytes());
    let (payload, total) = ns_recv(&msg).unwrap();
    assert!(payload.is_empty());
    assert_eq!(total, 8);
}

#[test]
fn is_ns_text_digit() {
    assert!(is_ns_text(b"0rest"));
    assert!(is_ns_text(b"9rest"));
}

#[test]
fn is_ns_text_letter() {
    assert!(!is_ns_text(b"Atext"));
    assert!(!is_ns_text(b"z"));
}

#[test]
fn is_ns_text_null_byte() {
    assert!(!is_ns_text(b"\x00"));
}

#[test]
fn is_ns_text_space() {
    assert!(!is_ns_text(b" "));
}

#[test]
fn ns_magic_value() {
    assert_eq!(NS_MAGIC, b"#%#%");
    assert_eq!(NS_MAGIC.len(), 4);
}

#[test]
fn all_ns_constants_unique() {
    let values: Vec<u32> = vec![
        NS_ERROR_RESPONSE,
        NS_AUTH_START,
        NS_CONNECT_REQUEST,
        NS_CONNECT_RESPONSE,
        NS_REDIRECT,
        NS_FIX_START,
        NS_NEWCOMMPORTTYPE,
        NS_BACKUP_HOST,
        NS_MISC_URLS_REQUEST,
        NS_MISC_URLS_RESPONSE,
        NS_SECURE_CONNECT,
        NS_SECURE_CONNECTION_START,
        NS_SECURE_MESSAGE,
        NS_SECURE_ERROR,
    ];
    let set: HashSet<u32> = values.iter().copied().collect();
    assert_eq!(
        values.len(),
        set.len(),
        "Duplicate values found among NS_* constants"
    );
}
