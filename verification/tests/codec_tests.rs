//! The byte, hex and payload codecs and their round trips.

use zkpod::claims::CustomClaims;
use zkpod::hex::{hex_decode, hex_encode};
use zkpod::output::{decode_output, encode_output, interpret_journal, PublicOutput};
use zkpod::token::{parse_payload, render_payload};
use zkpod::wire::{claims_from_bytes, claims_to_bytes};

#[test]
fn hex_round_trip() {
    let bytes: Vec<u8> = vec![0x00, 0x01, 0x7f, 0x80, 0xbe, 0xef, 0xff];
    let text = hex_encode(&bytes);
    assert_eq!(text, "00017f80beefff");
    let back = hex_decode(&text.chars().collect()).expect("well-formed hex");
    assert_eq!(back, bytes);
}

#[test]
fn hex_rejects_malformed_text() {
    assert!(hex_decode(&"abc".chars().collect()).is_none());
    assert!(hex_decode(&"0g".chars().collect()).is_none());
    assert!(hex_decode(&"AB".chars().collect()).is_none());
}

#[test]
fn claims_wire_round_trip() {
    let mut c = CustomClaims::new();
    c.add("reference".to_string(), "r1".to_string(), false);
    c.add("issuer_id".to_string(), "Coffee Chain 1".to_string(), true);
    c.add("".to_string(), "".to_string(), false);
    let bytes = claims_to_bytes(&c);
    let back = claims_from_bytes(&bytes).expect("own encoding must parse");
    assert_eq!(back.public_claims(), c.public_claims());
    assert_eq!(back.pretty_print(), c.pretty_print());
    assert_eq!(back.len(), 3);
}

#[test]
fn claims_wire_round_trip_keeps_unicode() {
    let mut c = CustomClaims::new();
    c.add("cost".to_string(), "£4000 — naïve café ☕".to_string(), false);
    let bytes = claims_to_bytes(&c);
    let back = claims_from_bytes(&bytes).expect("encoding must parse");
    assert_eq!(back.public_claims(), "cost=£4000 — naïve café ☕");
}

#[test]
fn claims_wire_rejects_trailing_bytes() {
    let c = CustomClaims::new();
    let mut bytes = claims_to_bytes(&c);
    bytes.push(0);
    assert!(claims_from_bytes(&bytes).is_none());
}

#[test]
fn claims_wire_rejects_truncation() {
    let mut c = CustomClaims::new();
    c.add("k".to_string(), "v".to_string(), false);
    let mut bytes = claims_to_bytes(&c);
    bytes.pop();
    assert!(claims_from_bytes(&bytes).is_none());
}

#[test]
fn payload_round_trip() {
    let mut c = CustomClaims::new();
    c.add("reference".to_string(), "r1".to_string(), false);
    c.add("cost".to_string(), "4000.00".to_string(), true);
    let payload = render_payload(&c);
    assert!(payload.starts_with("{\"claims\":\""));
    assert!(payload.ends_with("\"}"));
    let back = parse_payload(&payload).expect("own payload must parse");
    assert_eq!(back.public_claims(), "reference=r1");
    assert_eq!(back.len(), 2);
}

#[test]
fn payload_rejects_foreign_shapes() {
    assert!(parse_payload("").is_none());
    assert!(parse_payload("{}").is_none());
    assert!(parse_payload("{\"claims\":\"zz\"}").is_none());
    assert!(parse_payload("{\"other\":\"00\"}").is_none());
}

#[test]
fn journal_round_trip() {
    let mut c = CustomClaims::new();
    c.add("reference".to_string(), "r1".to_string(), false);
    let out = PublicOutput { pks: vec!["key one".to_string(), "key two".to_string()], claims: c };
    let bytes = encode_output(&out);
    let back = decode_output(&bytes).expect("own journal must decode");
    assert_eq!(back.pks, vec!["key one".to_string(), "key two".to_string()]);
    assert_eq!(back.claims.public_claims(), "reference=r1");
    let interpreted = interpret_journal(&bytes).expect("same journal through the host path");
    assert_eq!(interpreted.pks.len(), 2);
}

#[test]
fn journal_decode_failure_is_an_error_not_a_crash() {
    assert!(interpret_journal(&vec![]).is_err());
    assert!(interpret_journal(&vec![1, 2, 3]).is_err());
    let mut c = CustomClaims::new();
    c.add("k".to_string(), "v".to_string(), true);
    let out = PublicOutput { pks: vec!["k1".to_string()], claims: c };
    let mut bytes = encode_output(&out);
    bytes.push(9);
    assert!(interpret_journal(&bytes).is_err());
}
