// Handshake construction, parsing and the full C0C1/S0S1S2/C2 exchange.

use rtmp::{C0C1, S0S1S2, C2, HandshakeState, HandshakeEvent, validate_c0c1, generate_s0s1s2,
    validate_c2, RTMP_VERSION, HANDSHAKE_SIZE};

#[test]
fn test_c0c1_creation() {
    let c0c1 = C0C1::create_client();
    assert_eq!(c0c1.version, RTMP_VERSION);
    assert_eq!(c0c1.zero, 0);
    assert_eq!(c0c1.random_data.len(), HANDSHAKE_SIZE - 8);
}

#[test]
fn test_c0c1_round_trip() {
    let original = C0C1::create_client();
    let bytes = original.encode();
    assert_eq!(bytes.len(), 1537);

    let parsed = C0C1::parse(&bytes).unwrap();
    assert_eq!(parsed.version, original.version);
    assert_eq!(parsed.timestamp, original.timestamp);
    assert_eq!(parsed.zero, original.zero);
}

#[test]
fn test_handshake_flow() {
    // Client creates C0+C1.
    let c0c1 = C0C1::create_client();

    // Server generates S0+S1+S2.
    let s0s1s2 = S0S1S2::generate(&c0c1).unwrap();
    assert_eq!(s0s1s2.version, RTMP_VERSION);
    assert_eq!(s0s1s2.s2_timestamp, c0c1.timestamp);

    // Client creates C2.
    let c2 = C2::create_from_s1(&s0s1s2);

    // Server validates C2.
    c2.validate(&s0s1s2).unwrap();
}

#[test]
fn test_handshake_rejects_bad_version() {
    let mut bytes = vec![0u8; 1537];
    bytes[0] = 6;
    let r = C0C1::parse(&bytes);
    assert!(matches!(r, Err(rtmp::Error::Handshake(_))));
}

#[test]
fn test_handshake_synthesized_c0c1_round_trip() {
    // A synthesized C0 (byte 3) plus 1536 zero bytes: timestamp 0, zero 0.
    let mut bytes = vec![0u8; 1537];
    bytes[0] = 3;
    let c0c1 = validate_c0c1(&bytes).unwrap();
    assert_eq!(c0c1.timestamp, 0);
    assert_eq!(c0c1.zero, 0);

    // The reply is a 3073-byte S0S1S2 echoing the peer's random field.
    let reply = generate_s0s1s2(&c0c1).unwrap();
    assert_eq!(reply.len(), 3073);
    assert_eq!(reply[0], 3);
    assert_eq!(&reply[1545..3073], &bytes[9..1537]);

    // A second client parses the reply and echoes S1; the echo validates.
    let s0s1s2 = S0S1S2::parse(&reply).unwrap();
    let c2 = C2::create_from_s1(&s0s1s2);
    let c2_bytes = c2.encode();
    assert_eq!(c2_bytes.len(), 1536);
    validate_c2(&c2_bytes, &s0s1s2).unwrap();

    // A tampered echo does not.
    let mut bad = c2_bytes.clone();
    bad[100] ^= 0xFF;
    assert!(validate_c2(&bad, &s0s1s2).is_err());
}

#[test]
fn test_handshake_state_machine() {
    let mut state = HandshakeState::new();
    assert!(!state.is_done());
    state.transition(HandshakeEvent::ReceivedC0C1).unwrap();
    state.transition(HandshakeEvent::ReceivedC2).unwrap();
    assert!(state.is_done());

    // Out-of-order events are rejected without moving.
    let mut s2 = HandshakeState::new();
    assert!(s2.transition(HandshakeEvent::ReceivedC2).is_err());
    assert!(!s2.is_failed());
    assert!(s2.transition(HandshakeEvent::Error).is_err());
    assert!(s2.is_failed());
}

#[test]
fn test_digest_handshake_format_detected() {
    // The signature in C1 body bytes 4..8 (the zero field) announces the
    // first digest variant.
    let mut bytes = vec![0u8; 1537];
    bytes[0] = 3;
    bytes[5] = 0x05;
    bytes[6] = 0x00;
    bytes[7] = 0x01;
    bytes[8] = 0x01;
    let c0c1 = C0C1::parse(&bytes).unwrap();
    assert_eq!(c0c1.detect_format(), rtmp::HandshakeFormat::Format1);
    // The reply still echoes the peer and still validates.
    let reply = generate_s0s1s2(&c0c1).unwrap();
    assert_eq!(reply.len(), 3073);
    assert_eq!(&reply[1545..3073], &bytes[9..1537]);
}

#[test]
fn test_digest_handshake_second_probe_detected() {
    // The signature at C1 body offset 764 announces the second digest
    // variant; anywhere else the handshake reads as simple.
    let mut bytes = vec![0u8; 1537];
    bytes[0] = 3;
    bytes[1 + 764] = 0x05;
    bytes[1 + 765] = 0x00;
    bytes[1 + 766] = 0x01;
    bytes[1 + 767] = 0x01;
    let c0c1 = C0C1::parse(&bytes).unwrap();
    assert_eq!(c0c1.detect_format(), rtmp::HandshakeFormat::Format2);

    // The signature at the head of the random field (body bytes 8..12) is
    // at neither probe, so that C1 reads as simple.
    let mut plain = vec![0u8; 1537];
    plain[0] = 3;
    plain[9] = 0x05;
    plain[10] = 0x00;
    plain[11] = 0x01;
    plain[12] = 0x01;
    let c0c1 = C0C1::parse(&plain).unwrap();
    assert_eq!(c0c1.detect_format(), rtmp::HandshakeFormat::Simple);
}
