use wallet713::encoding::{from_hex, parse_port, to_hex, u64_to_dec};
use wallet713::payload::{parse_payload, EncryptedPayload};
use wallet713::protocol::{parse_response, EncryptedMessage, ProtocolRequest, ProtocolResponse};
use wallet713::swaptypes::{Currency, Message, OfferUpdate, SecondaryUpdate, Update};
use wallet713::types::{ParticipantData, Slate, SlateVersion, VersionedSlate};

#[test]
fn hex_encodes_exact_digits() {
    assert_eq!(to_hex(&[0u8, 255, 16, 1]), b"00ff1001".to_vec());
    assert_eq!(to_hex(&[]), b"".to_vec());
}

#[test]
fn hex_round_trip_and_rejection() {
    let data = vec![0u8, 1, 2, 250, 255, 77];
    let text = to_hex(&data);
    assert_eq!(from_hex(&text), Some(data));
    assert_eq!(from_hex(b"abc"), None);
    assert_eq!(from_hex(b"zz"), None);
    assert_eq!(from_hex(b"AB"), None);
}

#[test]
fn decimal_encodes_exact_digits() {
    assert_eq!(u64_to_dec(0), b"0".to_vec());
    assert_eq!(u64_to_dec(7), b"7".to_vec());
    assert_eq!(u64_to_dec(13420), b"13420".to_vec());
    assert_eq!(u64_to_dec(u64::MAX), b"18446744073709551615".to_vec());
}

#[test]
fn port_parsing_is_canonical_and_bounded() {
    assert_eq!(parse_port(b"443", 0, 3), Some(443));
    assert_eq!(parse_port(b"65535", 0, 5), Some(65535));
    assert_eq!(parse_port(b"65536", 0, 5), None);
    assert_eq!(parse_port(b"0443", 0, 4), None);
    assert_eq!(parse_port(b"", 0, 0), None);
    assert_eq!(parse_port(b"1x3", 0, 3), None);
}

fn sample_envelope() -> EncryptedMessage {
    EncryptedMessage {
        destination: b"pk@relay.example:443".to_vec(),
        nonce_hex: b"0a0b".to_vec(),
        ciphertext_hex: b"deadbeef".to_vec(),
    }
}

#[test]
fn subscribe_frame_has_canonical_text() {
    let req = ProtocolRequest::Subscribe {
        address: b"myPk".to_vec(),
        signature: b"00ff".to_vec(),
    };
    assert_eq!(
        req.encode(),
        b"{\"type\":\"Subscribe\",\"address\":\"myPk\",\"signature\":\"00ff\"}".to_vec()
    );
}

#[test]
fn post_slate_frame_has_canonical_text() {
    let req = ProtocolRequest::PostSlate {
        from: b"a@h:1".to_vec(),
        to: b"b@h:2".to_vec(),
        content: sample_envelope(),
        signature: b"0abc".to_vec(),
    };
    let text = req.encode();
    let expected = b"{\"type\":\"PostSlate\",\"from\":\"a@h:1\",\"to\":\"b@h:2\",\"str\":{\"destination\":\"pk@relay.example:443\",\"nonce\":\"0a0b\",\"ciphertext\":\"deadbeef\"},\"signature\":\"0abc\"}".to_vec();
    assert_eq!(text, expected);
}

#[test]
fn challenge_frame_parses() {
    let text = b"{\"type\":\"Challenge\",\"str\":\"nonce123\"}";
    match parse_response(text) {
        Some(ProtocolResponse::Challenge { challenge }) => {
            assert_eq!(challenge, b"nonce123".to_vec());
        },
        _ => panic!("expected a challenge"),
    }
}

#[test]
fn slate_frame_round_trips() {
    let resp = ProtocolResponse::Slate {
        from: b"peer@relay.example:443".to_vec(),
        content: sample_envelope(),
        challenge: b"n0".to_vec(),
        signature: b"0123".to_vec(),
    };
    let text = resp.encode();
    match parse_response(&text) {
        Some(ProtocolResponse::Slate { from, content, challenge, signature }) => {
            assert_eq!(from, b"peer@relay.example:443".to_vec());
            assert_eq!(content.destination, b"pk@relay.example:443".to_vec());
            assert_eq!(content.nonce_hex, b"0a0b".to_vec());
            assert_eq!(content.ciphertext_hex, b"deadbeef".to_vec());
            assert_eq!(challenge, b"n0".to_vec());
            assert_eq!(signature, b"0123".to_vec());
        },
        _ => panic!("expected a slate frame"),
    }
}

#[test]
fn error_frame_round_trips() {
    let resp = ProtocolResponse::Error {
        kind: b"unknown".to_vec(),
        description: b"no such address".to_vec(),
    };
    let text = resp.encode();
    assert_eq!(
        text,
        b"{\"type\":\"Error\",\"kind\":\"unknown\",\"description\":\"no such address\"}".to_vec()
    );
    match parse_response(&text) {
        Some(ProtocolResponse::Error { kind, description }) => {
            assert_eq!(kind, b"unknown".to_vec());
            assert_eq!(description, b"no such address".to_vec());
        },
        _ => panic!("expected an error frame"),
    }
}

#[test]
fn junk_frames_are_rejected() {
    assert!(parse_response(b"").is_none());
    assert!(parse_response(b"{\"type\":\"Challenge\"}").is_none());
    assert!(parse_response(b"{\"type\":\"Challenge\",\"str\":\"x\"} ").is_none());
    assert!(parse_response(b"{\"type\":\"Nonsense\",\"str\":\"x\"}").is_none());
    assert!(parse_response(b"{\"type\":\"Challenge\",\"str\":\"bad\\\"quote\"}").is_none());
}

fn sample_slate() -> Slate {
    Slate {
        id: b"0f3a".to_vec(),
        num_participants: 2,
        participant_data: vec![ParticipantData { id: 0 }],
        input_count: 3,
        amount: 5000000,
    }
}

#[test]
fn slate_payload_round_trips() {
    let vs = VersionedSlate {
        version: SlateVersion::V2,
        slate: sample_slate(),
    };
    let p = EncryptedPayload::Tx(vs);
    let text = p.encode();
    assert_eq!(
        text,
        b"{\"payload\":\"slate\",\"version\":\"2\",\"id\":\"0f3a\",\"num_participants\":\"2\",\"participants\":\"0\",\"inputs\":\"3\",\"amount\":\"5000000\"}".to_vec()
    );
    match parse_payload(&text) {
        Some(EncryptedPayload::Tx(back)) => {
            assert!(matches!(back.version, SlateVersion::V2));
            assert_eq!(back.slate.id, b"0f3a".to_vec());
            assert_eq!(back.slate.num_participants, 2);
            assert_eq!(back.slate.participant_data.len(), 1);
            assert_eq!(back.slate.participant_data[0].id, 0);
            assert_eq!(back.slate.input_count, 3);
            assert_eq!(back.slate.amount, 5000000);
        },
        _ => panic!("expected a slate payload"),
    }
}

#[test]
fn slate_payload_round_trips_many_participants() {
    let vs = VersionedSlate {
        version: SlateVersion::V1,
        slate: Slate {
            id: b"id1".to_vec(),
            num_participants: 3,
            participant_data: vec![
                ParticipantData { id: 0 },
                ParticipantData { id: 1 },
                ParticipantData { id: 7 },
            ],
            input_count: 0,
            amount: 0,
        },
    };
    let text = EncryptedPayload::Tx(vs).encode();
    match parse_payload(&text) {
        Some(EncryptedPayload::Tx(back)) => {
            assert!(matches!(back.version, SlateVersion::V1));
            assert_eq!(back.slate.participant_data.len(), 3);
            assert_eq!(back.slate.participant_data[2].id, 7);
        },
        _ => panic!("expected a slate payload"),
    }
}

#[test]
fn swap_payload_round_trips_offer() {
    let m = Message::new(
        b"swap1".to_vec(),
        Update::Offer(OfferUpdate {
            secondary_currency: Currency::Btc,
            primary_amount: 100,
            secondary_amount: 42,
        }),
        SecondaryUpdate::Btc(b"btcdata".to_vec()),
    );
    let text = EncryptedPayload::Swap(m).encode();
    match parse_payload(&text) {
        Some(EncryptedPayload::Swap(back)) => {
            assert_eq!(back.id, b"swap1".to_vec());
            match back.inner {
                Update::Offer(o) => {
                    assert!(matches!(o.secondary_currency, Currency::Btc));
                    assert_eq!(o.primary_amount, 100);
                    assert_eq!(o.secondary_amount, 42);
                },
                _ => panic!("expected an offer"),
            }
            match back.secondary {
                SecondaryUpdate::Btc(d) => assert_eq!(d, b"btcdata".to_vec()),
                _ => panic!("expected secondary data"),
            }
        },
        _ => panic!("expected a swap payload"),
    }
}

#[test]
fn swap_payload_round_trips_plain_update() {
    let m = Message::new(b"swap2".to_vec(), Update::InitRedeem, SecondaryUpdate::Empty);
    let text = EncryptedPayload::Swap(m).encode();
    match parse_payload(&text) {
        Some(EncryptedPayload::Swap(back)) => {
            assert_eq!(back.id, b"swap2".to_vec());
            assert!(matches!(back.inner, Update::InitRedeem));
            assert!(matches!(back.secondary, SecondaryUpdate::Empty));
        },
        _ => panic!("expected a swap payload"),
    }
}

#[test]
fn payload_rejects_junk() {
    assert!(parse_payload(b"").is_none());
    assert!(parse_payload(b"{\"payload\":\"other\"}").is_none());
    assert!(
        parse_payload(
            b"{\"payload\":\"slate\",\"version\":\"9\",\"id\":\"x\",\"num_participants\":\"2\",\"participants\":\"\",\"inputs\":\"0\",\"amount\":\"0\"}"
        ).is_none()
    );
}
