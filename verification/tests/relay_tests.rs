use wallet713::address::GrinboxAddress;
use wallet713::broker::{
    backoff_secs, BrokerAction, ConnectionMetadata, GrinboxBroker, GrinboxPublisher,
    GrinboxSubscriber, LoopStep, KEEPALIVE_INTERVAL_MS, KEEPALIVE_TOKEN,
};
use wallet713::controller::SubscriptionHandler;
use wallet713::crypto::{
    decrypt_message, encrypt_message, Keychain, PublicKey, SecretKey, Signature, TxProof,
};
use wallet713::error::{CloseReason, ErrorKind};
use wallet713::payload::EncryptedPayload;
use wallet713::protocol::ProtocolResponse;
use wallet713::swaptypes::Message;
use wallet713::types::{ParticipantData, Slate, SlateVersion, VersionedSlate};

/// A toy capability for tests: the public key is the secret key itself,
/// the shared secret is a commutative digest of both keys, sealing
/// prefixes the plaintext with the shared secret, and a signature is the
/// key followed by the message.
struct TestKeychain;

fn toy_shared(a: &[u8], b: &[u8]) -> Vec<u8> {
    let mut v = vec![0u8; 8];
    for (i, x) in a.iter().enumerate() {
        v[i % 8] = v[i % 8].wrapping_add(*x);
    }
    for (i, x) in b.iter().enumerate() {
        v[i % 8] = v[i % 8].wrapping_add(*x);
    }
    v
}

impl Keychain for TestKeychain {
    fn spec_pk(_sk: vstd::seq::Seq<u8>) -> vstd::seq::Seq<u8> {
        panic!()
    }

    fn spec_shared(_sk: vstd::seq::Seq<u8>, _pk: vstd::seq::Seq<u8>) -> vstd::seq::Seq<u8> {
        panic!()
    }

    fn spec_seal(
        _key: vstd::seq::Seq<u8>,
        _nonce: vstd::seq::Seq<u8>,
        _pt: vstd::seq::Seq<u8>,
    ) -> vstd::seq::Seq<u8> {
        panic!()
    }

    fn spec_open(
        _key: vstd::seq::Seq<u8>,
        _nonce: vstd::seq::Seq<u8>,
        _ct: vstd::seq::Seq<u8>,
    ) -> Option<vstd::seq::Seq<u8>> {
        panic!()
    }

    fn spec_sign(_sk: vstd::seq::Seq<u8>, _msg: vstd::seq::Seq<u8>) -> vstd::seq::Seq<u8> {
        panic!()
    }

    fn spec_verify(
        _pk: vstd::seq::Seq<u8>,
        _msg: vstd::seq::Seq<u8>,
        _sig: vstd::seq::Seq<u8>,
    ) -> bool {
        panic!()
    }

    fn dh_symmetry(_a: vstd::seq::Seq<u8>, _b: vstd::seq::Seq<u8>) {
        panic!()
    }

    fn seal_opens(_key: vstd::seq::Seq<u8>, _nonce: vstd::seq::Seq<u8>, _pt: vstd::seq::Seq<u8>) {
        panic!()
    }

    fn open_authenticates(
        _key: vstd::seq::Seq<u8>,
        _other: vstd::seq::Seq<u8>,
        _nonce: vstd::seq::Seq<u8>,
        _pt: vstd::seq::Seq<u8>,
    ) {
        panic!()
    }

    fn verify_signed(_sk: vstd::seq::Seq<u8>, _msg: vstd::seq::Seq<u8>) {
        panic!()
    }

    fn public_key(&self, sk: &SecretKey) -> PublicKey {
        PublicKey { bytes: sk.bytes.clone() }
    }

    fn seal(&self, sk: &SecretKey, to: &PublicKey, pt: &[u8]) -> (Vec<u8>, Vec<u8>) {
        let key = toy_shared(&sk.bytes, &to.bytes);
        let mut ct = key.clone();
        ct.extend_from_slice(pt);
        (vec![9u8, 9u8], ct)
    }

    fn open(&self, sk: &SecretKey, from: &PublicKey, _nonce: &[u8], ct: &[u8]) -> Option<Vec<u8>> {
        let key = toy_shared(&sk.bytes, &from.bytes);
        if ct.len() >= key.len() && &ct[..key.len()] == key.as_slice() {
            Some(ct[key.len()..].to_vec())
        } else {
            None
        }
    }

    fn sign_challenge(&self, sk: &SecretKey, msg: &[u8]) -> Signature {
        let mut v = sk.bytes.clone();
        v.extend_from_slice(msg);
        Signature { bytes: v }
    }

    fn verify_signature(&self, pk: &PublicKey, msg: &[u8], sig: &[u8]) -> bool {
        let mut v = pk.bytes.clone();
        v.extend_from_slice(msg);
        v == sig
    }
}

#[derive(Default)]
struct TestHandler {
    opens: usize,
    reestablished: usize,
    dropped: usize,
    closes: Vec<CloseReason>,
    slates: Vec<(Vec<u8>, u64)>,
    swaps: Vec<Vec<u8>>,
}

impl SubscriptionHandler for TestHandler {
    fn events(&self) -> vstd::seq::Seq<wallet713::controller::HandlerEvent> {
        panic!()
    }

    fn on_open(&mut self) {
        self.opens += 1;
    }

    fn on_reestablished(&mut self) {
        self.reestablished += 1;
    }

    fn on_dropped(&mut self) {
        self.dropped += 1;
    }

    fn on_close(&mut self, reason: CloseReason) {
        self.closes.push(reason);
    }

    fn on_slate(&mut self, from: &GrinboxAddress, slate: &VersionedSlate, _proof: Option<TxProof>) {
        self.slates.push((from.public_key.clone(), slate.slate.amount));
    }

    fn on_swap_message(&mut self, _from: &GrinboxAddress, message: Message) {
        self.swaps.push(message.id);
    }
}

fn own_address() -> GrinboxAddress {
    GrinboxAddress::new(b"mySelf".to_vec(), b"relay.example".to_vec(), Some(443)).unwrap()
}

fn peer_address() -> GrinboxAddress {
    GrinboxAddress::new(b"peerKey".to_vec(), b"relay.example".to_vec(), Some(443)).unwrap()
}

#[test]
fn backoff_follows_the_powers_of_two_capped() {
    let expected: [u64; 7] = [1, 2, 4, 8, 16, 32, 32];
    let mut r: u32 = 0;
    while r < 7 {
        assert_eq!(backoff_secs(r), expected[r as usize]);
        r += 1;
    }
    assert_eq!(backoff_secs(40), 32);
}

#[test]
fn connection_metadata_starts_clean() {
    let m = ConnectionMetadata::new();
    assert_eq!(m.retries, 0);
    assert!(!m.connected_at_least_once);
}

#[test]
fn dropped_fires_once_per_disconnect() {
    let mut broker = GrinboxBroker::new(own_address(), false);
    let mut h = TestHandler::default();
    broker.on_open(7, &mut h);
    assert_eq!(h.opens, 1);
    // The connection drops: the first retry reports it, later ones do not.
    match broker.on_connection_end(true, &mut h) {
        LoopStep::Retry { backoff_secs: s } => assert_eq!(s, 1),
        _ => panic!("expected a retry"),
    }
    assert_eq!(h.dropped, 1);
    match broker.on_connection_end(true, &mut h) {
        LoopStep::Retry { backoff_secs: s } => assert_eq!(s, 2),
        _ => panic!("expected a retry"),
    }
    match broker.on_connection_end(true, &mut h) {
        LoopStep::Retry { backoff_secs: s } => assert_eq!(s, 4),
        _ => panic!("expected a retry"),
    }
    assert_eq!(h.dropped, 1);
    // The connection comes back: reestablished, and the counter resets.
    broker.on_open(8, &mut h);
    assert_eq!(h.reestablished, 1);
    match broker.on_connection_end(true, &mut h) {
        LoopStep::Retry { backoff_secs: s } => assert_eq!(s, 1),
        _ => panic!("expected a retry"),
    }
    assert_eq!(h.dropped, 2);
}

#[test]
fn stop_clears_the_handle_and_reports_normal_closure() {
    let mut broker = GrinboxBroker::new(own_address(), false);
    let mut h = TestHandler::default();
    assert!(!broker.is_running());
    broker.on_open(3, &mut h);
    assert!(broker.is_running());
    let action = broker.stop();
    assert!(matches!(action, Some(BrokerAction::CloseSocket)));
    assert!(!broker.is_running());
    match broker.on_connection_end(false, &mut h) {
        LoopStep::Exit { reason } => assert_eq!(reason, CloseReason::Normal),
        _ => panic!("expected the loop to exit"),
    }
    assert_eq!(h.closes.len(), 1);
    assert_eq!(h.closes[0], CloseReason::Normal);
    assert_eq!(h.dropped, 0);
}

#[test]
fn stopped_loop_reports_abnormal_closure_on_transport_fault() {
    let mut broker = GrinboxBroker::new(own_address(), false);
    let mut h = TestHandler::default();
    broker.stop();
    match broker.on_connection_end(true, &mut h) {
        LoopStep::Exit { reason } => {
            assert_eq!(reason, CloseReason::Abnormal(ErrorKind::TransportError));
        },
        _ => panic!("expected the loop to exit"),
    }
}

#[test]
fn keepalive_pings_and_rearms() {
    let broker = GrinboxBroker::new(own_address(), false);
    let (a, b) = broker.on_timeout(KEEPALIVE_TOKEN).unwrap();
    assert!(matches!(a, BrokerAction::Ping));
    match b {
        BrokerAction::ScheduleKeepalive { ms } => assert_eq!(ms, KEEPALIVE_INTERVAL_MS),
        _ => panic!("expected the keepalive to rearm"),
    }
    assert!(broker.on_timeout(2).is_err());
}

#[test]
fn connection_url_uses_scheme_and_default_port() {
    let secure = GrinboxBroker::new(own_address(), false);
    assert_eq!(secure.connection_url(), b"wss://relay.example:443".to_vec());
    let a = GrinboxAddress::new(b"k".to_vec(), b"h.example".to_vec(), None).unwrap();
    let unsecure = GrinboxBroker::new(a, true);
    assert_eq!(unsecure.connection_url(), b"ws://h.example:443".to_vec());
}

#[test]
fn challenge_is_answered_with_a_signed_subscribe() {
    let mut broker = GrinboxBroker::new(own_address(), false);
    let mut h = TestHandler::default();
    let kc = TestKeychain;
    let sk = SecretKey { bytes: b"mySelf".to_vec() };
    let frame = ProtocolResponse::Challenge { challenge: b"n0nce".to_vec() }.encode();
    match broker.on_message(&kc, &sk, &frame, &mut h) {
        Some(BrokerAction::Send { frame: out }) => {
            // The signature is the toy keychain's: key then message, in hex.
            let sig = wallet713::encoding::to_hex(b"mySelfn0nce");
            let mut expected = b"{\"type\":\"Subscribe\",\"address\":\"mySelf\",\"signature\":\"".to_vec();
            expected.extend_from_slice(&sig);
            expected.extend_from_slice(b"\"}");
            assert_eq!(out, expected);
        },
        _ => panic!("expected a subscribe frame"),
    }
    assert_eq!(broker.challenge, Some(b"n0nce".to_vec()));
}

#[test]
fn delivered_slate_reaches_the_handler() {
    let kc = TestKeychain;
    let own = own_address();
    let peer = peer_address();
    let own_sk = SecretKey { bytes: b"mySelf".to_vec() };
    let peer_sk = SecretKey { bytes: b"peerKey".to_vec() };
    let own_pk = PublicKey { bytes: b"mySelf".to_vec() };

    // The peer builds the delivery exactly as its own broker would.
    let slate = Slate {
        id: b"tx1".to_vec(),
        num_participants: 2,
        participant_data: vec![ParticipantData { id: 0 }],
        input_count: 1,
        amount: 70,
    };
    let payload = EncryptedPayload::Tx(VersionedSlate { version: SlateVersion::V2, slate });
    let payload_bytes = payload.encode();
    let env = encrypt_message(&kc, &payload_bytes, &own, &own_pk, &peer_sk);
    let env_bytes = env.encode();
    let sig = kc.sign_challenge(&peer_sk, &env_bytes);
    let frame = ProtocolResponse::Slate {
        from: peer.stripped(),
        content: env,
        challenge: b"n0".to_vec(),
        signature: wallet713::encoding::to_hex(&sig.bytes),
    }.encode();

    let mut broker = GrinboxBroker::new(own, false);
    let mut h = TestHandler::default();
    let r = broker.on_message(&kc, &own_sk, &frame, &mut h);
    assert!(r.is_none());
    assert_eq!(h.slates.len(), 1);
    assert_eq!(h.slates[0].0, b"peerKey".to_vec());
    assert_eq!(h.slates[0].1, 70);

    // A tampered signature is discarded.
    let env2 = encrypt_message(&kc, &payload_bytes, &broker.address, &own_pk, &peer_sk);
    let frame2 = ProtocolResponse::Slate {
        from: peer_address().stripped(),
        content: env2,
        challenge: b"n0".to_vec(),
        signature: b"00".to_vec(),
    }.encode();
    broker.on_message(&kc, &own_sk, &frame2, &mut h);
    assert_eq!(h.slates.len(), 1);
}

#[test]
fn envelope_round_trips_and_rejects_wrong_key() {
    let kc = TestKeychain;
    let own = own_address();
    let own_pk = PublicKey { bytes: b"mySelf".to_vec() };
    let own_sk = SecretKey { bytes: b"mySelf".to_vec() };
    let peer_sk = SecretKey { bytes: b"peerKey".to_vec() };
    let peer_pk = PublicKey { bytes: b"peerKey".to_vec() };

    let env = encrypt_message(&kc, b"hello over the relay", &own, &own_pk, &peer_sk);
    let back = decrypt_message(&kc, &env, &peer_pk, &own_sk, &own).unwrap();
    assert_eq!(back, b"hello over the relay".to_vec());

    // A third party's key derives a different shared secret and fails.
    let other_sk = SecretKey { bytes: b"someoneElse".to_vec() };
    let r = decrypt_message(&kc, &env, &peer_pk, &other_sk, &own);
    assert_eq!(r, Err(ErrorKind::CryptoError));

    // An envelope for someone else is rejected before any decryption.
    let peer = peer_address();
    let r2 = decrypt_message(&kc, &env, &peer_pk, &own_sk, &peer);
    assert_eq!(r2, Err(ErrorKind::CryptoError));
}

#[test]
fn post_builds_a_signed_frame_only_while_running() {
    let kc = TestKeychain;
    let own = own_address();
    let peer = peer_address();
    let own_sk = SecretKey { bytes: b"mySelf".to_vec() };
    let publisher = GrinboxPublisher::new(&own, &own_sk, false).unwrap();
    let subscriber = GrinboxSubscriber::new(&publisher).unwrap();
    assert_eq!(subscriber.address.public_key, b"mySelf".to_vec());

    let mut broker = GrinboxBroker::new(own, false);
    let payload = EncryptedPayload::Swap(Message::new(
        b"s1".to_vec(),
        wallet713::swaptypes::Update::InitRedeem,
        wallet713::swaptypes::SecondaryUpdate::Empty,
    ));
    let closed = publisher.post(&kc, &broker, &payload, &peer);
    assert_eq!(closed, Err(ErrorKind::ClosedChannel));

    let mut h = TestHandler::default();
    broker.on_open(1, &mut h);
    let frame = publisher.post(&kc, &broker, &payload, &peer).unwrap();
    // The frame opens as a canonical PostSlate naming both parties.
    let prefix = b"{\"type\":\"PostSlate\",\"from\":\"mySelf@relay.example:443\",\"to\":\"peerKey@relay.example:443\",\"str\":{\"destination\":\"peerKey@relay.example:443\",".to_vec();
    assert_eq!(&frame[..prefix.len()], prefix.as_slice());
}
