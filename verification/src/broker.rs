//! The relay broker: one logical connection to the relay, reframed as an
//! explicit state machine. The surrounding program owns the transport; it
//! feeds connect results, inbound frames and timer events into the machine
//! and performs the actions the machine returns. Reconnecting with
//! exponential backoff, the keepalive, the challenge-response
//! subscription, and frame construction all live here, verified; only the
//! socket work itself stays outside.

use vstd::prelude::*;

use crate::address::GrinboxAddress;
use crate::controller::{HandlerEvent, SubscriptionHandler};
use crate::crypto::{
    spec_slate_checks, Keychain, PublicKey, SecretKey, TxProof, TxProofModel,
};
use crate::encoding::{append_bytes, copy_range, dec_of, hex_of, to_hex, u64_to_dec};
use crate::error::{CloseReason, ErrorKind};
use crate::payload::{parse_payload, spec_parse_payload, EncryptedPayload, PayloadModel};
use crate::protocol::{
    parse_response, spec_parse_response, EncryptedMessage, EnvelopeModel, ProtocolRequest,
    ProtocolResponse, RequestModel, ResponseModel,
};

verus! {

/// The timer token that marks the keepalive.
pub const KEEPALIVE_TOKEN: u64 = 1;

/// How often the keepalive fires while the connection is open, in
/// milliseconds.
pub const KEEPALIVE_INTERVAL_MS: u64 = 30000;

/// What a connection has lived through: how many retries this disconnect
/// has seen, and whether it ever opened.
#[derive(Clone, Copy, Debug, PartialEq, Eq, Structural)]
pub struct ConnectionMetadata {
    pub retries: u32,
    pub connected_at_least_once: bool,
}

impl ConnectionMetadata {
    /// A fresh connection record: no retries, never connected.
    pub fn new() -> (r: ConnectionMetadata)
        ensures
            r.retries == 0,
            !r.connected_at_least_once,
    {
        ConnectionMetadata { retries: 0, connected_at_least_once: false }
    }
}

/// Two to the power `n`.
pub open spec fn pow2(n: nat) -> nat
    decreases n,
{
    if n == 0 {
        1
    } else {
        2 * pow2((n - 1) as nat)
    }
}

/// The backoff before a reconnect attempt: the smaller of 32 seconds and
/// two to the number of retries this disconnect has already seen.
pub open spec fn spec_backoff(retries: u32) -> u64 {
    if retries >= 6 {
        32
    } else {
        pow2(retries as nat) as u64
    }
}

/// `spec_backoff` is the stated minimum.
pub proof fn lemma_backoff_is_min(retries: u32)
    ensures
        spec_backoff(retries) == if pow2(retries as nat) < 32 {
            pow2(retries as nat) as u64
        } else {
            32u64
        },
{
    lemma_pow2_values();
    if retries >= 6 {
        lemma_pow2_mono(5, retries as nat);
    }
}

/// The first few powers of two, spelled out.
proof fn lemma_pow2_values()
    ensures
        pow2(0) == 1,
        pow2(1) == 2,
        pow2(2) == 4,
        pow2(3) == 8,
        pow2(4) == 16,
        pow2(5) == 32,
{
    assert(pow2(0) == 1);
    assert(pow2(1) == 2);
    assert(pow2(2) == 4);
    assert(pow2(3) == 8);
    assert(pow2(4) == 16);
    assert(pow2(5) == 32);
}

/// Powers of two grow with the exponent.
proof fn lemma_pow2_mono(a: nat, b: nat)
    requires
        a <= b,
    ensures
        pow2(a) <= pow2(b),
    decreases b,
{
    if a < b {
        lemma_pow2_mono(a, (b - 1) as nat);
    }
}

/// The backoff before a reconnect attempt, in seconds.
pub fn backoff_secs(retries: u32) -> (r: u64)
    ensures
        r == spec_backoff(retries),
{
    proof {
        lemma_pow2_values();
    }
    if retries == 0 {
        1
    } else if retries == 1 {
        2
    } else if retries == 2 {
        4
    } else if retries == 3 {
        8
    } else if retries == 4 {
        16
    } else {
        32
    }
}

/// Whether ending a connection in this state reports a drop: only the
/// first retry after a once-open connection does.
pub open spec fn spec_emits_dropped(m: ConnectionMetadata) -> bool {
    m.retries == 0 && m.connected_at_least_once
}

/// The connection record after one reconnect step.
pub open spec fn spec_after_retry(m: ConnectionMetadata) -> ConnectionMetadata {
    ConnectionMetadata {
        retries: if m.retries < u32::MAX {
            (m.retries + 1) as u32
        } else {
            m.retries
        },
        connected_at_least_once: m.connected_at_least_once,
    }
}

/// A drop is reported exactly once per disconnect: after one reconnect
/// step the record can no longer report one, however many retries follow,
/// until a successful open resets it.
pub proof fn lemma_dropped_once_per_disconnect(m: ConnectionMetadata)
    ensures
        !spec_emits_dropped(spec_after_retry(m)),
{
}

/// What the transport should do next for the machine.
#[derive(Clone, Debug)]
pub enum BrokerAction {
    /// Open a socket to this URL.
    Connect { url: Vec<u8> },
    /// Send this frame on the open socket.
    Send { frame: Vec<u8> },
    /// Send a transport ping.
    Ping,
    /// Arm the keepalive timer for this many milliseconds.
    ScheduleKeepalive { ms: u64 },
    /// Close the socket.
    CloseSocket,
}

/// What the connection loop should do after a connect attempt ended.
#[derive(Clone, Debug)]
pub enum LoopStep {
    /// Stop for good, reporting this closure.
    Exit { reason: CloseReason },
    /// Sleep this many seconds, then reconnect.
    Retry { backoff_secs: u64 },
}

/// The broker's connection state machine: the stored socket handle, the
/// connection record, the stop flag, the last relay challenge, and the
/// address it subscribes as.
pub struct GrinboxBroker {
    /// The open socket's handle, while one is stored.
    pub socket: Option<u64>,
    /// How many retries this disconnect has seen, and whether the
    /// connection ever opened.
    pub meta: ConnectionMetadata,
    /// Set by `stop`; the loop exits instead of retrying.
    pub stopped: bool,
    /// The relay's last challenge, kept for reference.
    pub challenge: Option<Vec<u8>>,
    /// Whether to connect without transport security.
    pub protocol_unsecure: bool,
    /// The address this broker subscribes as.
    pub address: GrinboxAddress,
}

/// The URL scheme `ws://`.
pub open spec fn lit_ws() -> Seq<u8> {
    seq![119u8, 115u8, 58u8, 47u8, 47u8]
}

/// The URL scheme `wss://`.
pub open spec fn lit_wss() -> Seq<u8> {
    seq![119u8, 115u8, 115u8, 58u8, 47u8, 47u8]
}

impl GrinboxBroker {
    /// The URL the transport should connect to: the relay's domain and
    /// effective port under the chosen scheme.
    pub open spec fn spec_url(&self) -> Seq<u8> {
        (if self.protocol_unsecure {
            lit_ws()
        } else {
            lit_wss()
        }) + self.address@.domain + seq![58u8] + dec_of(self.address@.effective_port() as nat)
    }

    /// A fresh machine for an address: no socket, a fresh connection
    /// record, not stopped.
    pub fn new(address: GrinboxAddress, protocol_unsecure: bool) -> (r: GrinboxBroker)
        ensures
            r.socket is None,
            r.meta.retries == 0,
            !r.meta.connected_at_least_once,
            !r.stopped,
            r.challenge is None,
            r.protocol_unsecure == protocol_unsecure,
            r.address == address,
    {
        GrinboxBroker {
            socket: None,
            meta: ConnectionMetadata::new(),
            stopped: false,
            challenge: None,
            protocol_unsecure,
            address,
        }
    }

    /// The URL the transport should connect to.
    pub fn connection_url(&self) -> (r: Vec<u8>)
        ensures
            r@ == self.spec_url(),
    {
        let mut v: Vec<u8> = Vec::new();
        if self.protocol_unsecure {
            v.push(119);
            v.push(115);
            v.push(58);
            v.push(47);
            v.push(47);
            proof {
                assert(v@ =~= lit_ws());
            }
        } else {
            v.push(119);
            v.push(115);
            v.push(115);
            v.push(58);
            v.push(47);
            v.push(47);
            proof {
                assert(v@ =~= lit_wss());
            }
        }
        append_bytes(&mut v, self.address.domain.as_slice());
        v.push(58);
        let port: u16 = match self.address.port {
            Some(p) => p,
            None => crate::DEFAULT_GRINBOX_PORT,
        };
        let d = u64_to_dec(port as u64);
        append_bytes(&mut v, d.as_slice());
        proof {
            assert(v@ =~= self.spec_url());
        }
        v
    }

    /// Begins (or resumes) the subscription loop: clears the stop flag and
    /// asks the transport to connect.
    pub fn start(&mut self) -> (r: BrokerAction)
        ensures
            final(self).socket == old(self).socket,
            final(self).meta == old(self).meta,
            !final(self).stopped,
            final(self).challenge == old(self).challenge,
            final(self).protocol_unsecure == old(self).protocol_unsecure,
            final(self).address == old(self).address,
            r matches BrokerAction::Connect { url } && url@ == old(self).spec_url(),
    {
        self.stopped = false;
        let url = self.connection_url();
        BrokerAction::Connect { url }
    }

    /// The transport opened a socket: store its handle, report the open as
    /// first or reestablished, reset the retry count, and arm the
    /// keepalive.
    pub fn on_open<H: SubscriptionHandler>(&mut self, handle: u64, handler: &mut H) -> (r:
        BrokerAction)
        ensures
            final(self).socket == Some(handle),
            final(self).meta.retries == 0,
            final(self).meta.connected_at_least_once,
            final(self).stopped == old(self).stopped,
            final(self).challenge == old(self).challenge,
            final(self).protocol_unsecure == old(self).protocol_unsecure,
            final(self).address == old(self).address,
            final(handler).events() == old(handler).events().push(
                if old(self).meta.connected_at_least_once {
                    HandlerEvent::Reestablished
                } else {
                    HandlerEvent::Opened
                },
            ),
            r == (BrokerAction::ScheduleKeepalive { ms: KEEPALIVE_INTERVAL_MS }),
    {
        self.socket = Some(handle);
        if self.meta.connected_at_least_once {
            handler.on_reestablished();
        } else {
            handler.on_open();
            self.meta.connected_at_least_once = true;
        }
        self.meta.retries = 0;
        BrokerAction::ScheduleKeepalive { ms: KEEPALIVE_INTERVAL_MS }
    }

    /// A timer fired: the keepalive pings and rearms itself; any other
    /// token is a transport fault.
    pub fn on_timeout(&self, token: u64) -> (r: Result<(BrokerAction, BrokerAction), ErrorKind>)
        ensures
            token == KEEPALIVE_TOKEN ==> r == Ok::<(BrokerAction, BrokerAction), ErrorKind>(
                (BrokerAction::Ping, BrokerAction::ScheduleKeepalive { ms: KEEPALIVE_INTERVAL_MS }),
            ),
            token != KEEPALIVE_TOKEN ==> r == Err::<(BrokerAction, BrokerAction), ErrorKind>(
                ErrorKind::TransportError,
            ),
    {
        if token == KEEPALIVE_TOKEN {
            Ok((BrokerAction::Ping, BrokerAction::ScheduleKeepalive { ms: KEEPALIVE_INTERVAL_MS }))
        } else {
            Err(ErrorKind::TransportError)
        }
    }

    /// `stop` ends the subscription: the socket is closed if one is open,
    /// the handle cleared, and the loop told to exit.
    pub fn stop(&mut self) -> (r: Option<BrokerAction>)
        ensures
            final(self).socket is None,
            final(self).stopped,
            final(self).meta == old(self).meta,
            final(self).challenge == old(self).challenge,
            final(self).protocol_unsecure == old(self).protocol_unsecure,
            final(self).address == old(self).address,
            r == (if old(self).socket is Some {
                Some(BrokerAction::CloseSocket)
            } else {
                None::<BrokerAction>
            }),
    {
        let r = match self.socket {
            Some(_) => Some(BrokerAction::CloseSocket),
            None => None,
        };
        self.socket = None;
        self.stopped = true;
        r
    }

    /// Whether a socket handle is stored right now.
    pub fn is_running(&self) -> (r: bool)
        ensures
            r == (self.socket is Some),
    {
        match self.socket {
            Some(_) => true,
            None => false,
        }
    }

    /// A connection ended, normally or not. When `stop` was called the
    /// loop exits, reporting an abnormal closure only for a transport
    /// fault. Otherwise the machine reports a drop exactly when this is
    /// the first retry of a once-open connection, clears the handle, and
    /// asks for a reconnect after the backoff.
    pub fn on_connection_end<H: SubscriptionHandler>(
        &mut self,
        connect_failed: bool,
        handler: &mut H,
    ) -> (r: LoopStep)
        ensures
            final(self).socket is None,
            final(self).challenge is None,
            final(self).stopped == old(self).stopped,
            final(self).protocol_unsecure == old(self).protocol_unsecure,
            final(self).address == old(self).address,
            old(self).stopped ==> final(self).meta == old(self).meta && r == (LoopStep::Exit {
                reason: if connect_failed {
                    CloseReason::Abnormal(ErrorKind::TransportError)
                } else {
                    CloseReason::Normal
                },
            }) && final(handler).events() == old(handler).events().push(
                HandlerEvent::Closed {
                    reason: if connect_failed {
                        CloseReason::Abnormal(ErrorKind::TransportError)
                    } else {
                        CloseReason::Normal
                    },
                },
            ),
            !old(self).stopped ==> final(self).meta == spec_after_retry(old(self).meta) && r == (
            LoopStep::Retry { backoff_secs: spec_backoff(old(self).meta.retries) }) && final(handler).events() == old(handler).events() + (if spec_emits_dropped(old(self).meta) {
                seq![HandlerEvent::Dropped]
            } else {
                Seq::<HandlerEvent>::empty()
            }),
    {
        self.socket = None;
        self.challenge = None;
        if self.stopped {
            let reason = if connect_failed {
                CloseReason::Abnormal(ErrorKind::TransportError)
            } else {
                CloseReason::Normal
            };
            handler.on_close(reason);
            LoopStep::Exit {
                reason: if connect_failed {
                    CloseReason::Abnormal(ErrorKind::TransportError)
                } else {
                    CloseReason::Normal
                },
            }
        } else {
            if self.meta.retries == 0 && self.meta.connected_at_least_once {
                handler.on_dropped();
            } else {
                proof {
                    assert(final(handler).events() =~= old(handler).events() + Seq::<
                        HandlerEvent,
                    >::empty());
                }
            }
            let secs = backoff_secs(self.meta.retries);
            if self.meta.retries < u32::MAX {
                self.meta.retries = self.meta.retries + 1;
            }
            LoopStep::Retry { backoff_secs: secs }
        }
    }

    /// The payload-and-proof outcome of a delivered `Slate` frame: the
    /// checked, decrypted and parsed payload, with its delivery evidence.
    pub open spec fn spec_slate_rx<K: Keychain>(
        sk: Seq<u8>,
        own: crate::address::AddressModel,
        from: Seq<u8>,
        env: EnvelopeModel,
        chal: Seq<u8>,
        sig: Seq<u8>,
    ) -> Option<(crate::address::AddressModel, PayloadModel, TxProofModel)> {
        match spec_slate_checks::<K>(sk, own, from, env, sig) {
            None => None,
            Some((sender, pt)) => match spec_parse_payload(pt) {
                None => None,
                Some(p) => Some(
                    (
                        sender,
                        p,
                        TxProofModel {
                            sender,
                            destination: own,
                            challenge: chal,
                            signature: sig,
                        },
                    ),
                ),
            },
        }
    }

    /// An inbound frame arrived. A challenge is answered with a signed
    /// subscribe request; a delivered slate is checked, decrypted, parsed
    /// and dispatched to the handler as a slate or a swap message; a relay
    /// error and anything unparsable are absorbed, per the protocol-error
    /// policy.
    pub fn on_message<K: Keychain, H: SubscriptionHandler>(
        &mut self,
        kc: &K,
        secret_key: &SecretKey,
        frame: &[u8],
        handler: &mut H,
    ) -> (r: Option<BrokerAction>)
        ensures
            final(self).socket == old(self).socket,
            final(self).meta == old(self).meta,
            final(self).stopped == old(self).stopped,
            final(self).protocol_unsecure == old(self).protocol_unsecure,
            final(self).address == old(self).address,
            match spec_parse_response(frame@) {
                None => r is None && final(self).challenge == old(self).challenge && final(handler).events() == old(handler).events(),
                Some(m) => match m {
                    ResponseModel::Challenge { challenge } => {
                        &&& final(self).challenge matches Some(ch) && ch@ == challenge
                        &&& final(handler).events() == old(handler).events()
                        &&& r matches Some(a) && a matches BrokerAction::Send { frame: f } && f@
                            == (RequestModel::Subscribe {
                            address: old(self).address@.public_key,
                            signature: hex_of(K::spec_sign(secret_key@, challenge)),
                        }).spec_encode()
                    },
                    ResponseModel::Slate { from, content, challenge, signature } => {
                        &&& r is None
                        &&& final(self).challenge == old(self).challenge
                        &&& match Self::spec_slate_rx::<K>(
                            secret_key@,
                            old(self).address@,
                            from,
                            content,
                            challenge,
                            signature,
                        ) {
                            None => final(handler).events() == old(handler).events(),
                            Some(d) => match d.1 {
                                PayloadModel::Tx(vs) => final(handler).events() == old(handler).events().push(
                                    HandlerEvent::Slate {
                                        from: d.0,
                                        slate: vs,
                                        proof: Some(d.2),
                                    },
                                ),
                                PayloadModel::Swap(mm) => final(handler).events() == old(handler).events().push(
                                    HandlerEvent::SwapMessage { from: d.0, message: mm },
                                ),
                            },
                        }
                    },
                    ResponseModel::Error { kind, description } => r is None && final(self).challenge == old(self).challenge && final(handler).events() == old(handler).events(),
                },
            },
    {
        let parsed = match parse_response(frame) {
            Some(p) => p,
            None => {
                return None;
            },
        };
        match parsed {
            ProtocolResponse::Challenge { challenge } => {
                let sig = kc.sign_challenge(secret_key, challenge.as_slice());
                let sig_hex = to_hex(sig.bytes.as_slice());
                let addr_pk = copy_range(
                    self.address.public_key.as_slice(),
                    0,
                    self.address.public_key.len(),
                );
                proof {
                    assert(addr_pk@ =~= self.address@.public_key);
                }
                let req = ProtocolRequest::Subscribe { address: addr_pk, signature: sig_hex };
                let f = req.encode();
                self.challenge = Some(challenge);
                Some(BrokerAction::Send { frame: f })
            },
            ProtocolResponse::Slate { from, content, challenge, signature } => {
                match TxProof::from_response(
                    kc,
                    from.as_slice(),
                    &content,
                    challenge.as_slice(),
                    signature.as_slice(),
                    secret_key,
                    &self.address,
                ) {
                    Ok(pp) => {
                        let (payload_bytes, proof_rec) = pp;
                        match parse_payload(payload_bytes.as_slice()) {
                            Some(EncryptedPayload::Tx(vs)) => {
                                let sender = proof_rec.sender_address.duplicate();
                                proof {
                                    assert(proof_rec@ =~= (TxProofModel {
                                        sender: sender@,
                                        destination: old(self).address@,
                                        challenge: challenge@,
                                        signature: signature@,
                                    }));
                                }
                                handler.on_slate(&sender, &vs, Some(proof_rec));
                            },
                            Some(EncryptedPayload::Swap(m)) => {
                                let sender = proof_rec.sender_address.duplicate();
                                handler.on_swap_message(&sender, m);
                            },
                            None => {},
                        }
                    },
                    Err(_) => {},
                }
                None
            },
            ProtocolResponse::Error { kind: _, description: _ } => None,
        }
    }

    /// The envelope a post seals under a given nonce.
    pub open spec fn spec_post_envelope<K: Keychain>(
        nonce: Seq<u8>,
        payload: PayloadModel,
        to: crate::address::AddressModel,
        sk: Seq<u8>,
    ) -> EnvelopeModel {
        EnvelopeModel {
            destination: to.spec_stripped(),
            nonce_hex: hex_of(nonce),
            ciphertext_hex: hex_of(
                K::spec_seal(K::spec_shared(sk, to.public_key), nonce, payload.spec_encode()),
            ),
        }
    }

    /// The signed `PostSlate` frame a post writes under a given nonce.
    pub open spec fn spec_post_frame<K: Keychain>(
        nonce: Seq<u8>,
        payload: PayloadModel,
        to: crate::address::AddressModel,
        from: crate::address::AddressModel,
        sk: Seq<u8>,
    ) -> Seq<u8> {
        (RequestModel::PostSlate {
            from: from.spec_stripped(),
            to: to.spec_stripped(),
            content: Self::spec_post_envelope::<K>(nonce, payload, to, sk),
            signature: hex_of(
                K::spec_sign(sk, Self::spec_post_envelope::<K>(nonce, payload, to, sk).spec_encode()),
            ),
        }).spec_encode()
    }

    /// Builds the signed `PostSlate` frame that delivers a payload to a
    /// peer: the payload is sealed for the recipient, the envelope signed,
    /// and the frame written in its canonical form. Fails with
    /// `ClosedChannel` when no socket is open.
    pub fn post<K: Keychain>(
        &self,
        kc: &K,
        payload: &EncryptedPayload,
        to: &GrinboxAddress,
        from: &GrinboxAddress,
        secret_key: &SecretKey,
    ) -> (r: Result<Vec<u8>, ErrorKind>)
        ensures
            self.socket is None ==> r == Err::<Vec<u8>, ErrorKind>(ErrorKind::ClosedChannel),
            self.socket is Some ==> r is Ok,
            r matches Ok(frame) ==> self.socket is Some && exists|nonce: Seq<u8>|
                frame@ == #[trigger] Self::spec_post_frame::<K>(
                    nonce,
                    payload@,
                    to@,
                    from@,
                    secret_key@,
                ),
    {
        if !self.is_running() {
            return Err(ErrorKind::ClosedChannel);
        }
        let to_pk = PublicKey {
            bytes: copy_range(to.public_key.as_slice(), 0, to.public_key.len()),
        };
        proof {
            assert(to_pk@ =~= to@.public_key);
        }
        let payload_bytes = payload.encode();
        let env = crate::crypto::encrypt_message(
            kc,
            payload_bytes.as_slice(),
            to,
            &to_pk,
            secret_key,
        );
        let env_bytes = env.encode();
        let sig = kc.sign_challenge(secret_key, env_bytes.as_slice());
        let sig_hex = to_hex(sig.bytes.as_slice());
        let req = ProtocolRequest::PostSlate {
            from: from.stripped(),
            to: to.stripped(),
            content: env,
            signature: sig_hex,
        };
        let frame = req.encode();
        proof {
            let nonce = choose|nonce: Seq<u8>|
                {
                    &&& req@->PostSlate_content.nonce_hex == hex_of(nonce)
                    &&& req@->PostSlate_content.ciphertext_hex == hex_of(
                        K::spec_seal(
                            K::spec_shared(secret_key@, to_pk@),
                            nonce,
                            payload_bytes@,
                        ),
                    )
                };
            assert(req@->PostSlate_content =~= Self::spec_post_envelope::<K>(
                nonce,
                payload@,
                to@,
                secret_key@,
            ));
            assert(req@ =~= (RequestModel::PostSlate {
                from: from@.spec_stripped(),
                to: to@.spec_stripped(),
                content: Self::spec_post_envelope::<K>(nonce, payload@, to@, secret_key@),
                signature: hex_of(
                    K::spec_sign(
                        secret_key@,
                        Self::spec_post_envelope::<K>(
                            nonce,
                            payload@,
                            to@,
                            secret_key@,
                        ).spec_encode(),
                    ),
                ),
            }));
            assert(frame@ == Self::spec_post_frame::<K>(
                nonce,
                payload@,
                to@,
                from@,
                secret_key@,
            ));
        }
        Ok(frame)
    }
}

/// The broker-backed outbound half: the credentials under which this
/// wallet posts payloads to peers.
pub struct GrinboxPublisher {
    pub address: GrinboxAddress,
    pub secret_key: SecretKey,
    pub protocol_unsecure: bool,
}

impl GrinboxPublisher {
    /// A publisher for an address and its secret key.
    pub fn new(address: &GrinboxAddress, secret_key: &SecretKey, protocol_unsecure: bool) -> (r:
        Result<GrinboxPublisher, ErrorKind>)
        ensures
            r is Ok,
            r matches Ok(p) ==> p.address@ == address@ && p.secret_key@ == secret_key@
                && p.protocol_unsecure == protocol_unsecure,
    {
        Ok(
            GrinboxPublisher {
                address: address.duplicate(),
                secret_key: SecretKey {
                    bytes: copy_range(
                        secret_key.bytes.as_slice(),
                        0,
                        secret_key.bytes.len(),
                    ),
                },
                protocol_unsecure,
            },
        )
    }

    /// Builds the signed frame that posts a payload to a peer through the
    /// machine's open socket.
    pub fn post<K: Keychain>(
        &self,
        kc: &K,
        broker: &GrinboxBroker,
        payload: &EncryptedPayload,
        to: &GrinboxAddress,
    ) -> (r: Result<Vec<u8>, ErrorKind>)
        ensures
            broker.socket is None ==> r == Err::<Vec<u8>, ErrorKind>(ErrorKind::ClosedChannel),
            broker.socket is Some ==> r is Ok,
            r matches Ok(frame) ==> broker.socket is Some && exists|nonce: Seq<u8>|
                frame@ == #[trigger] GrinboxBroker::spec_post_frame::<K>(
                    nonce,
                    payload@,
                    to@,
                    self.address@,
                    self.secret_key@,
                ),
    {
        broker.post(kc, payload, to, &self.address, &self.secret_key)
    }
}

/// The broker-backed inbound half: the credentials under which this wallet
/// subscribes at the relay.
pub struct GrinboxSubscriber {
    pub address: GrinboxAddress,
    pub secret_key: SecretKey,
}

impl GrinboxSubscriber {
    /// A subscriber sharing a publisher's credentials.
    pub fn new(publisher: &GrinboxPublisher) -> (r: Result<GrinboxSubscriber, ErrorKind>)
        ensures
            r is Ok,
            r matches Ok(s) ==> s.address@ == publisher.address@ && s.secret_key@
                == publisher.secret_key@,
    {
        Ok(
            GrinboxSubscriber {
                address: publisher.address.duplicate(),
                secret_key: SecretKey {
                    bytes: copy_range(
                        publisher.secret_key.bytes.as_slice(),
                        0,
                        publisher.secret_key.bytes.len(),
                    ),
                },
            },
        )
    }

    /// Ends the machine's subscription.
    pub fn stop(&self, broker: &mut GrinboxBroker) -> (r: Option<BrokerAction>)
        ensures
            final(broker).socket is None,
            final(broker).stopped,
    {
        broker.stop()
    }

    /// Whether the machine holds a socket right now.
    pub fn is_running(&self, broker: &GrinboxBroker) -> (r: bool)
        ensures
            r == (broker.socket is Some),
    {
        broker.is_running()
    }
}

} // verus!
