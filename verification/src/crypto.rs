//! The cryptographic capability port, and the encrypted envelope built on
//! it.
//!
//! The library does not construct cryptographic primitives; they are an
//! external collaborator reached through the [`Keychain`] trait. An
//! implementation supplies key derivation, an authenticated cipher keyed by
//! a shared secret, and challenge signatures. The trait states the algebra
//! the envelope relies on: the shared secret is symmetric in the two key
//! pairs, sealing then opening under the same key returns the plaintext,
//! and opening under a different key fails.

use vstd::prelude::*;

use crate::address::GrinboxAddress;
use crate::encoding::{
    bytes_eq, from_hex, hex_of, is_hex_seq, lemma_hex_of_injective, lemma_unhex_hex, spec_unhex,
    to_hex,
};
use crate::error::ErrorKind;
use crate::protocol::EncryptedMessage;

verus! {

/// A secret key, opaque bytes owned by the wallet.
#[derive(Clone, Debug)]
pub struct SecretKey {
    pub bytes: Vec<u8>,
}

impl View for SecretKey {
    type V = Seq<u8>;

    open spec fn view(&self) -> Seq<u8> {
        self.bytes@
    }
}

/// A public key, the byte form that also names an address.
#[derive(Clone, Debug)]
pub struct PublicKey {
    pub bytes: Vec<u8>,
}

impl View for PublicKey {
    type V = Seq<u8>;

    open spec fn view(&self) -> Seq<u8> {
        self.bytes@
    }
}

/// A signature over a challenge or payload.
#[derive(Clone, Debug)]
pub struct Signature {
    pub bytes: Vec<u8>,
}

impl View for Signature {
    type V = Seq<u8>;

    open spec fn view(&self) -> Seq<u8> {
        self.bytes@
    }
}

/// The signing, key-agreement and authenticated-cipher capability.
///
/// Implementations are external; the proof obligations below state of them
/// exactly what the envelope needs: Diffie-Hellman symmetry, that the
/// cipher is left-inverted by opening under the same key, that opening
/// under a different key fails, and that signatures verify under the
/// signer's public key.
pub trait Keychain: Sized {
    /// The public key derived from a secret key.
    spec fn spec_pk(sk: Seq<u8>) -> Seq<u8>;

    /// The shared secret of a secret key and a peer's public key.
    spec fn spec_shared(sk: Seq<u8>, pk: Seq<u8>) -> Seq<u8>;

    /// The ciphertext of `pt` under `key` and `nonce`.
    spec fn spec_seal(key: Seq<u8>, nonce: Seq<u8>, pt: Seq<u8>) -> Seq<u8>;

    /// The plaintext recovered from `ct` under `key` and `nonce`, when the
    /// ciphertext authenticates.
    spec fn spec_open(key: Seq<u8>, nonce: Seq<u8>, ct: Seq<u8>) -> Option<Seq<u8>>;

    /// The signature of `msg` under `sk`.
    spec fn spec_sign(sk: Seq<u8>, msg: Seq<u8>) -> Seq<u8>;

    /// Whether `sig` is a valid signature of `msg` under `pk`.
    spec fn spec_verify(pk: Seq<u8>, msg: Seq<u8>, sig: Seq<u8>) -> bool;

    /// Both parties derive the same shared secret.
    proof fn dh_symmetry(a: Seq<u8>, b: Seq<u8>)
        ensures
            Self::spec_shared(a, Self::spec_pk(b)) == Self::spec_shared(b, Self::spec_pk(a)),
    ;

    /// Opening under the sealing key returns the plaintext.
    proof fn seal_opens(key: Seq<u8>, nonce: Seq<u8>, pt: Seq<u8>)
        ensures
            Self::spec_open(key, nonce, Self::spec_seal(key, nonce, pt)) == Some(pt),
    ;

    /// Opening under any other key fails to authenticate.
    proof fn open_authenticates(key: Seq<u8>, other: Seq<u8>, nonce: Seq<u8>, pt: Seq<u8>)
        requires
            other != key,
        ensures
            Self::spec_open(other, nonce, Self::spec_seal(key, nonce, pt)) is None,
    ;

    /// A signature verifies under the signer's public key.
    proof fn verify_signed(sk: Seq<u8>, msg: Seq<u8>)
        ensures
            Self::spec_verify(Self::spec_pk(sk), msg, Self::spec_sign(sk, msg)),
    ;

    /// Derives the public key of a secret key.
    fn public_key(&self, sk: &SecretKey) -> (r: PublicKey)
        ensures
            r@ == Self::spec_pk(sk@),
    ;

    /// Seals a plaintext for a peer: derives the shared secret, draws a
    /// nonce and applies the cipher. The nonce is the implementation's
    /// choice; the ciphertext is pinned to it.
    fn seal(&self, sk: &SecretKey, to: &PublicKey, pt: &[u8]) -> (r: (Vec<u8>, Vec<u8>))
        ensures
            r.1@ == Self::spec_seal(Self::spec_shared(sk@, to@), r.0@, pt@),
    ;

    /// Opens a sealed payload from a peer under the shared secret.
    fn open(&self, sk: &SecretKey, from: &PublicKey, nonce: &[u8], ct: &[u8]) -> (r: Option<
        Vec<u8>,
    >)
        ensures
            match r {
                Some(pt) => Self::spec_open(Self::spec_shared(sk@, from@), nonce@, ct@)
                    == Some(pt@),
                None => Self::spec_open(Self::spec_shared(sk@, from@), nonce@, ct@) is None,
            },
    ;

    /// Signs a message with a secret key.
    fn sign_challenge(&self, sk: &SecretKey, msg: &[u8]) -> (r: Signature)
        ensures
            r@ == Self::spec_sign(sk@, msg@),
    ;

    /// Checks a signature of a message under a public key.
    fn verify_signature(&self, pk: &PublicKey, msg: &[u8], sig: &[u8]) -> (r: bool)
        ensures
            r == Self::spec_verify(pk@, msg@, sig@),
    ;
}

/// Builds the encrypted envelope of a payload for a recipient: seals the
/// plaintext under the shared secret of the sender's secret key and the
/// recipient's public key, and records the recipient's normalized address
/// so decryption can check the message was meant for it.
pub fn encrypt_message<K: Keychain>(
    kc: &K,
    plaintext: &[u8],
    destination: &GrinboxAddress,
    to_pk: &PublicKey,
    from_sk: &SecretKey,
) -> (r: EncryptedMessage)
    ensures
        r@.destination == destination@.spec_stripped(),
        exists|nonce: Seq<u8>|
            {
                &&& r@.nonce_hex == hex_of(nonce)
                &&& r@.ciphertext_hex == hex_of(
                    K::spec_seal(K::spec_shared(from_sk@, to_pk@), nonce, plaintext@),
                )
            },
{
    let (nonce, ct) = kc.seal(from_sk, to_pk, plaintext);
    let r = EncryptedMessage {
        destination: destination.stripped(),
        nonce_hex: to_hex(nonce.as_slice()),
        ciphertext_hex: to_hex(ct.as_slice()),
    };
    proof {
        assert(r@.nonce_hex == hex_of(nonce@) && r@.ciphertext_hex == hex_of(
            K::spec_seal(K::spec_shared(from_sk@, to_pk@), nonce@, plaintext@),
        ));
    }
    r
}

/// What decrypting an envelope under a given shared secret yields: the
/// hex fields must decode, and the cipher must authenticate and open.
pub open spec fn spec_decrypt<K: Keychain>(key: Seq<u8>, m: crate::protocol::EnvelopeModel) -> Option<
    Seq<u8>,
> {
    if is_hex_seq(m.nonce_hex) && is_hex_seq(m.ciphertext_hex) {
        K::spec_open(key, spec_unhex(m.nonce_hex), spec_unhex(m.ciphertext_hex))
    } else {
        None
    }
}

/// Opens an envelope addressed to this wallet: checks it was written for
/// `expected_destination`, decodes the hex fields, and opens the cipher
/// under the shared secret of the wallet's secret key and the sender's
/// public key. Fails exactly when any of those steps fails.
pub fn decrypt_message<K: Keychain>(
    kc: &K,
    msg: &EncryptedMessage,
    sender_pk: &PublicKey,
    sk: &SecretKey,
    expected_destination: &GrinboxAddress,
) -> (r: Result<Vec<u8>, ErrorKind>)
    ensures
        match r {
            Ok(pt) => {
                &&& msg@.destination == expected_destination@.spec_stripped()
                &&& spec_decrypt::<K>(K::spec_shared(sk@, sender_pk@), msg@) == Some(pt@)
            },
            Err(e) => {
                &&& e == ErrorKind::CryptoError
                &&& (msg@.destination != expected_destination@.spec_stripped() || spec_decrypt::<
                    K,
                >(K::spec_shared(sk@, sender_pk@), msg@) is None)
            },
        },
{
    let expected = expected_destination.stripped();
    if !bytes_eq(msg.destination.as_slice(), expected.as_slice()) {
        return Err(ErrorKind::CryptoError);
    }
    let nonce = match from_hex(msg.nonce_hex.as_slice()) {
        Some(n) => n,
        None => {
            return Err(ErrorKind::CryptoError);
        },
    };
    let ct = match from_hex(msg.ciphertext_hex.as_slice()) {
        Some(c) => c,
        None => {
            return Err(ErrorKind::CryptoError);
        },
    };
    proof {
        lemma_unhex_hex(msg@.nonce_hex);
        lemma_hex_of_injective(nonce@, spec_unhex(msg@.nonce_hex));
        lemma_unhex_hex(msg@.ciphertext_hex);
        lemma_hex_of_injective(ct@, spec_unhex(msg@.ciphertext_hex));
    }
    match kc.open(sk, sender_pk, nonce.as_slice(), ct.as_slice()) {
        Some(pt) => Ok(pt),
        None => Err(ErrorKind::CryptoError),
    }
}

/// A payload sealed for a peer opens under the peer's secret key, and
/// fails to open under any key pair whose shared secret differs.
///
/// The second clause is the "wrong key" direction: a key that derives a
/// different shared secret cannot open the envelope.
pub proof fn lemma_message_round_trip<K: Keychain>(
    sk_from: Seq<u8>,
    sk_to: Seq<u8>,
    nonce: Seq<u8>,
    pt: Seq<u8>,
)
    ensures
        K::spec_open(
            K::spec_shared(sk_to, K::spec_pk(sk_from)),
            nonce,
            K::spec_seal(K::spec_shared(sk_from, K::spec_pk(sk_to)), nonce, pt),
        ) == Some(pt),
        forall|sk_other: Seq<u8>|
            K::spec_shared(sk_other, K::spec_pk(sk_from)) != K::spec_shared(
                sk_from,
                K::spec_pk(sk_to),
            ) ==> K::spec_open(
                K::spec_shared(sk_other, K::spec_pk(sk_from)),
                nonce,
                K::spec_seal(K::spec_shared(sk_from, K::spec_pk(sk_to)), nonce, pt),
            ) is None,
{
    let key = K::spec_shared(sk_from, K::spec_pk(sk_to));
    K::dh_symmetry(sk_to, sk_from);
    K::seal_opens(key, nonce, pt);
    assert forall|sk_other: Seq<u8>|
        K::spec_shared(sk_other, K::spec_pk(sk_from)) != key implies K::spec_open(
        K::spec_shared(sk_other, K::spec_pk(sk_from)),
        nonce,
        K::spec_seal(key, nonce, pt),
    ) is None by {
        K::open_authenticates(key, K::spec_shared(sk_other, K::spec_pk(sk_from)), nonce, pt);
    }
}

/// The full check-and-open pipeline for a received payload: the sender
/// address must parse, the signature must be valid hexadecimal and verify
/// over the sealed payload under the sender's key, and the envelope must
/// decrypt for this wallet. The result is the sender and the plaintext.
pub open spec fn spec_slate_checks<K: Keychain>(
    sk: Seq<u8>,
    dest: crate::address::AddressModel,
    from: Seq<u8>,
    env: crate::protocol::EnvelopeModel,
    sig: Seq<u8>,
) -> Option<(crate::address::AddressModel, Seq<u8>)> {
    match crate::address::spec_parse(from) {
        None => None,
        Some(sender) => if is_hex_seq(sig) && K::spec_verify(
            sender.public_key,
            env.spec_encode(),
            spec_unhex(sig),
        ) {
            if env.destination == dest.spec_stripped() {
                match spec_decrypt::<K>(K::spec_shared(sk, sender.public_key), env) {
                    Some(pt) => Some((sender, pt)),
                    None => None,
                }
            } else {
                None
            }
        } else {
            None
        },
    }
}

/// Delivery evidence for a received slate: who sent it, where it was
/// addressed, and the relay challenge with the sender's signature over the
/// payload.
#[derive(Clone, Debug)]
pub struct TxProof {
    pub sender_address: GrinboxAddress,
    pub destination_address: GrinboxAddress,
    pub challenge: Vec<u8>,
    pub signature: Vec<u8>,
}

/// The mathematical shape of delivery evidence.
#[verifier::ext_equal]
pub struct TxProofModel {
    pub sender: crate::address::AddressModel,
    pub destination: crate::address::AddressModel,
    pub challenge: Seq<u8>,
    pub signature: Seq<u8>,
}

impl View for TxProof {
    type V = TxProofModel;

    open spec fn view(&self) -> TxProofModel {
        TxProofModel {
            sender: self.sender_address@,
            destination: self.destination_address@,
            challenge: self.challenge@,
            signature: self.signature@,
        }
    }
}

impl TxProof {
    /// Checks and opens a `Slate` response: parses the sender address,
    /// verifies the sender's signature over the sealed payload, and
    /// decrypts it for this wallet. Returns the plaintext and the
    /// delivery evidence. Fails exactly when the address does not parse,
    /// the signature is not valid hexadecimal or does not verify, or the
    /// envelope does not decrypt for this wallet.
    pub fn from_response<K: Keychain>(
        kc: &K,
        from: &[u8],
        content: &EncryptedMessage,
        challenge: &[u8],
        signature_hex: &[u8],
        sk: &SecretKey,
        expected_destination: &GrinboxAddress,
    ) -> (r: Result<(Vec<u8>, TxProof), ErrorKind>)
        ensures
            match r {
                Ok(p) => {
                    &&& spec_slate_checks::<K>(
                        sk@,
                        expected_destination@,
                        from@,
                        content@,
                        signature_hex@,
                    ) == Some((p.1.sender_address@, p.0@))
                    &&& crate::address::spec_parse(from@) == Some(p.1.sender_address@)
                    &&& p.1.destination_address@ == expected_destination@
                    &&& p.1.challenge@ == challenge@
                    &&& p.1.signature@ == signature_hex@
                },
                Err(e) => (e == ErrorKind::AddressParseError || e == ErrorKind::CryptoError)
                    && spec_slate_checks::<K>(
                    sk@,
                    expected_destination@,
                    from@,
                    content@,
                    signature_hex@,
                ) is None,
            },
    {
        let sender = match GrinboxAddress::from_str(from) {
            Ok(a) => a,
            Err(_) => {
                return Err(ErrorKind::AddressParseError);
            },
        };
        let sig = match from_hex(signature_hex) {
            Some(s) => s,
            None => {
                return Err(ErrorKind::CryptoError);
            },
        };
        proof {
            lemma_unhex_hex(signature_hex@);
            lemma_hex_of_injective(sig@, spec_unhex(signature_hex@));
        }
        let sender_pk = PublicKey { bytes: crate::encoding::copy_range(
            sender.public_key.as_slice(),
            0,
            sender.public_key.len(),
        ) };
        proof {
            assert(sender_pk@ =~= sender@.public_key);
        }
        let signed = content.encode();
        if !kc.verify_signature(&sender_pk, signed.as_slice(), sig.as_slice()) {
            return Err(ErrorKind::CryptoError);
        }
        let payload = match decrypt_message(kc, content, &sender_pk, sk, expected_destination) {
            Ok(p) => p,
            Err(e) => {
                return Err(e);
            },
        };
        let proof_rec = TxProof {
            sender_address: sender,
            destination_address: expected_destination.duplicate(),
            challenge: crate::encoding::copy_range(challenge, 0, challenge.len()),
            signature: crate::encoding::copy_range(signature_hex, 0, signature_hex.len()),
        };
        proof {
            assert(proof_rec.challenge@ =~= challenge@);
            assert(proof_rec.signature@ =~= signature_hex@);
        }
        Ok((payload, proof_rec))
    }
}

} // verus!
