//! Session establishment: RSA-wrapped AES session keys.
//!
//! The initiator of a link draws a fresh 32-byte session key, wraps it
//! under the responder's RSA public key and sends the wrap as a raw
//! 256-byte prefix on the socket.  The responder unwraps with its
//! private key and takes the first 32 bytes.  `lemma_handshake_soundness`
//! states that the two sides hold byte-identical keys.

use vstd::prelude::*;
use crate::crypto::{PublicKey, PrivateKey, encrypt_rsa, decrypt_rsa, random_bytes, rsa_unwrap_of,
    rsa_key_pair, rsa_size_of};

verus! {

/// What the responder derives from a private key and the raw prefix:
/// the first 32 bytes of the RSA unwrap, where the unwrap yields at
/// least 32 bytes, and nothing otherwise.
pub open spec fn accepted_key(priv_pem: Seq<u8>, wire: Seq<u8>) -> Option<Seq<u8>> {
    match rsa_unwrap_of(priv_pem, wire) {
        Some(p) => if p.len() >= 32 {
            Some(p.take(32))
        } else {
            None
        },
        None => None,
    }
}

/// A freshly initiated session: the AES session key and the RSA-wrapped
/// 256-byte prefix that carries it to the responder.
pub struct SessionInit {
    pub session_key: [u8; 32],
    pub wire: Vec<u8>,
}

/// Initiator side of the handshake: draws a fresh 32-byte session key
/// and wraps it under the responder's public key.  Succeeds only with
/// the 256-byte wrap of a 2048-bit key — the wrap's length is the
/// key's size, so success pins that size to 256 — and whoever holds a
/// private key pairing with the public one then unwraps exactly the
/// session key.
pub fn initiate_session(peer_public: &PublicKey) -> (r: Option<SessionInit>)
    ensures
        r is Some ==> r->0.wire@.len() == 256 && rsa_size_of(peer_public.pem@) == 256,
        r is Some ==> forall|sk: Seq<u8>| #[trigger]
            rsa_key_pair(sk, peer_public.pem@) ==> rsa_unwrap_of(sk, r->0.wire@) == Some(
                r->0.session_key@,
            ),
{
    let key_vec = random_bytes(32);
    let mut session_key: [u8; 32] = [0; 32];
    let mut i: usize = 0;
    while i < 32
        invariant
            i <= 32,
            key_vec@.len() == 32,
            forall|j: int| 0 <= j < i ==> session_key@[j] == key_vec@[j],
        decreases 32 - i,
    {
        session_key[i] = key_vec[i];
        i = i + 1;
    }
    let wire = match encrypt_rsa(session_key.as_slice(), peer_public) {
        Some(w) => w,
        None => {
            return None;
        },
    };
    if wire.len() != 256 {
        return None;
    }
    Some(SessionInit { session_key, wire })
}

/// Responder side of the handshake: unwraps the raw 256-byte prefix
/// with the private key and takes the first 32 bytes as the session
/// key.  Returns exactly `accepted_key` of the private PEM and the
/// prefix.
pub fn accept_session_key(wire: &[u8], key: &PrivateKey) -> (r: Option<[u8; 32]>)
    requires
        wire@.len() <= 0x7fff_ffff,
    ensures
        r is Some <==> accepted_key(key.pem@, wire@) is Some,
        r is Some ==> r->0@ == accepted_key(key.pem@, wire@)->0,
{
    let plain = match decrypt_rsa(wire, key) {
        Some(p) => p,
        None => {
            return None;
        },
    };
    if plain.len() < 32 {
        return None;
    }
    let mut session_key: [u8; 32] = [0; 32];
    let mut i: usize = 0;
    while i < 32
        invariant
            i <= 32,
            plain@.len() >= 32,
            forall|j: int| 0 <= j < i ==> session_key@[j] == plain@[j],
        decreases 32 - i,
    {
        session_key[i] = plain[i];
        i = i + 1;
    }
    proof {
        assert(session_key@ =~= plain@.take(32));
    }
    Some(session_key)
}

/// Handshake soundness: a responder whose private key pairs with the
/// public key the initiator wrapped under derives exactly the
/// initiator's 32-byte session key from the wire prefix.
pub proof fn lemma_handshake_soundness(
    priv_pem: Seq<u8>,
    pub_pem: Seq<u8>,
    session_key: Seq<u8>,
    wire: Seq<u8>,
)
    requires
        rsa_key_pair(priv_pem, pub_pem),
        session_key.len() == 32,
        forall|sk: Seq<u8>| #[trigger]
            rsa_key_pair(sk, pub_pem) ==> rsa_unwrap_of(sk, wire) == Some(session_key),
    ensures
        accepted_key(priv_pem, wire) == Some(session_key),
{
    assert(rsa_unwrap_of(priv_pem, wire) == Some(session_key));
    assert(session_key.take(32) =~= session_key);
}

} // verus!
