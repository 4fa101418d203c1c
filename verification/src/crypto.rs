//! Cryptographic primitives: AES-256-GCM sealing and RSA key wrapping.
//!
//! The calls into the openssl crate stand behind trusted wrappers.  What
//! a call returns is named by an uninterpreted function of its inputs
//! (`gcm_cipher_of`, `gcm_tag_of`, `rsa_unwrap_of`); the wrappers state
//! of those names exactly what openssl's documentation promises, and
//! everything else in the crate is proved from the wrappers' contracts.

use vstd::prelude::*;

verus! {

/// The AES-256-GCM ciphertext of a plaintext under a key and IV.  It
/// has the plaintext's length; the sealing wrapper states so.
pub uninterp spec fn gcm_cipher_of(key: Seq<u8>, iv: Seq<u8>, plain: Seq<u8>) -> Seq<u8>;

/// The AES-256-GCM authentication tag of a plaintext under a key and IV.
pub uninterp spec fn gcm_tag_of(key: Seq<u8>, iv: Seq<u8>, plain: Seq<u8>) -> Seq<u8>;

/// The plaintext that RSA PKCS#1 v1.5 decryption with the private key
/// held as this PEM yields for a ciphertext, or `None` where the PEM
/// does not parse or the padding check fails.
pub uninterp spec fn rsa_unwrap_of(priv_pem: Seq<u8>, cipher: Seq<u8>) -> Option<Seq<u8>>;

/// Whether a private-key PEM and a public-key PEM hold the two halves
/// of one RSA key: the public PEM carries the modulus and public
/// exponent of the private key.
pub uninterp spec fn rsa_key_pair(priv_pem: Seq<u8>, pub_pem: Seq<u8>) -> bool;

/// The size in bytes of the modulus of the RSA key a public PEM
/// holds: what openssl's Rsa::size reports, 256 for a 2048-bit key; a
/// function of the PEM bytes alone.
pub uninterp spec fn rsa_size_of(pub_pem: Seq<u8>) -> nat;

/// An RSA public key, held as its PEM encoding.
pub struct PublicKey {
    pub pem: Vec<u8>,
}

impl PublicKey {
    /// Wraps PEM bytes as a public key.
    pub fn new(pem: Vec<u8>) -> (r: Self)
        ensures
            r.pem@ == pem@,
    {
        PublicKey { pem }
    }
}

/// An RSA private key, held as its PEM encoding.
pub struct PrivateKey {
    pub pem: Vec<u8>,
}

impl PrivateKey {
    /// Wraps PEM bytes as a private key.
    pub fn new(pem: Vec<u8>) -> (r: Self)
        ensures
            r.pem@ == pem@,
    {
        PrivateKey { pem }
    }
}

/// Relies on openssl::rand::rand_bytes: fills a fresh buffer with
/// cryptographically strong bytes.  Nothing can be promised of random
/// values, so only the length is stated.  The length must fit a C
/// `int`, which the call asserts; should the system generator report
/// failure the buffer stays zeroed, and no contract here claims
/// otherwise.
#[verifier::external_body]
pub(crate) fn random_bytes(n: usize) -> (r: Vec<u8>)
    requires
        n <= 0x7fff_ffff,
    ensures
        r@.len() == n,
{
    let mut buf = vec![0u8; n];
    let _ = openssl::rand::rand_bytes(&mut buf);
    buf
}

/// Relies on openssl::symm::encrypt_aead with AES-256-GCM: for a
/// 32-byte key, a 12-byte IV, a 16-byte tag buffer and a plaintext
/// shorter than 2^31 bytes the call succeeds, returns the ciphertext of
/// the plaintext (of the plaintext's length), and writes the
/// authentication tag into the buffer.
#[verifier::external_body]
fn gcm_seal(data: &[u8], key: &[u8; 32], iv: &[u8; 12], tag: &mut [u8; 16]) -> (r: Vec<u8>)
    requires
        data@.len() <= 0x7fff_ffff,
    ensures
        r@.len() == data@.len(),
        r@ == gcm_cipher_of(key@, iv@, data@),
        final(tag)@ == gcm_tag_of(key@, iv@, data@),
{
    openssl::symm::encrypt_aead(
        openssl::symm::Cipher::aes_256_gcm(),
        key,
        Some(iv),
        &[],
        data,
        tag,
    ).unwrap()
}

/// Relies on openssl::symm::decrypt_aead with AES-256-GCM: decryption
/// succeeds exactly on the ciphertext and tag that sealing a plaintext
/// under this key and IV produces, and then returns that plaintext; on
/// any other input it reports an error, which surfaces as `None`.
#[verifier::external_body]
pub fn decrypt_aes(data: &[u8], key: &[u8; 32], iv: [u8; 12], tag: &[u8; 16]) -> (r: Option<
    Vec<u8>,
>)
    requires
        data@.len() <= 0x7fff_ffff,
    ensures
        r is Some ==> r->0@.len() == data@.len() && data@ == gcm_cipher_of(key@, iv@, r->0@)
            && tag@ == gcm_tag_of(key@, iv@, r->0@),
        forall|p: Seq<u8>|
            data@ == gcm_cipher_of(key@, iv@, p) && tag@ == #[trigger] gcm_tag_of(key@, iv@, p)
                ==> r is Some && r->0@ == p,
{
    match openssl::symm::decrypt_aead(
        openssl::symm::Cipher::aes_256_gcm(),
        key,
        Some(&iv),
        &[],
        data,
        tag,
    ) {
        Ok(plain) => Some(plain),
        Err(_) => None,
    }
}

/// The SHA-256 digest of a byte sequence; a function of the bytes
/// alone, named here so that callers' contracts can speak of it.
pub uninterp spec fn sha256_of(data: Seq<u8>) -> Seq<u8>;

/// Relies on openssl::sha::sha256: the 32-byte digest of the input,
/// a function of the input bytes alone.
#[verifier::external_body]
fn sha256_digest(data: &[u8]) -> (r: [u8; 32])
    ensures
        r@ == sha256_of(data@),
{
    openssl::sha::sha256(data)
}

/// The SHA-256 digest of a string's UTF-8 bytes.
pub fn hash_string(input: String) -> (r: [u8; 32])
    ensures
        r@ == sha256_of(vstd::utf8::encode_utf8(input@)),
{
    let bytes: &[u8] = input.as_str().as_bytes();
    sha256_digest(bytes)
}

/// A sealed blob as it stands on the wire: the IV, then the tag, then
/// the ciphertext of the given plaintext, all under the given key.
pub open spec fn is_sealed_blob(blob: Seq<u8>, key: Seq<u8>, plain: Seq<u8>) -> bool {
    &&& blob.len() == 28 + plain.len()
    &&& blob.subrange(12, 28) == gcm_tag_of(key, blob.subrange(0, 12), plain)
    &&& blob.subrange(28, blob.len() as int) == gcm_cipher_of(key, blob.subrange(0, 12), plain)
}

/// Seals a plaintext under a key with a fresh random IV and returns the
/// wire blob `IV (12) ‖ tag (16) ‖ ciphertext`.  The tag is also written
/// into the caller's buffer.
pub fn encrypt_aes(data: &[u8], key: &[u8; 32], tag: &mut [u8; 16]) -> (r: Vec<u8>)
    requires
        data@.len() <= 0x7fff_ffff,
    ensures
        r@.len() == 28 + data@.len(),
        is_sealed_blob(r@, key@, data@),
        final(tag)@ == gcm_tag_of(key@, r@.subrange(0, 12), data@),
{
    let ivv: Vec<u8> = random_bytes(12);
    let mut iv: [u8; 12] = [0; 12];
    let mut i: usize = 0;
    while i < 12
        invariant
            i <= 12,
            ivv@.len() == 12,
            forall|j: int| 0 <= j < i ==> iv@[j] == ivv@[j],
        decreases 12 - i,
    {
        iv[i] = ivv[i];
        i = i + 1;
    }
    assert(iv@ =~= ivv@);
    let ciphertext: Vec<u8> = gcm_seal(data, key, &iv, tag);
    let mut out: Vec<u8> = Vec::new();
    let mut k: usize = 0;
    while k < 12
        invariant
            k <= 12,
            out@.len() == k,
            forall|j: int| 0 <= j < k ==> out@[j] == iv@[j],
        decreases 12 - k,
    {
        out.push(iv[k]);
        k = k + 1;
    }
    let mut k2: usize = 0;
    while k2 < 16
        invariant
            k2 <= 16,
            out@.len() == 12 + k2,
            forall|j: int| 0 <= j < 12 ==> out@[j] == iv@[j],
            forall|j: int| 0 <= j < k2 ==> out@[12 + j] == tag@[j],
            tag@ == gcm_tag_of(key@, iv@, data@),
        decreases 16 - k2,
    {
        out.push(tag[k2]);
        k2 = k2 + 1;
    }
    let mut k3: usize = 0;
    while k3 < ciphertext.len()
        invariant
            k3 <= ciphertext@.len(),
            out@.len() == 28 + k3,
            forall|j: int| 0 <= j < 12 ==> out@[j] == iv@[j],
            forall|j: int| 0 <= j < 16 ==> out@[12 + j] == tag@[j],
            forall|j: int| 0 <= j < k3 ==> out@[28 + j] == ciphertext@[j],
            tag@ == gcm_tag_of(key@, iv@, data@),
        decreases ciphertext@.len() - k3,
    {
        out.push(ciphertext[k3]);
        k3 = k3 + 1;
    }
    proof {
        assert(out@.subrange(0, 12) =~= iv@);
        assert(out@.subrange(12, 28) =~= tag@);
        assert(out@.subrange(28, out@.len() as int) =~= ciphertext@);
    }
    out
}

/// Splits a wire blob `IV ‖ tag ‖ ciphertext` into its parts and opens
/// it: returns the plaintext whose sealing under the key and the blob's
/// own IV gives the blob, and `None` on any authentication failure.
pub fn read_and_decrypt_aes(data: &[u8], key: &[u8; 32]) -> (r: Option<Vec<u8>>)
    requires
        28 <= data@.len() <= 28 + 0x7fff_ffff,
    ensures
        r is Some ==> is_sealed_blob(data@, key@, r->0@),
        forall|p: Seq<u8>| is_sealed_blob(data@, key@, p) ==> r is Some && r->0@ == p,
{
    let mut iv: [u8; 12] = [0; 12];
    let mut tag: [u8; 16] = [0; 16];
    let mut i: usize = 0;
    while i < 12
        invariant
            i <= 12,
            data@.len() >= 28,
            forall|j: int| 0 <= j < i ==> iv@[j] == data@[j],
        decreases 12 - i,
    {
        iv[i] = data[i];
        i = i + 1;
    }
    let mut k: usize = 12;
    while k < 28
        invariant
            12 <= k <= 28,
            data@.len() >= 28,
            forall|j: int| 0 <= j < 12 ==> iv@[j] == data@[j],
            forall|j: int| 12 <= j < k ==> tag@[j - 12] == data@[j],
        decreases 28 - k,
    {
        tag[k - 12] = data[k];
        k = k + 1;
    }
    let ciphertext: &[u8] = vstd::slice::slice_subrange(data, 28, data.len());
    proof {
        assert(iv@ =~= data@.subrange(0, 12));
        assert(tag@ =~= data@.subrange(12, 28));
    }
    let r = decrypt_aes(ciphertext, key, iv, &tag);
    proof {
        if r is Some {
            assert(is_sealed_blob(data@, key@, r->0@));
        }
        assert forall|p: Seq<u8>| is_sealed_blob(data@, key@, p) implies r is Some && r->0@
            == p by {
            assert(gcm_tag_of(key@, iv@, p) == tag@);
        }
    }
    r
}

/// Relies on openssl's Rsa::public_key_from_pem and Rsa::public_encrypt
/// with PKCS#1 v1.5 padding: on success the returned ciphertext is
/// exactly the key's size in bytes, and decrypting it with any private
/// key that forms a pair with this public PEM recovers exactly the
/// plaintext.  A PEM that does not parse, or a plaintext longer than
/// key size minus 11, surfaces as `None`.
#[verifier::external_body]
pub fn encrypt_rsa(data: &[u8], key: &PublicKey) -> (r: Option<Vec<u8>>)
    requires
        data@.len() <= 0x7fff_ffff,
    ensures
        r is Some ==> r->0@.len() == rsa_size_of(key.pem@),
        r is Some ==> forall|sk: Seq<u8>| #[trigger] rsa_key_pair(sk, key.pem@) ==> rsa_unwrap_of(
            sk,
            r->0@,
        ) == Some(data@),
{
    let rsa = match openssl::rsa::Rsa::public_key_from_pem(&key.pem) {
        Ok(k) => k,
        Err(_) => return None,
    };
    let mut out = vec![0u8; rsa.size() as usize];
    match rsa.public_encrypt(data, &mut out, openssl::rsa::Padding::PKCS1) {
        Ok(_) => Some(out),
        Err(_) => None,
    }
}

/// Relies on openssl's Rsa::private_key_from_pem and
/// Rsa::private_decrypt with PKCS#1 v1.5 padding: decryption is a
/// function of the private PEM and the ciphertext alone, here named
/// `rsa_unwrap_of`; a PEM that does not parse, or any decryption
/// failure, padding included, surfaces as `None`.
#[verifier::external_body]
pub fn decrypt_rsa(data: &[u8], key: &PrivateKey) -> (r: Option<Vec<u8>>)
    requires
        data@.len() <= 0x7fff_ffff,
    ensures
        r is Some <==> rsa_unwrap_of(key.pem@, data@) is Some,
        r is Some ==> r->0@ == rsa_unwrap_of(key.pem@, data@)->0,
{
    let rsa = match openssl::rsa::Rsa::private_key_from_pem(&key.pem) {
        Ok(k) => k,
        Err(_) => return None,
    };
    let mut out = vec![0u8; rsa.size() as usize];
    match rsa.private_decrypt(data, &mut out, openssl::rsa::Padding::PKCS1) {
        Ok(n) => {
            out.truncate(n);
            Some(out)
        },
        Err(_) => None,
    }
}

} // verus!
