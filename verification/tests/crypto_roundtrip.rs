use rendezvous::crypto::{encrypt_aes, decrypt_aes, read_and_decrypt_aes, encrypt_rsa, decrypt_rsa,
    PublicKey, PrivateKey};
use rendezvous::session::{initiate_session, accept_session_key};
use rendezvous::token::{derive_secret_tokens, render_hex};

fn test_key() -> [u8; 32] {
    let mut k = [0u8; 32];
    for i in 0..32 {
        k[i] = i as u8;
    }
    k
}

#[test]
fn aes_seal_open_round_trip() {
    let key = test_key();
    let mut tag = [0u8; 16];
    let blob = encrypt_aes(b"attack at dawn", &key, &mut tag);
    assert_eq!(blob.len(), 28 + 14);
    assert_eq!(&blob[12..28], &tag);
    let plain = read_and_decrypt_aes(&blob, &key).unwrap();
    assert_eq!(plain, b"attack at dawn".to_vec());
}

#[test]
fn aes_open_rejects_wrong_key() {
    let key = test_key();
    let mut other = test_key();
    other[0] ^= 1;
    let mut tag = [0u8; 16];
    let blob = encrypt_aes(b"attack at dawn", &key, &mut tag);
    assert!(read_and_decrypt_aes(&blob, &other).is_none());
}

#[test]
fn aes_open_rejects_wrong_tag() {
    let key = test_key();
    let mut tag = [0u8; 16];
    let blob = encrypt_aes(b"payload", &key, &mut tag);
    let mut iv = [0u8; 12];
    iv.copy_from_slice(&blob[0..12]);
    let mut bad_tag = [0u8; 16];
    bad_tag.copy_from_slice(&blob[12..28]);
    bad_tag[3] ^= 0x40;
    assert!(decrypt_aes(&blob[28..], &key, iv, &bad_tag).is_none());
    let mut good_tag = [0u8; 16];
    good_tag.copy_from_slice(&blob[12..28]);
    assert_eq!(decrypt_aes(&blob[28..], &key, iv, &good_tag).unwrap(), b"payload".to_vec());
}

#[test]
fn aes_empty_plaintext() {
    let key = test_key();
    let mut tag = [0u8; 16];
    let blob = encrypt_aes(b"", &key, &mut tag);
    assert_eq!(blob.len(), 28);
    let plain = read_and_decrypt_aes(&blob, &key).unwrap();
    assert!(plain.is_empty());
}

#[test]
fn handshake_derives_identical_keys() {
    let rsa = openssl::rsa::Rsa::generate(2048).unwrap();
    let priv_pem = rsa.private_key_to_pem().unwrap();
    let pub_pem = rsa.public_key_to_pem().unwrap();
    let init = initiate_session(&PublicKey::new(pub_pem)).unwrap();
    assert_eq!(init.wire.len(), 256);
    let accepted = accept_session_key(&init.wire, &PrivateKey::new(priv_pem)).unwrap();
    assert_eq!(accepted, init.session_key);
}

#[test]
fn handshake_rejected_by_other_key() {
    let rsa_a = openssl::rsa::Rsa::generate(2048).unwrap();
    let rsa_b = openssl::rsa::Rsa::generate(2048).unwrap();
    let init = initiate_session(&PublicKey::new(rsa_a.public_key_to_pem().unwrap())).unwrap();
    let other = PrivateKey::new(rsa_b.private_key_to_pem().unwrap());
    assert!(accept_session_key(&init.wire, &other).is_none());
}

#[test]
fn rsa_wrap_unwrap_round_trip() {
    let rsa = openssl::rsa::Rsa::generate(2048).unwrap();
    let pub_key = PublicKey::new(rsa.public_key_to_pem().unwrap());
    let priv_key = PrivateKey::new(rsa.private_key_to_pem().unwrap());
    let wrapped = encrypt_rsa(b"thirty-two bytes of key material", &pub_key).unwrap();
    assert_eq!(wrapped.len(), 256);
    let plain = decrypt_rsa(&wrapped, &priv_key).unwrap();
    assert_eq!(plain, b"thirty-two bytes of key material".to_vec());
}

#[test]
fn rsa_rejects_invalid_pem() {
    assert!(encrypt_rsa(b"data", &PublicKey::new(b"not a pem".to_vec())).is_none());
    assert!(decrypt_rsa(&[0u8; 256], &PrivateKey::new(b"not a pem".to_vec())).is_none());
}

#[test]
fn rsa_rejects_overlong_plaintext() {
    let rsa = openssl::rsa::Rsa::generate(2048).unwrap();
    let pub_key = PublicKey::new(rsa.public_key_to_pem().unwrap());
    // PKCS#1 v1.5 leaves room for key size minus 11 bytes only.
    let long = vec![7u8; 246];
    assert!(encrypt_rsa(&long, &pub_key).is_none());
    let ok = vec![7u8; 245];
    assert!(encrypt_rsa(&ok, &pub_key).is_some());
}

#[test]
fn render_hex_is_lowercase_two_digits() {
    assert_eq!(render_hex(&[0x00, 0x0f, 0xa5, 0xff]), b"000fa5ff".to_vec());
}

#[test]
fn tokens_have_expected_bytes() {
    let key = test_key();
    let mut expected_hex = String::new();
    for b in key.iter() {
        expected_hex.push_str(&format!("{:02x}", b));
    }
    let (first, second) = derive_secret_tokens(b"alice\n", b"bob\n", &key);
    let mut want_first = b"alice\nbob\n".to_vec();
    want_first.extend_from_slice(expected_hex.as_bytes());
    assert_eq!(first, want_first);
    let mut want_second = b"bob\nalice\n".to_vec();
    want_second.extend_from_slice(expected_hex.as_bytes());
    assert_eq!(second, want_second);
}

#[test]
fn mutual_tokens_agree_across_the_link() {
    let key = test_key();
    let (x_first, x_second) = derive_secret_tokens(b"alice\n", b"bob\n", &key);
    let (y_first, y_second) = derive_secret_tokens(b"bob\n", b"alice\n", &key);
    assert_eq!(x_first, y_second);
    assert_eq!(x_second, y_first);
}

#[test]
fn tokens_differ_across_links() {
    let key_a = test_key();
    let mut key_b = test_key();
    key_b[31] ^= 1;
    let (a_first, _) = derive_secret_tokens(b"alice\n", b"bob\n", &key_a);
    let (b_first, _) = derive_secret_tokens(b"alice\n", b"bob\n", &key_b);
    assert_ne!(a_first, b_first);
}

#[test]
fn hash_string_known_vector() {
    let digest = rendezvous::crypto::hash_string("abc".to_string());
    let expected: [u8; 32] = [
        0xba, 0x78, 0x16, 0xbf, 0x8f, 0x01, 0xcf, 0xea, 0x41, 0x41, 0x40, 0xde, 0x5d, 0xae, 0x22,
        0x23, 0xb0, 0x03, 0x61, 0xa3, 0x96, 0x17, 0x7a, 0x9c, 0xb4, 0x10, 0xff, 0x61, 0xf2, 0x00,
        0x15, 0xad,
    ];
    assert_eq!(digest, expected);
    assert_eq!(digest, openssl::sha::sha256(b"abc"));
}
