use rendezvous::framing::{encode_record, decode_record, decode_header};
use rendezvous::message::{Message, MessageType};

fn test_key() -> [u8; 32] {
    let mut k = [0u8; 32];
    for i in 0..32 {
        k[i] = (37 * i + 5) as u8;
    }
    k
}

#[test]
fn record_round_trip() {
    let key = test_key();
    let mut tag = [0u8; 16];
    let msg = Message::new(b"hello peer".to_vec(), MessageType::Secret);
    let wire = encode_record(&msg, &key, &mut tag);
    assert_eq!(wire.len(), 65 + 10);
    let back = decode_record(&wire, &key).unwrap();
    assert_eq!(back.message_type, MessageType::Secret);
    assert_eq!(back.content, b"hello peer".to_vec());
}

#[test]
fn record_round_trip_empty_body() {
    let key = test_key();
    let mut tag = [0u8; 16];
    let msg = Message::new(Vec::new(), MessageType::RequestPublicKey);
    let wire = encode_record(&msg, &key, &mut tag);
    assert_eq!(wire.len(), 65);
    let back = decode_record(&wire, &key).unwrap();
    assert_eq!(back.message_type, MessageType::RequestPublicKey);
    assert!(back.content.is_empty());
}

#[test]
fn header_blob_decodes_alone() {
    let key = test_key();
    let mut tag = [0u8; 16];
    let msg = Message::new(b"abc".to_vec(), MessageType::DEBUG);
    let wire = encode_record(&msg, &key, &mut tag);
    let header = decode_header(&wire[0..37], &key).unwrap();
    assert_eq!(header.message_len, 3);
    assert_eq!(header.message_type, MessageType::DEBUG);
}

#[test]
fn tamper_any_byte_is_rejected() {
    let key = test_key();
    let mut tag = [0u8; 16];
    let msg = Message::new(b"hi".to_vec(), MessageType::NORMAL);
    let wire = encode_record(&msg, &key, &mut tag);
    for i in 0..wire.len() {
        let mut flipped = wire.clone();
        flipped[i] ^= 0x01;
        assert!(
            decode_record(&flipped, &key).is_none(),
            "a flipped byte at {} was not rejected",
            i
        );
    }
}

#[test]
fn wrong_key_is_rejected() {
    let key = test_key();
    let mut other = test_key();
    other[7] ^= 0x80;
    let mut tag = [0u8; 16];
    let msg = Message::new(b"hi".to_vec(), MessageType::NORMAL);
    let wire = encode_record(&msg, &key, &mut tag);
    assert!(decode_record(&wire, &other).is_none());
}

#[test]
fn truncated_wire_is_rejected() {
    let key = test_key();
    let mut tag = [0u8; 16];
    let msg = Message::new(b"some body".to_vec(), MessageType::NORMAL);
    let wire = encode_record(&msg, &key, &mut tag);
    for cut in [0usize, 36, 37, 64, wire.len() - 1] {
        assert!(decode_record(&wire[0..cut], &key).is_none());
    }
    let mut extended = wire.clone();
    extended.push(0);
    assert!(decode_record(&extended, &key).is_none());
}

#[test]
fn megabyte_fuzz_round_trip() {
    let mut plain = vec![0u8; 1 << 20];
    openssl::rand::rand_bytes(&mut plain).unwrap();
    let mut key = [0u8; 32];
    openssl::rand::rand_bytes(&mut key).unwrap();
    let mut tag = [0u8; 16];
    let msg = Message::new(plain.clone(), MessageType::NORMAL);
    let wire = encode_record(&msg, &key, &mut tag);
    assert_eq!(wire.len(), 65 + plain.len());
    let back = decode_record(&wire, &key).unwrap();
    assert_eq!(back.message_type, MessageType::NORMAL);
    assert_eq!(back.content, plain);
}
