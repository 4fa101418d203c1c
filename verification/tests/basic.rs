use rendezvous::message::{Message, MessageHeader, MessageType};
use rendezvous::client_core::{handle_server_record, peer_reply_for, find_peer_index,
    ClientDirective};
use rendezvous::directory::{parse_add_peer, find_comma};
use rendezvous::framing::split_message;
use rendezvous::bytes_eq;

#[test]
fn it_works() {
    let result = rendezvous::add(2, 2);
    assert_eq!(result, 4);
}

#[test]
fn type_codes_round_trip() {
    let all = [
        MessageType::NORMAL,
        MessageType::DEBUG,
        MessageType::RemovePeer,
        MessageType::AddPeer,
        MessageType::RequestPublicKey,
        MessageType::InformPublicKey,
        MessageType::InformAddress,
        MessageType::Secret,
    ];
    for (i, t) in all.iter().enumerate() {
        let b = t.as_bytes();
        assert_eq!(b[0] as usize, i);
        let back = MessageType::from_bytes(b);
        assert_eq!(back, *t);
    }
}

#[test]
fn header_round_trip() {
    let body = vec![9u8, 8, 7, 6, 5];
    let h = MessageHeader::new(&body, MessageType::Secret);
    let bytes = h.as_bytes();
    assert_eq!(bytes.len(), 9);
    assert_eq!(&bytes[0..8], &[0, 0, 0, 0, 0, 0, 0, 5]);
    assert_eq!(bytes[8], 7);
    let back = MessageHeader::from_bytes(&bytes);
    assert_eq!(back.message_len, 5);
    assert_eq!(back.message_type, MessageType::Secret);
}

#[test]
fn header_large_length() {
    let body = vec![0u8; 300];
    let h = MessageHeader::new(&body, MessageType::NORMAL);
    let bytes = h.as_bytes();
    assert_eq!(&bytes[0..8], &[0, 0, 0, 0, 0, 0, 1, 44]);
    let back = MessageHeader::from_bytes(&bytes);
    assert_eq!(back.message_len, 300);
}

#[test]
fn split_message_even() {
    let msg = [1u8, 2, 3, 4, 5, 6];
    let parts = split_message(&msg, 2);
    assert_eq!(parts.len(), 4);
    assert_eq!(parts[0], vec![1, 2]);
    assert_eq!(parts[1], vec![3, 4]);
    assert_eq!(parts[2], vec![5, 6]);
    assert_eq!(parts[3], Vec::<u8>::new());
}

#[test]
fn split_message_remainder() {
    let msg = [1u8, 2, 3, 4, 5];
    let parts = split_message(&msg, 2);
    assert_eq!(parts.len(), 3);
    assert_eq!(parts[0], vec![1, 2]);
    assert_eq!(parts[1], vec![3, 4]);
    assert_eq!(parts[2], vec![5]);
}

#[test]
fn split_message_chunk_larger_than_message() {
    let msg = [1u8, 2, 3];
    let parts = split_message(&msg, 10);
    assert_eq!(parts.len(), 1);
    assert_eq!(parts[0], vec![1, 2, 3]);
}

#[test]
fn bytes_eq_basic() {
    assert!(bytes_eq(b"abc", b"abc"));
    assert!(!bytes_eq(b"abc", b"abd"));
    assert!(!bytes_eq(b"abc", b"ab"));
    assert!(bytes_eq(b"", b""));
}

#[test]
fn find_comma_positions() {
    assert_eq!(find_comma(b"addr,pem"), 4);
    assert_eq!(find_comma(b",x"), 0);
    assert_eq!(find_comma(b"nocomma"), 7);
    assert_eq!(find_comma(b""), 0);
}

#[test]
fn parse_add_peer_splits_at_first_comma() {
    let parsed = parse_add_peer(b"127.0.0.1:4000,PEMDATA").unwrap();
    assert_eq!(parsed.0, b"127.0.0.1:4000".to_vec());
    assert_eq!(parsed.1, b"PEMDATA".to_vec());
    assert!(parse_add_peer(b"no separator here").is_none());
    let two = parse_add_peer(b"a,b,c").unwrap();
    assert_eq!(two.0, b"a".to_vec());
    assert_eq!(two.1, b"b,c".to_vec());
}

#[test]
fn handle_server_record_dispatch() {
    let add = Message::new(b"1.2.3.4:5,KEY".to_vec(), MessageType::AddPeer);
    match handle_server_record(&add) {
        ClientDirective::DialPeer { addr, pem } => {
            assert_eq!(addr, b"1.2.3.4:5".to_vec());
            assert_eq!(pem, b"KEY".to_vec());
        },
        _ => panic!("expected a dial directive"),
    }
    let bad = Message::new(b"nocomma".to_vec(), MessageType::AddPeer);
    assert!(matches!(handle_server_record(&bad), ClientDirective::Malformed));
    let rm = Message::new(b"1.2.3.4:5".to_vec(), MessageType::RemovePeer);
    match handle_server_record(&rm) {
        ClientDirective::DropPeer { addr } => assert_eq!(addr, b"1.2.3.4:5".to_vec()),
        _ => panic!("expected a drop directive"),
    }
    let other = Message::new(b"x".to_vec(), MessageType::DEBUG);
    assert!(matches!(handle_server_record(&other), ClientDirective::Ignore));
}

#[test]
fn peer_reply_only_to_key_requests() {
    let req = Message::new(Vec::new(), MessageType::RequestPublicKey);
    let reply = peer_reply_for(&req, b"MYPEM").unwrap();
    assert_eq!(reply.message_type, MessageType::NORMAL);
    assert_eq!(reply.content, b"MYPEM".to_vec());
    let other = Message::new(Vec::new(), MessageType::NORMAL);
    assert!(peer_reply_for(&other, b"MYPEM").is_none());
}

#[test]
fn find_peer_index_first_match() {
    let addrs = vec![b"a:1".to_vec(), b"b:2".to_vec(), b"b:2".to_vec()];
    assert_eq!(find_peer_index(&addrs, b"b:2"), Some(1));
    assert_eq!(find_peer_index(&addrs, b"c:3"), None);
}
