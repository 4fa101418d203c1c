use rendezvous::server_core::{ServerCore, match_notification};
use rendezvous::match_table::MatchTable;
use rendezvous::directory::should_deliver;
use rendezvous::message::{Message, MessageType};
use rendezvous::token::derive_secret_tokens;

fn link_key(seed: u8) -> [u8; 32] {
    let mut k = [0u8; 32];
    for i in 0..32 {
        k[i] = seed.wrapping_add(i as u8);
    }
    k
}

/// Registers a client and informs the server of its key and address.
fn join(core: &mut ServerCore, addr: &[u8]) -> u64 {
    let id = core.register_client();
    assert!(core.set_public_key(id, b"PEM".to_vec()));
    assert!(core.set_listen_addr(id, addr.to_vec()));
    id
}

#[test]
fn single_match_two_clients() {
    let mut core = ServerCore::new();
    let x = join(&mut core, b"127.0.0.1:4001");
    let y = join(&mut core, b"127.0.0.1:4002");
    let key = link_key(3);
    // X runs ("alice\n", "bob\n"), Y runs ("bob\n", "alice\n"); they share
    // one peer link, so both derive their tokens from the same key.
    let (x1, x2) = derive_secret_tokens(b"alice\n", b"bob\n", &key);
    let (y1, y2) = derive_secret_tokens(b"bob\n", b"alice\n", &key);
    assert!(core.submit_secret(x, x1).is_none());
    assert!(core.submit_secret(x, x2).is_none());
    // Y's first token pairs with one of X's: the match reports X.
    assert_eq!(core.submit_secret(y, y1), Some(x));
    assert_eq!(core.submit_secret(y, y2), Some(x));
    let notice = match_notification();
    assert_eq!(notice.message_type, MessageType::DEBUG);
    assert_eq!(notice.content, b"MATCH OBTAINED".to_vec());
}

#[test]
fn no_match_for_one_sided_interest() {
    let mut core = ServerCore::new();
    let x = join(&mut core, b"127.0.0.1:4001");
    let y = join(&mut core, b"127.0.0.1:4002");
    let key = link_key(9);
    let (x1, x2) = derive_secret_tokens(b"alice\n", b"bob\n", &key);
    let (y1, y2) = derive_secret_tokens(b"bob\n", b"carol\n", &key);
    assert!(core.submit_secret(x, x1).is_none());
    assert!(core.submit_secret(x, x2).is_none());
    assert!(core.submit_secret(y, y1).is_none());
    assert!(core.submit_secret(y, y2).is_none());
}

#[test]
fn third_party_does_not_interfere() {
    let mut core = ServerCore::new();
    let x = join(&mut core, b"127.0.0.1:4001");
    let y = join(&mut core, b"127.0.0.1:4002");
    let z = join(&mut core, b"127.0.0.1:4003");
    let xy_key = link_key(11);
    let xz_key = link_key(23);
    let yz_key = link_key(57);
    let (x1, x2) = derive_secret_tokens(b"alice\n", b"bob\n", &xy_key);
    let (y1, y2) = derive_secret_tokens(b"bob\n", b"alice\n", &xy_key);
    let (zx1, zx2) = derive_secret_tokens(b"dave\n", b"eve\n", &xz_key);
    let (zy1, zy2) = derive_secret_tokens(b"dave\n", b"eve\n", &yz_key);
    assert!(core.submit_secret(x, x1).is_none());
    assert!(core.submit_secret(x, x2).is_none());
    assert!(core.submit_secret(z, zx1).is_none());
    assert!(core.submit_secret(z, zx2).is_none());
    assert!(core.submit_secret(z, zy1).is_none());
    assert!(core.submit_secret(z, zy2).is_none());
    // X and Y match; Z is never part of a match.
    assert_eq!(core.submit_secret(y, y1), Some(x));
    assert_eq!(core.submit_secret(y, y2), Some(x));
}

#[test]
fn disconnect_before_match() {
    let mut core = ServerCore::new();
    let x = join(&mut core, b"127.0.0.1:4001");
    let y = join(&mut core, b"127.0.0.1:4002");
    let key = link_key(5);
    let (x1, x2) = derive_secret_tokens(b"alice\n", b"bob\n", &key);
    assert!(core.submit_secret(x, x1).is_none());
    assert!(core.submit_secret(x, x2).is_none());
    // Y dies before submitting anything.
    let removal = core.on_disconnect(y, b"127.0.0.1:35000".to_vec()).unwrap();
    assert_eq!(removal.message_type, MessageType::RemovePeer);
    assert_eq!(removal.content, b"127.0.0.1:35000".to_vec());
    // The removal is broadcast to the survivors, and only once.
    assert!(core.on_disconnect(y, b"127.0.0.1:35000".to_vec()).is_none());
    // No match was ever delivered: nothing pairs with X's tokens.
}

#[test]
fn self_announce_is_filtered() {
    let mut core = ServerCore::new();
    let x = join(&mut core, b"127.0.0.1:4001");
    let add_peer = core.dispatch_new_client(x).unwrap();
    assert_eq!(add_peer.message_type, MessageType::AddPeer);
    assert!(add_peer.content.starts_with(b"127.0.0.1:4001,"));
    // Never delivered back to the client it announces.
    let own = b"127.0.0.1:4001".to_vec();
    assert!(!should_deliver(&add_peer, Some(&own)));
    // Delivered to everyone else whose address is known.
    let other = b"127.0.0.1:9999".to_vec();
    assert!(should_deliver(&add_peer, Some(&other)));
    // Withheld from a client that has not announced its address yet.
    assert!(!should_deliver(&add_peer, None));
    // Other record types go to everyone.
    assert!(should_deliver(&match_notification(), None));
}

#[test]
fn announce_happens_once() {
    let mut core = ServerCore::new();
    let x = join(&mut core, b"127.0.0.1:4001");
    // Not dispatched until the queue has room and the client is ready.
    assert!(core.dispatch_new_client(x).is_some());
    // The record sits in the broadcast queue; a second dispatch of the
    // same client does nothing, even after the queue drains.
    assert!(core.dispatch_new_client(x).is_none());
    let queued = core.pop_broadcast().unwrap();
    assert_eq!(queued.message_type, MessageType::AddPeer);
    assert!(core.dispatch_new_client(x).is_none());
    assert!(core.pop_broadcast().is_none());
}

#[test]
fn dispatch_waits_for_readiness_and_queue() {
    let mut core = ServerCore::new();
    let x = core.register_client();
    // Neither key nor address yet: nothing to announce.
    assert!(core.dispatch_new_client(x).is_none());
    assert!(core.set_public_key(x, b"PEM".to_vec()));
    assert!(core.dispatch_new_client(x).is_none());
    assert!(core.set_listen_addr(x, b"127.0.0.1:4001".to_vec()));
    let first = core.dispatch_new_client(x).unwrap();
    assert_eq!(first.message_type, MessageType::AddPeer);
    // A second client is held back while the queue is non-empty.
    let y = join(&mut core, b"127.0.0.1:4002");
    assert!(core.dispatch_new_client(y).is_none());
    core.pop_broadcast().unwrap();
    assert!(core.dispatch_new_client(y).is_some());
}

#[test]
fn unknown_ids_change_nothing() {
    let mut core = ServerCore::new();
    assert!(!core.set_public_key(7, b"PEM".to_vec()));
    assert!(!core.set_listen_addr(7, b"a".to_vec()));
    assert!(core.dispatch_new_client(7).is_none());
    assert!(core.on_disconnect(7, b"a".to_vec()).is_none());
}

#[test]
fn match_table_pairs_equal_tokens() {
    let mut table = MatchTable::new();
    assert!(table.submit(b"token-one".to_vec(), 1).is_none());
    assert!(table.contains(b"token-one"));
    assert!(table.submit(b"token-two".to_vec(), 2).is_none());
    assert_eq!(table.submit(b"token-one".to_vec(), 3), Some(1));
    // The matched entry is gone; a third submission starts afresh.
    assert!(!table.contains(b"token-one"));
    assert!(table.submit(b"token-one".to_vec(), 4).is_none());
    assert_eq!(table.submit(b"token-two".to_vec(), 5), Some(2));
}

#[test]
fn on_record_routes_by_type() {
    let mut core = ServerCore::new();
    let x = core.register_client();
    let y = core.register_client();
    assert!(core
        .on_record(x, Message::new(b"PEMX".to_vec(), MessageType::InformPublicKey))
        .is_none());
    assert!(core
        .on_record(x, Message::new(b"127.0.0.1:4001".to_vec(), MessageType::InformAddress))
        .is_none());
    // The stored key and address make the client ready to announce.
    assert!(core.dispatch_new_client(x).is_some());
    // Every other record type is ignored on the server.
    assert!(core.on_record(x, Message::new(b"ping".to_vec(), MessageType::NORMAL)).is_none());
    assert!(core.on_record(x, Message::new(b"ping".to_vec(), MessageType::DEBUG)).is_none());
    // Secret records go to the match table.
    assert!(core.on_record(x, Message::new(b"tok".to_vec(), MessageType::Secret)).is_none());
    assert_eq!(
        core.on_record(y, Message::new(b"tok".to_vec(), MessageType::Secret)),
        Some(x)
    );
}
