//! Client-side decisions: what to do with each record from the server
//! and with each record from a peer.
//!
//! The surrounding tasks own the sockets; they hand records to these
//! functions and carry out the directive that comes back — dialling a
//! newly announced peer, dropping a departed one, or answering a
//! peer's request for the public key.

use vstd::prelude::*;
use crate::message::{Message, MessageType};
use crate::directory::{parse_add_peer, payload_addr, first_comma};
use crate::bytes_eq;

verus! {

/// What a client does with one record from its server link.
pub enum ClientDirective {
    /// Dial the peer listening at the address, wrapping a fresh
    /// session key under the PEM public key.
    DialPeer { addr: Vec<u8>, pem: Vec<u8> },
    /// Drop the peer connected from the address.
    DropPeer { addr: Vec<u8> },
    /// A malformed announcement; the link is no longer trustworthy.
    Malformed,
    /// Nothing to do.
    Ignore,
}

/// Decides on one record from the server: an AddPeer announcement
/// yields the peer's address and key to dial, a RemovePeer the address
/// to drop; an AddPeer body without a comma is malformed, and every
/// other type is ignored.
pub fn handle_server_record(msg: &Message) -> (r: ClientDirective)
    ensures
        msg.message_type == MessageType::AddPeer && first_comma(msg.content@)
            < msg.content@.len() ==> (r matches ClientDirective::DialPeer { addr, pem }
            && addr@ == payload_addr(msg.content@) && pem@ == msg.content@.subrange(
            first_comma(msg.content@) + 1,
            msg.content@.len() as int,
        )),
        msg.message_type == MessageType::AddPeer && first_comma(msg.content@)
            >= msg.content@.len() ==> r is Malformed,
        msg.message_type == MessageType::RemovePeer ==> (r matches ClientDirective::DropPeer {
            addr,
        } && addr@ == msg.content@),
        !(msg.message_type == MessageType::AddPeer || msg.message_type
            == MessageType::RemovePeer) ==> r is Ignore,
{
    match msg.message_type {
        MessageType::AddPeer => {
            match parse_add_peer(msg.content.as_slice()) {
                Some((addr, pem)) => ClientDirective::DialPeer { addr, pem },
                None => ClientDirective::Malformed,
            }
        },
        MessageType::RemovePeer => {
            let addr = vstd::slice::slice_to_vec(msg.content.as_slice());
            ClientDirective::DropPeer { addr }
        },
        _ => ClientDirective::Ignore,
    }
}

/// Decides on one record from a peer: a request for the public key is
/// answered with a NORMAL record carrying the client's own PEM, and
/// everything else is a no-op.
pub fn peer_reply_for(msg: &Message, own_pem: &[u8]) -> (r: Option<Message>)
    ensures
        r is Some <==> msg.message_type == MessageType::RequestPublicKey,
        r is Some ==> r->0.message_type == MessageType::NORMAL && r->0.content@ == own_pem@,
{
    match msg.message_type {
        MessageType::RequestPublicKey => {
            let content = vstd::slice::slice_to_vec(own_pem);
            Some(Message::new(content, MessageType::NORMAL))
        },
        _ => None,
    }
}

/// The first position in the peer directory holding exactly the given
/// address, if any.
pub fn find_peer_index(addrs: &Vec<Vec<u8>>, target: &[u8]) -> (r: Option<usize>)
    ensures
        r is Some ==> 0 <= r->0 < addrs@.len() && addrs@[r->0 as int]@ == target@ && forall|
            j: int,
        | 0 <= j < r->0 ==> addrs@[j]@ != target@,
        r is None ==> forall|j: int| 0 <= j < addrs@.len() ==> addrs@[j]@ != target@,
{
    let n = addrs.len();
    let mut i: usize = 0;
    while i < n
        invariant
            n == addrs@.len(),
            i <= n,
            forall|j: int| 0 <= j < i ==> addrs@[j]@ != target@,
        decreases n - i,
    {
        if bytes_eq(addrs[i].as_slice(), target) {
            return Some(i);
        }
        i = i + 1;
    }
    None
}

} // verus!
