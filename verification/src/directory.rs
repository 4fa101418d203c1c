//! Directory announcements: the payloads of AddPeer and RemovePeer
//! records, and the rule that keeps a peer from being announced to
//! itself.
//!
//! An AddPeer body is the new client's listening address, a comma, and
//! its public-key PEM.  A broadcast of it is delivered to every client
//! whose own announced address differs from the one in the payload and
//! is already known; every other record type is delivered to all.

use vstd::prelude::*;
use crate::bytes_eq;
use crate::message::{Message, MessageType};

verus! {

/// The comma that separates the address from the PEM in an AddPeer
/// body.
pub open spec fn comma() -> u8 {
    44
}

/// The body of an AddPeer broadcast for a client: address, comma, PEM.
pub open spec fn add_peer_payload(addr: Seq<u8>, pem: Seq<u8>) -> Seq<u8> {
    addr + seq![comma()] + pem
}

/// The position of the first comma, or the length where there is none.
pub open spec fn first_comma(p: Seq<u8>) -> int
    decreases p.len(),
{
    if p.len() == 0 {
        0
    } else if p[0] == comma() {
        0
    } else {
        1 + first_comma(p.drop_first())
    }
}

/// Where the first comma lies: within bounds, on a comma when one
/// exists, and after nothing but other bytes.
pub proof fn lemma_first_comma(p: Seq<u8>)
    ensures
        0 <= first_comma(p) <= p.len(),
        first_comma(p) < p.len() ==> p[first_comma(p)] == comma(),
        forall|j: int| 0 <= j < first_comma(p) ==> p[j] != comma(),
    decreases p.len(),
{
    if p.len() > 0 && p[0] != comma() {
        lemma_first_comma(p.drop_first());
        let q = p.drop_first();
        assert forall|j: int| 0 <= j < first_comma(p) implies p[j] != comma() by {
            if j > 0 {
                assert(q[j - 1] == p[j]);
            }
        }
        if first_comma(p) < p.len() {
            assert(q[first_comma(q)] == p[first_comma(p)]);
        }
    }
}

/// Any position that is a comma preceded by none is the first comma,
/// and a comma-free prefix of full length means there is none.
pub proof fn lemma_first_comma_unique(p: Seq<u8>, i: int)
    requires
        0 <= i <= p.len(),
        i < p.len() ==> p[i] == comma(),
        forall|j: int| 0 <= j < i ==> p[j] != comma(),
    ensures
        first_comma(p) == i,
{
    lemma_first_comma(p);
    if first_comma(p) < i {
        assert(p[first_comma(p)] != comma());
    } else if i < first_comma(p) {
        assert(p[i] != comma());
    }
}

/// The address part of an AddPeer body: the bytes before the first
/// comma.
pub open spec fn payload_addr(p: Seq<u8>) -> Seq<u8> {
    p.take(first_comma(p))
}

/// The position of the first comma of a byte slice, or its length
/// where there is none.
pub fn find_comma(p: &[u8]) -> (r: usize)
    ensures
        r == first_comma(p@),
        r <= p@.len(),
{
    let mut i: usize = 0;
    while i < p.len()
        invariant
            i <= p@.len(),
            forall|j: int| 0 <= j < i ==> p@[j] != comma(),
        decreases p@.len() - i,
    {
        if p[i] == 44 {
            proof {
                lemma_first_comma_unique(p@, i as int);
            }
            return i;
        }
        i = i + 1;
    }
    proof {
        lemma_first_comma_unique(p@, p@.len() as int);
    }
    i
}

/// Splits an AddPeer body into the address before the first comma and
/// the remainder after it; `None` where no comma is present, which is
/// a malformed announcement.
pub fn parse_add_peer(payload: &[u8]) -> (r: Option<(Vec<u8>, Vec<u8>)>)
    ensures
        r is Some <==> first_comma(payload@) < payload@.len(),
        r is Some ==> (r->0).0@ == payload_addr(payload@) && (r->0).1@ == payload@.subrange(
            first_comma(payload@) + 1,
            payload@.len() as int,
        ),
{
    let cut = find_comma(payload);
    if cut == payload.len() {
        return None;
    }
    let addr = vstd::slice::slice_to_vec(vstd::slice::slice_subrange(payload, 0, cut));
    let rest = vstd::slice::slice_to_vec(
        vstd::slice::slice_subrange(payload, cut + 1, payload.len()),
    );
    proof {
        assert(addr@ =~= payload_addr(payload@));
    }
    Some((addr, rest))
}

/// Parsing the payload built for an address and PEM gives the address
/// and PEM back, as long as the address itself holds no comma.
pub proof fn lemma_add_peer_payload_parse(addr: Seq<u8>, pem: Seq<u8>)
    requires
        forall|j: int| 0 <= j < addr.len() ==> addr[j] != comma(),
    ensures
        first_comma(add_peer_payload(addr, pem)) == addr.len(),
        payload_addr(add_peer_payload(addr, pem)) == addr,
        add_peer_payload(addr, pem).subrange(
            addr.len() as int + 1,
            add_peer_payload(addr, pem).len() as int,
        ) == pem,
{
    let p = add_peer_payload(addr, pem);
    assert(p[addr.len() as int] == comma());
    assert forall|j: int| 0 <= j < addr.len() implies p[j] != comma() by {
        assert(p[j] == addr[j]);
    }
    lemma_first_comma_unique(p, addr.len() as int);
    assert(payload_addr(p) =~= addr);
    assert(p.subrange(addr.len() as int + 1, p.len() as int) =~= pem);
}

/// Whether a broadcast record is delivered to a client that announced
/// the given listening address: an AddPeer record is withheld from a
/// client with no known address and from the client whose address the
/// payload itself names; every other record goes to all.
pub open spec fn spec_should_deliver(
    t: MessageType,
    content: Seq<u8>,
    listen_addr: Option<Seq<u8>>,
) -> bool {
    match t {
        MessageType::AddPeer => match listen_addr {
            Some(a) => a != payload_addr(content),
            None => false,
        },
        _ => true,
    }
}

/// Applies the delivery rule of `spec_should_deliver` to one client's
/// announced address.
pub fn should_deliver(msg: &Message, listen_addr: Option<&Vec<u8>>) -> (r: bool)
    ensures
        r == spec_should_deliver(
            msg.message_type,
            msg.content@,
            match listen_addr {
                Some(a) => Some(a@),
                None => None,
            },
        ),
{
    match msg.message_type {
        MessageType::AddPeer => {
            match listen_addr {
                Some(a) => {
                    let cut = find_comma(msg.content.as_slice());
                    let prefix = vstd::slice::slice_subrange(msg.content.as_slice(), 0, cut);
                    proof {
                        lemma_first_comma(msg.content@);
                        assert(prefix@ =~= payload_addr(msg.content@));
                    }
                    !bytes_eq(a.as_slice(), prefix)
                },
                None => false,
            }
        },
        _ => true,
    }
}

/// A client is never sent the announcement of its own address: the
/// AddPeer broadcast built from an address without commas is withheld
/// from every client that announced that same address.
pub proof fn lemma_self_announce_filtered(addr: Seq<u8>, pem: Seq<u8>)
    requires
        forall|j: int| 0 <= j < addr.len() ==> addr[j] != comma(),
    ensures
        !spec_should_deliver(MessageType::AddPeer, add_peer_payload(addr, pem), Some(addr)),
{
    lemma_add_peer_payload_parse(addr, pem);
}

} // verus!
