//! The server's rendezvous core: its clients, its broadcast queue and
//! its match table, as one sequential state machine.
//!
//! Socket threads feed this core one step at a time — a new
//! connection, a record from a client, a disconnection, a turn of the
//! broadcast sender — and perform the sends it decides on.  A ghost
//! log records every directory announcement ever enqueued;
//! `lemma_announce_order` states over it that each client is announced
//! at most once, withdrawn at most once, and never withdrawn before it
//! was announced.

use vstd::prelude::*;
use crate::match_table::{MatchTable, table_after, submit_outcome};
use crate::message::{Message, MessageType};
use crate::directory::add_peer_payload;

verus! {

/// What the server knows of one connected client: its id, and the
/// public key and listening address it has informed the server of.
pub struct ClientInfo {
    pub id: u64,
    pub public_key_pem: Option<Vec<u8>>,
    pub listen_addr: Option<Vec<u8>>,
    pub announced: bool,
}

/// One directory announcement, as the ghost history records it.
pub enum Announcement {
    Added(u64),
    Removed(u64),
}

/// Whether an announcement adds the given client.
pub open spec fn is_added(a: Announcement, c: u64) -> bool {
    a == Announcement::Added(c)
}

/// Whether an announcement removes the given client.
pub open spec fn is_removed(a: Announcement, c: u64) -> bool {
    a == Announcement::Removed(c)
}

/// Whether the history holds an announcement that adds the client.
pub open spec fn announced_in(log: Seq<Announcement>, c: u64) -> bool {
    exists|i: int| 0 <= i < log.len() && is_added(log[i], c)
}

/// Whether some client in the sequence has the given id.
pub open spec fn has_client(s: Seq<ClientInfo>, id: u64) -> bool {
    exists|i: int| 0 <= i < s.len() && s[i].id == id
}

/// Whether the client with this id is connected, has informed the
/// server of both its key and its address, and awaits announcement.
pub open spec fn ready_unannounced(s: Seq<ClientInfo>, id: u64) -> bool {
    exists|i: int|
        0 <= i < s.len() && (#[trigger] s[i]).id == id && s[i].public_key_pem is Some
            && s[i].listen_addr is Some && !s[i].announced
}

/// Appending an announcement adds to the history exactly that entry.
pub proof fn lemma_announced_in_push(log: Seq<Announcement>, a: Announcement, c: u64)
    ensures
        announced_in(log.push(a), c) <==> (announced_in(log, c) || is_added(a, c)),
{
    let lg = log.push(a);
    if announced_in(log, c) {
        let i = choose|i: int| 0 <= i < log.len() && is_added(log[i], c);
        assert(is_added(lg[i], c));
    }
    if is_added(a, c) {
        assert(is_added(lg[log.len() as int], c));
    }
    if announced_in(lg, c) {
        let i = choose|i: int| 0 <= i < lg.len() && is_added(lg[i], c);
        if i < log.len() {
            assert(is_added(log[i], c));
        }
    }
}

/// Well-formedness of the server's directory state: ids unique and
/// below the counter, stored keys and addresses within record size,
/// the announcement history free of repeats, agreeing with the
/// `announced` flags, and every withdrawn client gone.
pub open spec fn core_wf(clients: Seq<ClientInfo>, log: Seq<Announcement>, next_id: u64) -> bool {
    &&& forall|i: int, j: int|
        0 <= i < j < clients.len() ==> (#[trigger] clients[i]).id != (#[trigger] clients[j]).id
    &&& forall|i: int| 0 <= i < clients.len() ==> (#[trigger] clients[i]).id < next_id
    &&& forall|i: int|
        0 <= i < clients.len() ==> ((#[trigger] clients[i]).public_key_pem matches Some(p)
            ==> p@.len() <= 0x7fff_ffff)
    &&& forall|i: int|
        0 <= i < clients.len() ==> ((#[trigger] clients[i]).listen_addr matches Some(a)
            ==> a@.len() <= 0x7fff_ffff)
    &&& forall|c: u64, i: int, j: int|
        0 <= i < j < log.len() && #[trigger] is_added(log[i], c) ==> !#[trigger] is_added(
            log[j],
            c,
        )
    &&& forall|c: u64, i: int, j: int|
        0 <= i < j < log.len() && #[trigger] is_removed(log[i], c) ==> !#[trigger] is_removed(
            log[j],
            c,
        )
    &&& forall|c: u64, i: int, j: int|
        0 <= i < j < log.len() && #[trigger] is_removed(log[i], c) ==> !#[trigger] is_added(
            log[j],
            c,
        )
    &&& forall|k: int|
        0 <= k < clients.len() ==> ((#[trigger] clients[k]).announced <==> announced_in(
            log,
            clients[k].id,
        ))
    &&& forall|c: u64, i: int|
        0 <= i < log.len() && #[trigger] is_removed(log[i], c) ==> !has_client(clients, c)
    &&& forall|c: u64, i: int| 0 <= i < log.len() && #[trigger] is_added(log[i], c) ==> c < next_id
    &&& forall|c: u64, i: int|
        0 <= i < log.len() && #[trigger] is_removed(log[i], c) ==> c < next_id
}

/// Changing only the stored key or address of clients — never an id
/// or an announced flag — keeps the directory state well-formed.
pub proof fn lemma_core_wf_update_fields(
    clients: Seq<ClientInfo>,
    clients2: Seq<ClientInfo>,
    log: Seq<Announcement>,
    next_id: u64,
)
    requires
        core_wf(clients, log, next_id),
        clients2.len() == clients.len(),
        forall|k: int|
            0 <= k < clients2.len() ==> (#[trigger] clients2[k]).id == clients[k].id
                && clients2[k].announced == clients[k].announced,
        forall|k: int|
            0 <= k < clients2.len() ==> ((#[trigger] clients2[k]).public_key_pem matches Some(p)
                ==> p@.len() <= 0x7fff_ffff),
        forall|k: int|
            0 <= k < clients2.len() ==> ((#[trigger] clients2[k]).listen_addr matches Some(a)
                ==> a@.len() <= 0x7fff_ffff),
    ensures
        core_wf(clients2, log, next_id),
{
    assert forall|i: int, j: int| 0 <= i < j < clients2.len() implies (#[trigger] clients2[i]).id
        != (#[trigger] clients2[j]).id by {
        assert(clients2[i].id == clients[i].id && clients2[j].id == clients[j].id);
    }
    assert forall|i: int| 0 <= i < clients2.len() implies (#[trigger] clients2[i]).id
        < next_id by {
        assert(clients2[i].id == clients[i].id);
    }
    assert forall|k: int|
        0 <= k < clients2.len() implies ((#[trigger] clients2[k]).announced <==> announced_in(
        log,
        clients2[k].id,
    )) by {
        assert(clients2[k].id == clients[k].id && clients2[k].announced == clients[k].announced);
    }
    assert forall|c: u64, i: int|
        0 <= i < log.len() && #[trigger] is_removed(log[i], c) implies !has_client(
        clients2,
        c,
    ) by {
        if has_client(clients2, c) {
            let kk = choose|kk: int| 0 <= kk < clients2.len() && clients2[kk].id == c;
            assert(clients[kk].id == c);
            assert(has_client(clients, c));
        }
    }
}

/// Registering a fresh client with the next id keeps the directory
/// state well-formed.
pub proof fn lemma_core_wf_register(clients: Seq<ClientInfo>, log: Seq<Announcement>, next_id: u64)
    requires
        core_wf(clients, log, next_id),
        next_id < u64::MAX,
    ensures
        core_wf(
            clients.push(
                ClientInfo {
                    id: next_id,
                    public_key_pem: None,
                    listen_addr: None,
                    announced: false,
                },
            ),
            log,
            (next_id + 1) as u64,
        ),
{
    let info = ClientInfo { id: next_id, public_key_pem: None, listen_addr: None, announced: false
     };
    let s = clients.push(info);
    assert(s[s.len() - 1] == info);
    assert forall|k: int|
        0 <= k < s.len() implies ((#[trigger] s[k]).announced <==> announced_in(log, s[k].id)) by {
        if k < s.len() - 1 {
            assert(s[k] == clients[k]);
        } else {
            if announced_in(log, next_id) {
                let i = choose|i: int| 0 <= i < log.len() && is_added(log[i], next_id);
                assert(false);
            }
        }
    }
    assert forall|c: u64, i: int|
        0 <= i < log.len() && #[trigger] is_removed(log[i], c) implies !has_client(s, c) by {
        if has_client(s, c) {
            let kk = choose|kk: int| 0 <= kk < s.len() && s[kk].id == c;
            if kk < s.len() - 1 {
                assert(clients[kk].id == c);
                assert(has_client(clients, c));
            } else {
                assert(c == next_id);
            }
        }
    }
}

/// Announcing a connected, not-yet-announced client — setting its
/// flag and logging the addition — keeps the directory state
/// well-formed.
pub proof fn lemma_core_wf_announce(
    clients: Seq<ClientInfo>,
    log: Seq<Announcement>,
    next_id: u64,
    k: int,
    id: u64,
)
    requires
        core_wf(clients, log, next_id),
        0 <= k < clients.len(),
        clients[k].id == id,
        !clients[k].announced,
    ensures
        core_wf(
            clients.update(k, (ClientInfo { announced: true, ..clients[k] })),
            log.push(Announcement::Added(id)),
            next_id,
        ),
{
    let s = clients.update(k, ClientInfo { announced: true, ..clients[k] });
    let lg = log.push(Announcement::Added(id));
    let n = log.len() as int;
    assert(lg[n] == Announcement::Added(id));
    assert(forall|i: int| 0 <= i < n ==> lg[i] == log[i]);
    assert(!announced_in(log, id));
    assert forall|c: u64, i: int, j: int|
        0 <= i < j < lg.len() && #[trigger] is_added(lg[i], c) implies !#[trigger] is_added(
        lg[j],
        c,
    ) by {
        if j == n && is_added(lg[j], c) {
            assert(c == id);
            if is_added(lg[i], c) {
                assert(is_added(log[i], id));
                assert(announced_in(log, id));
            }
        }
    }
    assert forall|c: u64, i: int, j: int|
        0 <= i < j < lg.len() && #[trigger] is_removed(lg[i], c) implies !#[trigger] is_removed(
        lg[j],
        c,
    ) by {
        if j == n {
            assert(!is_removed(lg[j], c));
        }
    }
    assert forall|c: u64, i: int, j: int|
        0 <= i < j < lg.len() && #[trigger] is_removed(lg[i], c) implies !#[trigger] is_added(
        lg[j],
        c,
    ) by {
        if j == n && is_added(lg[j], c) {
            assert(c == id);
            assert(is_removed(log[i], c));
            assert(!has_client(clients, c));
            assert(has_client(clients, c));
        }
    }
    assert forall|kk: int|
        0 <= kk < s.len() implies ((#[trigger] s[kk]).announced <==> announced_in(
        lg,
        s[kk].id,
    )) by {
        lemma_announced_in_push(log, Announcement::Added(id), s[kk].id);
        if kk == k {
            assert(is_added(Announcement::Added(id), s[kk].id));
        } else {
            assert(s[kk] == clients[kk]);
            if s[kk].id == id {
                assert(clients[kk].id == clients[k].id);
                assert(false);
            }
        }
    }
    assert forall|c: u64, i: int|
        0 <= i < lg.len() && #[trigger] is_removed(lg[i], c) implies !has_client(s, c) by {
        assert(i < n);
        assert(is_removed(log[i], c));
        assert(!has_client(clients, c));
        if has_client(s, c) {
            let kk = choose|kk: int| 0 <= kk < s.len() && s[kk].id == c;
            assert(clients[kk].id == c);
            assert(has_client(clients, c));
        }
    }
    assert forall|c: u64, i: int|
        0 <= i < lg.len() && #[trigger] is_added(lg[i], c) implies c < next_id by {
        if i == n {
            assert(c == id);
            assert(clients[k].id < next_id);
        }
    }
    assert forall|c: u64, i: int|
        0 <= i < lg.len() && #[trigger] is_removed(lg[i], c) implies c < next_id by {
        assert(i < n);
    }
}

/// Withdrawing a connected client — removing it and logging the
/// removal — keeps the directory state well-formed.
pub proof fn lemma_core_wf_withdraw(
    clients: Seq<ClientInfo>,
    log: Seq<Announcement>,
    next_id: u64,
    k: int,
    id: u64,
)
    requires
        core_wf(clients, log, next_id),
        0 <= k < clients.len(),
        clients[k].id == id,
    ensures
        core_wf(clients.remove(k), log.push(Announcement::Removed(id)), next_id),
        !has_client(clients.remove(k), id),
{
    let s = clients.remove(k);
    let lg = log.push(Announcement::Removed(id));
    let n = log.len() as int;
    assert(lg[n] == Announcement::Removed(id));
    assert(forall|i: int| 0 <= i < n ==> lg[i] == log[i]);
    assert(forall|kk: int|
        0 <= kk < s.len() ==> #[trigger] s[kk] == (if kk < k {
            clients[kk]
        } else {
            clients[kk + 1]
        }));
    assert(!has_client(s, id)) by {
        if has_client(s, id) {
            let kk = choose|kk: int| 0 <= kk < s.len() && s[kk].id == id;
            if kk < k {
                assert(clients[kk].id == clients[k].id);
            } else {
                assert(clients[kk + 1].id == clients[k].id);
            }
        }
    }
    assert forall|c: u64, i: int, j: int|
        0 <= i < j < lg.len() && #[trigger] is_added(lg[i], c) implies !#[trigger] is_added(
        lg[j],
        c,
    ) by {
        if j == n {
            assert(!is_added(lg[j], c));
        }
    }
    assert forall|c: u64, i: int, j: int|
        0 <= i < j < lg.len() && #[trigger] is_removed(lg[i], c) implies !#[trigger] is_removed(
        lg[j],
        c,
    ) by {
        if j == n && is_removed(lg[j], c) {
            assert(c == id);
            if is_removed(lg[i], c) {
                assert(is_removed(log[i], id));
                assert(!has_client(clients, id));
                assert(has_client(clients, id));
            }
        }
    }
    assert forall|c: u64, i: int, j: int|
        0 <= i < j < lg.len() && #[trigger] is_removed(lg[i], c) implies !#[trigger] is_added(
        lg[j],
        c,
    ) by {
        if j == n {
            assert(!is_added(lg[j], c));
        }
    }
    assert forall|kk: int|
        0 <= kk < s.len() implies ((#[trigger] s[kk]).announced <==> announced_in(
        lg,
        s[kk].id,
    )) by {
        lemma_announced_in_push(log, Announcement::Removed(id), s[kk].id);
        if kk < k {
            assert(s[kk] == clients[kk]);
        } else {
            assert(s[kk] == clients[kk + 1]);
        }
    }
    assert forall|c: u64, i: int|
        0 <= i < lg.len() && #[trigger] is_removed(lg[i], c) implies !has_client(s, c) by {
        if has_client(s, c) {
            let kk = choose|kk: int| 0 <= kk < s.len() && s[kk].id == c;
            if kk < k {
                assert(clients[kk].id == c);
            } else {
                assert(clients[kk + 1].id == c);
            }
            assert(has_client(clients, c));
            if i < n {
                assert(is_removed(log[i], c));
            } else {
                assert(c == id);
            }
        }
    }
    assert forall|c: u64, i: int|
        0 <= i < lg.len() && #[trigger] is_added(lg[i], c) implies c < next_id by {
        assert(i < n);
    }
    assert forall|c: u64, i: int|
        0 <= i < lg.len() && #[trigger] is_removed(lg[i], c) implies c < next_id by {
        if i == n {
            assert(c == id);
            assert(clients[k].id < next_id);
        }
    }
}

/// The notice sent to both sides of a match.
pub open spec fn match_notice() -> Seq<u8> {
    seq![0x4du8, 0x41u8, 0x54u8, 0x43u8, 0x48u8, 0x20u8, 0x4fu8, 0x42u8, 0x54u8, 0x41u8, 0x49u8,
        0x4eu8, 0x45u8, 0x44u8]
}

/// The record that tells a client its crush is mutual: a DEBUG record
/// with body `MATCH OBTAINED`.
pub fn match_notification() -> (r: Message)
    ensures
        r.message_type == MessageType::DEBUG,
        r.content@ == match_notice(),
{
    let content: Vec<u8> = vec![0x4d, 0x41, 0x54, 0x43, 0x48, 0x20, 0x4f, 0x42, 0x54, 0x41, 0x49,
        0x4e, 0x45, 0x44];
    proof {
        assert(content@ =~= match_notice());
    }
    Message::new(content, MessageType::DEBUG)
}

/// The server's whole mutable state.
pub struct ServerCore {
    pub clients: Vec<ClientInfo>,
    pub broadcast: Vec<Message>,
    pub table: MatchTable,
    pub next_id: u64,
    pub log: Ghost<Seq<Announcement>>,
}

impl ServerCore {
    /// The match table is well-formed and so is the directory state.
    pub open spec fn wf(&self) -> bool {
        &&& self.table.wf()
        &&& core_wf(self.clients@, self.log@, self.next_id)
    }

    /// A fresh server: no clients, nothing queued, an empty table.
    pub fn new() -> (r: Self)
        ensures
            r.wf(),
            r.clients@.len() == 0,
            r.broadcast@.len() == 0,
            r.table@ == Map::<Seq<u8>, u64>::empty(),
            r.log@ == Seq::<Announcement>::empty(),
    {
        ServerCore {
            clients: Vec::new(),
            broadcast: Vec::new(),
            table: MatchTable::new(),
            next_id: 0,
            log: Ghost(Seq::empty()),
        }
    }

    /// Registers a newly accepted connection and returns its id.  The
    /// session's key and address are not yet known, and nothing is
    /// announced.
    pub fn register_client(&mut self) -> (r: u64)
        requires
            old(self).wf(),
            old(self).next_id < u64::MAX,
        ensures
            final(self).wf(),
            r == old(self).next_id,
            final(self).clients@ == old(self).clients@.push(
                ClientInfo { id: r, public_key_pem: None, listen_addr: None, announced: false },
            ),
            final(self).next_id == old(self).next_id + 1,
            final(self).broadcast@ == old(self).broadcast@,
            final(self).table@ == old(self).table@,
            final(self).log@ == old(self).log@,
    {
        let id = self.next_id;
        self.clients.push(
            ClientInfo { id, public_key_pem: None, listen_addr: None, announced: false },
        );
        self.next_id = self.next_id + 1;
        proof {
            lemma_core_wf_register(old(self).clients@, self.log@, id);
        }
        id
    }

    /// The index of the client with an id, where one is connected.
    fn find_client(&self, id: u64) -> (r: Option<usize>)
        ensures
            r is Some ==> 0 <= r->0 < self.clients@.len() && self.clients@[r->0 as int].id == id,
            r is None ==> !has_client(self.clients@, id),
    {
        let n = self.clients.len();
        let mut i: usize = 0;
        while i < n
            invariant
                n == self.clients@.len(),
                i <= n,
                forall|j: int| 0 <= j < i ==> (#[trigger] self.clients@[j]).id != id,
            decreases n - i,
        {
            if self.clients[i].id == id {
                return Some(i);
            }
            i = i + 1;
        }
        None
    }

    /// Stores the public key a client informed the server of.  Reports
    /// whether the client is connected; an unknown id changes nothing.
    pub fn set_public_key(&mut self, id: u64, pem: Vec<u8>) -> (r: bool)
        requires
            old(self).wf(),
            pem@.len() <= 0x7fff_ffff,
        ensures
            final(self).wf(),
            r == has_client(old(self).clients@, id),
            final(self).clients@.len() == old(self).clients@.len(),
            forall|k: int|
                0 <= k < old(self).clients@.len() && (#[trigger] old(self).clients@[k]).id != id
                    ==> final(self).clients@[k] == old(self).clients@[k],
            forall|k: int|
                0 <= k < old(self).clients@.len() && (#[trigger] old(self).clients@[k]).id == id
                    ==> final(self).clients@[k] == (ClientInfo {
                    public_key_pem: Some(pem),
                    ..old(self).clients@[k]
                }),
            final(self).broadcast@ == old(self).broadcast@,
            final(self).table@ == old(self).table@,
            final(self).log@ == old(self).log@,
            final(self).next_id == old(self).next_id,
    {
        let idx = match self.find_client(id) {
            Some(i) => i,
            None => {
                return false;
            },
        };
        let mut info = self.clients.remove(idx);
        info.public_key_pem = Some(pem);
        self.clients.insert(idx, info);
        proof {
            let oldc = old(self).clients@;
            let k = idx as int;
            assert(self.clients@ =~= oldc.update(
                k,
                ClientInfo { public_key_pem: Some(pem), ..oldc[k] },
            ));
            lemma_core_wf_update_fields(oldc, self.clients@, self.log@, self.next_id);
            assert forall|kk: int|
                0 <= kk < oldc.len() && (#[trigger] oldc[kk]).id == id implies self.clients@[kk]
                == (ClientInfo { public_key_pem: Some(pem), ..oldc[kk] }) by {
                if kk != k {
                    assert(oldc[kk].id != oldc[k].id);
                }
            }
        }
        true
    }

    /// Stores the listening address a client informed the server of.
    /// Reports whether the client is connected; an unknown id changes
    /// nothing.
    pub fn set_listen_addr(&mut self, id: u64, addr: Vec<u8>) -> (r: bool)
        requires
            old(self).wf(),
            addr@.len() <= 0x7fff_ffff,
        ensures
            final(self).wf(),
            r == has_client(old(self).clients@, id),
            final(self).clients@.len() == old(self).clients@.len(),
            forall|k: int|
                0 <= k < old(self).clients@.len() && (#[trigger] old(self).clients@[k]).id != id
                    ==> final(self).clients@[k] == old(self).clients@[k],
            forall|k: int|
                0 <= k < old(self).clients@.len() && (#[trigger] old(self).clients@[k]).id == id
                    ==> final(self).clients@[k] == (ClientInfo {
                    listen_addr: Some(addr),
                    ..old(self).clients@[k]
                }),
            final(self).broadcast@ == old(self).broadcast@,
            final(self).table@ == old(self).table@,
            final(self).log@ == old(self).log@,
            final(self).next_id == old(self).next_id,
    {
        let idx = match self.find_client(id) {
            Some(i) => i,
            None => {
                return false;
            },
        };
        let mut info = self.clients.remove(idx);
        info.listen_addr = Some(addr);
        self.clients.insert(idx, info);
        proof {
            let oldc = old(self).clients@;
            let k = idx as int;
            assert(self.clients@ =~= oldc.update(
                k,
                ClientInfo { listen_addr: Some(addr), ..oldc[k] },
            ));
            lemma_core_wf_update_fields(oldc, self.clients@, self.log@, self.next_id);
            assert forall|kk: int|
                0 <= kk < oldc.len() && (#[trigger] oldc[kk]).id == id implies self.clients@[kk]
                == (ClientInfo { listen_addr: Some(addr), ..oldc[kk] }) by {
                if kk != k {
                    assert(oldc[kk].id != oldc[k].id);
                }
            }
        }
        true
    }

    /// Handles a pending new-client event: once the client has
    /// informed the server of both its key and its address, has not
    /// been announced yet, and the broadcast queue has drained, its
    /// AddPeer record is enqueued and a copy returned.  Until then
    /// nothing changes and the event stays pending.
    pub fn dispatch_new_client(&mut self, id: u64) -> (r: Option<Message>)
        requires
            old(self).wf(),
        ensures
            final(self).wf(),
            final(self).table@ == old(self).table@,
            final(self).next_id == old(self).next_id,
            r is None ==> final(self).clients@ == old(self).clients@ && final(self).broadcast@
                == old(self).broadcast@ && final(self).log@ == old(self).log@,
            r is Some <==> old(self).broadcast@.len() == 0 && ready_unannounced(
                old(self).clients@,
                id,
            ),
            r is Some ==> final(self).broadcast@.len() == 1 && final(self).log@ == old(
                self,
            ).log@.push(Announcement::Added(id)),
            r is Some ==> exists|k: int|
                0 <= k < old(self).clients@.len() && (#[trigger] old(self).clients@[k]).id == id
                    && old(self).clients@[k].public_key_pem is Some
                    && old(self).clients@[k].listen_addr is Some && !old(self).clients@[k].announced && r->0.message_type == MessageType::AddPeer
                    && r->0.content@ == add_peer_payload(
                    old(self).clients@[k].listen_addr->0@,
                    old(self).clients@[k].public_key_pem->0@,
                ) && final(self).broadcast@[0].message_type == MessageType::AddPeer && final(self).broadcast@[0].content@ == r->0.content@ && final(self).clients@ == old(self).clients@.update(k, (ClientInfo { announced: true, ..old(self).clients@[k] })),
    {
        if self.broadcast.len() != 0 {
            return None;
        }
        let idx = match self.find_client(id) {
            Some(i) => i,
            None => {
                proof {
                    if ready_unannounced(self.clients@, id) {
                        let k = choose|k: int|
                            0 <= k < self.clients@.len() && (#[trigger] self.clients@[k]).id
                                == id && self.clients@[k].public_key_pem is Some
                                && self.clients@[k].listen_addr is Some
                                && !self.clients@[k].announced;
                        assert(has_client(self.clients@, id));
                    }
                }
                return None;
            },
        };
        let mut info = self.clients.remove(idx);
        if !(info.public_key_pem.is_some() && info.listen_addr.is_some() && !info.announced) {
            self.clients.insert(idx, info);
            proof {
                assert(self.clients@ =~= old(self).clients@);
                if ready_unannounced(old(self).clients@, id) {
                    let k = choose|k: int|
                        0 <= k < old(self).clients@.len() && (#[trigger] old(self).clients@[k]).id
                            == id && old(self).clients@[k].public_key_pem is Some
                            && old(self).clients@[k].listen_addr is Some
                            && !old(self).clients@[k].announced;
                    assert(k == idx as int);
                }
            }
            return None;
        }
        let mut content: Vec<u8> = Vec::new();
        match &info.listen_addr {
            Some(a) => crate::token::append_bytes(&mut content, a.as_slice()),
            None => (),
        }
        content.push(44);
        match &info.public_key_pem {
            Some(p) => crate::token::append_bytes(&mut content, p.as_slice()),
            None => (),
        }
        let notice = Message::new(
            vstd::slice::slice_to_vec(content.as_slice()),
            MessageType::AddPeer,
        );
        let record = Message::new(content, MessageType::AddPeer);
        info.announced = true;
        self.clients.insert(idx, info);
        self.broadcast.push(record);
        proof {
            self.log@ = self.log@.push(Announcement::Added(id));
        }
        proof {
            let oldc = old(self).clients@;
            let k = idx as int;
            assert(self.clients@ =~= oldc.update(
                k,
                ClientInfo { announced: true, ..oldc[k] },
            ));
            assert(notice.content@ =~= add_peer_payload(
                oldc[k].listen_addr->0@,
                oldc[k].public_key_pem->0@,
            ));
            assert(ready_unannounced(oldc, id));
            lemma_core_wf_announce(oldc, old(self).log@, self.next_id, k, id);
        }
        Some(notice)
    }

    /// Handles a disconnection: the client leaves the list and a
    /// RemovePeer record with its remote address is enqueued, a copy
    /// of which is returned.  An id that is no longer connected
    /// changes nothing, so a client is withdrawn at most once.
    pub fn on_disconnect(&mut self, id: u64, remote_addr: Vec<u8>) -> (r: Option<Message>)
        requires
            old(self).wf(),
        ensures
            final(self).wf(),
            final(self).table@ == old(self).table@,
            final(self).next_id == old(self).next_id,
            r is Some <==> has_client(old(self).clients@, id),
            r is None ==> final(self).clients@ == old(self).clients@ && final(self).broadcast@
                == old(self).broadcast@ && final(self).log@ == old(self).log@,
            r is Some ==> r->0.message_type == MessageType::RemovePeer && r->0.content@
                == remote_addr@ && final(self).broadcast@.len() == old(self).broadcast@.len() + 1
                && final(self).broadcast@[final(self).broadcast@.len() - 1].message_type
                == MessageType::RemovePeer && final(self).broadcast@[final(self).broadcast@.len() - 1].content@ == remote_addr@ && final(self).log@ == old(self).log@.push(Announcement::Removed(id)) && !has_client(final(self).clients@, id),
            r is Some ==> exists|k: int|
                0 <= k < old(self).clients@.len() && (#[trigger] old(self).clients@[k]).id == id
                    && final(self).clients@ == old(self).clients@.remove(k),
    {
        let idx = match self.find_client(id) {
            Some(i) => i,
            None => {
                return None;
            },
        };
        let _ = self.clients.remove(idx);
        let notice = Message::new(
            vstd::slice::slice_to_vec(remote_addr.as_slice()),
            MessageType::RemovePeer,
        );
        let record = Message::new(remote_addr, MessageType::RemovePeer);
        self.broadcast.push(record);
        proof {
            self.log@ = self.log@.push(Announcement::Removed(id));
        }
        proof {
            lemma_core_wf_withdraw(
                old(self).clients@,
                old(self).log@,
                self.next_id,
                idx as int,
                id,
            );
        }
        Some(notice)
    }

    /// Handles a Secret record from a client: submits the token to the
    /// match table and returns the other party's id when this
    /// submission completes a match.
    pub fn submit_secret(&mut self, id: u64, token: Vec<u8>) -> (r: Option<u64>)
        requires
            old(self).wf(),
        ensures
            final(self).wf(),
            final(self).clients@ == old(self).clients@,
            final(self).broadcast@ == old(self).broadcast@,
            final(self).log@ == old(self).log@,
            final(self).next_id == old(self).next_id,
            final(self).table@ == table_after(old(self).table@, token@, id),
            r == submit_outcome(old(self).table@, token@, id),
    {
        self.table.submit(token, id)
    }

    /// Dispatches one record received from a client, as the rendezvous
    /// rules direct: InformPublicKey stores the client's key,
    /// InformAddress its listening address, Secret consults the match
    /// table — reporting the other party's id when the submission
    /// completes a match — and every other type is ignored on the
    /// server.
    pub fn on_record(&mut self, id: u64, msg: Message) -> (r: Option<u64>)
        requires
            old(self).wf(),
            msg.content@.len() <= 0x7fff_ffff,
        ensures
            final(self).wf(),
            final(self).broadcast@ == old(self).broadcast@,
            final(self).log@ == old(self).log@,
            final(self).next_id == old(self).next_id,
            msg.message_type == MessageType::InformPublicKey ==> r is None && final(self).table@
                == old(self).table@ && final(self).clients@.len() == old(self).clients@.len()
                && (forall|k: int|
                0 <= k < old(self).clients@.len() && (#[trigger] old(self).clients@[k]).id != id
                    ==> final(self).clients@[k] == old(self).clients@[k]) && (forall|k: int|
                0 <= k < old(self).clients@.len() && (#[trigger] old(self).clients@[k]).id == id
                    ==> final(self).clients@[k] == (ClientInfo {
                    public_key_pem: Some(msg.content),
                    ..old(self).clients@[k]
                })),
            msg.message_type == MessageType::InformAddress ==> r is None && final(self).table@
                == old(self).table@ && final(self).clients@.len() == old(self).clients@.len()
                && (forall|k: int|
                0 <= k < old(self).clients@.len() && (#[trigger] old(self).clients@[k]).id != id
                    ==> final(self).clients@[k] == old(self).clients@[k]) && (forall|k: int|
                0 <= k < old(self).clients@.len() && (#[trigger] old(self).clients@[k]).id == id
                    ==> final(self).clients@[k] == (ClientInfo {
                    listen_addr: Some(msg.content),
                    ..old(self).clients@[k]
                })),
            msg.message_type == MessageType::Secret ==> final(self).clients@ == old(
                self,
            ).clients@ && final(self).table@ == table_after(old(self).table@, msg.content@, id)
                && r == submit_outcome(old(self).table@, msg.content@, id),
            !(msg.message_type == MessageType::InformPublicKey || msg.message_type
                == MessageType::InformAddress || msg.message_type == MessageType::Secret) ==> r
                is None && final(self).clients@ == old(self).clients@ && final(self).table@
                == old(self).table@,
    {
        match msg.message_type {
            MessageType::InformPublicKey => {
                self.set_public_key(id, msg.content);
                None
            },
            MessageType::InformAddress => {
                self.set_listen_addr(id, msg.content);
                None
            },
            MessageType::Secret => self.submit_secret(id, msg.content),
            _ => None,
        }
    }

    /// One turn of the broadcast sender: the head of the queue, once
    /// every reachable client has been served, is popped.
    pub fn pop_broadcast(&mut self) -> (r: Option<Message>)
        requires
            old(self).wf(),
        ensures
            final(self).wf(),
            final(self).clients@ == old(self).clients@,
            final(self).table@ == old(self).table@,
            final(self).log@ == old(self).log@,
            final(self).next_id == old(self).next_id,
            old(self).broadcast@.len() == 0 ==> r is None && final(self).broadcast@ == old(self).broadcast@,
            old(self).broadcast@.len() > 0 ==> r == Some(old(self).broadcast@[0]) && final(self).broadcast@ == old(self).broadcast@.remove(0),
    {
        if self.broadcast.len() == 0 {
            return None;
        }
        Some(self.broadcast.remove(0))
    }
}

/// Match correctness for a mutual pair: when two clients name each
/// other over a shared link key, the token the first submits is byte
/// for byte the token the second submits; the first submission leaves
/// it pending without a match, and the second reports the first
/// submitter and clears it.  Conversely a submission reports a match
/// only for a client that earlier submitted the byte-identical token,
/// and `lemma_token_binding` pins that token to one name pair and one
/// link key.
pub proof fn lemma_match_correctness(
    name_a: Seq<u8>,
    name_b: Seq<u8>,
    link_key: Seq<u8>,
    m: Map<Seq<u8>, u64>,
    a: u64,
    b: u64,
)
    requires
        !m.contains_key(crate::token::token_of(name_a + name_b, link_key)),
    ensures
        submit_outcome(m, crate::token::token_of(name_a + name_b, link_key), a) is None,
        submit_outcome(
            table_after(m, crate::token::token_of(name_a + name_b, link_key), a),
            crate::token::token_of(name_a + name_b, link_key),
            b,
        ) == Some(a),
        !table_after(
            table_after(m, crate::token::token_of(name_a + name_b, link_key), a),
            crate::token::token_of(name_a + name_b, link_key),
            b,
        ).contains_key(crate::token::token_of(name_a + name_b, link_key)),
        forall|t: Seq<u8>, c: u64|
            #[trigger] submit_outcome(m, t, c) is Some ==> m.contains_key(t),
{
}

/// Announce idempotence over any reachable server state: the history
/// never announces a client twice, never withdraws it twice, and any
/// withdrawal comes strictly after every announcement of that client.
pub proof fn lemma_announce_order(core: ServerCore, c: u64, i: int, j: int)
    requires
        core.wf(),
        0 <= i < core.log@.len(),
        0 <= j < core.log@.len(),
    ensures
        i < j && is_added(core.log@[i], c) ==> !is_added(core.log@[j], c),
        i < j && is_removed(core.log@[i], c) ==> !is_removed(core.log@[j], c),
        is_removed(core.log@[i], c) && is_added(core.log@[j], c) ==> j < i,
{
    if is_removed(core.log@[i], c) && is_added(core.log@[j], c) {
        if i < j {
            assert(!is_added(core.log@[j], c));
        } else if i == j {
            assert(false);
        }
    }
}

} // verus!
