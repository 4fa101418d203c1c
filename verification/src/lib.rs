//! A privacy-preserving mutual-match rendezvous library.
//!
//! Clients register a pair of names with a rendezvous server; the server
//! pairs two clients exactly when each named the other, and only then
//! reveals that a match exists.  This crate holds the verified core:
//! the typed record framing over AES-256-GCM, the RSA-wrapped session
//! handshake, the secret-token derivation, and the server's match and
//! directory logic.  Sockets, threads and key files live outside it.

use vstd::prelude::*;

pub mod message;
pub mod crypto;
pub mod framing;
pub mod session;
pub mod token;
pub mod match_table;
pub mod directory;
pub mod server_core;
pub mod client_core;

verus! {

/// Whether two byte slices hold the same bytes.
pub fn bytes_eq(a: &[u8], b: &[u8]) -> (r: bool)
    ensures
        r == (a@ == b@),
{
    if a.len() != b.len() {
        return false;
    }
    let mut i: usize = 0;
    while i < a.len()
        invariant
            a@.len() == b@.len(),
            i <= a@.len(),
            forall|j: int| 0 <= j < i ==> a@[j] == b@[j],
        decreases a@.len() - i,
    {
        if a[i] != b[i] {
            return false;
        }
        i = i + 1;
    }
    proof {
        assert(a@ =~= b@);
    }
    true
}

/// Sum of two lengths, available only when it cannot overflow.
pub fn add(left: usize, right: usize) -> (r: usize)
    requires
        left + right <= usize::MAX,
    ensures
        r == left + right,
{
    left + right
}

} // verus!
