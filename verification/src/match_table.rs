//! The server's match table.
//!
//! A mapping from secret tokens, treated as opaque bytes, to the
//! client that first submitted each.  A second submission of the same
//! token removes the entry and reports the first submitter: that is
//! the match.  The table holds nothing but tokens and client ids, so
//! the server's persistent state never contains a name in a field of
//! its own.

use vstd::prelude::*;
use crate::bytes_eq;

verus! {

/// The map that an association list denotes; a later entry for the
/// same key would win, and the well-formedness below rules that out.
spec fn entries_map(s: Seq<(Vec<u8>, u64)>) -> Map<Seq<u8>, u64>
    decreases s.len(),
{
    if s.len() == 0 {
        Map::empty()
    } else {
        entries_map(s.drop_last()).insert(s.last().0@, s.last().1)
    }
}

/// No two entries share a token.
spec fn entries_unique(s: Seq<(Vec<u8>, u64)>) -> bool {
    forall|i: int, j: int| 0 <= i < j < s.len() ==> s[i].0@ != s[j].0@
}

/// A key is in the denoted map exactly when some entry holds it.
proof fn lemma_entries_map_domain(s: Seq<(Vec<u8>, u64)>, k: Seq<u8>)
    ensures
        entries_map(s).contains_key(k) <==> exists|i: int| 0 <= i < s.len() && s[i].0@ == k,
    decreases s.len(),
{
    if s.len() > 0 {
        lemma_entries_map_domain(s.drop_last(), k);
        if s.last().0@ == k {
            assert(s[s.len() - 1].0@ == k);
        } else if entries_map(s).contains_key(k) {
            let i = choose|i: int| 0 <= i < s.drop_last().len() && s.drop_last()[i].0@ == k;
            assert(s[i].0@ == k);
        } else {
            assert forall|i: int| 0 <= i < s.len() implies s[i].0@ != k by {
                if i < s.len() - 1 {
                    assert(s.drop_last()[i].0@ == s[i].0@);
                }
            }
        }
    }
}

/// In a well-formed list, the entry holding a key gives its map value.
proof fn lemma_entries_map_index(s: Seq<(Vec<u8>, u64)>, i: int)
    requires
        entries_unique(s),
        0 <= i < s.len(),
    ensures
        entries_map(s).contains_key(s[i].0@),
        entries_map(s)[s[i].0@] == s[i].1,
    decreases s.len(),
{
    if i == s.len() - 1 {
    } else {
        assert(s.drop_last()[i] == s[i]);
        lemma_entries_map_index(s.drop_last(), i);
        assert(s[s.len() - 1].0@ != s[i].0@);
    }
}

/// Removing the entry that holds a key removes the key from the map.
proof fn lemma_entries_map_remove(s: Seq<(Vec<u8>, u64)>, i: int)
    requires
        entries_unique(s),
        0 <= i < s.len(),
    ensures
        entries_map(s.remove(i)) == entries_map(s).remove(s[i].0@),
    decreases s.len(),
{
    if i == s.len() - 1 {
        assert(s.remove(i) =~= s.drop_last());
        lemma_entries_map_domain(s.drop_last(), s[i].0@);
        assert forall|j: int| 0 <= j < s.drop_last().len() implies s.drop_last()[j].0@
            != s[i].0@ by {
            assert(s.drop_last()[j] == s[j]);
        }
        assert(!entries_map(s.drop_last()).contains_key(s[i].0@));
        assert(entries_map(s.drop_last()).insert(s.last().0@, s.last().1).remove(s[i].0@)
            =~= entries_map(s.drop_last()));
    } else {
        let t = s.remove(i);
        assert(t.drop_last() =~= s.drop_last().remove(i));
        assert(t.last() == s.last());
        assert(entries_unique(s.drop_last())) by {
            assert forall|a: int, b: int|
                0 <= a < b < s.drop_last().len() implies s.drop_last()[a].0@
                != s.drop_last()[b].0@ by {
                assert(s.drop_last()[a] == s[a]);
                assert(s.drop_last()[b] == s[b]);
            }
        }
        assert(s.drop_last()[i] == s[i]);
        lemma_entries_map_remove(s.drop_last(), i);
        assert(s.last().0@ != s[i].0@);
        assert(entries_map(t) == entries_map(s.drop_last().remove(i)).insert(
            s.last().0@,
            s.last().1,
        ));
        assert(entries_map(s.drop_last()).remove(s[i].0@).insert(s.last().0@, s.last().1)
            =~= entries_map(s.drop_last()).insert(s.last().0@, s.last().1).remove(s[i].0@));
    }
}

/// Appending a fresh entry inserts its key.
proof fn lemma_entries_map_push(s: Seq<(Vec<u8>, u64)>, e: (Vec<u8>, u64))
    ensures
        entries_map(s.push(e)) == entries_map(s).insert(e.0@, e.1),
{
    assert(s.push(e).drop_last() =~= s);
    assert(s.push(e).last() == e);
}

/// The server's token table: each pending secret token, with the
/// client that submitted it.
pub struct MatchTable {
    entries: Vec<(Vec<u8>, u64)>,
}

impl View for MatchTable {
    type V = Map<Seq<u8>, u64>;

    closed spec fn view(&self) -> Map<Seq<u8>, u64> {
        entries_map(self.entries@)
    }
}

impl MatchTable {
    /// No two entries share a token.
    pub closed spec fn wf(&self) -> bool {
        entries_unique(self.entries@)
    }

    /// The empty table.
    pub fn new() -> (r: Self)
        ensures
            r.wf(),
            r@ == Map::<Seq<u8>, u64>::empty(),
    {
        MatchTable { entries: Vec::new() }
    }

    /// Submission of a token by a client: if the token is pending, the
    /// entry leaves the table and the first submitter comes back — a
    /// match; otherwise the token is now pending for this client.
    pub fn submit(&mut self, token: Vec<u8>, client: u64) -> (r: Option<u64>)
        requires
            old(self).wf(),
        ensures
            final(self).wf(),
            old(self)@.contains_key(token@) ==> r == Some(old(self)@[token@]) && final(self)@
                == old(self)@.remove(token@),
            !old(self)@.contains_key(token@) ==> r is None && final(self)@ == old(self)@.insert(
                token@,
                client,
            ),
            final(self)@ == table_after(old(self)@, token@, client),
            r == submit_outcome(old(self)@, token@, client),
    {
        let ghost s0 = self.entries@;
        let n = self.entries.len();
        let mut i: usize = 0;
        while i < n
            invariant
                n == self.entries@.len(),
                i <= n,
                self.entries@ == s0,
                old(self).entries@ == s0,
                entries_unique(s0),
                forall|j: int| 0 <= j < i ==> s0[j].0@ != token@,
            decreases n - i,
        {
            if bytes_eq(self.entries[i].0.as_slice(), token.as_slice()) {
                proof {
                    assert(s0[i as int].0@ == token@);
                    lemma_entries_map_index(s0, i as int);
                    lemma_entries_map_remove(s0, i as int);
                    let t = s0.remove(i as int);
                    assert forall|a: int, b: int| 0 <= a < b < t.len() implies t[a].0@
                        != t[b].0@ by {
                        assert(t[a] == if a < i { s0[a] } else { s0[a + 1] });
                        assert(t[b] == if b < i { s0[b] } else { s0[b + 1] });
                    }
                    assert(entries_unique(t));
                }
                let (_, owner) = self.entries.remove(i);
                return Some(owner);
            }
            i = i + 1;
        }
        proof {
            lemma_entries_map_domain(s0, token@);
            lemma_entries_map_push(s0, (token, client));
            assert(forall|j: int| 0 <= j < s0.len() ==> s0[j].0@ != token@);
        }
        self.entries.push((token, client));
        proof {
            assert(entries_unique(self.entries@)) by {
                assert forall|a: int, b: int|
                    0 <= a < b < self.entries@.len() implies self.entries@[a].0@
                    != self.entries@[b].0@ by {
                    if b < self.entries@.len() - 1 {
                        assert(self.entries@[a] == s0[a] && self.entries@[b] == s0[b]);
                    } else {
                        assert(self.entries@[a] == s0[a]);
                    }
                }
            }
        }
        None
    }

    /// Whether a token is pending.
    pub fn contains(&self, token: &[u8]) -> (r: bool)
        requires
            self.wf(),
        ensures
            r == self@.contains_key(token@),
    {
        let n = self.entries.len();
        let mut i: usize = 0;
        while i < n
            invariant
                n == self.entries@.len(),
                i <= n,
                self.wf(),
                forall|j: int| 0 <= j < i ==> self.entries@[j].0@ != token@,
            decreases n - i,
        {
            if bytes_eq(self.entries[i].0.as_slice(), token) {
                proof {
                    lemma_entries_map_index(self.entries@, i as int);
                }
                return true;
            }
            i = i + 1;
        }
        proof {
            lemma_entries_map_domain(self.entries@, token@);
        }
        false
    }
}

/// A match involving two clients arises only from byte-identical
/// tokens: submitting a fresh token leaves a pending entry and reports
/// no match; a second submission of the same token reports the first
/// submitter and clears the entry, while any different token only
/// becomes pending itself.
pub proof fn lemma_match_pairing(m: Map<Seq<u8>, u64>, tok: Seq<u8>, tok2: Seq<u8>, a: u64)
    requires
        !m.contains_key(tok),
        tok2 != tok,
    ensures
        submit_outcome(m, tok, a) is None,
        submit_outcome(table_after(m, tok, a), tok, a) == Some(a),
        !table_after(table_after(m, tok, a), tok, a).contains_key(tok),
        !m.contains_key(tok2) ==> submit_outcome(table_after(m, tok, a), tok2, a) is None,
{
}

/// The table after a submission, at the specification level.
pub open spec fn table_after(m: Map<Seq<u8>, u64>, tok: Seq<u8>, client: u64) -> Map<Seq<u8>, u64> {
    if m.contains_key(tok) {
        m.remove(tok)
    } else {
        m.insert(tok, client)
    }
}

/// What a submission reports, at the specification level: the first
/// submitter of the token where one is pending, and nothing otherwise.
pub open spec fn submit_outcome(m: Map<Seq<u8>, u64>, tok: Seq<u8>, client: u64) -> Option<u64> {
    if m.contains_key(tok) {
        Some(m[tok])
    } else {
        None
    }
}

} // verus!
