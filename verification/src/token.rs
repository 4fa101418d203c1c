//! Secret-token derivation.
//!
//! When a peer link comes up, each side submits two tokens to the
//! server: the two names concatenated in both orders, each followed by
//! the lowercase hexadecimal rendering of the link's session key.  Two
//! clients that name each other therefore produce byte-identical
//! tokens on their shared link, and `lemma_token_binding` shows that a
//! token pins both the names and the key, so a token cannot be
//! replayed against a different link.

use vstd::prelude::*;

verus! {

/// The lowercase hexadecimal digit of a value below 16.
pub open spec fn hex_digit(v: u8) -> u8
    recommends
        v < 16,
{
    if v < 10 {
        (0x30 + v) as u8
    } else {
        (0x61 + v - 10) as u8
    }
}

/// The lowercase hexadecimal rendering of bytes, two digits per byte,
/// high digit first, no separators.
pub open spec fn hex_of(bytes: Seq<u8>) -> Seq<u8> {
    Seq::new(
        2 * bytes.len(),
        |i: int|
            if i % 2 == 0 {
                hex_digit(bytes[i / 2] / 16)
            } else {
                hex_digit(bytes[i / 2] % 16)
            },
    )
}

/// The secret token for a concatenated name pair over a session key.
pub open spec fn token_of(name_concat: Seq<u8>, key: Seq<u8>) -> Seq<u8> {
    name_concat + hex_of(key)
}

/// The lowercase hexadecimal digit of a value below 16.
pub fn hex_digit_byte(v: u8) -> (r: u8)
    requires
        v < 16,
    ensures
        r == hex_digit(v),
{
    if v < 10 {
        0x30 + v
    } else {
        0x61 + v - 10
    }
}

/// Renders bytes as lowercase hexadecimal, two digits per byte.
pub fn render_hex(bytes: &[u8]) -> (r: Vec<u8>)
    requires
        bytes@.len() * 2 <= usize::MAX,
    ensures
        r@ == hex_of(bytes@),
{
    let mut out: Vec<u8> = Vec::new();
    let mut i: usize = 0;
    while i < bytes.len()
        invariant
            i <= bytes@.len(),
            bytes@.len() * 2 <= usize::MAX,
            out@.len() == 2 * i,
            forall|j: int| 0 <= j < 2 * i ==> out@[j] == hex_of(bytes@)[j],
        decreases bytes@.len() - i,
    {
        let b: u8 = bytes[i];
        out.push(hex_digit_byte(b / 16));
        out.push(hex_digit_byte(b % 16));
        i = i + 1;
    }
    proof {
        assert(out@ =~= hex_of(bytes@));
    }
    out
}

/// Appends all bytes of a slice to a vector.
pub fn append_bytes(out: &mut Vec<u8>, s: &[u8])
    requires
        old(out)@.len() + s@.len() <= usize::MAX,
    ensures
        final(out)@ == old(out)@ + s@,
{
    let mut i: usize = 0;
    while i < s.len()
        invariant
            i <= s@.len(),
            out@.len() == old(out)@.len() + i,
            out@ == old(out)@ + s@.subrange(0, i as int),
        decreases s@.len() - i,
    {
        let ghost prev = out@;
        out.push(s[i]);
        proof {
            assert(out@ =~= old(out)@ + s@.subrange(0, i + 1));
        }
        i = i + 1;
    }
    proof {
        assert(out@ =~= old(out)@ + s@);
    }
}

/// Derives the two secret tokens a client submits when a peer link
/// comes up: own-name‖crush-name and crush-name‖own-name, each bound
/// to the link's session key by its hexadecimal rendering.
pub fn derive_secret_tokens(user: &[u8], crush: &[u8], session_key: &[u8; 32]) -> (r: (
    Vec<u8>,
    Vec<u8>,
))
    requires
        user@.len() + crush@.len() + 64 <= usize::MAX,
    ensures
        r.0@ == token_of(user@ + crush@, session_key@),
        r.1@ == token_of(crush@ + user@, session_key@),
{
    let hex = render_hex(session_key.as_slice());
    let mut first: Vec<u8> = Vec::new();
    append_bytes(&mut first, user);
    append_bytes(&mut first, crush);
    append_bytes(&mut first, hex.as_slice());
    let mut second: Vec<u8> = Vec::new();
    append_bytes(&mut second, crush);
    append_bytes(&mut second, user);
    append_bytes(&mut second, hex.as_slice());
    proof {
        assert(first@ =~= token_of(user@ + crush@, session_key@));
        assert(second@ =~= token_of(crush@ + user@, session_key@));
    }
    (first, second)
}

/// Equal hexadecimal renderings come only from equal bytes.
pub proof fn lemma_hex_of_injective(k1: Seq<u8>, k2: Seq<u8>)
    requires
        hex_of(k1) == hex_of(k2),
    ensures
        k1 == k2,
{
    assert(hex_of(k1).len() == 2 * k1.len());
    assert(hex_of(k2).len() == 2 * k2.len());
    assert(k1.len() == k2.len());
    assert forall|i: int| 0 <= i < k1.len() implies k1[i] == k2[i] by {
        assert(hex_of(k1)[2 * i] == hex_digit(k1[i] / 16));
        assert(hex_of(k2)[2 * i] == hex_digit(k2[i] / 16));
        assert(hex_of(k1)[2 * i + 1] == hex_digit(k1[i] % 16));
        assert(hex_of(k2)[2 * i + 1] == hex_digit(k2[i] % 16));
        assert(hex_digit(k1[i] / 16) == hex_digit(k2[i] / 16));
        assert(hex_digit(k1[i] % 16) == hex_digit(k2[i] % 16));
        assert(k1[i] / 16 == k2[i] / 16 && k1[i] % 16 == k2[i] % 16);
        assert(k1[i] == 16 * (k1[i] / 16) + k1[i] % 16);
        assert(k2[i] == 16 * (k2[i] / 16) + k2[i] % 16);
    }
    assert(k1 =~= k2);
}

/// A token pins both its name part and its session key: equal tokens
/// whose name parts have equal length carry the same names and the
/// same key, so a token observed on one peer link cannot stand for a
/// different link's key.
pub proof fn lemma_token_binding(n1: Seq<u8>, k1: Seq<u8>, n2: Seq<u8>, k2: Seq<u8>)
    requires
        token_of(n1, k1) == token_of(n2, k2),
        n1.len() == n2.len(),
    ensures
        n1 == n2,
        k1 == k2,
{
    assert(n1 =~= token_of(n1, k1).subrange(0, n1.len() as int));
    assert(n2 =~= token_of(n2, k2).subrange(0, n2.len() as int));
    assert(hex_of(k1) =~= token_of(n1, k1).subrange(
        n1.len() as int,
        token_of(n1, k1).len() as int,
    ));
    assert(hex_of(k2) =~= token_of(n2, k2).subrange(
        n2.len() as int,
        token_of(n2, k2).len() as int,
    ));
    lemma_hex_of_injective(k1, k2);
}

} // verus!
