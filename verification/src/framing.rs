//! Length-prefixed, authenticated record framing.
//!
//! One record travels as two sealed blobs: a 37-byte header blob whose
//! plaintext is the nine header bytes, then a body blob of 28 bytes
//! plus the content length.  Encoding and decoding are verified against
//! `is_wire_encoding`; together their contracts state the round trip:
//! decoding any freshly encoded record under the same key yields the
//! record back.

use vstd::prelude::*;
use crate::crypto::{encrypt_aes, read_and_decrypt_aes, is_sealed_blob};
use crate::message::{Message, MessageHeader, MessageType, header_bytes, u64_of_be, u64_be,
    lemma_u64_be_inverse, type_code};

verus! {

/// The greatest content length the framing accepts, a machine limit of
/// the sealing primitive.
pub open spec fn max_content_len() -> int {
    0x7fff_ffff
}

/// The whole wire form of one record under a key: a sealed header blob
/// of 37 bytes whose plaintext is the header bytes for the record's
/// type and content length, then a sealed body blob whose plaintext is
/// the content.
pub open spec fn is_wire_encoding(w: Seq<u8>, key: Seq<u8>, t: MessageType, body: Seq<u8>) -> bool {
    &&& w.len() == 65 + body.len()
    &&& is_sealed_blob(w.subrange(0, 37), key, header_bytes(t, body.len()))
    &&& is_sealed_blob(w.subrange(37, w.len() as int), key, body)
}

/// Encodes one record under a key: seals the nine header bytes, then
/// the content, each under a fresh IV, and returns the concatenation.
/// The tag buffer is left holding the body blob's tag.
pub fn encode_record(message: &Message, key: &[u8; 32], tag: &mut [u8; 16]) -> (r: Vec<u8>)
    requires
        message.content@.len() <= max_content_len(),
    ensures
        r@.len() == 65 + message.content@.len(),
        is_wire_encoding(r@, key@, message.message_type, message.content@),
{
    let header = MessageHeader::new(message.content.as_slice(), message.message_type);
    let header_plain: [u8; 9] = header.as_bytes();
    let mut out = encrypt_aes(header_plain.as_slice(), key, tag);
    let mut body_blob = encrypt_aes(message.content.as_slice(), key, tag);
    let ghost head_view = out@;
    let ghost body_view = body_blob@;
    out.append(&mut body_blob);
    proof {
        assert(out@.subrange(0, 37) =~= head_view);
        assert(out@.subrange(37, out@.len() as int) =~= body_view);
    }
    out
}

/// Opens the 37-byte sealed header blob of a record and parses it.
/// Returns `None` on an authentication failure, a plaintext that is
/// not nine bytes, a content length above the framing limit, or an
/// unknown type code; each is fatal to the link.
pub fn decode_header(blob: &[u8], key: &[u8; 32]) -> (r: Option<MessageHeader>)
    requires
        blob@.len() == 37,
    ensures
        r is Some ==> r->0.message_len <= max_content_len() && is_sealed_blob(
            blob@,
            key@,
            header_bytes(r->0.message_type, r->0.message_len as nat),
        ),
        forall|t: MessageType, l: nat|
            l <= max_content_len() && is_sealed_blob(blob@, key@, #[trigger] header_bytes(t, l))
                ==> r is Some && r->0.message_type == t && r->0.message_len == l,
{
    let plain = match read_and_decrypt_aes(blob, key) {
        Some(p) => p,
        None => {
            return None;
        },
    };
    if plain.len() != 9 {
        proof {
            assert forall|t: MessageType, l: nat|
                l <= max_content_len() && is_sealed_blob(blob@, key@, #[trigger] header_bytes(
                    t,
                    l,
                )) implies false by {
                assert(plain@ == header_bytes(t, l));
            }
        }
        return None;
    }
    let n: u64 = ((plain[0] as u64) << 56) | ((plain[1] as u64) << 48) | ((plain[2] as u64) << 40)
        | ((plain[3] as u64) << 32) | ((plain[4] as u64) << 24) | ((plain[5] as u64) << 16) | ((
    plain[6] as u64) << 8) | (plain[7] as u64);
    proof {
        assert(plain@.subrange(0, 8)[0] == plain@[0]);
        assert(plain@.subrange(0, 8)[1] == plain@[1]);
        assert(plain@.subrange(0, 8)[2] == plain@[2]);
        assert(plain@.subrange(0, 8)[3] == plain@[3]);
        assert(plain@.subrange(0, 8)[4] == plain@[4]);
        assert(plain@.subrange(0, 8)[5] == plain@[5]);
        assert(plain@.subrange(0, 8)[6] == plain@[6]);
        assert(plain@.subrange(0, 8)[7] == plain@[7]);
        assert(n == u64_of_be(plain@.subrange(0, 8)));
    }
    if n > 0x7fff_ffff || plain[8] > 7 {
        proof {
            assert forall|t: MessageType, l: nat|
                l <= max_content_len() && is_sealed_blob(blob@, key@, #[trigger] header_bytes(
                    t,
                    l,
                )) implies false by {
                assert(plain@ == header_bytes(t, l));
                assert(u64_be(l as u64) =~= plain@.subrange(0, 8));
                crate::message::lemma_u64_be_round_trip(l as u64);
                crate::message::lemma_type_code_round_trip(t);
                assert(plain@[8] == type_code(t));
            }
        }
        return None;
    }
    let header = MessageHeader::from_bytes(plain.as_slice());
    proof {
        lemma_u64_be_inverse(plain@.subrange(0, 8));
        assert(plain@ =~= header_bytes(header.message_type, header.message_len as nat));
        assert forall|t: MessageType, l: nat|
            l <= max_content_len() && is_sealed_blob(blob@, key@, #[trigger] header_bytes(t, l))
            implies header.message_type == t && header.message_len == l by {
            assert(plain@ == header_bytes(t, l));
            assert(header_bytes(t, l)[8] == type_code(t));
            assert(u64_be(l as u64) =~= header_bytes(t, l).subrange(0, 8));
            crate::message::lemma_u64_be_round_trip(l as u64);
        }
    }
    Some(header)
}

/// Decodes one whole wire record under a key.  Exactly the blobs that
/// `encode_record` produces under the key decode, and they decode to
/// the record that was encoded; anything else yields `None`.
pub fn decode_record(wire: &[u8], key: &[u8; 32]) -> (r: Option<Message>)
    ensures
        r is Some ==> is_wire_encoding(wire@, key@, r->0.message_type, r->0.content@),
        forall|t: MessageType, body: Seq<u8>|
            body.len() <= max_content_len() && is_wire_encoding(wire@, key@, t, body) ==> r
                is Some && r->0.message_type == t && r->0.content@ == body,
{
    if wire.len() < 65 {
        return None;
    }
    let head_blob: &[u8] = vstd::slice::slice_subrange(wire, 0, 37);
    let header = match decode_header(head_blob, key) {
        Some(h) => h,
        None => {
            return None;
        },
    };
    if wire.len() - 37 != 28 + header.message_len {
        return None;
    }
    let body_blob: &[u8] = vstd::slice::slice_subrange(wire, 37, wire.len());
    let body = match read_and_decrypt_aes(body_blob, key) {
        Some(b) => b,
        None => {
            return None;
        },
    };
    let message = Message::new(body, header.message_type);
    proof {
        assert(is_wire_encoding(wire@, key@, message.message_type, message.content@));
        assert forall|t: MessageType, b: Seq<u8>|
            b.len() <= max_content_len() && is_wire_encoding(wire@, key@, t, b)
            implies message.message_type == t && message.content@ == b by {
            assert(is_sealed_blob(wire@.subrange(0, 37), key@, header_bytes(t, b.len())));
            assert(is_sealed_blob(wire@.subrange(37, wire@.len() as int), key@, b));
        }
    }
    Some(message)
}

/// Splits a message into consecutive chunks of the given size, with a
/// final chunk holding the remainder (empty when the size divides the
/// length evenly).
pub fn split_message(message: &[u8], chunk_size: usize) -> (r: Vec<Vec<u8>>)
    requires
        chunk_size > 0,
    ensures
        r@.len() == message@.len() as int / chunk_size as int + 1,
        forall|i: int|
            0 <= i < message@.len() as int / chunk_size as int ==> r@[i]@ == message@.subrange(
                i * chunk_size,
                (i + 1) * chunk_size,
            ),
        r@[r@.len() - 1]@ == message@.subrange(
            message@.len() - message@.len() as int % chunk_size as int,
            message@.len() as int,
        ),
{
    let len: usize = message.len();
    let chunks: usize = len / chunk_size;
    let mut out: Vec<Vec<u8>> = Vec::new();
    let mut i: usize = 0;
    proof {
        vstd::arithmetic::div_mod::lemma_fundamental_div_mod(len as int, chunk_size as int);
        vstd::arithmetic::div_mod::lemma_mod_bound(len as int, chunk_size as int);
    }
    while i < chunks
        invariant
            chunk_size > 0,
            chunks == len as int / chunk_size as int,
            len == message@.len(),
            chunks * chunk_size <= len,
            i <= chunks,
            out@.len() == i,
            forall|j: int|
                0 <= j < i ==> out@[j]@ == message@.subrange(j * chunk_size, (j + 1) * chunk_size),
        decreases chunks - i,
    {
        proof {
            vstd::arithmetic::mul::lemma_mul_inequality(
                i as int + 1,
                chunks as int,
                chunk_size as int,
            );
            assert((i + 1) * chunk_size == i * chunk_size + chunk_size) by (nonlinear_arith);
            vstd::arithmetic::mul::lemma_mul_is_commutative(chunks as int, chunk_size as int);
        }
        let start: usize = i * chunk_size;
        let chunk: &[u8] = vstd::slice::slice_subrange(message, start, start + chunk_size);
        out.push(vstd::slice::slice_to_vec(chunk));
        i = i + 1;
    }
    proof {
        vstd::arithmetic::mul::lemma_mul_is_commutative(chunks as int, chunk_size as int);
        assert(chunks * chunk_size == len - (len as int % chunk_size as int));
    }
    let tail_start: usize = len - len % chunk_size;
    let tail: &[u8] = vstd::slice::slice_subrange(message, tail_start, len);
    out.push(vstd::slice::slice_to_vec(tail));
    out
}

} // verus!
