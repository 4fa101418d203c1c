//! Typed records and their fixed nine-byte headers.
//!
//! A record on the wire is a type tag plus opaque content bytes.  The
//! header that precedes the content carries the content length as a
//! big-endian 64-bit integer followed by the one-byte type code.

use vstd::prelude::*;

verus! {

/// The eight record types of the protocol.
#[allow(non_camel_case_types)]
#[derive(Clone, Copy, Debug, PartialEq, Eq, Structural)]
pub enum MessageType {
    NORMAL,
    DEBUG,
    RemovePeer,
    AddPeer,
    RequestPublicKey,
    InformPublicKey,
    InformAddress,
    Secret,
}

/// The wire code of each record type.
pub open spec fn type_code(t: MessageType) -> u8 {
    match t {
        MessageType::NORMAL => 0,
        MessageType::DEBUG => 1,
        MessageType::RemovePeer => 2,
        MessageType::AddPeer => 3,
        MessageType::RequestPublicKey => 4,
        MessageType::InformPublicKey => 5,
        MessageType::InformAddress => 6,
        MessageType::Secret => 7,
    }
}

/// The record type of a wire code at most 7; unspecified above 7.
pub open spec fn type_of_code(b: u8) -> MessageType
    recommends
        b <= 7,
{
    if b == 0 {
        MessageType::NORMAL
    } else if b == 1 {
        MessageType::DEBUG
    } else if b == 2 {
        MessageType::RemovePeer
    } else if b == 3 {
        MessageType::AddPeer
    } else if b == 4 {
        MessageType::RequestPublicKey
    } else if b == 5 {
        MessageType::InformPublicKey
    } else if b == 6 {
        MessageType::InformAddress
    } else {
        MessageType::Secret
    }
}

/// Decoding a type's own code gives the type back.
pub proof fn lemma_type_code_round_trip(t: MessageType)
    ensures
        type_code(t) <= 7,
        type_of_code(type_code(t)) == t,
{
}

impl MessageType {
    /// The wire code, as a one-byte array.
    pub fn as_bytes(&self) -> (r: [u8; 1])
        ensures
            r@ == seq![type_code(*self)],
    {
        let b: [u8; 1] = [self.code()];
        assert(b@ =~= seq![type_code(*self)]);
        b
    }

    /// The wire code, as a byte.
    pub fn code(&self) -> (r: u8)
        ensures
            r == type_code(*self),
    {
        match self {
            MessageType::NORMAL => 0,
            MessageType::DEBUG => 1,
            MessageType::RemovePeer => 2,
            MessageType::AddPeer => 3,
            MessageType::RequestPublicKey => 4,
            MessageType::InformPublicKey => 5,
            MessageType::InformAddress => 6,
            MessageType::Secret => 7,
        }
    }

    /// The record type of a one-byte wire code.  Codes above 7 are a
    /// protocol violation; callers reject them before this call.
    pub fn from_bytes(bytes: [u8; 1]) -> (r: Self)
        requires
            bytes@[0] <= 7,
        ensures
            r == type_of_code(bytes@[0]),
            type_code(r) == bytes@[0],
    {
        let b: u8 = bytes[0];
        if b == 0 {
            MessageType::NORMAL
        } else if b == 1 {
            MessageType::DEBUG
        } else if b == 2 {
            MessageType::RemovePeer
        } else if b == 3 {
            MessageType::AddPeer
        } else if b == 4 {
            MessageType::RequestPublicKey
        } else if b == 5 {
            MessageType::InformPublicKey
        } else if b == 6 {
            MessageType::InformAddress
        } else {
            MessageType::Secret
        }
    }
}

/// One record: a type tag and opaque content bytes.
#[derive(Debug, Clone)]
pub struct Message {
    pub content: Vec<u8>,
    pub message_type: MessageType,
}

impl Message {
    /// Packs content and type into a record.
    pub fn new(content: Vec<u8>, message_type: MessageType) -> (r: Self)
        ensures
            r.content@ == content@,
            r.message_type == message_type,
    {
        Message { content, message_type }
    }
}

/// The big-endian eight-byte rendering of a 64-bit integer.
pub open spec fn u64_be(n: u64) -> Seq<u8> {
    seq![
        (n >> 56) as u8,
        (n >> 48) as u8,
        (n >> 40) as u8,
        (n >> 32) as u8,
        (n >> 24) as u8,
        (n >> 16) as u8,
        (n >> 8) as u8,
        n as u8,
    ]
}

/// The 64-bit integer read big-endian from eight bytes.
pub open spec fn u64_of_be(s: Seq<u8>) -> u64
    recommends
        s.len() == 8,
{
    ((s[0] as u64) << 56) | ((s[1] as u64) << 48) | ((s[2] as u64) << 40) | ((s[3] as u64) << 32)
        | ((s[4] as u64) << 24) | ((s[5] as u64) << 16) | ((s[6] as u64) << 8) | (s[7] as u64)
}

/// Reading back the big-endian rendering of an integer gives the integer.
pub proof fn lemma_u64_be_round_trip(n: u64)
    ensures
        u64_of_be(u64_be(n)) == n,
{
    assert((((n >> 56) as u8 as u64) << 56) | (((n >> 48) as u8 as u64) << 48) | (((n >> 40)
        as u8 as u64) << 40) | (((n >> 32) as u8 as u64) << 32) | (((n >> 24) as u8 as u64) << 24)
        | (((n >> 16) as u8 as u64) << 16) | (((n >> 8) as u8 as u64) << 8) | ((n as u8) as u64)
        == n) by (bit_vector);
}

/// Rendering the integer read from eight bytes gives the bytes back.
pub proof fn lemma_u64_be_inverse(s: Seq<u8>)
    requires
        s.len() == 8,
    ensures
        u64_be(u64_of_be(s)) == s,
{
    let b0 = s[0];
    let b1 = s[1];
    let b2 = s[2];
    let b3 = s[3];
    let b4 = s[4];
    let b5 = s[5];
    let b6 = s[6];
    let b7 = s[7];
    let n = ((b0 as u64) << 56) | ((b1 as u64) << 48) | ((b2 as u64) << 40) | ((b3 as u64) << 32)
        | ((b4 as u64) << 24) | ((b5 as u64) << 16) | ((b6 as u64) << 8) | (b7 as u64);
    assert((n >> 56) as u8 == b0 && (n >> 48) as u8 == b1 && (n >> 40) as u8 == b2 && (n >> 32)
        as u8 == b3 && (n >> 24) as u8 == b4 && (n >> 16) as u8 == b5 && (n >> 8) as u8 == b6
        && n as u8 == b7) by (bit_vector)
        requires
            n == ((b0 as u64) << 56) | ((b1 as u64) << 48) | ((b2 as u64) << 40) | ((b3 as u64)
                << 32) | ((b4 as u64) << 24) | ((b5 as u64) << 16) | ((b6 as u64) << 8) | (b7
                as u64),
    ;
    assert(u64_be(u64_of_be(s)) =~= s);
}

/// The nine header bytes of a record: big-endian content length, then
/// the type code.
pub open spec fn header_bytes(t: MessageType, len: nat) -> Seq<u8>
    recommends
        len <= u64::MAX,
{
    u64_be(len as u64) + seq![type_code(t)]
}

/// The plaintext header of one record: the content length and the type.
#[derive(Debug, Clone, Copy)]
pub struct MessageHeader {
    pub message_len: usize,
    pub message_type: MessageType,
}

impl MessageHeader {
    /// Header for the given content bytes.
    pub fn new(message: &[u8], message_type: MessageType) -> (r: MessageHeader)
        ensures
            r.message_len == message@.len(),
            r.message_type == message_type,
    {
        MessageHeader { message_len: message.len(), message_type }
    }

    /// The nine wire bytes of the header.
    pub fn as_bytes(&self) -> (r: [u8; 9])
        ensures
            r@ == header_bytes(self.message_type, self.message_len as nat),
    {
        let n: u64 = self.message_len as u64;
        let bytes: [u8; 9] = [
            (n >> 56) as u8,
            (n >> 48) as u8,
            (n >> 40) as u8,
            (n >> 32) as u8,
            (n >> 24) as u8,
            (n >> 16) as u8,
            (n >> 8) as u8,
            n as u8,
            self.message_type.code(),
        ];
        assert(bytes@ =~= header_bytes(self.message_type, self.message_len as nat));
        bytes
    }

    /// The header parsed from nine wire bytes.  The type byte must be a
    /// known code and the length must fit this machine; callers check
    /// both before this call.
    pub fn from_bytes(bytes: &[u8]) -> (r: Self)
        requires
            bytes@.len() == 9,
            bytes@[8] <= 7,
            u64_of_be(bytes@.subrange(0, 8)) <= usize::MAX,
        ensures
            r.message_len == u64_of_be(bytes@.subrange(0, 8)),
            r.message_type == type_of_code(bytes@[8]),
    {
        let n: u64 = ((bytes[0] as u64) << 56) | ((bytes[1] as u64) << 48) | ((bytes[2] as u64)
            << 40) | ((bytes[3] as u64) << 32) | ((bytes[4] as u64) << 24) | ((bytes[5] as u64)
            << 16) | ((bytes[6] as u64) << 8) | (bytes[7] as u64);
        assert(n == u64_of_be(bytes@.subrange(0, 8))) by {
            assert(bytes@.subrange(0, 8)[0] == bytes@[0]);
            assert(bytes@.subrange(0, 8)[1] == bytes@[1]);
            assert(bytes@.subrange(0, 8)[2] == bytes@[2]);
            assert(bytes@.subrange(0, 8)[3] == bytes@[3]);
            assert(bytes@.subrange(0, 8)[4] == bytes@[4]);
            assert(bytes@.subrange(0, 8)[5] == bytes@[5]);
            assert(bytes@.subrange(0, 8)[6] == bytes@[6]);
            assert(bytes@.subrange(0, 8)[7] == bytes@[7]);
        }
        let message_type = MessageType::from_bytes([bytes[8]]);
        MessageHeader { message_len: n as usize, message_type }
    }
}

} // verus!
