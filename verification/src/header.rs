//! Message header codec.
//!
//! The first 4 bytes of a decrypted packet form an unsigned 32-bit
//! little-endian value. Bit 31 signals the structured (schema-driven)
//! encoding; the low 31 bits are the message-kind identifier, looked up
//! in a static catalog, with a fallback for identifiers the catalog does
//! not know.

use vstd::prelude::*;
use vstd::slice::slice_index_get;

verus! {

/// Failure of `decode` or `is_structured`.
#[derive(Clone, Copy, Debug, PartialEq, Eq, Structural)]
pub enum DecodeError {
    /// The input holds fewer than the 4 bytes of a header.
    TooShort,
}

/// A protocol message kind: the catalog of identifiers this client names,
/// with a fallback that carries any other 31-bit identifier.
#[derive(Clone, Copy, Debug, PartialEq, Eq, Structural)]
pub enum MessageKind {
    Invalid,
    Multi,
    ClientHeartBeat,
    ClientLogOnResponse,
    ClientLoggedOff,
    ClientChatEnter,
    ChannelEncryptRequest,
    ChannelEncryptResponse,
    ChannelEncryptResult,
    Unrecognized(u32),
}

/// A decoded packet classification.
#[derive(Clone, Copy, Debug, PartialEq, Eq, Structural)]
pub struct MessageHeader {
    pub kind: MessageKind,
    pub is_structured: bool,
}

/// The catalog: which kind a 31-bit identifier names.
pub open spec fn kind_of_id(id: u32) -> MessageKind {
    if id == 0 {
        MessageKind::Invalid
    } else if id == 1 {
        MessageKind::Multi
    } else if id == 703 {
        MessageKind::ClientHeartBeat
    } else if id == 751 {
        MessageKind::ClientLogOnResponse
    } else if id == 757 {
        MessageKind::ClientLoggedOff
    } else if id == 807 {
        MessageKind::ClientChatEnter
    } else if id == 1303 {
        MessageKind::ChannelEncryptRequest
    } else if id == 1304 {
        MessageKind::ChannelEncryptResponse
    } else if id == 1305 {
        MessageKind::ChannelEncryptResult
    } else {
        MessageKind::Unrecognized(id)
    }
}

/// The header value: the first 4 bytes as an unsigned 32-bit little-endian
/// integer.
pub open spec fn header_value(raw: Seq<u8>) -> u32
    recommends
        raw.len() >= 4,
{
    (raw[0] as u32) | ((raw[1] as u32) << 8) | ((raw[2] as u32) << 16) | ((raw[3] as u32) << 24)
}

/// Bit 31 of the header value: set when the body uses the structured encoding.
pub open spec fn structured_flag(v: u32) -> bool {
    v & 0x8000_0000 != 0
}

/// The low 31 bits of the header value: the message-kind identifier.
pub open spec fn kind_id(v: u32) -> u32 {
    v & 0x7fff_ffff
}

/// What `decode` returns on an input of at least 4 bytes.
pub open spec fn decode_spec(raw: Seq<u8>) -> MessageHeader
    recommends
        raw.len() >= 4,
{
    MessageHeader {
        kind: kind_of_id(kind_id(header_value(raw))),
        is_structured: structured_flag(header_value(raw)),
    }
}

/// Looks an identifier up in the catalog. An identifier the catalog does
/// not know is a valid, forward-compatible outcome, never an error.
pub fn kind_from_id(id: u32) -> (k: MessageKind)
    ensures
        k == kind_of_id(id),
{
    match id {
        0 => MessageKind::Invalid,
        1 => MessageKind::Multi,
        703 => MessageKind::ClientHeartBeat,
        751 => MessageKind::ClientLogOnResponse,
        757 => MessageKind::ClientLoggedOff,
        807 => MessageKind::ClientChatEnter,
        1303 => MessageKind::ChannelEncryptRequest,
        1304 => MessageKind::ChannelEncryptResponse,
        1305 => MessageKind::ChannelEncryptResult,
        _ => MessageKind::Unrecognized(id),
    }
}

/// Reads the first 4 bytes of `raw` as the little-endian header value.
fn read_header_value(raw: &[u8]) -> (v: u32)
    requires
        raw@.len() >= 4,
    ensures
        v == header_value(raw@),
{
    let b0 = *slice_index_get(raw, 0) as u32;
    let b1 = *slice_index_get(raw, 1) as u32;
    let b2 = *slice_index_get(raw, 2) as u32;
    let b3 = *slice_index_get(raw, 3) as u32;
    b0 | (b1 << 8) | (b2 << 16) | (b3 << 24)
}

/// Classifies a raw packet by its 4-byte header: the message kind (low
/// 31 bits, via the catalog) and the structured-encoding flag (bit 31).
/// Deterministic, with no side effects; fails exactly on inputs shorter
/// than 4 bytes.
pub fn decode(raw: &[u8]) -> (r: Result<MessageHeader, DecodeError>)
    ensures
        raw@.len() < 4 ==> r == Err::<MessageHeader, DecodeError>(DecodeError::TooShort),
        raw@.len() >= 4 ==> r == Ok::<MessageHeader, DecodeError>(decode_spec(raw@)),
{
    if raw.len() < 4 {
        return Err(DecodeError::TooShort);
    }
    let v = read_header_value(raw);
    let kind = kind_from_id(v & 0x7fff_ffff);
    Ok(MessageHeader { kind, is_structured: v & 0x8000_0000 != 0 })
}

/// Reads only the structured-encoding flag of the header, without the
/// catalog lookup; same length precondition as `decode`.
pub fn is_structured(raw: &[u8]) -> (r: Result<bool, DecodeError>)
    ensures
        raw@.len() < 4 ==> r == Err::<bool, DecodeError>(DecodeError::TooShort),
        raw@.len() >= 4 ==> r == Ok::<bool, DecodeError>(structured_flag(header_value(raw@))),
{
    if raw.len() < 4 {
        return Err(DecodeError::TooShort);
    }
    let b3 = *slice_index_get(raw, 3);
    proof {
        let b0 = raw@[0];
        let b1 = raw@[1];
        let b2 = raw@[2];
        assert((((b0 as u32) | ((b1 as u32) << 8) | ((b2 as u32) << 16) | ((b3 as u32) << 24))
            & 0x8000_0000 != 0) == (b3 & 0x80 != 0)) by (bit_vector);
    }
    Ok(b3 & 0x80 != 0)
}

} // verus!
