//! The UCI wire frame: a 4-byte header whose fields give the payload length.
use vstd::prelude::*;

verus! {

/// Size of the common UCI header, in bytes.
pub const UWB_HEADER_SIZE: usize = 4;

/// Bits of header byte 0 that hold the message type.
pub const MESSAGE_TYPE_MASK: u8 = 0b1110_0000;

/// Message type of a data frame.
pub const DATA_MESSAGE_TYPE: u8 = 0b000;

/// The message type carried by the top three bits of header byte 0.
pub open spec fn message_type_of(common_header: u8) -> u8 {
    (common_header & MESSAGE_TYPE_MASK) >> 5u8
}

/// The payload length that a header declares: a little-endian 16-bit value at
/// bytes 2..4 for a data frame, the single byte 3 for any other frame.
pub open spec fn declared_payload_len(header: Seq<u8>) -> nat
    recommends
        header.len() >= 4,
{
    if message_type_of(header[0]) == DATA_MESSAGE_TYPE {
        header[2] as nat + 256 * (header[3] as nat)
    } else {
        header[3] as nat
    }
}

/// Length of the whole frame (header and payload) that a header announces.
pub open spec fn declared_frame_len(header: Seq<u8>) -> nat
    recommends
        header.len() >= 4,
{
    4 + declared_payload_len(header)
}

/// `f` is one complete frame: a header followed by exactly the payload it declares.
pub open spec fn is_frame(f: Seq<u8>) -> bool {
    f.len() >= 4 && f.len() == declared_frame_len(f)
}

/// The message type of a frame whose first header byte is `common_header`.
pub fn message_type(common_header: u8) -> (r: u8)
    ensures
        r == message_type_of(common_header),
        r < 8,
{
    let r = (common_header & MESSAGE_TYPE_MASK) >> 5u8;
    assert(((common_header & 0b1110_0000u8) >> 5u8) < 8u8) by (bit_vector);
    r
}

/// The payload length declared by the first four bytes of `header`.
pub fn payload_length(header: &[u8]) -> (r: usize)
    requires
        header@.len() >= UWB_HEADER_SIZE,
    ensures
        r == declared_payload_len(header@),
        r <= 0xffff,
{
    if message_type(header[0]) == DATA_MESSAGE_TYPE {
        header[2] as usize + 256 * (header[3] as usize)
    } else {
        header[3] as usize
    }
}

/// The length of the whole frame that the first four bytes of `header` announce.
pub fn frame_length(header: &[u8]) -> (r: usize)
    requires
        header@.len() >= UWB_HEADER_SIZE,
    ensures
        r == declared_frame_len(header@),
        UWB_HEADER_SIZE <= r <= UWB_HEADER_SIZE + 0xffff,
{
    payload_length(header) + UWB_HEADER_SIZE
}

} // verus!
