//! Reasons why a datagram cannot be read as a packet.

use vstd::prelude::*;

verus! {

/// Why a byte sequence was refused as a packet.
#[derive(Clone, Copy, PartialEq, Eq, Structural, Debug)]
pub enum PacketParsingError {
    /// The input is shorter than a header.
    TooSmallPacket,
    /// The input is longer than a datagram can be; holds the input's length.
    TooBigPacket(usize),
    /// The packet-type byte names no packet type; holds that byte.
    UnknownPType(u8),
}

} // verus!
