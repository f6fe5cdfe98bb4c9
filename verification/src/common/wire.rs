//! What the library needs to know of the wire: how large a datagram can be,
//! and what a failed decode reports.

use vstd::prelude::*;

verus! {

/// The size of the buffer a datagram is received into.
pub const MAX_DATAGRAM_SIZE: usize = 1024;

/// Why a datagram could not be turned into a message.
#[derive(Debug, PartialEq, Eq)]
pub struct DecodeError {
    /// The number of bytes in the datagram.
    pub length: usize,
    /// What the decoder said.
    pub cause: String,
}

} // verus!
