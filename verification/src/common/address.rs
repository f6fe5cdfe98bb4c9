//! Transport addresses as plain values.

use vstd::prelude::*;

verus! {

/// The address a datagram came from, or goes to.
///
/// It holds what a socket address holds, field for field, so that two
/// addresses are equal exactly when the socket addresses are.
#[derive(Clone, Copy, Debug, PartialEq, Eq, Structural)]
#[allow(inconsistent_fields)]
pub enum Address {
    V4 { ip: u32, port: u16 },
    V6 { ip: u128, port: u16, flowinfo: u32, scope_id: u32 },
}

} // verus!
