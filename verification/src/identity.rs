//! Plain-value models of the two kinds of name the coordination layer
//! routes by: a node's fixed-size identity and a network address.

use vstd::prelude::*;

verus! {

/// A participant's identity: a fixed-size (256-bit), uniformly distributed
/// identifier, immutable once generated, held as four little-endian words.
/// Equality is plain field equality.
#[derive(Clone, Copy, PartialEq, Eq, Structural, Debug)]
pub struct NodeId {
    pub w0: u64,
    pub w1: u64,
    pub w2: u64,
    pub w3: u64,
}

/// An externally reachable network address: an IP address held as one
/// 128-bit word (an IPv4 address in its standard IPv4-mapped IPv6 form,
/// so both families fit one canonical representation) and a port.
/// Equality is plain field equality.
#[derive(Clone, Copy, PartialEq, Eq, Structural, Debug)]
pub struct Addr {
    pub ip: u128,
    pub port: u16,
}

/// Pairwise-distinct identities.
pub open spec fn distinct(s: Seq<NodeId>) -> bool {
    forall|i: int, j: int| 0 <= i < j < s.len() ==> s[i] != s[j]
}

} // verus!
