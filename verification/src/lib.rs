//! Coordination core for a small network of mint nodes that discover each
//! other, detect a quorum, and drive a distributed key generation (DKG)
//! session to completion.
//!
//! The crate verifies the coordination logic itself: the peer registry, the
//! wire codec for the two network-facing message types, and the state machine
//! that takes a node from `Absent` through `Initiated` to `Finalized`.
//! The DKG engine and the transport are outside collaborators, reached
//! through a small set of trusted declarations.

pub mod codec;
pub mod engine;
pub mod identity;
pub mod message;
pub mod node;
pub mod protocol;
pub mod registry;
