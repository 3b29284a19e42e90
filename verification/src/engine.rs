//! Trusted boundary to the outside collaborators the coordinator drives:
//! the `bls_dkg` key-generation engine (with its `xor_name` identities and
//! `bincode`-serialized messages) and the process's thread-local random
//! number generator.
//!
//! Everything here is declared, not verified: each item's contract states
//! only what the named outside function's source plainly shows.

use crate::identity::{distinct, NodeId};
use core::convert::TryInto;
use std::collections::BTreeSet;
use vstd::prelude::*;

verus! {

#[verifier::external_type_specification]
#[verifier::external_body]
pub struct ExKeyGen(bls_dkg::KeyGen);

#[verifier::external_type_specification]
#[verifier::external_body]
pub struct ExMessage(bls_dkg::message::Message);

#[verifier::external_type_specification]
#[verifier::external_body]
pub struct ExDkgError(bls_dkg::key_gen::Error);

#[verifier::external_type_specification]
#[verifier::external_body]
pub struct ExOutcome(bls_dkg::key_gen::outcome::Outcome);

#[verifier::external_type_specification]
#[verifier::external_body]
pub struct ExThreadRng(rand::rngs::ThreadRng);

#[verifier::external_type_specification]
#[verifier::external_body]
pub struct ExXorName(xor_name::XorName);

/// Relies on `xor_name::XorName` being a public wrapper of 32 bytes: packs
/// the identity's four words, little-endian, into the engine's name type.
/// Inverse of `node_id_of`; used only inside this boundary.
#[verifier::external_body]
fn xor_name_of(id: &NodeId) -> xor_name::XorName {
    let mut b = [0u8; 32];
    b[0..8].copy_from_slice(&id.w0.to_le_bytes());
    b[8..16].copy_from_slice(&id.w1.to_le_bytes());
    b[16..24].copy_from_slice(&id.w2.to_le_bytes());
    b[24..32].copy_from_slice(&id.w3.to_le_bytes());
    xor_name::XorName(b)
}

/// Relies on `xor_name::XorName` being a public wrapper of 32 bytes: reads
/// the identity's four words back out, little-endian. Inverse of
/// `xor_name_of`; used only inside this boundary.
#[verifier::external_body]
fn node_id_of(x: &xor_name::XorName) -> NodeId {
    NodeId {
        w0: u64::from_le_bytes(x.0[0..8].try_into().unwrap()),
        w1: u64::from_le_bytes(x.0[8..16].try_into().unwrap()),
        w2: u64::from_le_bytes(x.0[16..24].try_into().unwrap()),
        w3: u64::from_le_bytes(x.0[24..32].try_into().unwrap()),
    }
}

/// Relies on `bls_dkg::KeyGen::initialize`: it returns `Ok` exactly when
/// the initiating identity is among the participants and the threshold is
/// at most the participant count, and on success the initial message is
/// addressed once to each participant — every batch target is a
/// participant and every participant appears as a target. Identities
/// cross the boundary through the byte-for-byte `xor_name` packing above,
/// which is injective.
#[verifier::external_body]
pub(crate) fn keygen_initialize(our_id: &NodeId, threshold: usize, ids: &Vec<NodeId>) -> (r: Result<
    (bls_dkg::KeyGen, Vec<(NodeId, bls_dkg::message::Message)>),
    bls_dkg::key_gen::Error,
>)
    requires
        distinct(ids@),
    ensures
        r is Ok <==> (ids@.contains(*our_id) && threshold <= ids@.len()),
        r matches Ok(p) ==> p.1@.len() == ids@.len() && (forall|i: int|
            0 <= i < p.1@.len() ==> ids@.contains(#[trigger] p.1@[i].0)),
        r matches Ok(p) ==> forall|x: NodeId| #[trigger]
            ids@.contains(x) ==> exists|i: int| 0 <= i < p.1@.len() && (#[trigger] p.1@[i].0)
                == x,
{
    let names: BTreeSet<xor_name::XorName> = ids.iter().map(xor_name_of).collect();
    let (keygen, outbound) = bls_dkg::KeyGen::initialize(xor_name_of(our_id), threshold, names)?;
    let outbound = outbound.into_iter().map(|(x, m)| (node_id_of(&x), m)).collect();
    Ok((keygen, outbound))
}

/// Relies on `bls_dkg::KeyGen::handle_message`: feeds one inbound engine
/// message to the engine. The outbound batch depends on the engine's
/// internal state and on randomness, so nothing is promised of it; the
/// caller routes whatever came back.
#[verifier::external_body]
pub(crate) fn keygen_handle_message(
    engine: &mut bls_dkg::KeyGen,
    rng: &mut rand::rngs::ThreadRng,
    msg: bls_dkg::message::Message,
) -> Result<Vec<(NodeId, bls_dkg::message::Message)>, bls_dkg::key_gen::Error> {
    let outbound = engine.handle_message(rng, msg)?;
    Ok(outbound.into_iter().map(|(x, m)| (node_id_of(&x), m)).collect())
}

/// Relies on `bls_dkg::KeyGen::is_finalized`: whether the engine has
/// reached its finalization phase.
#[verifier::external_body]
pub(crate) fn keygen_is_finalized(engine: &bls_dkg::KeyGen) -> bool {
    engine.is_finalized()
}

/// Relies on `bls_dkg::KeyGen::generate_keys`: the derived key material,
/// if the engine has reached its finalization phase.
#[verifier::external_body]
pub(crate) fn keygen_generate_keys(engine: &bls_dkg::KeyGen) -> Option<
    bls_dkg::key_gen::outcome::Outcome,
> {
    engine.generate_keys().map(|(_, outcome)| outcome)
}

/// The byte strings `bincode::deserialize` accepts as an engine message.
/// Deserialization is a deterministic function of the bytes alone, so the
/// predicate is well defined; nothing more is assumed of it than the two
/// wrappers below state.
pub uninterp spec fn dkg_payload_decodable(bytes: Seq<u8>) -> bool;

/// Relies on `bincode::serialize` for the engine's own message type: with
/// no size limit configured it cannot fail for this type (its fields are
/// integers, fixed arrays and length-prefixed containers), and its output
/// is accepted back by `bincode::deserialize`.
#[verifier::external_body]
pub(crate) fn dkg_msg_to_bytes(msg: &bls_dkg::message::Message) -> (r: Option<Vec<u8>>)
    ensures
        r is Some,
        r matches Some(b) ==> dkg_payload_decodable(b@),
{
    bincode::serialize(msg).ok()
}

/// Relies on `bincode::deserialize` for the engine's own message type: it
/// accepts exactly the byte strings named by `dkg_payload_decodable`.
#[verifier::external_body]
pub(crate) fn dkg_msg_from_bytes(bytes: &Vec<u8>) -> (r: Option<bls_dkg::message::Message>)
    ensures
        r is Some <==> dkg_payload_decodable(bytes@),
{
    bincode::deserialize(bytes).ok()
}

/// Relies on `rand::thread_rng`: a handle to the thread-local generator
/// the engine draws from.
#[verifier::external_body]
pub(crate) fn fresh_rng() -> rand::rngs::ThreadRng {
    rand::thread_rng()
}

} // verus!
