//! The two tagged unions that travel on the wire, one per endpoint.
//!
//! Messages are self-contained and carry no sequence number; a DKG payload
//! is opaque to the coordination layer and is carried verbatim.

use crate::identity::{Addr, NodeId};
use vstd::prelude::*;

verus! {

/// A message on the mint-network endpoint: either a peer announcing itself
/// (identity and externally reachable address), or an opaque DKG-engine
/// payload.
#[derive(Debug)]
pub enum MintNetworkMsg {
    Peer(NodeId, Addr),
    Dkg(Vec<u8>),
}

/// A message on the wallet-network endpoint: an opaque RPC payload.
#[derive(Debug)]
pub enum WalletNetworkMsg {
    Rpc(Vec<u8>),
}

/// Abstract value of a mint-network message.
pub enum MintMsgView {
    Peer(NodeId, Addr),
    Dkg(Seq<u8>),
}

/// Abstract value of a wallet-network message.
pub enum WalletMsgView {
    Rpc(Seq<u8>),
}

impl View for MintNetworkMsg {
    type V = MintMsgView;

    open spec fn view(&self) -> MintMsgView {
        match self {
            MintNetworkMsg::Peer(id, a) => MintMsgView::Peer(*id, *a),
            MintNetworkMsg::Dkg(p) => MintMsgView::Dkg(p@),
        }
    }
}

impl View for WalletNetworkMsg {
    type V = WalletMsgView;

    open spec fn view(&self) -> WalletMsgView {
        match self {
            WalletNetworkMsg::Rpc(p) => WalletMsgView::Rpc(p@),
        }
    }
}

} // verus!
