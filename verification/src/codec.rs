//! Wire codec for the two endpoint message types.
//!
//! The format is a one-byte tag followed by the variant's fields in fixed
//! little-endian layout (identities and addresses) or verbatim (opaque
//! payloads). Encoding is deterministic; decoding accepts exactly the byte
//! strings the encoder can produce and says which way a rejected string is
//! malformed.

use crate::identity::{Addr, NodeId};
use crate::message::{MintMsgView, MintNetworkMsg, WalletMsgView, WalletNetworkMsg};
use vstd::bytes::{
    lemma_auto_spec_u128_to_from_le_bytes, lemma_auto_spec_u16_to_from_le_bytes,
    lemma_auto_spec_u64_to_from_le_bytes, spec_u128_from_le_bytes, spec_u128_to_le_bytes,
    spec_u16_from_le_bytes, spec_u16_to_le_bytes, spec_u64_from_le_bytes, spec_u64_to_le_bytes,
    u128_from_le_bytes, u128_to_le_bytes, u16_from_le_bytes, u16_to_le_bytes, u64_from_le_bytes,
    u64_to_le_bytes,
};
use vstd::prelude::*;
use vstd::slice::{slice_subrange, slice_to_vec};

verus! {

/// Tag byte of a peer announcement on the mint endpoint.
pub const PEER_TAG: u8 = 0;

/// Tag byte of a DKG payload on the mint endpoint.
pub const DKG_TAG: u8 = 1;

/// Tag byte of an RPC payload on the wallet endpoint.
pub const RPC_TAG: u8 = 0;

/// Length of an encoded peer announcement: tag, four identity words, the
/// address word and the port.
pub const PEER_MSG_LEN: usize = 51;

/// How a byte string failed to decode.
#[derive(Clone, Copy, PartialEq, Eq, Structural, Debug)]
pub enum DecodeError {
    /// The payload held no bytes at all.
    Empty,
    /// The leading tag byte names no variant of the endpoint's union.
    UnknownTag,
    /// A fixed-layout variant came with the wrong number of bytes.
    WrongLength,
}

/// The bytes of an encoded peer announcement.
pub open spec fn spec_encode_peer(id: NodeId, a: Addr) -> Seq<u8> {
    seq![PEER_TAG] + spec_u64_to_le_bytes(id.w0) + spec_u64_to_le_bytes(id.w1)
        + spec_u64_to_le_bytes(id.w2) + spec_u64_to_le_bytes(id.w3)
        + spec_u128_to_le_bytes(a.ip) + spec_u16_to_le_bytes(a.port)
}

/// The bytes of an encoded mint-network message.
pub open spec fn spec_encode_mint(m: MintMsgView) -> Seq<u8> {
    match m {
        MintMsgView::Peer(id, a) => spec_encode_peer(id, a),
        MintMsgView::Dkg(p) => seq![DKG_TAG] + p,
    }
}

/// The byte strings the mint-endpoint decoder accepts.
pub open spec fn mint_decodable(b: Seq<u8>) -> bool {
    b.len() >= 1 && (b[0] == PEER_TAG ==> b.len() == PEER_MSG_LEN) && b[0] <= DKG_TAG
}

/// The message a decodable mint-endpoint byte string stands for.
pub open spec fn spec_decode_mint(b: Seq<u8>) -> MintMsgView
    recommends
        mint_decodable(b),
{
    if b[0] == PEER_TAG {
        MintMsgView::Peer(
            NodeId {
                w0: spec_u64_from_le_bytes(b.subrange(1, 9)),
                w1: spec_u64_from_le_bytes(b.subrange(9, 17)),
                w2: spec_u64_from_le_bytes(b.subrange(17, 25)),
                w3: spec_u64_from_le_bytes(b.subrange(25, 33)),
            },
            Addr {
                ip: spec_u128_from_le_bytes(b.subrange(33, 49)),
                port: spec_u16_from_le_bytes(b.subrange(49, 51)),
            },
        )
    } else {
        MintMsgView::Dkg(b.subrange(1, b.len() as int))
    }
}

/// The bytes of an encoded wallet-network message.
pub open spec fn spec_encode_wallet(m: WalletMsgView) -> Seq<u8> {
    match m {
        WalletMsgView::Rpc(p) => seq![RPC_TAG] + p,
    }
}

/// The byte strings the wallet-endpoint decoder accepts.
pub open spec fn wallet_decodable(b: Seq<u8>) -> bool {
    b.len() >= 1 && b[0] == RPC_TAG
}

/// The message a decodable wallet-endpoint byte string stands for.
pub open spec fn spec_decode_wallet(b: Seq<u8>) -> WalletMsgView
    recommends
        wallet_decodable(b),
{
    WalletMsgView::Rpc(b.subrange(1, b.len() as int))
}

/// Encode a mint-network message for the wire.
pub fn encode_mint_msg(m: &MintNetworkMsg) -> (r: Vec<u8>)
    ensures
        r@ == spec_encode_mint(m@),
        mint_decodable(r@),
        spec_decode_mint(r@) == m@,
    {
    proof {
        lemma_auto_spec_u64_to_from_le_bytes();
        lemma_auto_spec_u128_to_from_le_bytes();
        lemma_auto_spec_u16_to_from_le_bytes();
    }
    let mut out: Vec<u8> = Vec::new();
    match m {
        MintNetworkMsg::Peer(id, a) => {
            out.push(PEER_TAG);
            let mut w = u64_to_le_bytes(id.w0);
            out.append(&mut w);
            let mut w = u64_to_le_bytes(id.w1);
            out.append(&mut w);
            let mut w = u64_to_le_bytes(id.w2);
            out.append(&mut w);
            let mut w = u64_to_le_bytes(id.w3);
            out.append(&mut w);
            let mut w = u128_to_le_bytes(a.ip);
            out.append(&mut w);
            let mut w = u16_to_le_bytes(a.port);
            out.append(&mut w);
            proof {
                assert(out@ =~= spec_encode_peer(*id, *a));
                lemma_peer_decode_encode(*id, *a);
            }
        },
        MintNetworkMsg::Dkg(p) => {
            out.push(DKG_TAG);
            let mut q = slice_to_vec(p.as_slice());
            out.append(&mut q);
            proof {
                assert(out@ =~= seq![DKG_TAG] + p@);
                assert(out@.subrange(1, out@.len() as int) =~= p@);
            }
        },
    }
    out
}

/// Decoding inverts encoding on every peer announcement.
proof fn lemma_peer_decode_encode(id: NodeId, a: Addr)
    ensures
        spec_encode_peer(id, a).len() == PEER_MSG_LEN,
        mint_decodable(spec_encode_peer(id, a)),
        spec_decode_mint(spec_encode_peer(id, a)) == MintMsgView::Peer(id, a),
{
    lemma_auto_spec_u64_to_from_le_bytes();
    lemma_auto_spec_u128_to_from_le_bytes();
    lemma_auto_spec_u16_to_from_le_bytes();
    let b = spec_encode_peer(id, a);
    assert(b.subrange(1, 9) =~= spec_u64_to_le_bytes(id.w0));
    assert(b.subrange(9, 17) =~= spec_u64_to_le_bytes(id.w1));
    assert(b.subrange(17, 25) =~= spec_u64_to_le_bytes(id.w2));
    assert(b.subrange(25, 33) =~= spec_u64_to_le_bytes(id.w3));
    assert(b.subrange(33, 49) =~= spec_u128_to_le_bytes(a.ip));
    assert(b.subrange(49, 51) =~= spec_u16_to_le_bytes(a.port));
}

/// Round trip: encoding any mint-network message and decoding the bytes
/// yields the original message.
pub proof fn lemma_mint_round_trip(m: MintMsgView)
    ensures
        mint_decodable(spec_encode_mint(m)),
        spec_decode_mint(spec_encode_mint(m)) == m,
{
    match m {
        MintMsgView::Peer(id, a) => {
            lemma_peer_decode_encode(id, a);
        },
        MintMsgView::Dkg(p) => {
            let b = spec_encode_mint(m);
            assert(b.subrange(1, b.len() as int) =~= p);
        },
    }
}

/// Round trip: encoding any wallet-network message and decoding the bytes
/// yields the original message.
pub proof fn lemma_wallet_round_trip(m: WalletMsgView)
    ensures
        wallet_decodable(spec_encode_wallet(m)),
        spec_decode_wallet(spec_encode_wallet(m)) == m,
{
    match m {
        WalletMsgView::Rpc(p) => {
            let b = spec_encode_wallet(m);
            assert(b.subrange(1, b.len() as int) =~= p);
        },
    }
}

/// Decode one mint-endpoint payload. Accepts exactly the encoder's output
/// strings; a malformed payload is rejected with the way it is malformed,
/// so the dispatch loop can drop the offending connection and go on.
pub fn decode_mint_msg(bytes: &Vec<u8>) -> (r: Result<MintNetworkMsg, DecodeError>)
    ensures
        r is Ok <==> mint_decodable(bytes@),
        r matches Ok(m) ==> m@ == spec_decode_mint(bytes@) && spec_encode_mint(m@) == bytes@,
        r matches Err(e) ==> match e {
            DecodeError::Empty => bytes@.len() == 0,
            DecodeError::UnknownTag => bytes@.len() >= 1 && bytes@[0] > DKG_TAG,
            DecodeError::WrongLength => bytes@.len() >= 1 && bytes@[0] == PEER_TAG
                && bytes@.len() != PEER_MSG_LEN,
        },
    {
    if bytes.len() == 0 {
        return Err(DecodeError::Empty);
    }
    let tag = bytes[0];
    if tag == PEER_TAG {
        if bytes.len() != PEER_MSG_LEN {
            return Err(DecodeError::WrongLength);
        }
        let s = bytes.as_slice();
        let id = NodeId {
            w0: u64_from_le_bytes(slice_subrange(s, 1, 9)),
            w1: u64_from_le_bytes(slice_subrange(s, 9, 17)),
            w2: u64_from_le_bytes(slice_subrange(s, 17, 25)),
            w3: u64_from_le_bytes(slice_subrange(s, 25, 33)),
        };
        let a = Addr {
            ip: u128_from_le_bytes(slice_subrange(s, 33, 49)),
            port: u16_from_le_bytes(slice_subrange(s, 49, 51)),
        };
        let m = MintNetworkMsg::Peer(id, a);
        proof {
            lemma_auto_spec_u64_to_from_le_bytes();
            lemma_auto_spec_u128_to_from_le_bytes();
            lemma_auto_spec_u16_to_from_le_bytes();
            assert(spec_encode_mint(m@) =~= bytes@);
        }
        Ok(m)
    } else if tag == DKG_TAG {
        let s = bytes.as_slice();
        let payload = slice_to_vec(slice_subrange(s, 1, bytes.len()));
        let m = MintNetworkMsg::Dkg(payload);
        proof {
            assert(spec_encode_mint(m@) =~= bytes@);
        }
        Ok(m)
    } else {
        Err(DecodeError::UnknownTag)
    }
}

/// Encode a wallet-network message for the wire.
pub fn encode_wallet_msg(m: &WalletNetworkMsg) -> (r: Vec<u8>)
    ensures
        r@ == spec_encode_wallet(m@),
        wallet_decodable(r@),
        spec_decode_wallet(r@) == m@,
    {
    let mut out: Vec<u8> = Vec::new();
    match m {
        WalletNetworkMsg::Rpc(p) => {
            out.push(RPC_TAG);
            let mut q = slice_to_vec(p.as_slice());
            out.append(&mut q);
            proof {
                assert(out@ =~= seq![RPC_TAG] + p@);
                assert(out@.subrange(1, out@.len() as int) =~= p@);
            }
        },
    }
    out
}

/// Decode one wallet-endpoint payload, with the same acceptance contract
/// as the mint-endpoint decoder.
pub fn decode_wallet_msg(bytes: &Vec<u8>) -> (r: Result<WalletNetworkMsg, DecodeError>)
    ensures
        r is Ok <==> wallet_decodable(bytes@),
        r matches Ok(m) ==> m@ == spec_decode_wallet(bytes@) && spec_encode_wallet(m@) == bytes@,
        r matches Err(e) ==> match e {
            DecodeError::Empty => bytes@.len() == 0,
            DecodeError::UnknownTag => bytes@.len() >= 1 && bytes@[0] != RPC_TAG,
            DecodeError::WrongLength => false,
        },
    {
    if bytes.len() == 0 {
        return Err(DecodeError::Empty);
    }
    let tag = bytes[0];
    if tag == RPC_TAG {
        let s = bytes.as_slice();
        let payload = slice_to_vec(slice_subrange(s, 1, bytes.len()));
        let m = WalletNetworkMsg::Rpc(payload);
        proof {
            assert(spec_encode_wallet(m@) =~= bytes@);
        }
        Ok(m)
    } else {
        Err(DecodeError::UnknownTag)
    }
}

} // verus!
