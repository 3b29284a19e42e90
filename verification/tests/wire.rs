use mint_node::codec::{
    decode_mint_msg, decode_wallet_msg, encode_mint_msg, encode_wallet_msg, DecodeError,
};
use mint_node::identity::{Addr, NodeId};
use mint_node::message::{MintNetworkMsg, WalletNetworkMsg};

fn sample_id() -> NodeId {
    NodeId { w0: 0x0102030405060708, w1: 0x1112131415161718, w2: 0x2122232425262728, w3: 0x3132333435363738 }
}

fn sample_addr() -> Addr {
    // 127.0.0.1 in its IPv4-mapped form
    Addr { ip: 0xffff_7f00_0001, port: 0xabcd }
}

#[test]
fn peer_announcement_exact_bytes() {
    let bytes = encode_mint_msg(&MintNetworkMsg::Peer(sample_id(), sample_addr()));
    let mut expected: Vec<u8> = vec![0u8];
    expected.extend_from_slice(&0x0102030405060708u64.to_le_bytes());
    expected.extend_from_slice(&0x1112131415161718u64.to_le_bytes());
    expected.extend_from_slice(&0x2122232425262728u64.to_le_bytes());
    expected.extend_from_slice(&0x3132333435363738u64.to_le_bytes());
    expected.extend_from_slice(&0xffff_7f00_0001u128.to_le_bytes());
    expected.extend_from_slice(&0xabcdu16.to_le_bytes());
    assert_eq!(bytes, expected);
    assert_eq!(bytes.len(), 51);
}

#[test]
fn peer_announcement_round_trip() {
    let msg = MintNetworkMsg::Peer(sample_id(), sample_addr());
    let bytes = encode_mint_msg(&msg);
    match decode_mint_msg(&bytes) {
        Ok(MintNetworkMsg::Peer(id, a)) => {
            assert_eq!(id, sample_id());
            assert_eq!(a, sample_addr());
        }
        other => panic!("expected a peer announcement, got {:?}", other),
    }
}

#[test]
fn dkg_payload_round_trip_verbatim() {
    let payload = vec![7u8, 0, 255, 3, 1, 4, 1, 5, 9, 2, 6];
    let bytes = encode_mint_msg(&MintNetworkMsg::Dkg(payload.clone()));
    assert_eq!(bytes[0], 1u8);
    assert_eq!(&bytes[1..], payload.as_slice());
    match decode_mint_msg(&bytes) {
        Ok(MintNetworkMsg::Dkg(p)) => assert_eq!(p, payload),
        other => panic!("expected a dkg payload, got {:?}", other),
    }
}

#[test]
fn empty_dkg_payload_round_trip() {
    let bytes = encode_mint_msg(&MintNetworkMsg::Dkg(Vec::new()));
    assert_eq!(bytes, vec![1u8]);
    match decode_mint_msg(&bytes) {
        Ok(MintNetworkMsg::Dkg(p)) => assert!(p.is_empty()),
        other => panic!("expected a dkg payload, got {:?}", other),
    }
}

#[test]
fn mint_decode_rejects_empty() {
    assert_eq!(decode_mint_msg(&Vec::new()).unwrap_err(), DecodeError::Empty);
}

#[test]
fn mint_decode_rejects_unknown_tag() {
    assert_eq!(decode_mint_msg(&vec![9u8, 1, 2]).unwrap_err(), DecodeError::UnknownTag);
}

#[test]
fn mint_decode_rejects_truncated_peer() {
    assert_eq!(decode_mint_msg(&vec![0u8; 5]).unwrap_err(), DecodeError::WrongLength);
    assert_eq!(decode_mint_msg(&vec![0u8; 52]).unwrap_err(), DecodeError::WrongLength);
}

#[test]
fn wallet_rpc_round_trip() {
    let payload = b"reissue please".to_vec();
    let bytes = encode_wallet_msg(&WalletNetworkMsg::Rpc(payload.clone()));
    assert_eq!(bytes[0], 0u8);
    match decode_wallet_msg(&bytes) {
        Ok(WalletNetworkMsg::Rpc(p)) => assert_eq!(p, payload),
        other => panic!("expected an rpc payload, got {:?}", other),
    }
}

#[test]
fn wallet_decode_rejects_bad_input() {
    assert_eq!(decode_wallet_msg(&Vec::new()).unwrap_err(), DecodeError::Empty);
    assert_eq!(decode_wallet_msg(&vec![4u8, 0]).unwrap_err(), DecodeError::UnknownTag);
}
