use mint_node::codec::encode_mint_msg;
use mint_node::identity::{Addr, NodeId};
use mint_node::message::MintNetworkMsg;
use mint_node::node::{wallet_external_port, DkgSession, MintNodeServer, NodeError};

fn id(n: u64) -> NodeId {
    NodeId { w0: n, w1: n.wrapping_mul(7), w2: n.wrapping_mul(13), w3: n.wrapping_mul(31) }
}

fn addr(n: u16) -> Addr {
    Addr { ip: 0x7f000001, port: 9000 + n }
}

fn fresh_node(n: u64) -> MintNodeServer {
    // advertised and local addresses differ, as behind address translation
    MintNodeServer::new(id(n), addr(n as u16), Addr { ip: 0x7f000001, port: 100 + n as u16 })
}

#[test]
fn registry_grows_by_one_per_distinct_announcement() {
    let mut node = fresh_node(1);
    assert_eq!(node.registry.len(), 1);
    node.handle_peer_msg(id(2), addr(2)).unwrap();
    assert_eq!(node.registry.len(), 2);
    node.handle_peer_msg(id(3), addr(3)).unwrap();
    assert_eq!(node.registry.len(), 3);
    node.handle_peer_msg(id(4), addr(4)).unwrap();
    assert_eq!(node.registry.len(), 4);
}

#[test]
fn duplicate_announcement_is_ignored() {
    let mut node = fresh_node(1);
    node.handle_peer_msg(id(2), addr(2)).unwrap();
    let sends = node.handle_peer_msg(id(2), addr(77)).unwrap();
    assert!(sends.is_empty());
    assert_eq!(node.registry.len(), 2);
    assert_eq!(node.registry.get(&id(2)), Some(addr(2)));
}

#[test]
fn backfill_sends_whole_membership_to_newcomer() {
    let mut node = fresh_node(1);
    let sends = node.handle_peer_msg(id(2), addr(2)).unwrap();
    // the first newcomer gets the one known entry: the node itself
    assert_eq!(sends.len(), 1);
    assert_eq!(sends[0].0, addr(2));
    match &sends[0].1 {
        MintNetworkMsg::Peer(a, b) => {
            assert_eq!(*a, id(1));
            assert_eq!(*b, addr(1));
        }
        other => panic!("expected a peer announcement, got {:?}", other),
    }
    // the second newcomer gets both known entries (and, quorum being
    // reached, the batch then carries the engine's initial messages)
    let sends = node.handle_peer_msg(id(9), addr(9)).unwrap();
    assert!(sends.len() >= 2);
    for (dest, msg) in sends.iter().take(2) {
        assert_eq!(*dest, addr(9));
        assert!(matches!(msg, MintNetworkMsg::Peer(..)));
    }
    match &sends[0].1 {
        MintNetworkMsg::Peer(a, b) => {
            assert_eq!(*a, id(1));
            assert_eq!(*b, addr(1));
        }
        other => panic!("expected a peer announcement, got {:?}", other),
    }
    match &sends[1].1 {
        MintNetworkMsg::Peer(a, b) => {
            assert_eq!(*a, id(2));
            assert_eq!(*b, addr(2));
        }
        other => panic!("expected a peer announcement, got {:?}", other),
    }
}

#[test]
fn quorum_triggers_initiation_with_exact_participants() {
    let mut node = fresh_node(1);
    node.handle_peer_msg(id(2), addr(2)).unwrap();
    assert!(matches!(node.session, DkgSession::Absent));
    let sends = node.handle_peer_msg(id(3), addr(3)).unwrap();
    // two backfill entries to the newcomer, then one engine message per participant
    assert_eq!(sends.len(), 2 + 3);
    for (_, msg) in sends.iter().skip(2) {
        assert!(matches!(msg, MintNetworkMsg::Dkg(_)));
    }
    // each engine message goes to its own target's registered address
    let mut ports: Vec<u16> = sends.iter().skip(2).map(|(dest, _)| dest.port).collect();
    ports.sort();
    assert_eq!(ports, vec![9001, 9002, 9003]);
    match &node.session {
        DkgSession::Initiated { participants, threshold, .. } => {
            assert_eq!(*threshold, 2);
            assert_eq!(participants.len(), 3);
            assert!(participants.contains(&id(1)));
            assert!(participants.contains(&id(2)));
            assert!(participants.contains(&id(3)));
        }
        _ => panic!("expected the session to be initiated at quorum"),
    }
}

#[test]
fn below_quorum_stays_absent_and_sends_no_dkg() {
    // two nodes only: every exchanged message stays a peer announcement
    let mut a = fresh_node(1);
    let mut b = fresh_node(2);
    let mut wire: Vec<(Addr, MintNetworkMsg)> = Vec::new();
    wire.extend(a.startup_announcements(&vec![b.advertised]));
    wire.extend(b.startup_announcements(&vec![a.advertised]));
    let mut steps: u32 = 0;
    while !wire.is_empty() {
        steps += 1;
        assert!(steps < 100, "two-node exchange should settle");
        let (dest, msg) = wire.remove(0);
        assert!(matches!(msg, MintNetworkMsg::Peer(..)), "no DKG message may ever be sent");
        let bytes = encode_mint_msg(&msg);
        let receiver = if dest == a.advertised { &mut a } else { &mut b };
        let (sends, key) = receiver.handle_mint_payload(&bytes).unwrap();
        assert!(key.is_none());
        wire.extend(sends);
    }
    assert_eq!(a.registry.len(), 2);
    assert_eq!(b.registry.len(), 2);
    assert!(matches!(a.session, DkgSession::Absent));
    assert!(matches!(b.session, DkgSession::Absent));
}

#[test]
fn three_nodes_settle_and_each_initiates_once() {
    // three nodes, symmetric bootstrap configuration (the join protocol's
    // one-directional backfill converges only under such a configuration)
    let mut nodes = vec![fresh_node(1), fresh_node(2), fresh_node(3)];
    let mut wire: Vec<(Addr, Vec<u8>)> = Vec::new();
    for i in 0..3usize {
        let peers: Vec<Addr> = (0..3usize)
            .filter(|j| *j != i)
            .map(|j| nodes[j].advertised)
            .collect();
        for (dest, msg) in nodes[i].startup_announcements(&peers) {
            wire.push((dest, encode_mint_msg(&msg)));
        }
    }
    let mut finalized_keys: u32 = 0;
    let mut steps: u32 = 0;
    while !wire.is_empty() {
        steps += 1;
        assert!(steps < 10_000, "exchange should settle");
        let (dest, bytes) = wire.remove(0);
        let receiver = nodes.iter_mut().find(|n| n.advertised == dest).unwrap();
        match receiver.handle_mint_payload(&bytes) {
            Ok((sends, key)) => {
                if key.is_some() {
                    finalized_keys += 1;
                }
                for (d, m) in sends {
                    wire.push((d, encode_mint_msg(&m)));
                }
            }
            // a message still in flight toward a node whose session has
            // already finalized is refused; the session never reverts
            Err(NodeError::NoActiveSession) => {
                assert!(matches!(receiver.session, DkgSession::Finalized));
            }
            Err(e) => panic!("unexpected coordination error: {:?}", e),
        }
    }
    for n in &nodes {
        assert_eq!(n.registry.len(), 3);
        assert!(
            !matches!(n.session, DkgSession::Absent),
            "every node must have initiated exactly one session"
        );
    }
    // key material is generated exactly once per node
    assert_eq!(finalized_keys, 3);
    for n in &nodes {
        assert!(matches!(n.session, DkgSession::Finalized));
    }
}

#[test]
fn dkg_message_without_session_is_refused() {
    let mut node = fresh_node(1);
    let bytes = encode_mint_msg(&MintNetworkMsg::Dkg(vec![1, 2, 3]));
    match node.handle_mint_payload(&bytes) {
        Err(NodeError::NoActiveSession) => {}
        _ => panic!("a DKG payload before initiation must fail distinguishably"),
    }
    match node.handle_dkg_message(&vec![1, 2, 3]) {
        Err(NodeError::NoActiveSession) => {}
        _ => panic!("a DKG payload before initiation must fail distinguishably"),
    }
    assert!(matches!(node.session, DkgSession::Absent));
    assert_eq!(node.registry.len(), 1);
}

#[test]
fn malformed_payload_is_dropped_and_node_lives_on() {
    let mut node = fresh_node(1);
    assert!(matches!(
        node.handle_mint_payload(&Vec::new()),
        Err(NodeError::Malformed(_))
    ));
    assert!(matches!(
        node.handle_mint_payload(&vec![42u8, 0, 0]),
        Err(NodeError::Malformed(_))
    ));
    assert_eq!(node.registry.len(), 1);
    // the node still handles the next, well-formed message
    let bytes = encode_mint_msg(&MintNetworkMsg::Peer(id(2), addr(2)));
    node.handle_mint_payload(&bytes).unwrap();
    assert_eq!(node.registry.len(), 2);
}

#[test]
fn self_addressed_send_resolves_to_local() {
    let node = fresh_node(1);
    assert_eq!(node.resolve_dest(node.advertised), node.local);
    assert_eq!(node.resolve_dest(addr(9)), addr(9));
}

#[test]
fn wallet_port_is_one_above_mint_port() {
    assert_eq!(wallet_external_port(5000), 5001);
}

#[test]
fn wallet_requests_are_accepted() {
    let node = fresh_node(1);
    assert!(node.handle_wallet_payload(&vec![0u8, 1, 2]).is_ok());
    assert!(matches!(
        node.handle_wallet_payload(&Vec::new()),
        Err(NodeError::Malformed(_))
    ));
}
