//! The mint node's coordination core: the state one node owns, and the
//! handlers the dispatch loop drives. Each handler is a plain function
//! from state and inbound event to new state and the batch of messages to
//! send; the surrounding process performs the actual network I/O.

use crate::codec::{decode_mint_msg, decode_wallet_msg, mint_decodable, spec_decode_mint, DecodeError};
use crate::engine::{
    dkg_msg_from_bytes, dkg_msg_to_bytes, dkg_payload_decodable, fresh_rng, keygen_generate_keys,
    keygen_handle_message, keygen_initialize, keygen_is_finalized,
};
use crate::identity::{Addr, NodeId};
use crate::message::{MintMsgView, MintNetworkMsg, WalletNetworkMsg};
use crate::protocol::{abs_step, AbsNode, NodeEvent, Phase, QUORUM};
use crate::registry::{ids_of, lemma_id_in_ids, lemma_ids_distinct, PeerRegistry};
use vstd::prelude::*;

verus! {

/// The DKG session's lifecycle. Exactly one session exists per process:
/// `Absent` until quorum, then `Initiated` with the engine and the exact
/// participant set and threshold handed to it, then `Finalized` — never
/// backwards.
pub enum DkgSession {
    Absent,
    Initiated { engine: bls_dkg::KeyGen, participants: Vec<NodeId>, threshold: usize },
    Finalized,
}

impl DkgSession {
    /// The lifecycle phase this session is in.
    pub open spec fn phase(self) -> Phase {
        match self {
            DkgSession::Absent => Phase::Absent,
            DkgSession::Initiated { .. } => Phase::Initiated,
            DkgSession::Finalized => Phase::Finalized,
        }
    }

    /// The participant set handed to the engine at initiation.
    pub open spec fn participants(self) -> Seq<NodeId> {
        match self {
            DkgSession::Initiated { participants, .. } => participants@,
            _ => Seq::empty(),
        }
    }

    /// The threshold handed to the engine at initiation.
    pub open spec fn threshold(self) -> int {
        match self {
            DkgSession::Initiated { threshold, .. } => threshold as int,
            _ => 0,
        }
    }
}

/// Why a handler refused an inbound event.
#[derive(Debug)]
pub enum NodeError {
    /// The payload was not a message of this endpoint (transport-class:
    /// the offending connection is dropped, the node lives on).
    Malformed(DecodeError),
    /// A DKG payload arrived while no session is in its exchange phase
    /// (protocol-sequencing violation; the node must not silently proceed).
    NoActiveSession,
    /// The engine refused a message (fatal for this node's DKG
    /// participation).
    Engine(bls_dkg::key_gen::Error),
    /// The engine addressed a peer the registry does not know.
    UnknownDkgTarget,
    /// An inbound DKG payload was not an engine message (transport-class).
    BadDkgPayload,
    /// The engine reported completion but yielded no key material.
    KeyGeneration,
}

/// The fan-out entry for `target`: a decodable engine payload addressed to
/// `target`'s own registered address.
pub open spec fn dkg_send_for(
    reg: Map<NodeId, Addr>,
    target: NodeId,
    send: (Addr, MintNetworkMsg),
) -> bool {
    &&& reg.contains_key(target)
    &&& send.0 == reg[target]
    &&& (send.1@ matches MintMsgView::Dkg(b) && dkg_payload_decodable(b))
}

/// Each engine message is sent to its own target's registered address, in
/// the batch's order.
pub open spec fn dkg_batch_for(
    reg: Map<NodeId, Addr>,
    targets: Seq<NodeId>,
    sends: Seq<(Addr, MintNetworkMsg)>,
) -> bool {
    &&& sends.len() == targets.len()
    &&& forall|i: int| 0 <= i < sends.len() ==> dkg_send_for(reg, targets[i], #[trigger] sends[i])
}

/// Some assignment of targets explains the batch: each send goes to its
/// own target's registered address.
pub open spec fn dkg_batch_addressed(
    reg: Map<NodeId, Addr>,
    sends: Seq<(Addr, MintNetworkMsg)>,
) -> bool {
    exists|ts: Seq<NodeId>| dkg_batch_for(reg, ts, sends)
}

/// Some assignment of targets explains the batch, and the targets are
/// exactly the given identities: each send goes to its own target's
/// registered address, every target is one of `ids`, and every one of
/// `ids` is a target.
pub open spec fn dkg_batch_covers(
    reg: Map<NodeId, Addr>,
    ids: Seq<NodeId>,
    sends: Seq<(Addr, MintNetworkMsg)>,
) -> bool {
    exists|ts: Seq<NodeId>|
        dkg_batch_for(reg, ts, sends) && (forall|x: NodeId|
            ids.contains(x) <==> #[trigger] ts.contains(x))
}

/// The opaque payload a mint-network message view carries, if any.
pub open spec fn dkg_view_payload(m: MintMsgView) -> Seq<u8> {
    match m {
        MintMsgView::Dkg(b) => b,
        _ => Seq::empty(),
    }
}

/// One mint node's coordination state. The surrounding process owns the
/// endpoints; this state is owned and mutated by the mint-network dispatch
/// loop alone.
pub struct MintNodeServer {
    /// This node's own identity, generated once at process start.
    pub id: NodeId,
    /// The externally advertised mint-network address.
    pub advertised: Addr,
    /// The local mint-network address, used instead of `advertised` when
    /// the node would otherwise dial itself.
    pub local: Addr,
    /// Everyone this node knows, itself included.
    pub registry: PeerRegistry,
    /// The one DKG session of this process's lifetime.
    pub session: DkgSession,
}

impl MintNodeServer {
    /// The node's abstract coordination state.
    pub open spec fn abs(self) -> AbsNode {
        AbsNode { reg: self.registry.seq(), phase: self.session.phase() }
    }

    /// The registry is sound and the node's own identity maps to its
    /// advertised address.
    pub open spec fn base_wf(self) -> bool {
        &&& self.registry.wf()
        &&& self.registry@.contains_key(self.id)
        &&& self.registry@[self.id] == self.advertised
    }

    /// Well-formed node: additionally, the session is `Absent` exactly as
    /// long as the registry is below quorum.
    pub open spec fn wf(self) -> bool {
        &&& self.base_wf()
        &&& (self.registry.seq().len() < QUORUM <==> self.session is Absent)
    }

    /// A fresh node: it knows itself, and no session exists yet.
    pub fn new(id: NodeId, advertised: Addr, local: Addr) -> (r: Self)
        ensures
            r.wf(),
            r.id == id && r.advertised == advertised && r.local == local,
            r.session is Absent,
            r.registry.seq() =~= seq![(id, advertised)],
    {
        let registry = PeerRegistry::new(id, advertised);
        MintNodeServer { id, advertised, local, registry, session: DkgSession::Absent }
    }

    /// If a message is for this node's own advertised address, deliver to
    /// the local address instead of dialing out through it.
    pub fn resolve_dest(&self, dest: Addr) -> (r: Addr)
        ensures
            r == if dest == self.advertised {
                self.local
            } else {
                dest
            },
    {
        if dest == self.advertised {
            self.local
        } else {
            dest
        }
    }

    /// The announcements a starting node addresses to its configured
    /// bootstrap peers: its own identity and advertised address, once per
    /// bootstrap address.
    pub fn startup_announcements(&self, bootstrap: &Vec<Addr>) -> (r: Vec<(Addr, MintNetworkMsg)>)
        ensures
            r@.len() == bootstrap@.len(),
            forall|i: int|
                0 <= i < r@.len() ==> (#[trigger] r@[i]).0 == bootstrap@[i] && r@[i].1@
                    == MintMsgView::Peer(self.id, self.advertised),
    {
        let mut out: Vec<(Addr, MintNetworkMsg)> = Vec::new();
        let n = bootstrap.len();
        for i in 0..n
            invariant
                n == bootstrap@.len(),
                out@.len() == i,
                forall|j: int|
                    0 <= j < i ==> (#[trigger] out@[j]).0 == bootstrap@[j] && out@[j].1@
                        == MintMsgView::Peer(self.id, self.advertised),
        {
            out.push((bootstrap[i], MintNetworkMsg::Peer(self.id, self.advertised)));
        }
        out
    }

    /// Address each outbound engine message to its own target's registered
    /// address, in order, and frame it for the wire. The batch is refused
    /// exactly when some target is not registered.
    pub fn broadcast_dkg_messages(&self, batch: Vec<(NodeId, bls_dkg::message::Message)>) -> (r:
        Result<Vec<(Addr, MintNetworkMsg)>, NodeError>)
        requires
            self.registry.wf(),
        ensures
            r matches Ok(v) ==> dkg_batch_for(
                self.registry@,
                batch@.map_values(|p: (NodeId, bls_dkg::message::Message)| p.0),
                v@,
            ),
            r is Err <==> exists|j: int|
                0 <= j < batch@.len() && !self.registry@.contains_key(#[trigger] batch@[j].0),
            r matches Err(e) ==> e is UnknownDkgTarget,
    {
        let mut sends: Vec<(Addr, MintNetworkMsg)> = Vec::new();
        let n = batch.len();
        for i in 0..n
            invariant
                n == batch@.len(),
                sends@.len() == i,
                forall|j: int|
                    0 <= j < i ==> dkg_send_for(self.registry@, batch@[j].0, #[trigger] sends@[j]),
                self.registry.wf(),
        {
            let target = batch[i].0;
            match self.registry.get(&target) {
                None => {
                    return Err(NodeError::UnknownDkgTarget);
                },
                Some(a) => {
                    let bytes = dkg_msg_to_bytes(&batch[i].1).unwrap();
                    sends.push((a, MintNetworkMsg::Dkg(bytes)));
                },
            }
        }
        proof {
            assert forall|j: int|
                0 <= j < batch@.len() implies self.registry@.contains_key(
                #[trigger] batch@[j].0,
            ) by {
                assert(dkg_send_for(self.registry@, batch@[j].0, sends@[j]));
            }
        }
        Ok(sends)
    }

    /// Start the DKG session: the participant set is every identity known
    /// at this instant, the threshold one less than their number, and the
    /// engine's initial messages are addressed, one per participant, to
    /// the participants' own registered addresses. Cannot fail: this node
    /// is always among the participants it knows.
    pub fn initiate_dkg(&mut self) -> (r: Result<Vec<(Addr, MintNetworkMsg)>, NodeError>)
        requires
            old(self).base_wf(),
            old(self).session is Absent,
            old(self).registry.seq().len() >= QUORUM,
        ensures
            final(self).id == old(self).id && final(self).advertised == old(self).advertised
                && final(self).local == old(self).local,
            final(self).registry == old(self).registry,
            r is Ok,
            r matches Ok(v) ==> {
                &&& final(self).session is Initiated
                &&& final(self).session.participants() =~= ids_of(old(self).registry.seq())
                &&& final(self).session.threshold() == old(self).registry.seq().len() - 1
                &&& v@.len() == old(self).registry.seq().len()
                &&& dkg_batch_covers(old(self).registry@, ids_of(old(self).registry.seq()), v@)
            },
    {
        let participants = self.registry.identities();
        let threshold = participants.len() - 1;
        proof {
            lemma_ids_distinct(self.registry.seq());
            lemma_id_in_ids(self.registry.seq(), self.id);
        }
        match keygen_initialize(&self.id, threshold, &participants) {
            Err(e) => Err(NodeError::Engine(e)),
            Ok((engine, outbound)) => {
                proof {
                    assert forall|j: int|
                        0 <= j < outbound@.len() implies self.registry@.contains_key(
                        #[trigger] outbound@[j].0,
                    ) by {
                        lemma_id_in_ids(self.registry.seq(), outbound@[j].0);
                    }
                }
                let ghost targets = outbound@.map_values(
                    |p: (NodeId, bls_dkg::message::Message)| p.0,
                );
                match self.broadcast_dkg_messages(outbound) {
                    Err(e) => {
                        proof {
                            let j = choose|j: int|
                                0 <= j < outbound@.len() && !self.registry@.contains_key(
                                    outbound@[j].0,
                                );
                            assert(self.registry@.contains_key(outbound@[j].0));
                        }
                        Err(e)
                    },
                    Ok(sends) => {
                        proof {
                            assert forall|x: NodeId|
                                ids_of(self.registry.seq()).contains(x)
                                    <==> #[trigger] targets.contains(x) by {
                                if ids_of(self.registry.seq()).contains(x) {
                                    assert(participants@.contains(x));
                                    let i = choose|i: int|
                                        0 <= i < outbound@.len() && outbound@[i].0 == x;
                                    assert(targets[i] == x);
                                }
                                if targets.contains(x) {
                                    let i = choose|i: int|
                                        0 <= i < targets.len() && targets[i] == x;
                                    assert(participants@.contains(outbound@[i].0));
                                }
                            }
                            assert(dkg_batch_covers(
                                self.registry@,
                                ids_of(self.registry.seq()),
                                sends@,
                            ));
                        }
                        self.session = DkgSession::Initiated { engine, participants, threshold };
                        Ok(sends)
                    },
                }
            },
        }
    }

    /// Handle one inbound peer announcement; always succeeds. A known
    /// identity is ignored. A fresh one first gets the whole known
    /// membership sent back to it (backfill), then joins the registry; if
    /// that makes the registry reach quorum, the DKG session is initiated
    /// and its initial messages join the batch.
    pub fn handle_peer_msg(&mut self, actor: NodeId, addr: Addr) -> (r: Result<
        Vec<(Addr, MintNetworkMsg)>,
        NodeError,
    >)
        requires
            old(self).wf(),
        ensures
            final(self).id == old(self).id && final(self).advertised == old(self).advertised
                && final(self).local == old(self).local,
            r is Ok,
            old(self).registry@.contains_key(actor) ==> (r matches Ok(v) && v@.len() == 0
                && *final(self) == *old(self)),
            r matches Ok(v) ==> {
                &&& final(self).wf()
                &&& final(self).abs() =~= abs_step(
                    old(self).abs(),
                    NodeEvent::Announce(actor, addr),
                )
                &&& !old(self).registry@.contains_key(actor) ==> {
                    let n = old(self).registry.seq().len() as int;
                    &&& v@.len() >= n
                    &&& forall|j: int|
                        0 <= j < n ==> (#[trigger] v@[j]).0 == addr && v@[j].1@
                            == MintMsgView::Peer(
                            old(self).registry.seq()[j].0,
                            old(self).registry.seq()[j].1,
                        )
                    &&& (n + 1 != QUORUM ==> v@.len() == n && final(self).session == old(
                        self,
                    ).session)
                    &&& (n + 1 == QUORUM ==> v@.len() == n + n + 1 && final(self).session
                        is Initiated && dkg_batch_covers(
                        final(self).registry@,
                        ids_of(final(self).registry.seq()),
                        v@.skip(n),
                    ))
                    &&& (old(self).session is Absent && final(self).session is Initiated
                        ==> final(self).session.participants() =~= ids_of(
                        final(self).registry.seq(),
                    ) && final(self).session.threshold() == final(self).registry.seq().len() - 1)
                }
            },
    {
        if self.registry.contains(&actor) {
            proof {
                lemma_id_in_ids(self.registry.seq(), actor);
            }
            return Ok(Vec::new());
        }
        proof {
            lemma_id_in_ids(self.registry.seq(), actor);
        }
        let pairs = self.registry.pairs();
        let mut sends: Vec<(Addr, MintNetworkMsg)> = Vec::new();
        let n = pairs.len();
        for i in 0..n
            invariant
                *self == *old(self),
                n == pairs@.len(),
                pairs@ =~= self.registry.seq(),
                sends@.len() == i,
                forall|j: int|
                    0 <= j < i ==> (#[trigger] sends@[j]).0 == addr && sends@[j].1@
                        == MintMsgView::Peer(pairs@[j].0, pairs@[j].1),
        {
            sends.push((addr, MintNetworkMsg::Peer(pairs[i].0, pairs[i].1)));
        }
        self.registry.insert(actor, addr);
        if self.registry.len() == QUORUM {
            match self.initiate_dkg() {
                Ok(mut dkg_sends) => {
                    let ghost n_backfill = sends@.len() as int;
                    let ghost pre_dkg = dkg_sends@;
                    sends.append(&mut dkg_sends);
                    proof {
                        assert(sends@.skip(n_backfill) =~= pre_dkg);
                        assert(dkg_batch_covers(
                            self.registry@,
                            ids_of(self.registry.seq()),
                            sends@.skip(n_backfill),
                        ));
                    }
                    Ok(sends)
                },
                Err(e) => Err(e),
            }
        } else {
            proof {
                assert(sends@.skip(n as int) =~= Seq::<(Addr, MintNetworkMsg)>::empty());
            }
            Ok(sends)
        }
    }

    /// Handle one inbound DKG payload. Requires an active (`Initiated`)
    /// session; a payload that is no engine message is refused with the
    /// node untouched; the engine's outbound messages are addressed, in
    /// order, to their own targets' registered addresses, and if the
    /// engine thereby reaches completion, the key material is generated —
    /// once — and the session becomes `Finalized`.
    pub fn handle_dkg_message(&mut self, payload: &Vec<u8>) -> (r: Result<
        (Vec<(Addr, MintNetworkMsg)>, Option<bls_dkg::key_gen::outcome::Outcome>),
        NodeError,
    >)
        requires
            old(self).wf(),
        ensures
            final(self).id == old(self).id && final(self).advertised == old(self).advertised
                && final(self).local == old(self).local,
            final(self).registry == old(self).registry,
            final(self).wf(),
            !(old(self).session is Initiated) ==> *final(self) == *old(self) && (r matches
            Err(e) && e is NoActiveSession),
            (r matches Err(e) && e is BadDkgPayload) <==> (old(self).session is Initiated
                && !dkg_payload_decodable(payload@)),
            r matches Err(e) && e is BadDkgPayload ==> *final(self) == *old(self),
            r matches Ok(p) ==> {
                &&& old(self).session is Initiated
                &&& final(self).abs() =~= abs_step(old(self).abs(), NodeEvent::Dkg(p.1 is Some))
                &&& (p.1 is Some <==> final(self).session is Finalized)
                &&& (final(self).session is Initiated ==> final(self).session.participants()
                    =~= old(self).session.participants() && final(self).session.threshold()
                    == old(self).session.threshold())
                &&& dkg_batch_addressed(final(self).registry@, p.0@)
            },
            r is Err && old(self).session is Initiated ==> final(self).session is Initiated
                && final(self).session.participants() =~= old(self).session.participants()
                && final(self).session.threshold() == old(self).session.threshold(),
            r matches Err(e) ==> !(e is Malformed),
    {
        let (outbound, finalized) = match &mut self.session {
            DkgSession::Initiated { engine, .. } => {
                let m = match dkg_msg_from_bytes(payload) {
                    None => {
                        return Err(NodeError::BadDkgPayload);
                    },
                    Some(m) => m,
                };
                let mut rng = fresh_rng();
                let outbound = match keygen_handle_message(engine, &mut rng, m) {
                    Err(e) => {
                        return Err(NodeError::Engine(e));
                    },
                    Ok(o) => o,
                };
                (outbound, keygen_is_finalized(engine))
            },
            _ => {
                return Err(NodeError::NoActiveSession);
            },
        };
        let ghost targets = outbound@.map_values(|p: (NodeId, bls_dkg::message::Message)| p.0);
        let sends = match self.broadcast_dkg_messages(outbound) {
            Err(e) => {
                return Err(e);
            },
            Ok(s) => s,
        };
        proof {
            assert(dkg_batch_for(self.registry@, targets, sends@));
            assert(dkg_batch_addressed(self.registry@, sends@));
        }
        if finalized {
            let key = match &self.session {
                DkgSession::Initiated { engine, .. } => keygen_generate_keys(engine),
                _ => None,
            };
            match key {
                Some(outcome) => {
                    self.session = DkgSession::Finalized;
                    proof {
                        assert(dkg_batch_addressed(self.registry@, sends@));
                    }
                    Ok((sends, Some(outcome)))
                },
                None => Err(NodeError::KeyGeneration),
            }
        } else {
            Ok((sends, None))
        }
    }

    /// Dispatch one payload read off a mint-network connection: decode it
    /// and route it by tag. A payload is refused as malformed exactly when
    /// it is not a message of this endpoint, with the node untouched, so
    /// the loop can drop that connection and keep accepting.
    pub fn handle_mint_payload(&mut self, bytes: &Vec<u8>) -> (r: Result<
        (Vec<(Addr, MintNetworkMsg)>, Option<bls_dkg::key_gen::outcome::Outcome>),
        NodeError,
    >)
        requires
            old(self).wf(),
        ensures
            final(self).id == old(self).id && final(self).advertised == old(self).advertised
                && final(self).local == old(self).local,
            (r matches Err(e) && e is Malformed) <==> !mint_decodable(bytes@),
            !mint_decodable(bytes@) ==> *final(self) == *old(self),
            mint_decodable(bytes@) ==> (spec_decode_mint(bytes@) matches MintMsgView::Peer(
                id,
                a,
            ) ==> (r matches Ok(p) && final(self).wf() && final(self).abs() =~= abs_step(
                old(self).abs(),
                NodeEvent::Announce(id, a),
            ) && p.1 is None)),
            mint_decodable(bytes@) && spec_decode_mint(bytes@) is Dkg ==> {
                &&& final(self).registry == old(self).registry
                &&& (!(old(self).session is Initiated) ==> *final(self) == *old(self)
                    && (r matches Err(e) && e is NoActiveSession))
                &&& ((r matches Err(e) && e is BadDkgPayload) <==> (old(self).session
                    is Initiated && !dkg_payload_decodable(
                    dkg_view_payload(spec_decode_mint(bytes@)),
                )))
                &&& (r matches Ok(p) ==> final(self).wf() && final(self).abs() =~= abs_step(
                    old(self).abs(),
                    NodeEvent::Dkg(p.1 is Some),
                ))
            },
    {
        match decode_mint_msg(bytes) {
            Err(e) => Err(NodeError::Malformed(e)),
            Ok(MintNetworkMsg::Peer(actor, addr)) => {
                match self.handle_peer_msg(actor, addr) {
                    Ok(sends) => Ok((sends, None)),
                    Err(e) => Err(e),
                }
            },
            Ok(MintNetworkMsg::Dkg(payload)) => self.handle_dkg_message(&payload),
        }
    }

    /// Dispatch one payload read off a wallet-network connection. The
    /// handler itself is the seam where the mint's wallet-facing logic
    /// attaches; requests are accepted without effect.
    pub fn handle_wallet_payload(&self, bytes: &Vec<u8>) -> (r: Result<(), NodeError>)
        ensures
            r is Ok <==> crate::codec::wallet_decodable(bytes@),
            r matches Err(e) ==> e is Malformed,
    {
        match decode_wallet_msg(bytes) {
            Err(e) => Err(NodeError::Malformed(e)),
            Ok(msg) => self.handle_wallet_msg(&msg),
        }
    }

    /// Accept one wallet request. A placeholder by design: the mint's own
    /// request handling is outside this coordination core.
    pub fn handle_wallet_msg(&self, _msg: &WalletNetworkMsg) -> (r: Result<(), NodeError>)
        ensures
            r is Ok,
    {
        Ok(())
    }
}

/// The wallet endpoint's advertised port: one above the mint endpoint's,
/// letting both roles share one process while staying independently
/// addressable.
pub fn wallet_external_port(mint_port: u16) -> (r: u16)
    requires
        mint_port < 0xffff,
    ensures
        r == mint_port + 1,
{
    mint_port + 1
}

} // verus!
