//! The abstract protocol: what a node's registry and session phase do over
//! any sequence of inbound events, stated over plain sequences and proved
//! once and for all. The executable node's contracts tie each call to one
//! `abs_step`, so these laws speak about every run of the node.

use crate::identity::{Addr, NodeId};
use crate::registry::{distinct_ids, ids_of};
use vstd::prelude::*;

verus! {

/// The number of known peers (the local node included) that triggers DKG
/// initiation.
pub const QUORUM: usize = 3;

/// The DKG session's lifecycle phase. It only ever moves forward:
/// `Absent` to `Initiated` to `Finalized`.
pub enum Phase {
    Absent,
    Initiated,
    Finalized,
}

/// How far along the lifecycle a phase is.
pub open spec fn phase_rank(p: Phase) -> int {
    match p {
        Phase::Absent => 0,
        Phase::Initiated => 1,
        Phase::Finalized => 2,
    }
}

/// A node's coordination state, abstracted: its registry entries in
/// insertion order, and its session phase.
#[verifier::ext_equal]
pub struct AbsNode {
    pub reg: Seq<(NodeId, Addr)>,
    pub phase: Phase,
}

/// One inbound event: a peer announcement, or a DKG payload of which only
/// one thing matters here — whether handling it finalizes the session.
pub enum NodeEvent {
    Announce(NodeId, Addr),
    Dkg(bool),
}

/// What an announcement does to the registry: a known identity is ignored,
/// a fresh one is appended.
pub open spec fn announce_step(reg: Seq<(NodeId, Addr)>, id: NodeId, a: Addr) -> Seq<
    (NodeId, Addr),
> {
    if ids_of(reg).contains(id) {
        reg
    } else {
        reg.push((id, a))
    }
}

/// One step of the node: how one inbound event moves the registry and the
/// session phase.
pub open spec fn abs_step(s: AbsNode, e: NodeEvent) -> AbsNode {
    match e {
        NodeEvent::Announce(id, a) => {
            let reg2 = announce_step(s.reg, id, a);
            let phase2 = if reg2.len() == QUORUM && reg2.len() != s.reg.len() {
                Phase::Initiated
            } else {
                s.phase
            };
            AbsNode { reg: reg2, phase: phase2 }
        },
        NodeEvent::Dkg(finish) => {
            let phase2 = if s.phase is Initiated && finish {
                Phase::Finalized
            } else {
                s.phase
            };
            AbsNode { reg: s.reg, phase: phase2 }
        },
    }
}

/// The node after a whole sequence of events.
pub open spec fn abs_run(s: AbsNode, evts: Seq<NodeEvent>) -> AbsNode
    decreases evts.len(),
{
    if evts.len() == 0 {
        s
    } else {
        abs_step(abs_run(s, evts.drop_last()), evts.last())
    }
}

/// A well-formed abstract node: distinct identities, at least the node's
/// own entry, and the session phase agreeing with quorum — `Absent` exactly
/// as long as the registry is below quorum.
pub open spec fn abs_wf(s: AbsNode) -> bool {
    &&& distinct_ids(s.reg)
    &&& s.reg.len() >= 1
    &&& (s.reg.len() < QUORUM <==> s.phase is Absent)
}

/// The identities a sequence of announcement events carries.
pub open spec fn announce_ids(evts: Seq<NodeEvent>) -> Seq<NodeId> {
    evts.map_values(
        |e: NodeEvent|
            match e {
                NodeEvent::Announce(id, _) => id,
                NodeEvent::Dkg(_) => NodeId { w0: 0, w1: 0, w2: 0, w3: 0 },
            },
    )
}

/// Every event of the sequence is an announcement.
pub open spec fn all_announce(evts: Seq<NodeEvent>) -> bool {
    forall|i: int| 0 <= i < evts.len() ==> evts[i] is Announce
}

/// One step keeps the node well formed, never shrinks the registry, never
/// disturbs existing entries, and never moves the phase backwards.
pub proof fn lemma_step_wf(s: AbsNode, e: NodeEvent)
    requires
        abs_wf(s),
    ensures
        abs_wf(abs_step(s, e)),
        abs_step(s, e).reg.len() >= s.reg.len(),
        forall|i: int| 0 <= i < s.reg.len() ==> abs_step(s, e).reg[i] == s.reg[i],
        phase_rank(abs_step(s, e).phase) >= phase_rank(s.phase),
{
    match e {
        NodeEvent::Announce(id, a) => {
            if !ids_of(s.reg).contains(id) {
                let reg2 = s.reg.push((id, a));
                assert(forall|i: int|
                    0 <= i < s.reg.len() ==> ids_of(s.reg)[i] == #[trigger] s.reg[i].0);
                assert(distinct_ids(reg2)) by {
                    assert(forall|i: int|
                        0 <= i < s.reg.len() ==> #[trigger] reg2[i] == s.reg[i]);
                    assert(forall|i: int|
                        0 <= i < s.reg.len() ==> #[trigger] s.reg[i].0 != id) by {
                        assert(forall|i: int|
                            0 <= i < s.reg.len() ==> ids_of(s.reg).contains(
                                #[trigger] ids_of(s.reg)[i],
                            ) == true);
                    }
                }
            }
        },
        NodeEvent::Dkg(_) => {},
    }
}

/// Registry growth is monotone over any run: no entry is ever removed or
/// mutated, so the size never decreases, and the phase never moves
/// backwards.
pub proof fn lemma_run_monotone(s: AbsNode, evts: Seq<NodeEvent>)
    requires
        abs_wf(s),
    ensures
        abs_wf(abs_run(s, evts)),
        abs_run(s, evts).reg.len() >= s.reg.len(),
        forall|i: int| 0 <= i < s.reg.len() ==> abs_run(s, evts).reg[i] == s.reg[i],
        phase_rank(abs_run(s, evts).phase) >= phase_rank(s.phase),
    decreases evts.len(),
{
    if evts.len() > 0 {
        lemma_run_monotone(s, evts.drop_last());
        lemma_step_wf(abs_run(s, evts.drop_last()), evts.last());
    }
}

/// Law: after any sequence of announcements whose identities are pairwise
/// distinct and all fresh, the registry holds exactly one entry more per
/// announcement — its size goes from N to N + number of announcements —
/// and the identities arrive in order behind the existing ones.
pub proof fn lemma_registry_size(s: AbsNode, evts: Seq<NodeEvent>)
    requires
        abs_wf(s),
        all_announce(evts),
        crate::identity::distinct(announce_ids(evts)),
        forall|i: int| 0 <= i < evts.len() ==> !ids_of(s.reg).contains(
            #[trigger] announce_ids(evts)[i],
        ),
    ensures
        ids_of(abs_run(s, evts).reg) =~= ids_of(s.reg) + announce_ids(evts),
        abs_run(s, evts).reg.len() == s.reg.len() + evts.len(),
    decreases evts.len(),
{
    if evts.len() > 0 {
        let prefix = evts.drop_last();
        assert(announce_ids(prefix) =~= announce_ids(evts).drop_last());
        lemma_registry_size(s, prefix);
        let mid = abs_run(s, prefix);
        let e = evts.last();
        let id = announce_ids(evts).last();
        let a = match e {
            NodeEvent::Announce(_, aa) => aa,
            NodeEvent::Dkg(_) => Addr { ip: 0, port: 0 },
        };
        assert(e == NodeEvent::Announce(id, a));
        assert(!ids_of(mid.reg).contains(id)) by {
            assert(ids_of(mid.reg) =~= ids_of(s.reg) + announce_ids(prefix));
            if ids_of(mid.reg).contains(id) {
                let j = choose|j: int| 0 <= j < ids_of(mid.reg).len() && ids_of(mid.reg)[j] == id;
                if j < ids_of(s.reg).len() {
                    assert(ids_of(s.reg).contains(id));
                } else {
                    let k = j - ids_of(s.reg).len();
                    assert(announce_ids(evts)[k] == id);
                    assert(announce_ids(evts)[evts.len() - 1] == id);
                }
            }
        }
        assert(ids_of(abs_run(s, evts).reg) =~= ids_of(mid.reg).push(id)) by {
            assert(abs_run(s, evts).reg =~= mid.reg.push((id, a)));
        }
    }
}

/// How many times a run leaves `Absent` — how many times DKG initiation
/// fires.
pub open spec fn initiations(s: AbsNode, evts: Seq<NodeEvent>) -> nat
    decreases evts.len(),
{
    if evts.len() == 0 {
        0
    } else {
        initiations(s, evts.drop_last()) + (if abs_run(s, evts.drop_last()).phase is Absent
            && !(abs_run(s, evts).phase is Absent) {
            1nat
        } else {
            0nat
        })
    }
}

/// Law: over any run of a well-formed node, DKG initiation fires at most
/// once — exactly once if the run ends beyond `Absent` (as it must once
/// the registry reaches quorum, by well-formedness), never otherwise.
pub proof fn lemma_initiate_at_most_once(s: AbsNode, evts: Seq<NodeEvent>)
    requires
        abs_wf(s),
    ensures
        initiations(s, evts) <= 1,
        initiations(s, evts) == (if s.phase is Absent && !(abs_run(s, evts).phase is Absent) {
            1int
        } else {
            0int
        }),
    decreases evts.len(),
{
    if evts.len() > 0 {
        let prefix = evts.drop_last();
        lemma_initiate_at_most_once(s, prefix);
        lemma_run_monotone(s, prefix);
        lemma_step_wf(abs_run(s, prefix), evts.last());
    }
}

/// Law: starting below quorum with no session, a run that brings the
/// registry up to quorum initiates the session exactly once; one that
/// does not never initiates it.
pub proof fn lemma_initiation_exactly_at_quorum(s: AbsNode, evts: Seq<NodeEvent>)
    requires
        abs_wf(s),
        s.phase is Absent,
    ensures
        initiations(s, evts) == (if abs_run(s, evts).reg.len() >= QUORUM {
            1int
        } else {
            0int
        }),
{
    lemma_run_monotone(s, evts);
    lemma_initiate_at_most_once(s, evts);
}

/// How many times a run finalizes — how many times the key material is
/// generated.
pub open spec fn finalizations(s: AbsNode, evts: Seq<NodeEvent>) -> nat
    decreases evts.len(),
{
    if evts.len() == 0 {
        0
    } else {
        finalizations(s, evts.drop_last()) + (if !(abs_run(s, evts.drop_last()).phase
            is Finalized) && abs_run(s, evts).phase is Finalized {
            1nat
        } else {
            0nat
        })
    }
}

/// Law: over any run of a well-formed node, the session finalizes — and
/// hence the key material is generated — at most once, and only out of
/// `Initiated`; once `Finalized`, the phase never reverts.
pub proof fn lemma_finalize_at_most_once(s: AbsNode, evts: Seq<NodeEvent>)
    requires
        abs_wf(s),
    ensures
        finalizations(s, evts) <= 1,
        finalizations(s, evts) == (if !(s.phase is Finalized) && abs_run(s, evts).phase
            is Finalized {
            1int
        } else {
            0int
        }),
    decreases evts.len(),
{
    if evts.len() > 0 {
        let prefix = evts.drop_last();
        lemma_finalize_at_most_once(s, prefix);
        lemma_run_monotone(s, prefix);
        lemma_step_wf(abs_run(s, prefix), evts.last());
    }
}

/// Law: with fewer than quorum-many peers ever announced, a well-formed
/// node never leaves `Absent` — no DKG session is created and nothing is
/// finalized.
pub proof fn lemma_below_quorum_stays_absent(s: AbsNode, evts: Seq<NodeEvent>)
    requires
        abs_wf(s),
        s.phase is Absent,
        abs_run(s, evts).reg.len() < QUORUM,
    ensures
        abs_run(s, evts).phase is Absent,
        initiations(s, evts) == 0,
{
    lemma_run_monotone(s, evts);
    lemma_initiate_at_most_once(s, evts);
}

} // verus!
