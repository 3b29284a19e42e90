//! The peer registry: the node's source of truth for who is in the network
//! and where to reach them, and hence for quorum detection.
//!
//! Entries are only ever added, never removed or mutated. The registry is an
//! association list with pairwise-distinct identities; its abstract value is
//! the finite map from identity to address.

use crate::identity::{Addr, NodeId};
use vstd::prelude::*;

verus! {

/// The abstract value of an entry sequence: the map built by inserting the
/// pairs in order.
pub open spec fn map_of(s: Seq<(NodeId, Addr)>) -> Map<NodeId, Addr>
    decreases s.len(),
{
    if s.len() == 0 {
        Map::empty()
    } else {
        map_of(s.drop_last()).insert(s.last().0, s.last().1)
    }
}

/// The identities of an entry sequence, in insertion order.
pub open spec fn ids_of(s: Seq<(NodeId, Addr)>) -> Seq<NodeId> {
    s.map_values(|p: (NodeId, Addr)| p.0)
}

/// Pairwise-distinct identities.
pub open spec fn distinct_ids(s: Seq<(NodeId, Addr)>) -> bool {
    forall|i: int, j: int| 0 <= i < j < s.len() ==> s[i].0 != s[j].0
}

/// A key is in the map of `s` exactly when some entry carries it.
pub proof fn lemma_map_of_contains(s: Seq<(NodeId, Addr)>, k: NodeId)
    ensures
        map_of(s).contains_key(k) <==> exists|i: int| 0 <= i < s.len() && s[i].0 == k,
    decreases s.len(),
{
    if s.len() > 0 {
        lemma_map_of_contains(s.drop_last(), k);
        if s.last().0 == k {
            assert(s[s.len() - 1].0 == k);
        } else if map_of(s).contains_key(k) {
            let i = choose|i: int| 0 <= i < s.drop_last().len() && s.drop_last()[i].0 == k;
            assert(s[i].0 == k);
        } else if exists|i: int| 0 <= i < s.len() && s[i].0 == k {
            let i = choose|i: int| 0 <= i < s.len() && s[i].0 == k;
            assert(0 <= i < s.drop_last().len() && s.drop_last()[i].0 == k);
        }
    }
}

/// With distinct identities, the entry carrying a key gives its map value.
pub proof fn lemma_map_of_index(s: Seq<(NodeId, Addr)>, i: int)
    requires
        distinct_ids(s),
        0 <= i < s.len(),
    ensures
        map_of(s).contains_key(s[i].0),
        map_of(s)[s[i].0] == s[i].1,
    decreases s.len(),
{
    lemma_map_of_contains(s, s[i].0);
    if i < s.len() - 1 {
        assert(distinct_ids(s.drop_last()));
        lemma_map_of_index(s.drop_last(), i);
        assert(s.drop_last()[i] == s[i]);
        assert(s.last().0 != s[i].0);
    }
}

/// With distinct identities, the map has as many keys as there are entries.
pub proof fn lemma_map_of_len(s: Seq<(NodeId, Addr)>)
    requires
        distinct_ids(s),
    ensures
        map_of(s).dom().len() == s.len(),
        map_of(s).dom().finite(),
    decreases s.len(),
{
    if s.len() > 0 {
        assert(distinct_ids(s.drop_last()));
        lemma_map_of_len(s.drop_last());
        lemma_map_of_contains(s.drop_last(), s.last().0);
        assert(forall|i: int|
            0 <= i < s.drop_last().len() ==> s.drop_last()[i].0 != s.last().0);
        assert(!map_of(s.drop_last()).contains_key(s.last().0));
        vstd::set::axiom_set_insert_len(map_of(s.drop_last()).dom(), s.last().0);
        assert(map_of(s).dom() =~= map_of(s.drop_last()).dom().insert(s.last().0));
    }
}

/// Pushing a fresh pair inserts it into the map.
pub proof fn lemma_map_of_push(s: Seq<(NodeId, Addr)>, p: (NodeId, Addr))
    ensures
        map_of(s.push(p)) == map_of(s).insert(p.0, p.1),
{
    assert(s.push(p).drop_last() =~= s);
    assert(s.push(p).last() == p);
}

/// Distinct entries carry distinct identities.
pub proof fn lemma_ids_distinct(s: Seq<(NodeId, Addr)>)
    requires
        distinct_ids(s),
    ensures
        crate::identity::distinct(ids_of(s)),
{
    assert(forall|i: int| 0 <= i < s.len() ==> ids_of(s)[i] == #[trigger] s[i].0);
}

/// The map's keys are exactly the identities of the entries.
pub proof fn lemma_id_in_ids(s: Seq<(NodeId, Addr)>, k: NodeId)
    ensures
        map_of(s).contains_key(k) <==> ids_of(s).contains(k),
{
    lemma_map_of_contains(s, k);
    assert(forall|i: int| 0 <= i < s.len() ==> ids_of(s)[i] == #[trigger] s[i].0);
    if ids_of(s).contains(k) {
        let i = choose|i: int| 0 <= i < ids_of(s).len() && ids_of(s)[i] == k;
        assert(s[i].0 == k);
    }
}

/// Identity-to-address map of the peers this node knows, the local node's
/// own entry always among them.
pub struct PeerRegistry {
    entries: Vec<(NodeId, Addr)>,
}

impl PeerRegistry {
    /// The entries in insertion order.
    pub closed spec fn seq(self) -> Seq<(NodeId, Addr)> {
        self.entries@
    }

    /// The abstract value: a finite map from identity to address.
    pub open spec fn view(self) -> Map<NodeId, Addr> {
        map_of(self.seq())
    }

    /// Identities are pairwise distinct and the sequence is non-empty (the
    /// local node registers itself at construction).
    pub open spec fn wf(self) -> bool {
        distinct_ids(self.seq()) && self.seq().len() >= 1
    }

    /// A registry holding exactly the local node's own entry.
    pub fn new(self_id: NodeId, self_addr: Addr) -> (r: Self)
        ensures
            r.wf(),
            r.seq() =~= seq![(self_id, self_addr)],
            r@ == Map::<NodeId, Addr>::empty().insert(self_id, self_addr),
    {
        let entries: Vec<(NodeId, Addr)> = vec![(self_id, self_addr)];
        proof {
            lemma_map_of_push(Seq::empty(), (self_id, self_addr));
            assert(entries@ =~= Seq::<(NodeId, Addr)>::empty().push((self_id, self_addr)));
        }
        PeerRegistry { entries }
    }

    /// The number of known peers, the local node included.
    pub fn len(&self) -> (r: usize)
        requires
            self.wf(),
        ensures
            r == self.seq().len(),
            r == self@.dom().len(),
    {
        proof {
            lemma_map_of_len(self.seq());
        }
        self.entries.len()
    }

    /// Whether `id` is already known.
    pub fn contains(&self, id: &NodeId) -> (r: bool)
        ensures
            r == self@.contains_key(*id),
    {
        proof {
            lemma_map_of_contains(self.seq(), *id);
        }
        let n = self.entries.len();
        for i in 0..n
            invariant
                n == self.seq().len(),
                forall|j: int| 0 <= j < i ==> self.seq()[j].0 != *id,
        {
            if self.entries[i].0 == *id {
                proof {
                    assert(self.seq()[i as int].0 == *id);
                    lemma_map_of_contains(self.seq(), *id);
                }
                return true;
            }
        }
        false
    }

    /// The address a known identity maps to.
    pub fn get(&self, id: &NodeId) -> (r: Option<Addr>)
        requires
            self.wf(),
        ensures
            r matches Some(a) ==> self@.contains_key(*id) && self@[*id] == a,
            r is None ==> !self@.contains_key(*id),
    {
        proof {
            lemma_map_of_contains(self.seq(), *id);
        }
        let n = self.entries.len();
        for i in 0..n
            invariant
                n == self.seq().len(),
                self.wf(),
                forall|j: int| 0 <= j < i ==> self.seq()[j].0 != *id,
        {
            if self.entries[i].0 == *id {
                proof {
                    lemma_map_of_index(self.seq(), i as int);
                }
                return Some(self.entries[i].1);
            }
        }
        None
    }

    /// Record a newly announced peer. Entries are never overwritten: the
    /// caller checks `contains` first.
    pub fn insert(&mut self, id: NodeId, addr: Addr)
        requires
            old(self).wf(),
            !old(self)@.contains_key(id),
        ensures
            final(self).wf(),
            final(self).seq() =~= old(self).seq().push((id, addr)),
            final(self)@ == old(self)@.insert(id, addr),
    {
        proof {
            lemma_map_of_contains(self.seq(), id);
            lemma_map_of_push(self.seq(), (id, addr));
        }
        self.entries.push((id, addr));
    }

    /// A copy of every entry, in insertion order (used to backfill a
    /// newcomer with the full membership known so far).
    pub fn pairs(&self) -> (r: Vec<(NodeId, Addr)>)
        ensures
            r@ =~= self.seq(),
    {
        let mut out: Vec<(NodeId, Addr)> = Vec::new();
        let n = self.entries.len();
        for i in 0..n
            invariant
                n == self.seq().len(),
                out@ =~= self.seq().take(i as int),
        {
            out.push(self.entries[i]);
            proof {
                assert(self.seq().take(i + 1) =~= self.seq().take(i as int).push(self.seq()[i as int]));
            }
        }
        proof {
            assert(self.seq().take(n as int) =~= self.seq());
        }
        out
    }

    /// The identities known right now, in insertion order.
    pub fn identities(&self) -> (r: Vec<NodeId>)
        ensures
            r@ =~= ids_of(self.seq()),
    {
        let mut out: Vec<NodeId> = Vec::new();
        let n = self.entries.len();
        for i in 0..n
            invariant
                n == self.seq().len(),
                out@ =~= ids_of(self.seq()).take(i as int),
        {
            out.push(self.entries[i].0);
            proof {
                assert(ids_of(self.seq()).take(i + 1)
                    =~= ids_of(self.seq()).take(i as int).push(self.seq()[i as int].0));
            }
        }
        proof {
            assert(ids_of(self.seq()).take(n as int) =~= ids_of(self.seq()));
        }
        out
    }
}

} // verus!
