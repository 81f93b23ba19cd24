//! The declarative description of a topology: node descriptors with their
//! kind-specific parameters and neighbor lists.

use vstd::prelude::*;

verus! {

/// A node's identifier, unique across the whole topology regardless of kind.
pub type NodeId = u8;

/// Drop probabilities are carried as parts per million, so that the whole
/// range [0, 1] maps to [0, `MAX_DROP_PPM`].
pub const MAX_DROP_PPM: u32 = 1_000_000;

/// What a descriptor declares a node to be, before the factory picks a
/// concrete behavior variant or endpoint subtype.
#[derive(Clone, Copy, Debug, PartialEq, Eq, Structural)]
pub enum DeclaredKind {
    /// A routing node; forwards packets and drops them with the given
    /// probability, in parts per million.
    Drone { drop_ppm: u32 },
    /// An endpoint that originates traffic.
    Client,
    /// An endpoint that terminates traffic.
    Server,
}

/// One node of the declared topology.
pub struct NodeDescriptor {
    pub id: NodeId,
    pub kind: DeclaredKind,
    /// Ids of the nodes this node may address directly.
    pub neighbor_ids: Vec<NodeId>,
}

/// The whole declared topology: an ordered collection of node descriptors.
pub struct TopologyConfig {
    pub nodes: Vec<NodeDescriptor>,
}

impl NodeDescriptor {
    /// The descriptor declares a routing node.
    pub open spec fn is_drone(self) -> bool {
        self.kind is Drone
    }

    /// The descriptor declares a client or a server.
    pub open spec fn is_endpoint(self) -> bool {
        !(self.kind is Drone)
    }

    /// The descriptor lists `n` among its neighbors.
    pub open spec fn lists(self, n: NodeId) -> bool {
        self.neighbor_ids@.contains(n)
    }
}

impl TopologyConfig {
    /// The declared ids, in descriptor order.
    pub open spec fn ids(self) -> Seq<NodeId> {
        self.nodes@.map_values(|d: NodeDescriptor| d.id)
    }
}

/// `i` is the position of the first descriptor in `s` that carries `id`.
pub open spec fn first_idx_is(s: Seq<NodeDescriptor>, id: NodeId, i: int) -> bool {
    &&& 0 <= i < s.len()
    &&& s[i].id == id
    &&& forall|k: int| 0 <= k < i ==> s[k].id != id
}

/// Some descriptor in `s` carries `id`.
pub open spec fn has_descriptor(s: Seq<NodeDescriptor>, id: NodeId) -> bool {
    exists|i: int| 0 <= i < s.len() && s[i].id == id
}

/// The first carrying position of an id is unique.
pub proof fn lemma_first_idx_unique(s: Seq<NodeDescriptor>, id: NodeId, k1: int, k2: int)
    requires
        first_idx_is(s, id, k1),
        first_idx_is(s, id, k2),
    ensures
        k1 == k2,
{
    if k1 < k2 {
        assert(s[k1].id != id);
    } else if k2 < k1 {
        assert(s[k2].id != id);
    }
}

/// Finds the first descriptor carrying `id`, if any.
pub fn find_descriptor(cfg: &TopologyConfig, id: NodeId) -> (r: Option<usize>)
    ensures
        match r {
            Some(i) => first_idx_is(cfg.nodes@, id, i as int),
            None => !has_descriptor(cfg.nodes@, id),
        },
{
    let n = cfg.nodes.len();
    let mut i: usize = 0;
    while i < n
        invariant
            n == cfg.nodes@.len(),
            0 <= i <= n,
            forall|k: int| 0 <= k < i ==> cfg.nodes@[k].id != id,
        decreases n - i,
    {
        if cfg.nodes[i].id == id {
            return Some(i);
        }
        i = i + 1;
    }
    None
}

/// True when `v` holds `x`.
pub fn contains_id(v: &Vec<NodeId>, x: NodeId) -> (r: bool)
    ensures
        r == v@.contains(x),
{
    let n = v.len();
    let mut i: usize = 0;
    while i < n
        invariant
            n == v@.len(),
            0 <= i <= n,
            forall|k: int| 0 <= k < i ==> v@[k] != x,
        decreases n - i,
    {
        if v[i] == x {
            return true;
        }
        i = i + 1;
    }
    false
}

/// A fresh vector with the same ids as `v`.
pub fn copy_ids(v: &Vec<NodeId>) -> (r: Vec<NodeId>)
    ensures
        r@ == v@,
{
    let n = v.len();
    let mut r: Vec<NodeId> = Vec::new();
    let mut i: usize = 0;
    while i < n
        invariant
            n == v@.len(),
            0 <= i <= n,
            r@ == v@.take(i as int),
        decreases n - i,
    {
        r.push(v[i]);
        i = i + 1;
    }
    proof {
        assert(v@.take(n as int) =~= v@);
    }
    r
}

} // verus!
