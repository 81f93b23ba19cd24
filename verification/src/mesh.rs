//! Two-phase construction of the channel mesh: first one inbound packet
//! channel per declared node, then, per node, an outbound map resolved
//! against the recorded inbound senders. An unresolved neighbor id is a
//! fatal configuration error found before any actor starts.

use vstd::prelude::*;
use crate::channel::clone_sender;
use crate::config::{NodeDescriptor, NodeId, TopologyConfig};
use crate::errors::TopologyError;
use crate::validate::{edges_symmetric, has_lister, topology_valid};
use crossbeam_channel::{Receiver, Sender};

verus! {

/// A data-plane packet. The control plane treats the payload as opaque:
/// no wire format is defined here.
pub struct Packet {
    pub payload: Vec<u8>,
}

/// One inbound channel per node. The sender under an id is the clone
/// source for every neighbor that may address that node; the receiver is
/// handed to the node itself, exactly once.
pub struct ChannelMesh {
    pub senders: Vec<(NodeId, Sender<Packet>)>,
    pub receivers: Vec<(NodeId, Receiver<Packet>)>,
}

impl ChannelMesh {
    /// The mesh records an inbound sender under `id`.
    pub open spec fn has_sender(self, id: NodeId) -> bool {
        exists|k: int| 0 <= k < self.senders@.len() && self.senders@[k].0 == id
    }
}

/// The mesh's sender side carries exactly the declared ids, in order. The
/// senders are never consumed, so this holds for the mesh's whole life,
/// also after receivers have been handed out.
pub open spec fn senders_match(m: ChannelMesh, s: Seq<NodeDescriptor>) -> bool {
    &&& m.senders@.len() == s.len()
    &&& forall|k: int| 0 <= k < s.len() ==> (#[trigger] m.senders@[k].0) == s[k].id
}

/// The mesh carries exactly the declared ids, in declaration order, on
/// both the sender and the receiver side.
pub open spec fn mesh_matches(m: ChannelMesh, s: Seq<NodeDescriptor>) -> bool {
    &&& senders_match(m, s)
    &&& m.receivers@.len() == s.len()
    &&& forall|k: int| 0 <= k < s.len() ==> (#[trigger] m.receivers@[k].0) == s[k].id
}

/// Phase one: allocate one unbounded inbound packet channel per descriptor
/// and record both ends under the descriptor's id.
pub fn build_mesh(cfg: &TopologyConfig) -> (m: ChannelMesh)
    ensures
        mesh_matches(m, cfg.nodes@),
{
    let n = cfg.nodes.len();
    let mut senders: Vec<(NodeId, Sender<Packet>)> = Vec::new();
    let mut receivers: Vec<(NodeId, Receiver<Packet>)> = Vec::new();
    let mut i: usize = 0;
    while i < n
        invariant
            n == cfg.nodes@.len(),
            0 <= i <= n,
            senders@.len() == i,
            receivers@.len() == i,
            forall|k: int| 0 <= k < i ==> (#[trigger] senders@[k].0) == cfg.nodes@[k].id,
            forall|k: int| 0 <= k < i ==> (#[trigger] receivers@[k].0) == cfg.nodes@[k].id,
        decreases n - i,
    {
        let (tx, rx) = crossbeam_channel::unbounded::<Packet>();
        senders.push((cfg.nodes[i].id, tx));
        receivers.push((cfg.nodes[i].id, rx));
        i = i + 1;
    }
    ChannelMesh { senders, receivers }
}

/// Position of the inbound sender recorded under `id`, if any.
fn find_sender(m: &ChannelMesh, id: NodeId) -> (r: Option<usize>)
    ensures
        match r {
            Some(k) => k < m.senders@.len() && m.senders@[k as int].0 == id,
            None => !m.has_sender(id),
        },
{
    let n = m.senders.len();
    let mut k: usize = 0;
    while k < n
        invariant
            n == m.senders@.len(),
            0 <= k <= n,
            forall|q: int| 0 <= q < k ==> (#[trigger] m.senders@[q].0) != id,
        decreases n - k,
    {
        if m.senders[k].0 == id {
            return Some(k);
        }
        k = k + 1;
    }
    None
}

/// Phase two, for one descriptor: resolve every declared neighbor id
/// against the recorded inbound senders into the node's outbound map. The
/// map keeps the declared order; resolution fails exactly when some listed
/// id has no inbound channel.
pub fn outbound_for(m: &ChannelMesh, d: &NodeDescriptor) -> (r: Result<
    Vec<(NodeId, Sender<Packet>)>,
    TopologyError,
>)
    ensures
        r is Ok <==> (forall|j: int|
            0 <= j < d.neighbor_ids@.len() ==> m.has_sender(#[trigger] d.neighbor_ids@[j])),
        match r {
            Ok(o) => {
                &&& o@.len() == d.neighbor_ids@.len()
                &&& forall|j: int| 0 <= j < o@.len() ==> (#[trigger] o@[j].0) == d.neighbor_ids@[j]
            },
            Err(e) => match e {
                TopologyError::UnresolvedNeighbor { from, to } => {
                    &&& from == d.id
                    &&& d.lists(to)
                    &&& !m.has_sender(to)
                },
                _ => false,
            },
        },
{
    let row = d.neighbor_ids.len();
    let mut out: Vec<(NodeId, Sender<Packet>)> = Vec::new();
    let mut j: usize = 0;
    while j < row
        invariant
            row == d.neighbor_ids@.len(),
            0 <= j <= row,
            out@.len() == j,
            forall|q: int| 0 <= q < j ==> (#[trigger] out@[q].0) == d.neighbor_ids@[q],
            forall|q: int| 0 <= q < j ==> m.has_sender(#[trigger] d.neighbor_ids@[q]),
        decreases row - j,
    {
        let nb = d.neighbor_ids[j];
        match find_sender(m, nb) {
            Some(k) => {
                let tx = clone_sender(&m.senders[k].1);
                out.push((nb, tx));
            },
            None => {
                proof {
                    assert(d.neighbor_ids@[j as int] == nb);
                    assert(d.neighbor_ids@.contains(nb));
                }
                return Err(TopologyError::UnresolvedNeighbor { from: d.id, to: nb });
            },
        }
        j = j + 1;
    }
    Ok(out)
}

impl ChannelMesh {
    /// Hands out the next unclaimed inbound receiver, transferring sole
    /// ownership of that end to the caller.
    pub fn pop_receiver(&mut self) -> (r: (NodeId, Receiver<Packet>))
        requires
            old(self).receivers@.len() > 0,
        ensures
            r.0 == old(self).receivers@[0].0,
            final(self).receivers@ == old(self).receivers@.remove(0),
            final(self).senders@ == old(self).senders@,
    {
        self.receivers.remove(0)
    }
}

/// In a symmetric topology every listed neighbor id is also a declared
/// node, so a mesh built from the same descriptors resolves it.
pub proof fn lemma_symmetric_topology_resolves(m: ChannelMesh, s: Seq<NodeDescriptor>, i: int)
    requires
        senders_match(m, s),
        edges_symmetric(s),
        0 <= i < s.len(),
    ensures
        forall|j: int|
            0 <= j < s[i].neighbor_ids@.len() ==> m.has_sender(#[trigger] s[i].neighbor_ids@[j]),
{
    assert forall|j: int|
        0 <= j < s[i].neighbor_ids@.len() implies m.has_sender(
        #[trigger] s[i].neighbor_ids@[j],
    ) by {
        let nb = s[i].neighbor_ids@[j];
        assert(has_lister(s, nb, s[i].id));
        let k = choose|k: int| 0 <= k < s.len() && s[k].id == nb && s[k].lists(s[i].id);
        assert(m.senders@[k].0 == nb);
    };
}

/// For a valid topology the constructed mesh is complete: exactly one
/// inbound receiver per declared node — no id missing, no id doubled —
/// and an inbound sender for every declared neighbor of every node.
pub proof fn lemma_mesh_complete(m: ChannelMesh, s: Seq<NodeDescriptor>)
    requires
        mesh_matches(m, s),
        topology_valid(s),
    ensures
        m.receivers@.len() == s.len(),
        forall|i: int| 0 <= i < s.len() ==> (#[trigger] m.receivers@[i].0) == s[i].id,
        forall|i: int, k: int| 0 <= i < k < s.len() ==> m.receivers@[i].0 != m.receivers@[k].0,
        forall|i: int, j: int|
            0 <= i < s.len() && 0 <= j < s[i].neighbor_ids@.len() ==> m.has_sender(
                #[trigger] s[i].neighbor_ids@[j],
            ),
{
    assert forall|i: int, j: int|
        0 <= i < s.len() && 0 <= j < s[i].neighbor_ids@.len() implies m.has_sender(
        #[trigger] s[i].neighbor_ids@[j],
    ) by {
        lemma_symmetric_topology_resolves(m, s, i);
    };
}

} // verus!
