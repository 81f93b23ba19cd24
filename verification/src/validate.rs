//! The pure gate over a declared topology. It accepts or rejects the
//! configuration before any channel is wired or any actor starts, checking,
//! in order: edge symmetry, endpoint adjacency, drop-probability range, id
//! uniqueness and connectivity, and stopping at the first failure.

use vstd::prelude::*;
use crate::config::{
    contains_id, find_descriptor, first_idx_is, lemma_first_idx_unique, DeclaredKind,
    NodeDescriptor, NodeId, TopologyConfig, MAX_DROP_PPM,
};
use crate::errors::TopologyError;

verus! {

/// Some descriptor with id `a` lists `b` among its neighbors.
pub open spec fn has_lister(s: Seq<NodeDescriptor>, a: NodeId, b: NodeId) -> bool {
    exists|i: int| 0 <= i < s.len() && s[i].id == a && s[i].lists(b)
}

/// Every declared edge is symmetric: whoever is listed lists back.
pub open spec fn edges_symmetric(s: Seq<NodeDescriptor>) -> bool {
    forall|i: int, j: int|
        0 <= i < s.len() && 0 <= j < s[i].neighbor_ids@.len() ==> has_lister(
            s,
            #[trigger] s[i].neighbor_ids@[j],
            s[i].id,
        )
}

/// The id `n` resolves, at its first carrying descriptor, to an endpoint.
pub open spec fn resolves_to_endpoint(s: Seq<NodeDescriptor>, n: NodeId) -> bool {
    exists|k: int| #[trigger] first_idx_is(s, n, k) && s[k].is_endpoint()
}

/// Endpoints are wired only to drones: no client or server lists an id that
/// resolves to another client or server.
pub open spec fn endpoints_on_drones(s: Seq<NodeDescriptor>) -> bool {
    forall|i: int, j: int|
        0 <= i < s.len() && s[i].is_endpoint() && 0 <= j < s[i].neighbor_ids@.len()
            ==> !resolves_to_endpoint(s, #[trigger] s[i].neighbor_ids@[j])
}

/// The descriptor's drop probability, if it has one, lies in [0, 1].
pub open spec fn drop_ok(d: NodeDescriptor) -> bool {
    match d.kind {
        DeclaredKind::Drone { drop_ppm } => drop_ppm <= MAX_DROP_PPM,
        _ => true,
    }
}

/// Every drone's drop probability lies in [0, 1].
pub open spec fn drop_probabilities_ok(s: Seq<NodeDescriptor>) -> bool {
    forall|i: int| 0 <= i < s.len() ==> drop_ok(#[trigger] s[i])
}

/// No two descriptors share an id.
pub open spec fn ids_unique(s: Seq<NodeDescriptor>) -> bool {
    forall|i: int, j: int| 0 <= i < j < s.len() ==> s[i].id != s[j].id
}

/// The whole gate: a topology may only run when all five checks pass.
pub open spec fn topology_valid(s: Seq<NodeDescriptor>) -> bool {
    &&& edges_symmetric(s)
    &&& endpoints_on_drones(s)
    &&& drop_probabilities_ok(s)
    &&& ids_unique(s)
    &&& crate::connectivity::connectivity_ok(s)
}

/// `e` is a truthful rejection of `s`, reported in check order: each error
/// carries a genuine witness of its violation, and every check before the
/// failing one passes.
pub open spec fn rejects_with(s: Seq<NodeDescriptor>, e: TopologyError) -> bool {
    match e {
        TopologyError::AsymmetricEdge { a, b } => {
            &&& !edges_symmetric(s)
            &&& has_lister(s, a, b)
            &&& !has_lister(s, b, a)
        },
        TopologyError::IllegalEndpointAdjacency { node } => {
            &&& edges_symmetric(s)
            &&& !endpoints_on_drones(s)
            &&& exists|i: int, j: int|
                0 <= i < s.len() && s[i].id == node && s[i].is_endpoint() && 0 <= j
                    < s[i].neighbor_ids@.len() && resolves_to_endpoint(
                    s,
                    #[trigger] s[i].neighbor_ids@[j],
                )
        },
        TopologyError::InvalidDropProbability { node, value } => {
            &&& edges_symmetric(s)
            &&& endpoints_on_drones(s)
            &&& !drop_probabilities_ok(s)
            &&& value > MAX_DROP_PPM
            &&& exists|i: int|
                0 <= i < s.len() && (#[trigger] s[i].id) == node && s[i].kind
                    == (DeclaredKind::Drone { drop_ppm: value })
        },
        TopologyError::DuplicateNodeId { id } => {
            &&& edges_symmetric(s)
            &&& endpoints_on_drones(s)
            &&& drop_probabilities_ok(s)
            &&& !ids_unique(s)
            &&& exists|i: int, j: int|
                0 <= i < j < s.len() && (#[trigger] s[i].id) == id && (#[trigger] s[j].id) == id
        },
        TopologyError::Disconnected { component } => {
            &&& edges_symmetric(s)
            &&& endpoints_on_drones(s)
            &&& drop_probabilities_ok(s)
            &&& ids_unique(s)
            &&& !crate::connectivity::connectivity_ok(s)
            &&& crate::connectivity::disconnected_witness(s, component)
        },
        TopologyError::UnresolvedNeighbor { .. } => false,
    }
}

/// True when some descriptor with id `a` lists `b`.
fn some_lister(cfg: &TopologyConfig, a: NodeId, b: NodeId) -> (r: bool)
    ensures
        r == has_lister(cfg.nodes@, a, b),
{
    let n = cfg.nodes.len();
    let mut i: usize = 0;
    while i < n
        invariant
            n == cfg.nodes@.len(),
            0 <= i <= n,
            forall|k: int|
                0 <= k < i ==> !(#[trigger] cfg.nodes@[k].id == a && cfg.nodes@[k].lists(b)),
        decreases n - i,
    {
        if cfg.nodes[i].id == a && contains_id(&cfg.nodes[i].neighbor_ids, b) {
            return true;
        }
        i = i + 1;
    }
    false
}

/// True when the descriptor declares a client or a server.
fn is_endpoint_descriptor(d: &NodeDescriptor) -> (r: bool)
    ensures
        r == d.is_endpoint(),
{
    match d.kind {
        DeclaredKind::Drone { .. } => false,
        _ => true,
    }
}

/// Accepts or rejects a declared topology. The checks run in a fixed
/// order — symmetry, endpoint adjacency, drop probability, uniqueness,
/// connectivity — and the first violation is reported; the result is
/// `Ok` exactly when the topology is valid.
pub fn validate(cfg: &TopologyConfig) -> (r: Result<(), TopologyError>)
    ensures
        r is Ok <==> topology_valid(cfg.nodes@),
        match r {
            Ok(()) => topology_valid(cfg.nodes@),
            Err(e) => rejects_with(cfg.nodes@, e),
        },
{
    let n = cfg.nodes.len();

    // Check 1: edge symmetry.
    let mut i: usize = 0;
    while i < n
        invariant
            n == cfg.nodes@.len(),
            0 <= i <= n,
            forall|p: int, q: int|
                0 <= p < i && 0 <= q < cfg.nodes@[p].neighbor_ids@.len() ==> has_lister(
                    cfg.nodes@,
                    #[trigger] cfg.nodes@[p].neighbor_ids@[q],
                    cfg.nodes@[p].id,
                ),
        decreases n - i,
    {
        let row = cfg.nodes[i].neighbor_ids.len();
        let mut j: usize = 0;
        while j < row
            invariant
                n == cfg.nodes@.len(),
                0 <= i < n,
                row == cfg.nodes@[i as int].neighbor_ids@.len(),
                0 <= j <= row,
                forall|q: int|
                    0 <= q < j ==> has_lister(
                        cfg.nodes@,
                        #[trigger] cfg.nodes@[i as int].neighbor_ids@[q],
                        cfg.nodes@[i as int].id,
                    ),
            decreases row - j,
        {
            let nb = cfg.nodes[i].neighbor_ids[j];
            if !some_lister(cfg, nb, cfg.nodes[i].id) {
                proof {
                    assert(!edges_symmetric(cfg.nodes@)) by {
                        assert(0 <= i < cfg.nodes@.len());
                        assert(cfg.nodes@[i as int].neighbor_ids@[j as int] == nb);
                        assert(!has_lister(cfg.nodes@, nb, cfg.nodes@[i as int].id));
                    }
                    assert(has_lister(cfg.nodes@, cfg.nodes@[i as int].id, nb)) by {
                        assert(cfg.nodes@[i as int].lists(nb));
                    }
                }
                return Err(TopologyError::AsymmetricEdge { a: cfg.nodes[i].id, b: nb });
            }
            j = j + 1;
        }
        i = i + 1;
    }
    proof {
        assert(edges_symmetric(cfg.nodes@));
    }

    // Check 2: endpoints are wired only to drones.
    let mut i: usize = 0;
    while i < n
        invariant
            n == cfg.nodes@.len(),
            0 <= i <= n,
            edges_symmetric(cfg.nodes@),
            forall|p: int, q: int|
                0 <= p < i && cfg.nodes@[p].is_endpoint() && 0 <= q
                    < cfg.nodes@[p].neighbor_ids@.len() ==> !resolves_to_endpoint(
                    cfg.nodes@,
                    #[trigger] cfg.nodes@[p].neighbor_ids@[q],
                ),
        decreases n - i,
    {
        if is_endpoint_descriptor(&cfg.nodes[i]) {
            let row = cfg.nodes[i].neighbor_ids.len();
            let mut j: usize = 0;
            while j < row
                invariant
                    n == cfg.nodes@.len(),
                    0 <= i < n,
                    cfg.nodes@[i as int].is_endpoint(),
                    edges_symmetric(cfg.nodes@),
                    row == cfg.nodes@[i as int].neighbor_ids@.len(),
                    0 <= j <= row,
                    forall|q: int|
                        0 <= q < j ==> !resolves_to_endpoint(
                            cfg.nodes@,
                            #[trigger] cfg.nodes@[i as int].neighbor_ids@[q],
                        ),
                decreases row - j,
            {
                let nb = cfg.nodes[i].neighbor_ids[j];
                match find_descriptor(cfg, nb) {
                    Some(k) => {
                        if is_endpoint_descriptor(&cfg.nodes[k]) {
                            proof {
                                assert(resolves_to_endpoint(cfg.nodes@, nb)) by {
                                    assert(first_idx_is(cfg.nodes@, nb, k as int)
                                        && cfg.nodes@[k as int].is_endpoint());
                                }
                                assert(!endpoints_on_drones(cfg.nodes@)) by {
                                    assert(cfg.nodes@[i as int].neighbor_ids@[j as int] == nb);
                                }
                            }
                            return Err(
                                TopologyError::IllegalEndpointAdjacency { node: cfg.nodes[i].id },
                            );
                        }
                        proof {
                            assert(!resolves_to_endpoint(cfg.nodes@, nb)) by {
                                if resolves_to_endpoint(cfg.nodes@, nb) {
                                    let k2 = choose|k2: int|
                                        #[trigger] first_idx_is(cfg.nodes@, nb, k2)
                                            && cfg.nodes@[k2].is_endpoint();
                                    lemma_first_idx_unique(cfg.nodes@, nb, k as int, k2);
                                }
                            }
                        }
                    },
                    None => {
                        proof {
                            assert(!resolves_to_endpoint(cfg.nodes@, nb)) by {
                                if resolves_to_endpoint(cfg.nodes@, nb) {
                                    let k2 = choose|k2: int|
                                        #[trigger] first_idx_is(cfg.nodes@, nb, k2)
                                            && cfg.nodes@[k2].is_endpoint();
                                    assert(cfg.nodes@[k2].id == nb);
                                }
                            }
                        }
                    },
                }
                j = j + 1;
            }
        }
        i = i + 1;
    }
    proof {
        assert(endpoints_on_drones(cfg.nodes@));
    }

    // Check 3: drop probabilities lie in [0, 1].
    let mut i: usize = 0;
    while i < n
        invariant
            n == cfg.nodes@.len(),
            0 <= i <= n,
            edges_symmetric(cfg.nodes@),
            endpoints_on_drones(cfg.nodes@),
            forall|p: int| 0 <= p < i ==> drop_ok(#[trigger] cfg.nodes@[p]),
        decreases n - i,
    {
        match cfg.nodes[i].kind {
            DeclaredKind::Drone { drop_ppm } => {
                if drop_ppm > MAX_DROP_PPM {
                    proof {
                        assert(!drop_ok(cfg.nodes@[i as int]));
                    }
                    return Err(
                        TopologyError::InvalidDropProbability { node: cfg.nodes[i].id, value: drop_ppm },
                    );
                }
            },
            _ => {},
        }
        i = i + 1;
    }
    proof {
        assert(drop_probabilities_ok(cfg.nodes@));
    }

    // Check 4: ids are unique.
    let mut i: usize = 0;
    while i < n
        invariant
            n == cfg.nodes@.len(),
            0 <= i <= n,
            edges_symmetric(cfg.nodes@),
            endpoints_on_drones(cfg.nodes@),
            drop_probabilities_ok(cfg.nodes@),
            forall|p: int, q: int| 0 <= p < i && p < q < n ==> cfg.nodes@[p].id != cfg.nodes@[q].id,
        decreases n - i,
    {
        let mut j: usize = i + 1;
        while j < n
            invariant
                n == cfg.nodes@.len(),
                0 <= i < n,
                i < j <= n,
                edges_symmetric(cfg.nodes@),
                endpoints_on_drones(cfg.nodes@),
                drop_probabilities_ok(cfg.nodes@),
                forall|q: int| i < q < j ==> cfg.nodes@[i as int].id != cfg.nodes@[q].id,
            decreases n - j,
        {
            if cfg.nodes[i].id == cfg.nodes[j].id {
                proof {
                    assert(!ids_unique(cfg.nodes@));
                }
                return Err(TopologyError::DuplicateNodeId { id: cfg.nodes[i].id });
            }
            j = j + 1;
        }
        i = i + 1;
    }
    proof {
        assert(ids_unique(cfg.nodes@));
    }

    // Check 5: drone-subgraph connectivity and endpoint anchoring.
    match crate::connectivity::check_connectivity(cfg) {
        Err(e) => {
            return Err(e);
        },
        Ok(()) => {},
    }

    Ok(())
}

} // verus!
