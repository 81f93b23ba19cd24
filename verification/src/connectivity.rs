//! The connectivity check of the validator: the induced drone subgraph
//! must be connected, and every endpoint must be anchored on at least one
//! drone. Reachability is computed as the least fixed point of marking
//! along drone edges, and the marking is proved sound and complete
//! against the hop-count definition of reachability.

use vstd::prelude::*;
use crate::config::{
    find_descriptor, first_idx_is, lemma_first_idx_unique, DeclaredKind, NodeDescriptor, NodeId,
    TopologyConfig,
};
use crate::errors::TopologyError;
use crate::validate::ids_unique;

verus! {

/// Positions `a` and `b` hold drones and `a` lists `b`'s id: one hop of
/// the drone subgraph.
pub open spec fn drone_edge(s: Seq<NodeDescriptor>, a: int, b: int) -> bool {
    &&& 0 <= a < s.len() && 0 <= b < s.len()
    &&& s[a].is_drone() && s[b].is_drone()
    &&& s[a].lists(s[b].id)
}

/// Position `j` lies within `k` drone hops of position `i`.
pub open spec fn reaches_within(s: Seq<NodeDescriptor>, i: int, j: int, k: nat) -> bool
    decreases k,
{
    if j == i && 0 <= i < s.len() && s[i].is_drone() {
        true
    } else if k == 0 {
        false
    } else {
        exists|m: int| reaches_within(s, i, m, (k - 1) as nat) && #[trigger] drone_edge(s, m, j)
    }
}

/// Position `j` is reachable from position `i` inside the drone subgraph.
pub open spec fn drone_reachable(s: Seq<NodeDescriptor>, i: int, j: int) -> bool {
    exists|k: nat| reaches_within(s, i, j, k)
}

/// `f` is the position of the first drone.
pub open spec fn is_first_drone(s: Seq<NodeDescriptor>, f: int) -> bool {
    &&& 0 <= f < s.len()
    &&& s[f].is_drone()
    &&& forall|k: int| 0 <= k < f ==> !(#[trigger] s[k]).is_drone()
}

/// The induced drone subgraph is connected: every drone is reachable
/// from the first one. Vacuously true without drones.
pub open spec fn drones_connected(s: Seq<NodeDescriptor>) -> bool {
    forall|f: int, j: int|
        #![trigger is_first_drone(s, f), s[j].is_drone()]
        is_first_drone(s, f) && 0 <= j < s.len() && s[j].is_drone() ==> drone_reachable(s, f, j)
}

/// The id `n` resolves, at its first carrying descriptor, to a drone.
pub open spec fn resolves_to_drone(s: Seq<NodeDescriptor>, n: NodeId) -> bool {
    exists|k: int| #[trigger] first_idx_is(s, n, k) && s[k].is_drone()
}

/// The endpoint at position `i` lists at least one id that resolves to a
/// drone.
pub open spec fn endpoint_anchored(s: Seq<NodeDescriptor>, i: int) -> bool {
    exists|j: int|
        0 <= j < s[i].neighbor_ids@.len() && resolves_to_drone(
            s,
            #[trigger] s[i].neighbor_ids@[j],
        )
}

/// Every client and server has at least one drone neighbor.
pub open spec fn endpoints_anchored(s: Seq<NodeDescriptor>) -> bool {
    forall|i: int| 0 <= i < s.len() && (#[trigger] s[i]).is_endpoint() ==> endpoint_anchored(s, i)
}

/// The whole connectivity gate.
pub open spec fn connectivity_ok(s: Seq<NodeDescriptor>) -> bool {
    drones_connected(s) && endpoints_anchored(s)
}

/// The id `c` names a genuine witness of disconnection: a drone the
/// first drone cannot reach, or an endpoint without a drone neighbor.
pub open spec fn disconnected_witness(s: Seq<NodeDescriptor>, c: NodeId) -> bool {
    ||| exists|f: int, j: int|
        #![trigger is_first_drone(s, f), s[j].id]
        is_first_drone(s, f) && 0 <= j < s.len() && s[j].is_drone() && s[j].id == c
            && !drone_reachable(s, f, j)
    ||| exists|i: int|
        0 <= i < s.len() && (#[trigger] s[i].id) == c && s[i].is_endpoint()
            && !endpoint_anchored(s, i)
}

/// How many positions of `m` are marked.
pub open spec fn count_true(m: Seq<bool>) -> int
    decreases m.len(),
{
    if m.len() == 0 {
        0
    } else {
        count_true(m.drop_last()) + if m.last() {
            1int
        } else {
            0int
        }
    }
}

proof fn lemma_count_true_le_len(m: Seq<bool>)
    ensures
        0 <= count_true(m) <= m.len(),
    decreases m.len(),
{
    if m.len() > 0 {
        lemma_count_true_le_len(m.drop_last());
    }
}

proof fn lemma_count_true_update(m: Seq<bool>, j: int)
    requires
        0 <= j < m.len(),
        !m[j],
    ensures
        count_true(m.update(j, true)) == count_true(m) + 1,
    decreases m.len(),
{
    if j == m.len() - 1 {
        assert(m.update(j, true).drop_last() =~= m.drop_last());
    } else {
        assert(m.update(j, true).drop_last() =~= m.drop_last().update(j, true));
        lemma_count_true_update(m.drop_last(), j);
        assert(m.update(j, true).last() == m.last());
    }
}

/// There is at most one first drone.
proof fn lemma_first_drone_unique(s: Seq<NodeDescriptor>, f1: int, f2: int)
    requires
        is_first_drone(s, f1),
        is_first_drone(s, f2),
    ensures
        f1 == f2,
{
    if f1 < f2 {
        assert(!s[f1].is_drone());
    } else if f2 < f1 {
        assert(!s[f2].is_drone());
    }
}

/// A marking that holds the origin and is closed under drone edges holds
/// everything the origin reaches.
proof fn lemma_closed_covers(s: Seq<NodeDescriptor>, m: Seq<bool>, f: int, j: int, k: nat)
    requires
        m.len() == s.len(),
        0 <= f < s.len(),
        m[f],
        forall|a: int, b: int| #[trigger] drone_edge(s, a, b) && m[a] ==> m[b],
        reaches_within(s, f, j, k),
    ensures
        0 <= j < s.len() && m[j],
    decreases k,
{
    if j == f && 0 <= f < s.len() && s[f].is_drone() {
    } else {
        let mid = choose|mid: int|
            reaches_within(s, f, mid, (k - 1) as nat) && #[trigger] drone_edge(s, mid, j);
        lemma_closed_covers(s, m, f, mid, (k - 1) as nat);
    }
}

/// True when the descriptor declares a drone.
fn is_drone_descriptor(d: &NodeDescriptor) -> (r: bool)
    ensures
        r == d.is_drone(),
{
    match d.kind {
        DeclaredKind::Drone { .. } => true,
        _ => false,
    }
}

/// Position of the first drone descriptor, if any.
fn find_first_drone(cfg: &TopologyConfig) -> (r: Option<usize>)
    ensures
        match r {
            Some(f) => is_first_drone(cfg.nodes@, f as int),
            None => forall|k: int|
                0 <= k < cfg.nodes@.len() ==> !(#[trigger] cfg.nodes@[k]).is_drone(),
        },
{
    let n = cfg.nodes.len();
    let mut i: usize = 0;
    while i < n
        invariant
            n == cfg.nodes@.len(),
            0 <= i <= n,
            forall|k: int| 0 <= k < i ==> !(#[trigger] cfg.nodes@[k]).is_drone(),
        decreases n - i,
    {
        if is_drone_descriptor(&cfg.nodes[i]) {
            return Some(i);
        }
        i = i + 1;
    }
    None
}

/// True when the endpoint at position `i` has a neighbor that resolves
/// to a drone.
fn anchored_at(cfg: &TopologyConfig, i: usize) -> (r: bool)
    requires
        i < cfg.nodes@.len(),
    ensures
        r == endpoint_anchored(cfg.nodes@, i as int),
{
    let row = cfg.nodes[i].neighbor_ids.len();
    let mut q: usize = 0;
    while q < row
        invariant
            i < cfg.nodes@.len(),
            row == cfg.nodes@[i as int].neighbor_ids@.len(),
            0 <= q <= row,
            forall|p: int|
                0 <= p < q ==> !resolves_to_drone(
                    cfg.nodes@,
                    #[trigger] cfg.nodes@[i as int].neighbor_ids@[p],
                ),
        decreases row - q,
    {
        let nb = cfg.nodes[i].neighbor_ids[q];
        match find_descriptor(cfg, nb) {
            Some(k) => {
                if is_drone_descriptor(&cfg.nodes[k]) {
                    proof {
                        assert(resolves_to_drone(cfg.nodes@, nb)) by {
                            assert(first_idx_is(cfg.nodes@, nb, k as int)
                                && cfg.nodes@[k as int].is_drone());
                        }
                        assert(cfg.nodes@[i as int].neighbor_ids@[q as int] == nb);
                    }
                    return true;
                }
                proof {
                    assert(!resolves_to_drone(cfg.nodes@, nb)) by {
                        if resolves_to_drone(cfg.nodes@, nb) {
                            let k2 = choose|k2: int|
                                #[trigger] first_idx_is(cfg.nodes@, nb, k2)
                                    && cfg.nodes@[k2].is_drone();
                            lemma_first_idx_unique(cfg.nodes@, nb, k as int, k2);
                        }
                    }
                }
            },
            None => {
                proof {
                    assert(!resolves_to_drone(cfg.nodes@, nb)) by {
                        if resolves_to_drone(cfg.nodes@, nb) {
                            let k2 = choose|k2: int|
                                #[trigger] first_idx_is(cfg.nodes@, nb, k2)
                                    && cfg.nodes@[k2].is_drone();
                            assert(cfg.nodes@[k2].id == nb);
                        }
                    }
                }
            },
        }
        q = q + 1;
    }
    false
}

/// Marks everything the first drone reaches, by saturating the marking
/// along drone edges until a full pass adds nothing. Relies on unique
/// ids to identify the one descriptor a listed id names.
fn mark_reachable(cfg: &TopologyConfig, f: usize) -> (marked: Vec<bool>)
    requires
        ids_unique(cfg.nodes@),
        is_first_drone(cfg.nodes@, f as int),
    ensures
        marked@.len() == cfg.nodes@.len(),
        forall|x: int|
            0 <= x < cfg.nodes@.len() && #[trigger] marked@[x] ==> drone_reachable(
                cfg.nodes@,
                f as int,
                x,
            ),
        forall|x: int|
            0 <= x < cfg.nodes@.len() && drone_reachable(cfg.nodes@, f as int, x)
                ==> #[trigger] marked@[x],
{
    let n = cfg.nodes.len();
    let mut marked: Vec<bool> = Vec::new();
    let mut i: usize = 0;
    while i < n
        invariant
            n == cfg.nodes@.len(),
            0 <= i <= n,
            marked@.len() == i,
            forall|x: int| 0 <= x < i ==> !(#[trigger] marked@[x]),
        decreases n - i,
    {
        marked.push(false);
        i = i + 1;
    }
    proof {
        assert(count_true(marked@) == 0) by {
            lemma_count_all_false(marked@);
        }
        lemma_count_true_update(marked@, f as int);
    }
    marked.set(f, true);
    let mut marked_count: usize = 1;
    proof {
        assert(reaches_within(cfg.nodes@, f as int, f as int, 0nat));
    }

    let mut changed: bool = true;
    while changed
        invariant
            n == cfg.nodes@.len(),
            ids_unique(cfg.nodes@),
            is_first_drone(cfg.nodes@, f as int),
            f < n,
            marked@.len() == n,
            marked@[f as int],
            marked_count as int == count_true(marked@),
            marked_count <= n,
            forall|x: int|
                0 <= x < n && #[trigger] marked@[x] ==> drone_reachable(cfg.nodes@, f as int, x),
            !changed ==> (forall|a: int, b: int|
                #[trigger] drone_edge(cfg.nodes@, a, b) && marked@[a] ==> marked@[b]),
        decreases n - marked_count + (if changed {
            1int
        } else {
            0int
        }),
    {
        changed = false;
        let ghost m0 = marked@;
        let ghost count0 = marked_count as int;
        let mut a: usize = 0;
        while a < n
            invariant
                n == cfg.nodes@.len(),
                ids_unique(cfg.nodes@),
                is_first_drone(cfg.nodes@, f as int),
                f < n,
                0 <= a <= n,
                marked@.len() == n,
                m0.len() == n,
                marked@[f as int],
                marked_count as int == count_true(marked@),
                marked_count <= n,
                count0 <= count_true(marked@),
                forall|x: int| 0 <= x < n && #[trigger] m0[x] ==> marked@[x],
                !changed ==> marked@ == m0,
                changed ==> count_true(marked@) > count0,
                forall|x: int|
                    0 <= x < n && #[trigger] marked@[x] ==> drone_reachable(
                        cfg.nodes@,
                        f as int,
                        x,
                    ),
                forall|p: int, b: int|
                    0 <= p < a && #[trigger] drone_edge(cfg.nodes@, p, b) && m0[p]
                        ==> marked@[b],
            decreases n - a,
        {
            if is_drone_descriptor(&cfg.nodes[a]) && marked[a] {
                let row = cfg.nodes[a].neighbor_ids.len();
                let mut q: usize = 0;
                while q < row
                    invariant
                        n == cfg.nodes@.len(),
                        ids_unique(cfg.nodes@),
                        is_first_drone(cfg.nodes@, f as int),
                        f < n,
                        0 <= a < n,
                        cfg.nodes@[a as int].is_drone(),
                        row == cfg.nodes@[a as int].neighbor_ids@.len(),
                        0 <= q <= row,
                        marked@.len() == n,
                        m0.len() == n,
                        marked@[f as int],
                        marked@[a as int],
                        marked_count as int == count_true(marked@),
                        marked_count <= n,
                        count0 <= count_true(marked@),
                        forall|x: int| 0 <= x < n && #[trigger] m0[x] ==> marked@[x],
                        !changed ==> marked@ == m0,
                        changed ==> count_true(marked@) > count0,
                        forall|x: int|
                            0 <= x < n && #[trigger] marked@[x] ==> drone_reachable(
                                cfg.nodes@,
                                f as int,
                                x,
                            ),
                        forall|p: int, b: int|
                            0 <= p < a && #[trigger] drone_edge(cfg.nodes@, p, b) && m0[p]
                                ==> marked@[b],
                        forall|p: int, b: int|
                            #![trigger cfg.nodes@[a as int].neighbor_ids@[p], cfg.nodes@[b]]
                            0 <= p < q && 0 <= b < n && cfg.nodes@[b].id == cfg.nodes@[
                                a as int
                            ].neighbor_ids@[p] && cfg.nodes@[b].is_drone() ==> marked@[b],
                    decreases row - q,
                {
                    let nb = cfg.nodes[a].neighbor_ids[q];
                    match find_descriptor(cfg, nb) {
                        Some(bidx) => {
                            if is_drone_descriptor(&cfg.nodes[bidx]) {
                                if !marked[bidx] {
                                    proof {
                                        lemma_count_true_update(marked@, bidx as int);
                                        lemma_count_true_le_len(marked@.update(bidx as int, true));
                                        assert(drone_edge(cfg.nodes@, a as int, bidx as int)) by {
                                            assert(cfg.nodes@[a as int].neighbor_ids@[q as int]
                                                == nb);
                                            assert(cfg.nodes@[a as int].lists(nb));
                                        }
                                        let k = choose|k: nat|
                                            reaches_within(cfg.nodes@, f as int, a as int, k);
                                        assert(reaches_within(
                                            cfg.nodes@,
                                            f as int,
                                            bidx as int,
                                            k + 1,
                                        )) by {
                                            assert(reaches_within(cfg.nodes@, f as int, a as int, k)
                                                && drone_edge(cfg.nodes@, a as int, bidx as int));
                                        }
                                    }
                                    marked.set(bidx, true);
                                    marked_count = marked_count + 1;
                                    changed = true;
                                }
                                proof {
                                    assert forall|b: int|
                                        0 <= b < n && cfg.nodes@[b].id == nb
                                            && (#[trigger] cfg.nodes@[b]).is_drone() implies marked@[b] by {
                                        assert(cfg.nodes@[b].id == cfg.nodes@[bidx as int].id);
                                        if b != bidx as int {
                                            if b < bidx as int {
                                                assert(cfg.nodes@[b].id != cfg.nodes@[bidx as int].id);
                                            } else {
                                                assert(cfg.nodes@[bidx as int].id != cfg.nodes@[b].id);
                                            }
                                        }
                                    };
                                }
                            } else {
                                proof {
                                    assert forall|b: int|
                                        0 <= b < n && cfg.nodes@[b].id == nb
                                            && (#[trigger] cfg.nodes@[b]).is_drone() implies marked@[b] by {
                                        if b < bidx as int {
                                            assert(cfg.nodes@[b].id != cfg.nodes@[bidx as int].id);
                                        } else if b > bidx as int {
                                            assert(cfg.nodes@[bidx as int].id != cfg.nodes@[b].id);
                                        }
                                    };
                                }
                            }
                        },
                        None => {
                            proof {
                                assert forall|b: int|
                                    0 <= b < n && cfg.nodes@[b].id == nb
                                        && (#[trigger] cfg.nodes@[b]).is_drone() implies marked@[b] by {
                                    assert(cfg.nodes@[b].id == nb);
                                };
                            }
                        },
                    }
                    q = q + 1;
                }
                proof {
                    assert forall|b: int|
                        #[trigger] drone_edge(cfg.nodes@, a as int, b) && m0[a as int] implies marked@[b] by {
                        assert(cfg.nodes@[a as int].lists(cfg.nodes@[b].id));
                        let p = choose|p: int|
                            0 <= p < cfg.nodes@[a as int].neighbor_ids@.len() && cfg.nodes@[
                                a as int
                            ].neighbor_ids@[p] == cfg.nodes@[b].id;
                        assert(cfg.nodes@[b].id == cfg.nodes@[a as int].neighbor_ids@[p]
                            && cfg.nodes@[b].is_drone());
                    };
                }
            } else {
                proof {
                    assert forall|b: int|
                        #[trigger] drone_edge(cfg.nodes@, a as int, b) && m0[a as int] implies marked@[b] by {
                        assert(cfg.nodes@[a as int].is_drone());
                        assert(marked@[a as int]);
                    };
                }
            }
            a = a + 1;
        }
    }
    proof {
        assert forall|x: int|
            0 <= x < cfg.nodes@.len() && drone_reachable(cfg.nodes@, f as int, x) implies #[trigger] marked@[x] by {
            let k = choose|k: nat| reaches_within(cfg.nodes@, f as int, x, k);
            lemma_closed_covers(cfg.nodes@, marked@, f as int, x, k);
        };
    }
    marked
}

proof fn lemma_count_all_false(m: Seq<bool>)
    requires
        forall|x: int| 0 <= x < m.len() ==> !(#[trigger] m[x]),
    ensures
        count_true(m) == 0,
    decreases m.len(),
{
    if m.len() > 0 {
        lemma_count_all_false(m.drop_last());
    }
}

/// The connectivity gate: accepts exactly the topologies whose drone
/// subgraph is connected and whose endpoints all touch a drone; a
/// rejection names a disconnected node. Runs after the uniqueness check,
/// whose result it relies on to identify listed ids.
pub(crate) fn check_connectivity(cfg: &TopologyConfig) -> (r: Result<(), TopologyError>)
    requires
        ids_unique(cfg.nodes@),
    ensures
        r is Ok <==> connectivity_ok(cfg.nodes@),
        match r {
            Ok(()) => connectivity_ok(cfg.nodes@),
            Err(e) => match e {
                TopologyError::Disconnected { component } => !connectivity_ok(cfg.nodes@)
                    && disconnected_witness(cfg.nodes@, component),
                _ => false,
            },
        },
{
    let n = cfg.nodes.len();

    // The drone subgraph.
    match find_first_drone(cfg) {
        None => {
            proof {
                assert(drones_connected(cfg.nodes@)) by {
                    assert forall|f: int, j: int|
                        #![trigger is_first_drone(cfg.nodes@, f), cfg.nodes@[j].is_drone()]
                        is_first_drone(cfg.nodes@, f) && 0 <= j < cfg.nodes@.len()
                            && cfg.nodes@[j].is_drone() implies drone_reachable(
                        cfg.nodes@,
                        f,
                        j,
                    ) by {
                        assert(!cfg.nodes@[f].is_drone());
                    };
                }
            }
        },
        Some(f) => {
            let marked = mark_reachable(cfg, f);
            let mut j: usize = 0;
            while j < n
                invariant
                    n == cfg.nodes@.len(),
                    is_first_drone(cfg.nodes@, f as int),
                    f < n,
                    marked@.len() == n,
                    0 <= j <= n,
                    forall|x: int|
                        0 <= x < n && #[trigger] marked@[x] ==> drone_reachable(
                            cfg.nodes@,
                            f as int,
                            x,
                        ),
                    forall|x: int|
                        0 <= x < n && drone_reachable(cfg.nodes@, f as int, x)
                            ==> #[trigger] marked@[x],
                    forall|x: int|
                        0 <= x < j && (#[trigger] cfg.nodes@[x]).is_drone() ==> marked@[x],
                decreases n - j,
            {
                if is_drone_descriptor(&cfg.nodes[j]) && !marked[j] {
                    proof {
                        assert(!drone_reachable(cfg.nodes@, f as int, j as int));
                        assert(disconnected_witness(cfg.nodes@, cfg.nodes@[j as int].id)) by {
                            assert(is_first_drone(cfg.nodes@, f as int)
                                && cfg.nodes@[j as int].is_drone());
                        }
                        assert(!drones_connected(cfg.nodes@)) by {
                            assert(is_first_drone(cfg.nodes@, f as int)
                                && cfg.nodes@[j as int].is_drone());
                        }
                    }
                    return Err(TopologyError::Disconnected { component: cfg.nodes[j].id });
                }
                j = j + 1;
            }
            proof {
                assert(drones_connected(cfg.nodes@)) by {
                    assert forall|f2: int, x: int|
                        #![trigger is_first_drone(cfg.nodes@, f2), cfg.nodes@[x].is_drone()]
                        is_first_drone(cfg.nodes@, f2) && 0 <= x < cfg.nodes@.len()
                            && cfg.nodes@[x].is_drone() implies drone_reachable(
                        cfg.nodes@,
                        f2,
                        x,
                    ) by {
                        lemma_first_drone_unique(cfg.nodes@, f2, f as int);
                        assert(marked@[x]);
                    };
                }
            }
        },
    }

    // Endpoint anchoring.
    let mut i: usize = 0;
    while i < n
        invariant
            n == cfg.nodes@.len(),
            drones_connected(cfg.nodes@),
            0 <= i <= n,
            forall|p: int|
                0 <= p < i && (#[trigger] cfg.nodes@[p]).is_endpoint() ==> endpoint_anchored(
                    cfg.nodes@,
                    p,
                ),
        decreases n - i,
    {
        match cfg.nodes[i].kind {
            DeclaredKind::Drone { .. } => {},
            _ => {
                if !anchored_at(cfg, i) {
                    proof {
                        assert(!endpoints_anchored(cfg.nodes@)) by {
                            assert(cfg.nodes@[i as int].is_endpoint()
                                && !endpoint_anchored(cfg.nodes@, i as int));
                        }
                    }
                    return Err(TopologyError::Disconnected { component: cfg.nodes[i].id });
                }
            },
        }
        i = i + 1;
    }
    Ok(())
}

} // verus!
