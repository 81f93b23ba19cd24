use network_initializer::config::{DeclaredKind, NodeDescriptor, TopologyConfig, MAX_DROP_PPM};
use network_initializer::errors::TopologyError;
use network_initializer::validate::validate;

fn drone(id: u8, drop_ppm: u32, neighbor_ids: Vec<u8>) -> NodeDescriptor {
    NodeDescriptor { id, kind: DeclaredKind::Drone { drop_ppm }, neighbor_ids }
}

fn client(id: u8, neighbor_ids: Vec<u8>) -> NodeDescriptor {
    NodeDescriptor { id, kind: DeclaredKind::Client, neighbor_ids }
}

fn server(id: u8, neighbor_ids: Vec<u8>) -> NodeDescriptor {
    NodeDescriptor { id, kind: DeclaredKind::Server, neighbor_ids }
}

#[test]
fn empty_topology_validates() {
    let cfg = TopologyConfig { nodes: vec![] };
    assert_eq!(validate(&cfg), Ok(()));
}

#[test]
fn linear_topology_validates() {
    let cfg = TopologyConfig {
        nodes: vec![
            drone(1, 50_000, vec![2, 3]),
            drone(2, 100_000, vec![1, 4]),
            client(3, vec![1]),
            server(4, vec![2]),
        ],
    };
    assert_eq!(validate(&cfg), Ok(()));
}

#[test]
fn asymmetric_edge_rejected() {
    // Drone 1 lists drone 2, but drone 2 does not list drone 1 back.
    let cfg = TopologyConfig {
        nodes: vec![drone(1, 0, vec![2]), drone(2, 0, vec![])],
    };
    assert_eq!(
        validate(&cfg),
        Err(TopologyError::AsymmetricEdge { a: 1, b: 2 })
    );
}

#[test]
fn endpoint_adjacency_rejected() {
    // Two clients wired directly to each other.
    let cfg = TopologyConfig {
        nodes: vec![client(3, vec![5]), client(5, vec![3])],
    };
    assert_eq!(
        validate(&cfg),
        Err(TopologyError::IllegalEndpointAdjacency { node: 3 })
    );
}

#[test]
fn server_to_server_edge_rejected() {
    let cfg = TopologyConfig {
        nodes: vec![server(8, vec![9]), server(9, vec![8])],
    };
    assert_eq!(
        validate(&cfg),
        Err(TopologyError::IllegalEndpointAdjacency { node: 8 })
    );
}

#[test]
fn drop_probability_out_of_range_rejected() {
    let cfg = TopologyConfig {
        nodes: vec![drone(6, 1_500_000, vec![])],
    };
    assert_eq!(
        validate(&cfg),
        Err(TopologyError::InvalidDropProbability { node: 6, value: 1_500_000 })
    );
}

#[test]
fn drop_probability_boundary_accepted() {
    let cfg = TopologyConfig {
        nodes: vec![drone(6, MAX_DROP_PPM, vec![])],
    };
    assert_eq!(validate(&cfg), Ok(()));
}

#[test]
fn duplicate_node_id_rejected() {
    let cfg = TopologyConfig {
        nodes: vec![drone(7, 0, vec![]), drone(7, 0, vec![])],
    };
    assert_eq!(validate(&cfg), Err(TopologyError::DuplicateNodeId { id: 7 }));
}

#[test]
fn disconnected_drone_graph_rejected() {
    // Two drone islands: 1 - 2 and 3 - 4. The first unreached drone is 3.
    let cfg = TopologyConfig {
        nodes: vec![
            drone(1, 0, vec![2]),
            drone(2, 0, vec![1]),
            drone(3, 0, vec![4]),
            drone(4, 0, vec![3]),
        ],
    };
    assert_eq!(validate(&cfg), Err(TopologyError::Disconnected { component: 3 }));
}

#[test]
fn unanchored_endpoint_rejected() {
    let cfg = TopologyConfig {
        nodes: vec![drone(1, 0, vec![]), client(3, vec![])],
    };
    assert_eq!(validate(&cfg), Err(TopologyError::Disconnected { component: 3 }));
}

#[test]
fn lone_client_rejected() {
    let cfg = TopologyConfig { nodes: vec![client(3, vec![])] };
    assert_eq!(validate(&cfg), Err(TopologyError::Disconnected { component: 3 }));
}

#[test]
fn checks_run_in_order() {
    // Both an asymmetric edge and an out-of-range drop probability: the
    // symmetry check runs first and its violation is the one reported.
    let cfg = TopologyConfig {
        nodes: vec![drone(1, 9_000_000, vec![2]), drone(2, 0, vec![])],
    };
    assert_eq!(
        validate(&cfg),
        Err(TopologyError::AsymmetricEdge { a: 1, b: 2 })
    );
}
