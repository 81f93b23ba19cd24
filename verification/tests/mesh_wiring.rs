use network_initializer::config::{DeclaredKind, NodeDescriptor, TopologyConfig};
use network_initializer::errors::{RuntimeError, TopologyError};
use network_initializer::factory::initialize;
use network_initializer::mesh::{build_mesh, outbound_for, Packet};

fn drone(id: u8, drop_ppm: u32, neighbor_ids: Vec<u8>) -> NodeDescriptor {
    NodeDescriptor { id, kind: DeclaredKind::Drone { drop_ppm }, neighbor_ids }
}

fn client(id: u8, neighbor_ids: Vec<u8>) -> NodeDescriptor {
    NodeDescriptor { id, kind: DeclaredKind::Client, neighbor_ids }
}

fn server(id: u8, neighbor_ids: Vec<u8>) -> NodeDescriptor {
    NodeDescriptor { id, kind: DeclaredKind::Server, neighbor_ids }
}

fn linear_topology() -> TopologyConfig {
    TopologyConfig {
        nodes: vec![
            drone(1, 50_000, vec![2, 3]),
            drone(2, 100_000, vec![1, 4]),
            client(3, vec![1]),
            server(4, vec![2]),
        ],
    }
}

#[test]
fn mesh_has_one_channel_per_node() {
    let cfg = linear_topology();
    let mesh = build_mesh(&cfg);
    assert_eq!(mesh.senders.len(), 4);
    assert_eq!(mesh.receivers.len(), 4);
    for (k, expected) in [1u8, 2, 3, 4].into_iter().enumerate() {
        assert_eq!(mesh.senders[k].0, expected);
        assert_eq!(mesh.receivers[k].0, expected);
    }
}

#[test]
fn outbound_maps_cover_declared_neighbors() {
    let cfg = linear_topology();
    let mesh = build_mesh(&cfg);
    let out1 = outbound_for(&mesh, &cfg.nodes[0]).unwrap();
    let keys1: Vec<u8> = out1.iter().map(|p| p.0).collect();
    assert_eq!(keys1, vec![2, 3]);
    let out2 = outbound_for(&mesh, &cfg.nodes[1]).unwrap();
    let keys2: Vec<u8> = out2.iter().map(|p| p.0).collect();
    assert_eq!(keys2, vec![1, 4]);
}

#[test]
fn unresolved_neighbor_aborts_construction() {
    // Drone 1 lists neighbor 9, but no descriptor with id 9 exists.
    let cfg = TopologyConfig {
        nodes: vec![drone(1, 0, vec![9])],
    };
    let mesh = build_mesh(&cfg);
    let r = outbound_for(&mesh, &cfg.nodes[0]);
    assert_eq!(r.err(), Some(TopologyError::UnresolvedNeighbor { from: 1, to: 9 }));
}

#[test]
fn bootstrap_wires_the_declared_mesh() {
    let b = initialize(linear_topology()).unwrap();
    assert_eq!(b.nodes.len(), 4);
    let keys1: Vec<u8> = b.nodes[0].packets_out.iter().map(|p| p.0).collect();
    assert_eq!(keys1, vec![2, 3]);
    let keys2: Vec<u8> = b.nodes[1].packets_out.iter().map(|p| p.0).collect();
    assert_eq!(keys2, vec![1, 4]);
    let keys3: Vec<u8> = b.nodes[2].packets_out.iter().map(|p| p.0).collect();
    assert_eq!(keys3, vec![1]);
    let keys4: Vec<u8> = b.nodes[3].packets_out.iter().map(|p| p.0).collect();
    assert_eq!(keys4, vec![2]);
}

#[test]
fn bootstrap_rejects_invalid_topology() {
    let cfg = TopologyConfig {
        nodes: vec![client(3, vec![5]), client(5, vec![3])],
    };
    let r = initialize(cfg);
    assert!(matches!(
        r.err(),
        Some(TopologyError::IllegalEndpointAdjacency { node: 3 })
    ));
}

#[test]
fn bootstrap_reports_asymmetry_before_resolution() {
    // Drone 1 lists the unknown id 9: symmetry already fails, so the
    // bootstrap reports the asymmetric edge, never an unresolved neighbor.
    let cfg = TopologyConfig {
        nodes: vec![drone(1, 0, vec![9])],
    };
    let r = initialize(cfg);
    assert_eq!(r.err(), Some(TopologyError::AsymmetricEdge { a: 1, b: 9 }));
}

#[test]
fn packets_flow_between_declared_neighbors() {
    let b = initialize(linear_topology()).unwrap();
    let sent = b.nodes[0].send_packet(2, Packet { payload: vec![10, 20, 30] });
    assert_eq!(sent, Ok(()));
    let got = b.nodes[1].try_packet().expect("packet should be ready");
    assert_eq!(got.payload, vec![10, 20, 30]);
    assert!(b.nodes[1].try_packet().is_none());
}

#[test]
fn send_packet_to_undeclared_neighbor_fails() {
    let b = initialize(linear_topology()).unwrap();
    // Node 1's outbound map holds 2 and 3 only.
    let r = b.nodes[0].send_packet(4, Packet { payload: vec![] });
    assert_eq!(r, Err(RuntimeError::UnknownNode { id: 4 }));
}
