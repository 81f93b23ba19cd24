use network_initializer::config::{DeclaredKind, NodeDescriptor, TopologyConfig};
use network_initializer::controller::RegisteredKind;
use network_initializer::factory::{
    client_type_from_coin, initialize, server_type_from_coin, variant_for_rank, ClientType,
    DroneVariant, ServerType, DRONE_VARIANT_COUNT,
};

#[test]
fn variant_list_cycles_in_order() {
    let expected = [
        DroneVariant::RustDoIt,
        DroneVariant::NullPointer,
        DroneVariant::Rolling,
        DroneVariant::SkyLink,
        DroneVariant::BagelBomber,
        DroneVariant::RustBusters,
        DroneVariant::Rusty,
        DroneVariant::LockheedRustin,
        DroneVariant::Bober,
        DroneVariant::Rustastic,
    ];
    assert_eq!(expected.len(), DRONE_VARIANT_COUNT);
    for (rank, v) in expected.into_iter().enumerate() {
        assert_eq!(variant_for_rank(rank), v);
        assert_eq!(variant_for_rank(rank + DRONE_VARIANT_COUNT), v);
    }
    assert_eq!(variant_for_rank(23), DroneVariant::SkyLink);
}

#[test]
fn endpoint_subtypes_follow_the_coin() {
    assert_eq!(client_type_from_coin(true), ClientType::ChatClient);
    assert_eq!(client_type_from_coin(false), ClientType::WebBrowser);
    assert_eq!(server_type_from_coin(true), ServerType::Content);
    assert_eq!(server_type_from_coin(false), ServerType::Communication);
}

#[test]
fn variants_count_drones_only() {
    // A chain of eleven drones with a client in between: the round-robin
    // rank counts drones alone, so the eleventh drone wraps back to the
    // first variant.
    let mut nodes: Vec<NodeDescriptor> = (1u8..=10)
        .map(|id| {
            let mut neighbor_ids = Vec::new();
            if id > 1 {
                neighbor_ids.push(id - 1);
            }
            neighbor_ids.push(if id < 10 { id + 1 } else { 12 });
            if id == 1 {
                neighbor_ids.push(11);
            }
            NodeDescriptor { id, kind: DeclaredKind::Drone { drop_ppm: 0 }, neighbor_ids }
        })
        .collect();
    nodes.push(NodeDescriptor { id: 11, kind: DeclaredKind::Client, neighbor_ids: vec![1] });
    nodes.push(NodeDescriptor {
        id: 12,
        kind: DeclaredKind::Drone { drop_ppm: 0 },
        neighbor_ids: vec![10],
    });
    let b = initialize(TopologyConfig { nodes }).unwrap();
    let kinds: Vec<RegisteredKind> = b.controller.nodes.iter().map(|n| n.kind).collect();
    assert_eq!(
        kinds[0],
        RegisteredKind::Drone { variant: DroneVariant::RustDoIt, drop_ppm: 0 }
    );
    assert_eq!(
        kinds[9],
        RegisteredKind::Drone { variant: DroneVariant::Rustastic, drop_ppm: 0 }
    );
    assert!(matches!(kinds[10], RegisteredKind::Client { .. }));
    assert_eq!(
        kinds[11],
        RegisteredKind::Drone { variant: DroneVariant::RustDoIt, drop_ppm: 0 }
    );
}

#[test]
fn bundle_and_registry_agree_on_decisions() {
    let cfg = TopologyConfig {
        nodes: vec![
            NodeDescriptor { id: 1, kind: DeclaredKind::Client, neighbor_ids: vec![10] },
            NodeDescriptor { id: 2, kind: DeclaredKind::Server, neighbor_ids: vec![10] },
            NodeDescriptor {
                id: 10,
                kind: DeclaredKind::Drone { drop_ppm: 0 },
                neighbor_ids: vec![1, 2],
            },
        ],
    };
    let b = initialize(cfg).unwrap();
    // The subtype is random, but it is decided exactly once: the bundle
    // handed to the actor and the controller's registry must agree.
    match (&b.nodes[0].role, &b.controller.nodes[0].kind) {
        (
            network_initializer::factory::NodeRole::Client { client_type, .. },
            RegisteredKind::Client { client_type: registered },
        ) => assert_eq!(client_type, registered),
        _ => panic!("node 1 must be registered as a client"),
    }
    match (&b.nodes[1].role, &b.controller.nodes[1].kind) {
        (
            network_initializer::factory::NodeRole::Server { server_type, .. },
            RegisteredKind::Server { server_type: registered },
        ) => assert_eq!(server_type, registered),
        _ => panic!("node 2 must be registered as a server"),
    }
}
