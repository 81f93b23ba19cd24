use network_initializer::config::{DeclaredKind, NodeDescriptor, TopologyConfig};
use network_initializer::controller::{
    ClientEvent, ControllerState, DroneEvent, NodeCommand, RegisteredKind, ServerEvent,
};
use network_initializer::errors::RuntimeError;
use network_initializer::factory::{initialize, DroneVariant};

fn drone(id: u8, drop_ppm: u32, neighbor_ids: Vec<u8>) -> NodeDescriptor {
    NodeDescriptor { id, kind: DeclaredKind::Drone { drop_ppm }, neighbor_ids }
}

fn client(id: u8, neighbor_ids: Vec<u8>) -> NodeDescriptor {
    NodeDescriptor { id, kind: DeclaredKind::Client, neighbor_ids }
}

fn server(id: u8, neighbor_ids: Vec<u8>) -> NodeDescriptor {
    NodeDescriptor { id, kind: DeclaredKind::Server, neighbor_ids }
}

fn linear_topology() -> TopologyConfig {
    TopologyConfig {
        nodes: vec![
            drone(1, 50_000, vec![2, 3]),
            drone(2, 100_000, vec![1, 4]),
            client(3, vec![1]),
            server(4, vec![2]),
        ],
    }
}

#[test]
fn bootstrap_registers_every_node() {
    let b = initialize(linear_topology()).unwrap();
    let c = &b.controller;
    assert_eq!(c.state, ControllerState::Running);
    assert_eq!(c.nodes.len(), 4);
    assert_eq!(c.unjoined, vec![1, 2, 3, 4]);
    let report = c.inspect_topology();
    assert_eq!(report.len(), 4);
    assert_eq!(report[0].id, 1);
    assert_eq!(
        report[0].kind,
        RegisteredKind::Drone { variant: DroneVariant::RustDoIt, drop_ppm: 50_000 }
    );
    assert_eq!(report[0].neighbor_ids, vec![2, 3]);
    assert_eq!(
        report[1].kind,
        RegisteredKind::Drone { variant: DroneVariant::NullPointer, drop_ppm: 100_000 }
    );
    assert!(matches!(report[2].kind, RegisteredKind::Client { .. }));
    assert!(matches!(report[3].kind, RegisteredKind::Server { .. }));
}

#[test]
fn crash_command_reaches_the_node() {
    let b = initialize(linear_topology()).unwrap();
    assert_eq!(b.controller.send_command(1, NodeCommand::Crash), Ok(()));
    assert_eq!(b.nodes[0].try_command(), Some(NodeCommand::Crash));
    assert_eq!(b.nodes[0].try_command(), None);
    // No other node saw the command.
    assert_eq!(b.nodes[1].try_command(), None);
}

#[test]
fn command_to_unknown_node_fails() {
    let b = initialize(linear_topology()).unwrap();
    assert_eq!(
        b.controller.send_command(99, NodeCommand::Crash),
        Err(RuntimeError::UnknownNode { id: 99 })
    );
}

#[test]
fn command_to_gone_node_reports_failure() {
    let b = initialize(linear_topology()).unwrap();
    let controller = b.controller;
    drop(b.nodes);
    assert_eq!(
        controller.send_command(1, NodeCommand::Crash),
        Err(RuntimeError::NodeFailure { id: 1 })
    );
}

#[test]
fn teardown_round_trip_terminates() {
    let b = initialize(linear_topology()).unwrap();
    let mut controller = b.controller;
    let delivered = controller.broadcast_crash();
    assert_eq!(delivered, 4);
    assert_eq!(controller.state, ControllerState::Draining);
    // Every node received the crash command.
    for bundle in &b.nodes {
        assert_eq!(bundle.try_command(), Some(NodeCommand::Crash));
    }
    // The actors stop; the join barrier makes progress node by node.
    for (k, bundle) in b.nodes.iter().enumerate() {
        assert!(bundle.notify_stopped());
        assert!(controller.note_task_returned(bundle.id));
        if k < 3 {
            assert_eq!(controller.state, ControllerState::Draining);
        }
    }
    assert_eq!(controller.state, ControllerState::Terminated);
    assert!(controller.unjoined.is_empty());
}

#[test]
fn join_barrier_ignores_unknown_id() {
    let b = initialize(linear_topology()).unwrap();
    let mut controller = b.controller;
    controller.broadcast_crash();
    assert!(!controller.note_task_returned(42));
    assert_eq!(controller.unjoined, vec![1, 2, 3, 4]);
    assert_eq!(controller.state, ControllerState::Draining);
}

#[test]
fn broadcast_on_empty_topology_terminates_at_once() {
    let b = initialize(TopologyConfig { nodes: vec![] }).unwrap();
    let mut controller = b.controller;
    assert_eq!(controller.broadcast_crash(), 0);
    assert_eq!(controller.state, ControllerState::Terminated);
}

#[test]
fn stop_events_arrive_per_kind() {
    let b = initialize(linear_topology()).unwrap();
    for bundle in &b.nodes {
        assert!(bundle.notify_stopped());
    }
    let (drone_evs, client_evs, server_evs) = b.controller.poll_events(10);
    assert_eq!(drone_evs, vec![DroneEvent::Stopped { id: 1 }, DroneEvent::Stopped { id: 2 }]);
    assert_eq!(client_evs, vec![ClientEvent::Stopped { id: 3 }]);
    assert_eq!(server_evs, vec![ServerEvent::Stopped { id: 4 }]);
    // The drain is exhaustive here: nothing is left.
    let (d2, c2, s2) = b.controller.poll_events(10);
    assert!(d2.is_empty() && c2.is_empty() && s2.is_empty());
}

#[test]
fn inspect_topology_is_idempotent() {
    let b = initialize(linear_topology()).unwrap();
    let mut controller = b.controller;
    let first = controller.inspect_topology();
    controller.send_command(2, NodeCommand::Crash).unwrap();
    controller.poll_events(5);
    let second = controller.inspect_topology();
    controller.broadcast_crash();
    let third = controller.inspect_topology();
    for report in [&second, &third] {
        assert_eq!(first.len(), report.len());
        for (a, b) in first.iter().zip(report.iter()) {
            assert_eq!(a.id, b.id);
            assert_eq!(a.kind, b.kind);
            assert_eq!(a.neighbor_ids, b.neighbor_ids);
        }
    }
}
