//! The node factory: for each validated descriptor it assembles the
//! bundle of endpoints an actor is constructed from, makes the one-time
//! kind decisions — the drone behavior variant by deterministic
//! round-robin over the drones in declaration order, the endpoint subtype
//! by a coin flip isolated to this single decision point — and registers
//! the node with the controller.

use vstd::prelude::*;
use crate::channel::{channel_send, channel_try_recv, clone_sender};
use crate::config::{copy_ids, DeclaredKind, NodeDescriptor, NodeId, TopologyConfig};
use crate::controller::{
    ClientEvent, ControllerNode, ControllerState, DroneEvent, NodeCommand, RegisteredKind,
    ServerEvent, SimulationController,
};
use crate::errors::{RuntimeError, TopologyError};
use crate::mesh::{build_mesh, lemma_symmetric_topology_resolves, outbound_for, Packet};
use crate::validate::{rejects_with, topology_valid, validate};
use crossbeam_channel::{Receiver, Sender};

verus! {

/// The fixed, enumerable set of interchangeable drone behavior variants.
/// All satisfy the same capability contract; which implementation backs a
/// variant is the concern of the layer that runs the actors.
#[derive(Clone, Copy, Debug, PartialEq, Eq, Structural)]
pub enum DroneVariant {
    RustDoIt,
    NullPointer,
    Rolling,
    SkyLink,
    BagelBomber,
    RustBusters,
    Rusty,
    LockheedRustin,
    Bober,
    Rustastic,
}

/// How many drone behavior variants there are.
pub const DRONE_VARIANT_COUNT: usize = 10;

/// The subtype of a client actor.
#[derive(Clone, Copy, Debug, PartialEq, Eq, Structural)]
pub enum ClientType {
    ChatClient,
    WebBrowser,
}

/// The subtype of a server actor.
#[derive(Clone, Copy, Debug, PartialEq, Eq, Structural)]
pub enum ServerType {
    Communication,
    Content,
}

/// The variant assigned to the drone of the given rank: round-robin over
/// the variant list, stable for reproducibility.
pub open spec fn variant_at(rank: int) -> DroneVariant {
    let k = rank % 10;
    if k == 0 {
        DroneVariant::RustDoIt
    } else if k == 1 {
        DroneVariant::NullPointer
    } else if k == 2 {
        DroneVariant::Rolling
    } else if k == 3 {
        DroneVariant::SkyLink
    } else if k == 4 {
        DroneVariant::BagelBomber
    } else if k == 5 {
        DroneVariant::RustBusters
    } else if k == 6 {
        DroneVariant::Rusty
    } else if k == 7 {
        DroneVariant::LockheedRustin
    } else if k == 8 {
        DroneVariant::Bober
    } else {
        DroneVariant::Rustastic
    }
}

/// Deterministic round-robin variant selection: `rank` counts the drones,
/// and only the drones, in declaration order.
pub fn variant_for_rank(rank: usize) -> (v: DroneVariant)
    ensures
        v == variant_at(rank as int),
{
    match rank % DRONE_VARIANT_COUNT {
        0 => DroneVariant::RustDoIt,
        1 => DroneVariant::NullPointer,
        2 => DroneVariant::Rolling,
        3 => DroneVariant::SkyLink,
        4 => DroneVariant::BagelBomber,
        5 => DroneVariant::RustBusters,
        6 => DroneVariant::Rusty,
        7 => DroneVariant::LockheedRustin,
        8 => DroneVariant::Bober,
        _ => DroneVariant::Rustastic,
    }
}

/// The client subtype picked by the factory's coin.
pub fn client_type_from_coin(heads: bool) -> (t: ClientType)
    ensures
        t == (if heads {
            ClientType::ChatClient
        } else {
            ClientType::WebBrowser
        }),
{
    if heads {
        ClientType::ChatClient
    } else {
        ClientType::WebBrowser
    }
}

/// The server subtype picked by the factory's coin.
pub fn server_type_from_coin(heads: bool) -> (t: ServerType)
    ensures
        t == (if heads {
            ServerType::Content
        } else {
            ServerType::Communication
        }),
{
    if heads {
        ServerType::Content
    } else {
        ServerType::Communication
    }
}

/// Relies on `rand::random`: one draw from the thread-local generator.
/// The outcome depends on the generator's state, so nothing is promised
/// of the value.
#[verifier::external_body]
fn random_coin() -> (heads: bool) {
    rand::random::<bool>()
}

/// The kind-specific part of a node's bundle: the factory's decisions for
/// the kind, plus a sending end of that kind's event channel.
pub enum NodeRole {
    Drone { variant: DroneVariant, drop_ppm: u32, drone_events: Sender<DroneEvent> },
    Client { client_type: ClientType, client_events: Sender<ClientEvent> },
    Server { server_type: ServerType, server_events: Sender<ServerEvent> },
}

/// Everything one actor is constructed from. The receivers and the
/// outbound map are owned here alone: handing the bundle to an actor is a
/// single-owner transfer, never a shared reference.
pub struct NodeBundle {
    pub id: NodeId,
    pub commands: Receiver<NodeCommand>,
    pub packets_in: Receiver<Packet>,
    pub packets_out: Vec<(NodeId, Sender<Packet>)>,
    pub role: NodeRole,
}

/// The role records for the controller the same decisions the bundle
/// carries: kind, variant, subtype and drop probability agree.
pub open spec fn role_matches_kind(role: NodeRole, kind: RegisteredKind) -> bool {
    match (role, kind) {
        (
            NodeRole::Drone { variant: v1, drop_ppm: p1, .. },
            RegisteredKind::Drone { variant: v2, drop_ppm: p2 },
        ) => v1 == v2 && p1 == p2,
        (
            NodeRole::Client { client_type: t1, .. },
            RegisteredKind::Client { client_type: t2 },
        ) => t1 == t2,
        (
            NodeRole::Server { server_type: t1, .. },
            RegisteredKind::Server { server_type: t2 },
        ) => t1 == t2,
        _ => false,
    }
}

/// The registered kind a descriptor must end up with: declared kind and
/// drop probability are preserved, and a drone of rank `rank` carries the
/// round-robin variant. The endpoint subtype is the factory's coin, so
/// only its presence is dictated here.
pub open spec fn kind_of_descriptor(d: NodeDescriptor, rank: int, kind: RegisteredKind) -> bool {
    match d.kind {
        DeclaredKind::Drone { drop_ppm } => kind == (RegisteredKind::Drone {
            variant: variant_at(rank),
            drop_ppm,
        }),
        DeclaredKind::Client => kind is Client,
        DeclaredKind::Server => kind is Server,
    }
}

/// How many of the first `i` descriptors are drones: the rank the next
/// drone would get.
pub open spec fn drone_rank(s: Seq<NodeDescriptor>, i: int) -> int
    decreases i,
{
    if i <= 0 {
        0
    } else {
        drone_rank(s, i - 1) + if s[i - 1].is_drone() {
            1int
        } else {
            0int
        }
    }
}

/// A bootstrapped simulation: one bundle per node, ready to be handed to
/// its actor, and the controller that supervises them.
pub struct Bootstrap {
    pub nodes: Vec<NodeBundle>,
    pub controller: SimulationController,
}

/// The bootstrap faithfully reflects the declared topology: one bundle
/// and one registry entry per descriptor, in order, with ids, neighbor
/// lists and kinds preserved, drone variants assigned round-robin, bundle
/// and registry agreeing on every decision, and the controller starting
/// in `Running` with every spawned task still unjoined.
pub open spec fn bootstrap_matches(b: Bootstrap, s: Seq<NodeDescriptor>) -> bool {
    &&& b.nodes@.len() == s.len()
    &&& b.controller.nodes@.len() == s.len()
    &&& b.controller.state == ControllerState::Running
    &&& b.controller.unjoined@.len() == s.len()
    &&& forall|i: int| 0 <= i < s.len() ==> (#[trigger] b.nodes@[i].id) == s[i].id
    &&& forall|i: int| 0 <= i < s.len() ==> (#[trigger] b.controller.nodes@[i].id) == s[i].id
    &&& forall|i: int| 0 <= i < s.len() ==> (#[trigger] b.controller.unjoined@[i]) == s[i].id
    &&& forall|i: int|
        0 <= i < s.len() ==> (#[trigger] b.controller.nodes@[i].neighbor_ids@)
            == s[i].neighbor_ids@
    &&& forall|i: int|
        0 <= i < s.len() ==> kind_of_descriptor(
            s[i],
            drone_rank(s, i),
            #[trigger] b.controller.nodes@[i].kind,
        )
    &&& forall|i: int|
        0 <= i < s.len() ==> role_matches_kind(
            #[trigger] b.nodes@[i].role,
            b.controller.nodes@[i].kind,
        )
    &&& forall|i: int|
        0 <= i < s.len() ==> (#[trigger] b.nodes@[i].packets_out@.len())
            == s[i].neighbor_ids@.len()
    &&& forall|i: int, j: int|
        0 <= i < s.len() && 0 <= j < s[i].neighbor_ids@.len() ==> (#[trigger] b.nodes@[
            i
        ].packets_out@[j].0) == s[i].neighbor_ids@[j]
}

/// Bootstraps a simulation from a declared topology: validates it, wires
/// the channel mesh, assembles one bundle per node and registers every
/// node with the controller. Succeeds exactly on valid topologies; a
/// rejected one is reported before any channel end leaves this function.
pub fn initialize(cfg: TopologyConfig) -> (r: Result<Bootstrap, TopologyError>)
    ensures
        r is Ok <==> topology_valid(cfg.nodes@),
        match r {
            Ok(b) => bootstrap_matches(b, cfg.nodes@),
            Err(e) => rejects_with(cfg.nodes@, e),
        },
{
    match validate(&cfg) {
        Err(e) => {
            return Err(e);
        },
        Ok(()) => {},
    }
    let mut mesh = build_mesh(&cfg);
    let (drone_tx, drone_rx) = crossbeam_channel::unbounded::<DroneEvent>();
    let (client_tx, client_rx) = crossbeam_channel::unbounded::<ClientEvent>();
    let (server_tx, server_rx) = crossbeam_channel::unbounded::<ServerEvent>();

    let n = cfg.nodes.len();
    let mut bundles: Vec<NodeBundle> = Vec::new();
    let mut registry: Vec<ControllerNode> = Vec::new();
    let mut rank: usize = 0;
    let mut i: usize = 0;
    while i < n
        invariant
            n == cfg.nodes@.len(),
            0 <= i <= n,
            topology_valid(cfg.nodes@),
            crate::mesh::senders_match(mesh, cfg.nodes@),
            mesh.receivers@.len() == n - i,
            forall|k: int|
                0 <= k < n - i ==> (#[trigger] mesh.receivers@[k].0) == cfg.nodes@[k + i].id,
            bundles@.len() == i,
            registry@.len() == i,
            rank <= i,
            rank == drone_rank(cfg.nodes@, i as int),
            forall|k: int| 0 <= k < i ==> (#[trigger] bundles@[k].id) == cfg.nodes@[k].id,
            forall|k: int| 0 <= k < i ==> (#[trigger] registry@[k].id) == cfg.nodes@[k].id,
            forall|k: int|
                0 <= k < i ==> (#[trigger] registry@[k].neighbor_ids@)
                    == cfg.nodes@[k].neighbor_ids@,
            forall|k: int|
                0 <= k < i ==> kind_of_descriptor(
                    cfg.nodes@[k],
                    drone_rank(cfg.nodes@, k),
                    #[trigger] registry@[k].kind,
                ),
            forall|k: int|
                0 <= k < i ==> role_matches_kind(#[trigger] bundles@[k].role, registry@[k].kind),
            forall|k: int|
                0 <= k < i ==> (#[trigger] bundles@[k].packets_out@.len())
                    == cfg.nodes@[k].neighbor_ids@.len(),
            forall|k: int, j: int|
                0 <= k < i && 0 <= j < cfg.nodes@[k].neighbor_ids@.len() ==> (#[trigger] bundles@[
                    k
                ].packets_out@[j].0) == cfg.nodes@[k].neighbor_ids@[j],
        decreases n - i,
    {
        let d = &cfg.nodes[i];
        let out = match outbound_for(&mesh, d) {
            Ok(o) => o,
            Err(e) => {
                proof {
                    lemma_symmetric_topology_resolves(mesh, cfg.nodes@, i as int);
                    assert(false) by {
                        let to = e->UnresolvedNeighbor_to;
                        let j = choose|j: int|
                            0 <= j < d.neighbor_ids@.len() && d.neighbor_ids@[j] == to;
                        assert(mesh.has_sender(d.neighbor_ids@[j]));
                    }
                }
                return Err(e);
            },
        };
        let (_rid, packets_in) = mesh.pop_receiver();
        let (command_tx, command_rx) = crossbeam_channel::unbounded::<NodeCommand>();
        let (role, kind) = match d.kind {
            DeclaredKind::Drone { drop_ppm } => {
                let variant = variant_for_rank(rank);
                rank = rank + 1;
                (
                    NodeRole::Drone { variant, drop_ppm, drone_events: clone_sender(&drone_tx) },
                    RegisteredKind::Drone { variant, drop_ppm },
                )
            },
            DeclaredKind::Client => {
                let client_type = client_type_from_coin(random_coin());
                (
                    NodeRole::Client { client_type, client_events: clone_sender(&client_tx) },
                    RegisteredKind::Client { client_type },
                )
            },
            DeclaredKind::Server => {
                let server_type = server_type_from_coin(random_coin());
                (
                    NodeRole::Server { server_type, server_events: clone_sender(&server_tx) },
                    RegisteredKind::Server { server_type },
                )
            },
        };
        let bundle = NodeBundle {
            id: d.id,
            commands: command_rx,
            packets_in,
            packets_out: out,
            role,
        };
        let record = ControllerNode {
            id: d.id,
            kind,
            neighbor_ids: copy_ids(&d.neighbor_ids),
            command_send: command_tx,
        };
        bundles.push(bundle);
        registry.push(record);
        i = i + 1;
    }
    let controller = SimulationController::new(registry, drone_rx, client_rx, server_rx);
    Ok(Bootstrap { nodes: bundles, controller })
}

impl NodeBundle {
    /// The bundle's outbound map has a sender under `id`.
    pub open spec fn knows_neighbor(self, id: NodeId) -> bool {
        exists|k: int| 0 <= k < self.packets_out@.len() && self.packets_out@[k].0 == id
    }

    /// A non-blocking look at the command channel.
    pub fn try_command(&self) -> (c: Option<NodeCommand>) {
        channel_try_recv(&self.commands)
    }

    /// A non-blocking look at the inbound packet channel.
    pub fn try_packet(&self) -> (p: Option<Packet>) {
        channel_try_recv(&self.packets_in)
    }

    /// Sends a packet to the declared neighbor `to`. Fails with
    /// `UnknownNode` exactly when `to` is not in this node's outbound
    /// map; a neighbor whose inbound end is gone is a `NodeFailure`.
    pub fn send_packet(&self, to: NodeId, p: Packet) -> (r: Result<(), RuntimeError>)
        ensures
            r == Err::<(), RuntimeError>(RuntimeError::UnknownNode { id: to }) <==> !self.knows_neighbor(to),
            r is Ok || r == Err::<(), RuntimeError>(RuntimeError::UnknownNode { id: to }) || r
                == Err::<(), RuntimeError>(RuntimeError::NodeFailure { id: to }),
    {
        let n = self.packets_out.len();
        let mut k: usize = 0;
        while k < n
            invariant
                n == self.packets_out@.len(),
                0 <= k <= n,
                forall|q: int| 0 <= q < k ==> (#[trigger] self.packets_out@[q].0) != to,
            decreases n - k,
        {
            if self.packets_out[k].0 == to {
                if channel_send(&self.packets_out[k].1, p) {
                    return Ok(());
                } else {
                    return Err(RuntimeError::NodeFailure { id: to });
                }
            }
            k = k + 1;
        }
        Err(RuntimeError::UnknownNode { id: to })
    }

    /// Reports on the kind-matching event channel that this node's
    /// control loop has returned.
    pub fn notify_stopped(&self) -> (accepted: bool) {
        match &self.role {
            NodeRole::Drone { drone_events, .. } => channel_send(
                drone_events,
                DroneEvent::Stopped { id: self.id },
            ),
            NodeRole::Client { client_events, .. } => channel_send(
                client_events,
                ClientEvent::Stopped { id: self.id },
            ),
            NodeRole::Server { server_events, .. } => channel_send(
                server_events,
                ServerEvent::Stopped { id: self.id },
            ),
        }
    }
}

} // verus!
