//! The simulation control plane: the registry of spawned nodes, the
//! per-node command channels, the fan-in event channels, and the lifecycle
//! over the states Running, Draining and Terminated. The Building phase of
//! the lifecycle ends when [`SimulationController::new`] returns, so a
//! controller value is first observed in `Running`.

use vstd::prelude::*;
use crate::channel::{channel_send, channel_try_recv};
use crate::config::{copy_ids, NodeId};
use crate::errors::RuntimeError;
use crate::factory::{ClientType, DroneVariant, ServerType};
use crossbeam_channel::{Receiver, Sender};

verus! {

/// A lifecycle command from the controller to one node. Every node obeys
/// at least `Crash`, which makes its control loop return.
#[derive(Clone, Copy, Debug, PartialEq, Eq, Structural)]
pub enum NodeCommand {
    Crash,
}

/// Telemetry from a drone to the controller.
#[derive(Clone, Copy, Debug, PartialEq, Eq, Structural)]
pub enum DroneEvent {
    PacketSent { id: NodeId },
    PacketDropped { id: NodeId },
    Stopped { id: NodeId },
}

/// Telemetry from a client to the controller.
#[derive(Clone, Copy, Debug, PartialEq, Eq, Structural)]
pub enum ClientEvent {
    RequestIssued { id: NodeId },
    Stopped { id: NodeId },
}

/// Telemetry from a server to the controller.
#[derive(Clone, Copy, Debug, PartialEq, Eq, Structural)]
pub enum ServerEvent {
    RequestServed { id: NodeId },
    Stopped { id: NodeId },
}

/// The controller's lifecycle state.
#[derive(Clone, Copy, Debug, PartialEq, Eq, Structural)]
pub enum ControllerState {
    /// All actors are spawned; supervisory operations are available.
    Running,
    /// Crash commands have gone out; the join barrier is being drained.
    Draining,
    /// Every spawned task has been joined; the simulation is over.
    Terminated,
}

/// What a node was registered as at spawn time: its kind together with the
/// one-time factory decisions for that kind.
#[derive(Clone, Copy, Debug, PartialEq, Eq, Structural)]
pub enum RegisteredKind {
    Drone { variant: DroneVariant, drop_ppm: u32 },
    Client { client_type: ClientType },
    Server { server_type: ServerType },
}

/// The controller-side record of one node, created once at spawn time and
/// kept for the controller's whole lifetime.
pub struct ControllerNode {
    pub id: NodeId,
    pub kind: RegisteredKind,
    pub neighbor_ids: Vec<NodeId>,
    pub command_send: Sender<NodeCommand>,
}

/// A read-only report of one registered node, as `inspect_topology`
/// returns it.
#[derive(Debug)]
pub struct NodeInfo {
    pub id: NodeId,
    pub kind: RegisteredKind,
    pub neighbor_ids: Vec<NodeId>,
}

/// The supervisor of a running simulation.
pub struct SimulationController {
    pub nodes: Vec<ControllerNode>,
    pub state: ControllerState,
    /// Ids of spawned tasks not yet joined, in spawn order.
    pub unjoined: Vec<NodeId>,
    pub drone_events: Receiver<DroneEvent>,
    pub client_events: Receiver<ClientEvent>,
    pub server_events: Receiver<ServerEvent>,
}

/// The state the join barrier dictates: `Terminated` exactly when no
/// spawned task is left unjoined.
pub open spec fn state_after(unjoined: Seq<NodeId>) -> ControllerState {
    if unjoined.len() == 0 {
        ControllerState::Terminated
    } else {
        ControllerState::Draining
    }
}

/// `s` with the first occurrence of `id` taken out; `s` itself when `id`
/// does not occur.
pub open spec fn remove_first(s: Seq<NodeId>, id: NodeId) -> Seq<NodeId>
    decreases s.len(),
{
    if s.len() == 0 {
        s
    } else if s[0] == id {
        s.drop_first()
    } else {
        seq![s[0]] + remove_first(s.drop_first(), id)
    }
}

/// The unjoined ids left after the tasks in `ids` have been joined in order.
pub open spec fn after_joins(unjoined: Seq<NodeId>, ids: Seq<NodeId>) -> Seq<NodeId>
    decreases ids.len(),
{
    if ids.len() == 0 {
        unjoined
    } else {
        after_joins(remove_first(unjoined, ids[0]), ids.drop_first())
    }
}

/// `r` reports exactly the registry `reg`: same length, and id, kind and
/// neighbor list agree position by position.
pub open spec fn registry_report(r: Seq<NodeInfo>, reg: Seq<ControllerNode>) -> bool {
    &&& r.len() == reg.len()
    &&& forall|k: int|
        0 <= k < reg.len() ==> (#[trigger] r[k].id) == reg[k].id && r[k].kind == reg[k].kind
            && r[k].neighbor_ids@ == reg[k].neighbor_ids@
}

impl SimulationController {
    /// Some registered node carries `id`.
    pub open spec fn registered(self, id: NodeId) -> bool {
        exists|k: int| 0 <= k < self.nodes@.len() && self.nodes@[k].id == id
    }

    /// Takes over the spawn-time registry and the event receivers; this is
    /// the transition out of the Building phase, so the controller starts
    /// in `Running` with every spawned task still unjoined.
    pub fn new(
        nodes: Vec<ControllerNode>,
        drone_events: Receiver<DroneEvent>,
        client_events: Receiver<ClientEvent>,
        server_events: Receiver<ServerEvent>,
    ) -> (c: Self)
        ensures
            c.nodes@ == nodes@,
            c.state == ControllerState::Running,
            c.unjoined@.len() == nodes@.len(),
            forall|k: int| 0 <= k < nodes@.len() ==> (#[trigger] c.unjoined@[k]) == nodes@[k].id,
    {
        let n = nodes.len();
        let mut unjoined: Vec<NodeId> = Vec::new();
        let mut i: usize = 0;
        while i < n
            invariant
                n == nodes@.len(),
                0 <= i <= n,
                unjoined@.len() == i,
                forall|k: int| 0 <= k < i ==> (#[trigger] unjoined@[k]) == nodes@[k].id,
            decreases n - i,
        {
            unjoined.push(nodes[i].id);
            i = i + 1;
        }
        SimulationController {
            nodes,
            state: ControllerState::Running,
            unjoined,
            drone_events,
            client_events,
            server_events,
        }
    }

    /// Position of the registered node carrying `id`, if any.
    fn find_node(&self, id: NodeId) -> (r: Option<usize>)
        ensures
            match r {
                Some(k) => k < self.nodes@.len() && self.nodes@[k as int].id == id,
                None => !self.registered(id),
            },
    {
        let n = self.nodes.len();
        let mut k: usize = 0;
        while k < n
            invariant
                n == self.nodes@.len(),
                0 <= k <= n,
                forall|q: int| 0 <= q < k ==> (#[trigger] self.nodes@[q].id) != id,
            decreases n - k,
        {
            if self.nodes[k].id == id {
                return Some(k);
            }
            k = k + 1;
        }
        None
    }

    /// Sends one command to the node registered under `id`. Fails with
    /// `UnknownNode` exactly when no node carries `id`; for a registered
    /// node the command is delivered unless the node's task is already
    /// gone, which is reported as `NodeFailure`.
    pub fn send_command(&self, id: NodeId, cmd: NodeCommand) -> (r: Result<(), RuntimeError>)
        requires
            self.state == ControllerState::Running,
        ensures
            r == Err::<(), RuntimeError>(RuntimeError::UnknownNode { id }) <==> !self.registered(id),
            r is Ok || r == Err::<(), RuntimeError>(RuntimeError::UnknownNode { id }) || r == Err::<
                (),
                RuntimeError,
            >(RuntimeError::NodeFailure { id }),
    {
        match self.find_node(id) {
            Some(k) => {
                if channel_send(&self.nodes[k].command_send, cmd) {
                    Ok(())
                } else {
                    Err(RuntimeError::NodeFailure { id })
                }
            },
            None => Err(RuntimeError::UnknownNode { id }),
        }
    }

    /// Sends `Crash` to every registered node, in registry order, and
    /// enters the Draining phase of the lifecycle. Returns how many nodes
    /// accepted the command; a node whose task is already gone is reported
    /// by the count, never retried. The registry and the join barrier are
    /// untouched.
    pub fn broadcast_crash(&mut self) -> (delivered: usize)
        requires
            old(self).state == ControllerState::Running,
        ensures
            final(self).nodes@ == old(self).nodes@,
            final(self).unjoined@ == old(self).unjoined@,
            final(self).state == state_after(final(self).unjoined@),
            delivered <= old(self).nodes@.len(),
    {
        let n = self.nodes.len();
        let mut delivered: usize = 0;
        let mut k: usize = 0;
        while k < n
            invariant
                n == self.nodes@.len(),
                0 <= k <= n,
                delivered <= k,
            decreases n - k,
        {
            if channel_send(&self.nodes[k].command_send, NodeCommand::Crash) {
                delivered = delivered + 1;
            }
            k = k + 1;
        }
        if self.unjoined.len() == 0 {
            self.state = ControllerState::Terminated;
        } else {
            self.state = ControllerState::Draining;
        }
        delivered
    }

    /// Records that the task spawned for `id` has returned: the join
    /// barrier makes progress for that node, and once the last task is in,
    /// the lifecycle ends in `Terminated`. Reports whether `id` was still
    /// pending; an id that was not leaves the barrier unchanged.
    pub fn note_task_returned(&mut self, id: NodeId) -> (was_pending: bool)
        requires
            old(self).state == ControllerState::Draining,
        ensures
            final(self).nodes@ == old(self).nodes@,
            was_pending == old(self).unjoined@.contains(id),
            final(self).unjoined@ == remove_first(old(self).unjoined@, id),
            final(self).state == state_after(final(self).unjoined@),
    {
        let found = first_position(&self.unjoined, id);
        let was_pending = match found {
            Some(idx) => {
                proof {
                    lemma_remove_first_at(self.unjoined@, id, idx as int);
                    assert(self.unjoined@.contains(id)) by {
                        assert(self.unjoined@[idx as int] == id);
                    }
                }
                self.unjoined.remove(idx);
                true
            },
            None => {
                proof {
                    assert(!self.unjoined@.contains(id));
                    lemma_remove_first_absent(self.unjoined@, id);
                }
                false
            },
        };
        if self.unjoined.len() == 0 {
            self.state = ControllerState::Terminated;
        } else {
            self.state = ControllerState::Draining;
        }
        was_pending
    }

    /// A read-only report of the registry: one entry per registered node,
    /// in registry order.
    pub fn inspect_topology(&self) -> (r: Vec<NodeInfo>)
        requires
            self.state == ControllerState::Running || self.state == ControllerState::Draining,
        ensures
            registry_report(r@, self.nodes@),
    {
        let n = self.nodes.len();
        let mut r: Vec<NodeInfo> = Vec::new();
        let mut k: usize = 0;
        while k < n
            invariant
                n == self.nodes@.len(),
                0 <= k <= n,
                r@.len() == k,
                forall|q: int|
                    0 <= q < k ==> (#[trigger] r@[q].id) == self.nodes@[q].id && r@[q].kind
                        == self.nodes@[q].kind && r@[q].neighbor_ids@
                        == self.nodes@[q].neighbor_ids@,
            decreases n - k,
        {
            let info = NodeInfo {
                id: self.nodes[k].id,
                kind: self.nodes[k].kind,
                neighbor_ids: copy_ids(&self.nodes[k].neighbor_ids),
            };
            r.push(info);
            k = k + 1;
        }
        r
    }

    /// A non-blocking, best-effort drain of the three event channels, at
    /// most `max` events each. Used for observability only: nothing about
    /// correctness may depend on what arrives here.
    pub fn poll_events(&self, max: usize) -> (evs: (
        Vec<DroneEvent>,
        Vec<ClientEvent>,
        Vec<ServerEvent>,
    ))
        requires
            self.state == ControllerState::Running || self.state == ControllerState::Draining,
        ensures
            evs.0@.len() <= max,
            evs.1@.len() <= max,
            evs.2@.len() <= max,
    {
        let d = drain(&self.drone_events, max);
        let c = drain(&self.client_events, max);
        let s = drain(&self.server_events, max);
        (d, c, s)
    }
}

/// Position of the first occurrence of `id` in `v`, if any.
fn first_position(v: &Vec<NodeId>, id: NodeId) -> (r: Option<usize>)
    ensures
        match r {
            Some(k) => k < v@.len() && v@[k as int] == id && (forall|q: int|
                0 <= q < k ==> v@[q] != id),
            None => forall|q: int| 0 <= q < v@.len() ==> v@[q] != id,
        },
{
    let n = v.len();
    let mut k: usize = 0;
    while k < n
        invariant
            n == v@.len(),
            0 <= k <= n,
            forall|q: int| 0 <= q < k ==> v@[q] != id,
        decreases n - k,
    {
        if v[k] == id {
            return Some(k);
        }
        k = k + 1;
    }
    None
}

/// Drains at most `max` ready messages from a channel without blocking.
fn drain<T>(r: &Receiver<T>, max: usize) -> (v: Vec<T>)
    ensures
        v@.len() <= max,
{
    let mut v: Vec<T> = Vec::new();
    let mut i: usize = 0;
    while i < max
        invariant
            0 <= i <= max,
            v@.len() <= i,
        decreases max - i,
    {
        match channel_try_recv(r) {
            Some(e) => v.push(e),
            None => {
                return v;
            },
        }
        i = i + 1;
    }
    v
}

/// Removing the first occurrence of the element found at the first
/// matching position `i` is removing position `i`.
proof fn lemma_remove_first_at(s: Seq<NodeId>, id: NodeId, i: int)
    requires
        0 <= i < s.len(),
        s[i] == id,
        forall|k: int| 0 <= k < i ==> s[k] != id,
    ensures
        remove_first(s, id) == s.remove(i),
    decreases i,
{
    if i == 0 {
        assert(s.drop_first() =~= s.remove(0));
    } else {
        lemma_remove_first_at(s.drop_first(), id, i - 1);
        assert(seq![s[0]] + s.drop_first().remove(i - 1) =~= s.remove(i));
    }
}

/// Removing an absent element changes nothing.
proof fn lemma_remove_first_absent(s: Seq<NodeId>, id: NodeId)
    requires
        !s.contains(id),
    ensures
        remove_first(s, id) == s,
    decreases s.len(),
{
    if s.len() > 0 {
        assert(s[0] != id);
        assert(!s.drop_first().contains(id)) by {
            if s.drop_first().contains(id) {
                let k = choose|k: int|
                    0 <= k < s.drop_first().len() && s.drop_first()[k] == id;
                assert(s[k + 1] == id);
            }
        }
        lemma_remove_first_absent(s.drop_first(), id);
        assert(seq![s[0]] + s.drop_first() =~= s);
    }
}

/// Law: the full teardown round trip completes. Once `broadcast_crash`
/// has moved the controller into Draining, joining every task the barrier
/// records — which is what `note_task_returned` performs, one id at a
/// time — leaves the barrier empty, and the state the barrier dictates is
/// `Terminated`: no task is left unjoined.
pub proof fn lemma_teardown_round_trip(unjoined: Seq<NodeId>)
    ensures
        after_joins(unjoined, unjoined).len() == 0,
        state_after(after_joins(unjoined, unjoined)) == ControllerState::Terminated,
    decreases unjoined.len(),
{
    if unjoined.len() > 0 {
        assert(remove_first(unjoined, unjoined[0]) == unjoined.drop_first());
        lemma_teardown_round_trip(unjoined.drop_first());
    }
}

/// Law: `inspect_topology` is idempotent. Its report is a function of the
/// registry alone, and every operation of the Running and Draining phases
/// keeps the registry unchanged, so any two reports taken between Running
/// and Draining agree entry by entry.
pub proof fn lemma_inspect_idempotent(r1: Seq<NodeInfo>, r2: Seq<NodeInfo>, reg: Seq<ControllerNode>)
    requires
        registry_report(r1, reg),
        registry_report(r2, reg),
    ensures
        r1.len() == r2.len(),
        forall|k: int|
            0 <= k < r1.len() ==> (#[trigger] r1[k].id) == r2[k].id && r1[k].kind == r2[k].kind
                && r1[k].neighbor_ids@ == r2[k].neighbor_ids@,
{
    assert forall|k: int|
        0 <= k < r1.len() implies (#[trigger] r1[k].id) == r2[k].id && r1[k].kind == r2[k].kind
        && r1[k].neighbor_ids@ == r2[k].neighbor_ids@ by {
        assert(r1[k].id == reg[k].id);
        assert(r2[k].id == reg[k].id);
    };
}

} // verus!
