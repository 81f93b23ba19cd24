//! The error taxonomy of the control plane: fatal topology errors found
//! before any actor starts, and per-operation runtime errors.

use vstd::prelude::*;
use crate::config::NodeId;

verus! {

/// Fatal problems in a declared topology. Every one of these aborts the
/// bootstrap before any actor is spawned: a partially wired mesh never runs.
#[derive(Clone, Copy, Debug, PartialEq, Eq, Structural)]
pub enum TopologyError {
    /// `from` lists neighbor `to`, but no descriptor carries id `to`.
    UnresolvedNeighbor { from: NodeId, to: NodeId },
    /// `a` lists `b`, but no descriptor with id `b` lists `a` back.
    AsymmetricEdge { a: NodeId, b: NodeId },
    /// A client or server is wired directly to another client or server.
    IllegalEndpointAdjacency { node: NodeId },
    /// A drone's drop probability, in parts per million, lies outside [0, 1].
    InvalidDropProbability { node: NodeId, value: u32 },
    /// Two descriptors carry the same id.
    DuplicateNodeId { id: NodeId },
    /// The named node is cut off: a drone the rest of the drone subgraph
    /// cannot reach, or an endpoint without a drone neighbor.
    Disconnected { component: NodeId },
}

/// Failures of a single supervisory operation at run time. These are
/// returned to the caller; they never abort the whole simulation.
#[derive(Clone, Copy, Debug, PartialEq, Eq, Structural)]
pub enum RuntimeError {
    /// The addressed id is not registered with the controller.
    UnknownNode { id: NodeId },
    /// The node's channel is gone: its task ended unexpectedly.
    NodeFailure { id: NodeId },
}

} // verus!
