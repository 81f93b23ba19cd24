//! Topology bootstrap and simulation control plane for a simulated
//! point-to-point network of drones, clients and servers.
//!
//! A declarative [`config::TopologyConfig`] is turned into a live mesh of
//! bidirectional packet channels ([`mesh`]), gated by a pure validator
//! ([`validate`]), wired into one bundle of endpoints per node ([`factory`]),
//! and supervised for its whole lifetime by a [`controller::SimulationController`].

pub mod channel;
pub mod config;
pub mod connectivity;
pub mod controller;
pub mod errors;
pub mod factory;
pub mod mesh;
pub mod validate;
