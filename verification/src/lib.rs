//! Verified core of a lattice-based job coordination hub: the state
//! lattices, the namespaces' delta functions and the hub's decisions.

pub mod lattice;
pub mod write_once;
pub mod str_map;
pub mod facts;
pub mod map_lattice;
pub mod decimal;
pub mod domain;
pub mod batch;
pub mod simulation;
pub mod monitor;
pub mod hub;
pub mod relay;
