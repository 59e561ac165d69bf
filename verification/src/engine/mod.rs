//! The running simulation: the resource store and the tick transition.

pub mod buffer;
pub mod conservation;
pub mod consistency;
pub mod coolant;
pub mod durability;
pub mod generation;
pub mod hull;
pub mod invariants;
pub mod layout;
pub mod pulses;
pub mod resource_store;
pub mod simulation;
pub mod sums;

pub use resource_store::{ResourceStore, TickDeltas};
pub use simulation::{SimView, Simulation};
