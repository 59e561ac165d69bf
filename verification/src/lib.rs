//! Deterministic resource simulation for a grid-based reactor builder.
//!
//! A [`Simulation`] owns a grid, the list of placed components and the
//! hull's resource store. Placement and removal keep grid and list in
//! agreement, and [`Simulation::tick`] advances the reactor by one step
//! through a fixed order of phases.
//!
//! Every quantity (money, power, heat, durability, rates, capacities) is a
//! signed fixed-point number: an `i64` count of millionths of a unit (see
//! [`units::UNIT`]). Sums stop at the ends of the `i64` range instead of
//! wrapping. Rates that are a fraction of a difference are rounded down to
//! a whole millionth; where heat is shared out among neighbours, what the
//! equal shares leave over goes to the hull, so none is lost. A tick is
//! therefore a pure integer function of the state before it, the same on
//! every machine.
//!
//! Each function states what it does over a mathematical view of its types;
//! the modules `engine::invariants`, `engine::consistency`,
//! `engine::conservation` and `save::round_trip` hold what follows for
//! whole simulations.

pub mod catalog;
pub mod engine;
pub mod model;
pub mod save;
pub mod text;
pub mod trade;
pub mod units;

pub use catalog::{
    color_from_name, CatalogEntry, ComponentCatalog, ComponentSpec, SelectionState,
};
pub use engine::{ResourceStore, SimView, Simulation, TickDeltas};
pub use model::names::parse_tier_component;
pub use model::{
    ComponentCategory, ComponentKind, ComponentStats, FuelKind, GridCell, GridCoord, GridError,
    GridView, PlacedComponent, ReactorGrid,
};
pub use save::{
    apply_save_data, export_to_base64, import_from_base64, payload_text, save_data_from_simulation,
    ApplyError, CodecError, SaveComponent, SaveData, SaveEntry, SaveRecord, SaveStore,
};
pub use trade::{buy_component, sell_component, spend_money};
