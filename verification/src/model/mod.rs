//! Static data model: coordinates, the occupancy grid and component kinds.

pub mod component;
pub mod grid;
pub mod names;

pub use component::{
    ComponentCategory, ComponentKind, ComponentStats, FuelKind, PlacedComponent,
};
pub use grid::{GridCell, GridCoord, GridError, GridView, ReactorGrid};
