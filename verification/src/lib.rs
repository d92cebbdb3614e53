//! Verified game logic of the Magnum Opus factory spike: building tables,
//! footprints, the placement grid, group formation and control, the
//! production calculator, transport tiers, the world map, and the
//! meta-progression store.
pub mod fixed;
pub mod building;
pub mod cells;
pub mod footprint;
pub mod counts;
pub mod grid;
pub mod placement;
pub mod groups;
pub mod meta;
pub mod store;
pub mod calculator;
pub mod control;
pub mod world;
pub mod transport;
pub mod run;
