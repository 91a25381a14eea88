//! A verified core for Conway's Game of Life: a bounded (non-wrapping)
//! rectangular grid of binary cells, the generation-step rule, cell
//! toggling, and the interactive control state (pause, tick rate,
//! pointer-to-cell mapping). Rendering and windowing are left to an
//! unverified shell that calls into this crate.

pub mod control;
pub mod grid;
