//! A toroidal Game of Life engine: a grid of cells that wraps at its edges,
//! stepped by the classic birth-on-3, survive-on-2-or-3 rule, with a change
//! tag per cell to drive incremental rendering, and two stamp operations
//! (a single-cell toggle and a glider) for direct edits.

pub mod cell;
pub mod laws;
mod random;
pub mod universe;

pub use cell::{Cell, GliderDirection, StartMode, ToggleMode};
pub use universe::{Glider, GridError, GridState, Universe, ALIVE_DRAWS, DRAW_RANGE};
