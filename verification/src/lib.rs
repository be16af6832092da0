//! A two-dimensional cellular automaton (Conway's Game of Life) on a
//! toroidal grid: packed cell storage, toroidal neighbor counting, the
//! fixed two-state transition rule with double-buffered generation steps,
//! pattern seeding, and structural mutation of a live grid.

pub mod cell;
pub mod error;
pub mod laws;
pub mod pattern;
pub mod universe;

pub use cell::Cell;
pub use error::GridError;
pub use pattern::Pattern;
pub use universe::Universe;
