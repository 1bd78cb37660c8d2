//! Conway's Game of Life on a toroidal grid.
//!
//! The crate holds the cell and its transition rule ([`cell`]), the
//! mathematical model of a grid and of one generation step ([`grid`]), the
//! plaintext pattern notation ([`pattern`]), the two patterns that come with
//! the library ([`shapes`]) and the executable universe ([`universe`]). What
//! holds of every grid and of every pattern text is proved in [`laws`].
//!
//! ```text
//! let mut universe = Universe::new();
//! universe.insert_glider(60, 60);
//! universe.tick();
//! for slot in universe.diff().iter().take_while(|slot| **slot != UNUSED) {
//!     // redraw the cell stored at position `slot`
//! }
//! ```

pub mod cell;
mod coin;
pub mod grid;
pub mod laws;
pub mod pattern;
pub mod shapes;
pub mod universe;

pub use cell::Cell;
pub use pattern::{ParseError, Pattern};
pub use universe::Universe;
