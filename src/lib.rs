//! Sequence literals with "spread" pieces, and a finite cycling iterator.
//!
//! A literal is a list of pieces: single elements, spreads of a whole
//! sequence, an element repeated `n` times, or a sequence cycled `n` times.
//! `vek` builds the vector that such a list denotes; `cycle_n` repeats a
//! sequence a fixed number of times and then stops.
pub mod cycle;
pub mod spread;

pub use cycle::{cycle_n, CycleN};
pub use spread::{vek, Piece};
