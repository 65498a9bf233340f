//! Generator for randomized "total-grid" logic puzzles: a square grid of
//! hidden cells in which every row and column is annotated with a revealed
//! total (the sum or the product of its cells), one shared value sits on the
//! diagonal, and the whole grid satisfies a row/column distinctness
//! constraint.

pub mod format;
pub mod gen;
pub mod grid;
pub mod mask;
pub mod source;
