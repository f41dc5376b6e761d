//! A verified simulator for Conway's Game of Life on a bounded square grid.
//!
//! A `Generation` is an immutable snapshot: a cycle number and a square grid
//! of cells, each `Alive` or `Dead`. The transition engine derives the next
//! generation from the current one by counting, for every cell, how many of
//! its up-to-eight in-bounds neighbors are alive (no wraparound) and applying
//! the standard birth/survival/death rule. A renderer turns a generation into
//! text: a header line with the cycle number, then one line per row with one
//! glyph per cell.

pub mod game;
pub mod grid;
pub mod neighbors;
pub mod render;
