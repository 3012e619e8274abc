//! Conway's Game of Life on a fixed-size square grid with hard edges, and
//! the means to compare what two runs of a program printed.
//!
//! - [`grid`]: the cell buffer, its mathematical model [`grid::GridView`],
//!   neighbor counting and the generation rule.
//! - [`laws`]: what the rule does to a lone cell, a block and a blinker.
//! - [`pattern`]: reading a pattern from the lines of a text and placing it
//!   in the middle of a grid.
//! - [`render`]: a grid as text.
//! - [`simulation`]: a run of several generations and its report.
//! - [`args`]: the simulator's command line and its errors.
//! - [`text`]: decimal numbers, written and read.
//! - [`command`]: a command line split into words.
//! - [`compare`]: two captured outputs compared, with unified diffs.

pub mod args;
pub mod command;
pub mod compare;
pub mod grid;
pub mod laws;
pub mod pattern;
pub mod render;
pub mod simulation;
pub mod text;
