//! A life-like cellular automaton on a fixed rectangular grid, with three
//! interchangeable ways of computing the next generation.
pub mod convolution;
pub mod gameoflife;
pub mod grid;
pub mod laws;
pub mod life;
pub mod presentation;
pub mod rule;
pub mod text;

pub use gameoflife::{GameOfLife, GameOfLifeConvolution, GameOfLifeFFT, GameOfLifeStd};
pub use grid::{Grid, GridError};
pub use presentation::{Algorithm, Presentations};
pub use rule::{InvalidRuleError, LifeRule, NeighborRule, Rule};
