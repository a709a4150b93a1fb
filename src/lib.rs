//! A cellular-automaton engine for sand, static obstacles and water that
//! carries a purity level, on a fixed rectangular grid.
pub mod cso;
pub mod laws;
pub mod level;
pub mod point;
pub mod random;
