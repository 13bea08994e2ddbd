//! The core of an interactive function plotter: the keyword tokenizer of the
//! equation language, the sampling pass, the segment policy, the per-equation
//! render cache, the pointer and wheel state machine, and the engine that ties
//! them to the table of equations.
//!
//! The library holds no coordinate arithmetic. Coordinates, compiled equations
//! and geometry are values of the host's own types: the library carries them
//! through and decides what is sampled, cached, drawn and emitted.

pub mod cache;
pub mod engine;
pub mod interaction;
pub mod latex;
pub mod laws;
pub mod sampler;
pub mod segments;
pub mod trie;
pub mod viewport;
