//! A discrete-time, grid-based falling-sand cellular automaton.
//!
//! The crate is split into three layers, leaves first:
//!
//! * [`grid`] — a dense, fixed-size 2-D container addressed by `(x, y)`,
//!   with row-major linear indexing and bounds-checked coordinate/index
//!   conversion;
//! * [`particle`] — the closed set of particle kinds a cell can hold;
//! * [`engine`] — the per-particle transition rule and the double-buffered
//!   update pass that advances a whole grid by one state per sub-step.
//!
//! The update pass reads every neighbor from the untouched pre-step grid and
//! commits moves into a fresh working buffer, so no cell's decision is
//! influenced by moves already committed within the same pass. A move commits
//! only when its destination is still empty in the working buffer and its
//! source still holds the mover, which makes every pass a permutation of cell
//! contents: particles move, but never appear or vanish. The lemmas in
//! [`laws`] prove that and the other global properties of the simulation.

pub mod engine;
pub mod grid;
pub mod laws;
pub mod particle;
