//! An interactive zero-knowledge proof that a graph can be coloured with three
//! colours: the commitment scheme, the per-round relabelling of the palette and
//! the state machine of the party that checks the proof.

pub mod color;
pub mod commitment;
pub mod entropy;
pub mod graph;
pub mod hash;
pub mod palette;
pub mod prover;
pub mod session;
