//! A generalized cellular-automaton engine: user-defined cell states and
//! conditional transition rules, laid over a grid with a configurable
//! neighbor topology, advanced one synchronized generation at a time.

pub mod grid;
pub mod model;
pub mod simulation;
pub mod state_map;

pub use model::{Condition, Edge, Model, Node, NodeId, Operand, Value};
