//! Instruction emission for a compiler backend: lowering requests are
//! turned, basic block by basic block, into a program graph of typed
//! expression nodes, assignments and terminators.

pub mod admits;
pub mod aggregates;
pub mod atomics;
pub mod builder;
pub mod builtins;
pub mod context;
pub mod fx;
pub mod graph;
pub mod laws;
pub mod layout;
pub mod memory;
pub mod misc;
pub mod naming;
pub mod operands;
pub mod ops;
pub mod repeat;
pub mod semantics;
pub mod types;
