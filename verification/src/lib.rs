//! A translator for single functions between programming languages.
//!
//! A front end reads the first function of a source text into a graph of language-neutral
//! nodes; a backend lowers the graph to the target language. Type annotations cross
//! between the two in one canonical form. An admission gate screens the input first, and
//! the driver takes one request from there to its output.
pub mod text;
pub mod scan;
pub mod split;
pub mod pattern;
pub mod syntax;
pub mod error;
pub mod types;
pub mod canonical;
pub mod gate;
pub mod walker;
pub mod statements;
pub mod vocabulary;
pub mod python;
pub mod ueg_python;
pub mod targets;
pub mod validity;
pub mod roundtrip;
pub mod walker_go;
pub mod walker_move;
pub mod walker_solidity;
pub mod walker_swift;
pub mod walker_ts;
pub mod walker_zig;
pub mod driver;

pub use walker::{lower_to_rust, python_to_rust, python_to_ueg, LambdaNode, NodeKind, Ueg};
pub use ueg_python::lower_to_python;
pub use targets::{lower_to_go, lower_to_zig};
