//! Content-stream interpreter for a page-description language.
//!
//! The library tokenizes the decompressed byte stream of one page, decodes
//! drawing operators, tracks a stack of graphics-state snapshots, and
//! accumulates positioned text runs and vector paths for a renderer.
//! All numeric values use a fixed-point representation in millionths
//! (see [`num::Num`]); the interpreter itself performs no I/O.

pub mod color;
pub mod content;
pub mod machine;
pub mod num;
pub mod ops;
pub mod parser;
pub mod resources;
pub mod scan;
pub mod state;
pub mod stream;
