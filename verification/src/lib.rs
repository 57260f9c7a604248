//! Generates AssemblyScript declarations and call glue from a witx-style
//! interface description: memory layouts for composite types, flattened wire
//! signatures for interface functions, and the lowering/lifting code that
//! carries values across the primitive-only call boundary.

pub mod abi;
pub mod astype;
pub mod engine;
pub mod error;
pub mod generator;
pub mod idents;
pub mod layout;
pub mod model;
pub mod pretty_writer;
pub mod render;
pub mod strings;
