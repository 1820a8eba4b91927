//! Documentation model for record types: field nodes, a registry of record
//! definitions, a one-level type signature analyzer and a cycle-safe tree builder.

pub mod builder;
pub mod chars;
pub mod command;
pub mod laws;
pub mod model;
pub mod registry;
pub mod resolve;
pub mod signature;
