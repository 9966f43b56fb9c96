//! Canonical skill interfaces and their bindings to the model and wasm surfaces.
pub mod ir;
pub mod naming;
pub mod registry;
pub mod adapters;
pub mod catalog;
pub mod wasm;
pub mod wit;
pub mod python;
pub mod laws;
pub mod round_trip;
