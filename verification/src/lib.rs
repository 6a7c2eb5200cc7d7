// A policy/pattern evaluation engine: compiled pattern graphs are
// evaluated against runtime values, producing an explanation tree.
pub mod value;
pub mod rationale;
pub mod pattern;
pub mod eval;
pub mod laws;
pub mod registry;
pub mod compile;
pub mod sigstore;
