//! The control core of a multi-party Bitcoin vault custody daemon: the vault
//! store and its invariants, the checks applied to signatures handed in by the
//! operator, and the decisions taken for each control request.

pub mod types;
pub mod sigcheck;
pub mod store;
pub mod keys;
pub mod control;
pub mod laws;
