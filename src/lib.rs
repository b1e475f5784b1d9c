//! The canonicalization environment: the per-module state threaded through
//! name resolution. It knows the module being resolved, the variant names in
//! scope, and collects the problems found along the way.

pub mod env;
pub mod problem;
pub mod region;
pub mod symbol;
pub mod variants;
