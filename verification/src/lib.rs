//! A URL shortener's core: short codes that map to a pool of destinations,
//! the per-visit choice among them, and the visit counters.

pub mod api;
pub mod assets;
pub mod codegen;
pub mod engine;
pub mod laws;
pub mod model;
pub mod route;
pub mod store;
