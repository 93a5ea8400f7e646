//! Discovery-independent mod bookkeeping: descriptors, dependency
//! resolution, and load-order planning.

pub mod dependencies;
pub mod laws;
pub mod loader;
pub mod manifest;
pub mod model;
