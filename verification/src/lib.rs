//! Mod dependency resolution and load-order planning for a scriptable
//! application host.
//!
//! The heart of the crate is [`mod_system::dependencies::resolve_dependencies`]:
//! given a set of mod descriptors with declared dependencies and priority
//! hints, it computes a deterministic, cycle-safe load order, or reports the
//! set of mods that could not be placed.  The surrounding modules hold the
//! registration tables that mod scripts populate at load time.

pub mod mod_system;
pub mod python_bridge;
