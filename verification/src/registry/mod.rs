//! Registries that map names to the factories that sibling crates
//! provide: container formats and URI source drivers.

pub mod codec;
pub mod container;
pub mod source;
pub mod table;
