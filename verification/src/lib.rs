//! Resource resolution for a document engine: a font store that selects,
//! loads and parses font faces on demand, and a path-keyed cache that
//! memoizes fallible file and text lookups.

pub mod buffer;
pub mod canon;
pub mod em;
pub mod face;
pub mod raw;
pub mod store;
pub mod text;
pub mod variant;
pub mod world;
