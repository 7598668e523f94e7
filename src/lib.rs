//! Chunked tile-layer storage and chunk streaming for tilemaps.
//!
//! Tiles live in layers (dense or sparse), layers are grouped by depth into
//! chunks, and a tilemap owns the chunks, decides which of them are spawned,
//! and reports every spawn, modification and despawn as an event.

pub mod types;
pub mod tile;
pub mod error;
pub mod store;
pub mod layer;
pub mod chunk;
pub mod event;
pub mod tilemap;
pub mod streaming;
