//! Passing variable-length results out of a sandboxed guest's linear memory.
//!
//! A guest stores a result as a payload and a 16-byte header that names it,
//! and hands the host the header's offset. The host reads the header, checks
//! it against the memory's size, reads and decodes the payload, and then asks
//! the guest to free both, whatever the read gave.
//!
//! - `header`: the header's wire layout.
//! - `reader`: the host's bounds-checked read of a result.
//! - `guest`: a guest heap that produces and frees results.
//! - `host`: read-then-release of one result.
//! - `laws`: what holds across producing, reading and freeing.
//! - `routes`: the demo payloads, built as JSON text.

pub mod header;
pub mod reader;
pub mod guest;
pub mod laws;
pub mod routes;
pub mod host;
