//! Asset classification and extraction engine for an opaque byte-cache.
//!
//! Assets live either as loose files in a cache directory or as rows of an
//! embedded SQL database; each one is an undifferentiated blob whose true
//! file type is recovered by inspecting its contents.  This crate holds the
//! verified core: the signature catalog, magic-byte classification,
//! offset-correct payload slicing, the transparent decompression shim, the
//! database-backed asset source, and the coordinator that serializes
//! refresh, extract and clear operations.

pub mod category;
pub mod search;
pub mod catalog;
pub mod classify;
pub mod shim;
pub mod hexid;
pub mod paths;
pub mod db;
pub mod engine;
pub mod coordinator;
