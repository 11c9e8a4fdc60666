//! An in-memory key-value cache addressed by virtual host and path, with
//! optional per-entry expiry.
pub mod store;
pub mod expiry;
pub mod router;
pub mod cache;
pub mod laws;
