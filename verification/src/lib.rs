//! A password-derived encryption vault with session-gated access control.
//!
//! Registered users upload text content that is encrypted under a key derived
//! from a per-upload password and a fresh random salt, and later download it
//! by presenting the same password together with a valid session token.
//! File names are validated against path traversal before they ever reach
//! storage, and every download is scoped to the owner resolved from the
//! caller's session, never from the request itself.

pub mod clock;
pub mod credentials;
pub mod crypto;
pub mod errors;
pub mod filestore;
pub mod hexcodec;
pub mod path_guard;
pub mod randgen;
pub mod session;
pub mod strutil;
pub mod types;
pub mod vault;
