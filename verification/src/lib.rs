//! A verified client core for a credential-signed posting API.
//!
//! The crate verifies the request-signing protocol (percent-encoding,
//! sorted parameter assembly, signature base string, keyed-hash header),
//! input validation, response classification, reply-chain orchestration,
//! and the identity cache. Network transport lives outside the library.

pub mod chain;
pub mod config;
pub mod encoding;
pub mod engine;
pub mod identity;
pub mod media;
pub mod numbers;
pub mod params;
pub mod signer;
pub mod strutil;
