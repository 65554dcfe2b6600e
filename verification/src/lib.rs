//! # Zond Engine, reachable from something that is not Rust
//!
//! The verified core of a daemon that drives Zond Engine scans over a wire
//! protocol: the errors it answers with, the names it gives scans, the policy
//! that bounds where a scan may reach and the address sets it is judged on, the
//! numbered log a client follows, the protocol's decisions, and the mapping
//! between the engine's vocabulary and the schema's.

pub mod address_text;
pub mod addresses;
pub mod convert;
pub mod daemon;
pub mod engine;
pub mod error;
pub mod events;
pub mod export;
pub mod id;
pub mod policy;
pub mod protocol;
pub mod request;
pub mod scans;
pub mod schema;
pub mod scope;
pub mod text;
