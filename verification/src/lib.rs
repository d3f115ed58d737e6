//! A minimal non-fungible-token registry.
//!
//! The registry assigns sequential integer identifiers to project records,
//! tracks one owner address per identifier, and keeps a small immutable
//! metadata pair per identifier. A single administrator address, fixed at
//! initialization, is the only identity allowed to mint; the current owner
//! of a token is the only identity allowed to transfer it.
//!
//! Identity verification and durable persistence are the host's business:
//! callers hand each operation the authorization oracle's verdict as a plain
//! boolean, and the registry state lives in an explicit value that the host
//! may keep wherever it likes.

pub mod types;
pub mod storage;
pub mod registry;
pub mod laws;
