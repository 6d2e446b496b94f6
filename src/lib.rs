//! Next-version inference for tagged releases, and reconciliation of commit
//! metadata fetched from git forges.

pub mod commit;
pub mod release;
pub mod remote;
pub mod version;
