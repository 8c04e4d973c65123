//! An on-ledger registry of agent identities, client feedback and validator
//! attestations. Records are addressed by the fields that identify them, and
//! every operation either commits all of its effects or returns an error and
//! leaves the registry as it was.

pub mod error;
pub mod identity;
pub mod registry;
pub mod reputation;
pub mod table;
pub mod util;
pub mod validation;

pub use error::E8004;
