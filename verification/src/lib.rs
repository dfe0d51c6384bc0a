//! A single-resource accounting ledger: each registered identity (a
//! "citizen") accrues coconuts as a deterministic function of elapsed time,
//! split into a maturing tranche ("young") and a matured tranche ("brown"),
//! and citizens may transfer young coconuts between each other.
//!
//! The host environment supplies the caller's account key and the current
//! clock value as explicit arguments to every operation; the core itself is
//! pure state-machine logic over two in-memory key-value tables.

pub mod citizen;
pub mod errors;
pub mod laws;
pub mod ledger;

pub use citizen::Adjustments;
pub use citizen::Citizen;
pub use errors::CoconutError;
pub use ledger::AccountKey;
pub use ledger::CitizenId;
pub use ledger::CitizenState;
pub use ledger::Coconuts;
