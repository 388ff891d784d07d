//! A time-locked, multi-receiver escrow ledger.
//!
//! A depositor locks a fixed amount of a fungible asset in a custodial
//! vault bound one-to-one to an escrow record. After the configured side
//! of the deadline, either a pre-authorized receiver (or the
//! administrator, on the receiver's behalf) releases the funds to that
//! receiver, or the depositor reclaims the full amount. Either terminal
//! transition closes the record and the vault; only one can ever succeed.
//!
//! The asset-transfer capability, clock, and persistent storage are
//! outside collaborators; this crate verifies the decisions: who may
//! trigger which transition, when, and what every balance is afterwards.

use vstd::prelude::*;

pub mod assoc;
pub mod bank;
pub mod error;
pub mod laws;
pub mod machine;
pub mod state;

verus! {

/// Seconds from an escrow's `start_time` to its deadline: one day.
pub const DEADLINE: i64 = 60 * 60 * 24;

/// Largest number of receiver slots an escrow record may hold.
pub const MAX_RECEIVERS: usize = 20;

} // verus!
