//! A time-locked token release ledger.
//!
//! Two schedule topologies are offered: [`session_vault`], where every
//! beneficiary's schedule is funded on its own, and [`vault`], where all
//! schedules draw from one pool that unlocks linearly over time.
//!
//! Every entry point is a plain function of the ledger state, the caller's
//! identity and the current time; asynchronous token transfers are returned as
//! a [`Payout`] for the host to perform, and their outcome is fed back through a
//! reconciliation call.

mod error;
mod schedule;
pub mod session_vault;
pub mod utils;
pub mod vault;

pub use error::VaultError;
pub use schedule::{due_periods, mul_div, periods_elapsed, Payout};
