use vstd::prelude::*;

verus! {

/// A point in time, in seconds.
pub type TimestampSec = u32;

/// A token amount.
pub type Balance = u128;

/// An account identity on the host ledger.
pub type AccountId = String;

/// Gas attached to an outgoing token transfer.
pub const GAS_FOR_FT_TRANSFER: u64 = 10_000_000_000_000;

/// Gas attached to the reconciliation call that follows a transfer.
pub const GAS_FOR_AFTER_FT_TRANSFER: u64 = 10_000_000_000_000;

/// The deposit that a token transfer requires.
pub const ONE_YOCTO: u128 = 1;

/// No deposit.
pub const NO_DEPOSIT: u128 = 0;

/// Nanoseconds in one second.
pub const NANOS_PER_SEC: u64 = 1_000_000_000;

/// The instant `timestamp` (in seconds), in nanoseconds.
pub open spec fn nano_of(timestamp: TimestampSec) -> int {
    timestamp as int * 1_000_000_000
}

/// Converts seconds to nanoseconds; never overflows, as a `u32` number of
/// seconds stays far below `u64::MAX` nanoseconds.
pub fn to_nano(timestamp: TimestampSec) -> (r: u64)
    ensures
        r == nano_of(timestamp),
{
    assert(timestamp as int * 1_000_000_000 <= u64::MAX) by (nonlinear_arith)
        requires timestamp <= u32::MAX;
    timestamp as u64 * NANOS_PER_SEC
}

} // verus!
