use crate::utils::{nano_of, to_nano, AccountId, TimestampSec};
use vstd::arithmetic::div_mod::{
    lemma_div_is_ordered, lemma_fundamental_div_mod, lemma_fundamental_div_mod_converse_div,
};
use vstd::arithmetic::mul::lemma_mul_inequality;
use vstd::prelude::*;

verus! {

/// What the host is asked to do once a call has committed its ledger changes.
#[derive(Debug, Clone, PartialEq, Eq)]
pub enum Payout {
    /// Nothing to send: the call is settled on the spot.
    Nothing,
    /// Send `amount` tokens to `receiver_id`, then report the outcome back
    /// through the matching reconciliation call.
    Transfer { receiver_id: AccountId, amount: u128 },
}

/// `r` asks the host to send exactly `amount` tokens to `receiver`.
pub open spec fn is_transfer_of(
    r: Result<Payout, crate::error::VaultError>,
    receiver: Seq<char>,
    amount: int,
) -> bool {
    match r {
        Ok(Payout::Transfer { receiver_id, amount: sent }) => receiver_id@ == receiver && sent
            == amount,
        _ => false,
    }
}

/// Whole periods of length `interval` that have passed between `start` and
/// `now` (zero before the start).
pub open spec fn periods_elapsed(start: TimestampSec, interval: TimestampSec, now: u64) -> int {
    if now > nano_of(start) {
        (now - nano_of(start)) / nano_of(interval)
    } else {
        0
    }
}

/// Periods of a schedule that are unlocked at `now` and not yet claimed: the
/// elapsed periods, capped at `count`, minus the `claimed` ones, never below
/// zero.
pub open spec fn due_periods(
    start: TimestampSec,
    interval: TimestampSec,
    count: u32,
    claimed: u32,
    now: u64,
) -> int {
    let reached = if periods_elapsed(start, interval, now) < count as int {
        periods_elapsed(start, interval, now)
    } else {
        count as int
    };
    if reached > claimed as int {
        reached - claimed
    } else {
        0
    }
}

/// Due periods, computed; see [`due_periods`].
pub(crate) fn due_period_count(
    start: TimestampSec,
    interval: TimestampSec,
    count: u32,
    claimed: u32,
    now: u64,
) -> (r: u32)
    requires
        interval > 0,
    ensures
        r == due_periods(start, interval, count, claimed, now),
        r <= count,
{
    if claimed >= count {
        return 0;
    }
    let start_ns = to_nano(start);
    let elapsed: u64 = if now > start_ns {
        let len = to_nano(interval);
        assert(len > 0) by (nonlinear_arith)
            requires len == interval as int * 1_000_000_000, interval > 0;
        (now - start_ns) / len
    } else {
        0
    };
    let reached: u32 = if elapsed < count as u64 {
        elapsed as u32
    } else {
        count
    };
    if reached > claimed {
        reached - claimed
    } else {
        0
    }
}

/// `a * b / c` rounded down, without overflow in the intermediate product.
pub fn mul_div(a: u128, b: u32, c: u32) -> (r: u128)
    requires
        b <= c,
        c > 0,
    ensures
        r == (a as int * b as int) / (c as int),
        r <= a,
{
    let q = a / (c as u128);
    let rem = a % (c as u128);
    proof {
        lemma_fundamental_div_mod(a as int, c as int);
        assert(rem * b <= rem * c) by {
            lemma_mul_inequality(b as int, c as int, rem as int);
        }
        assert(rem * c < c * c) by (nonlinear_arith)
            requires rem < c, c > 0;
        assert(c * c <= u32::MAX * u32::MAX) by (nonlinear_arith)
            requires c <= u32::MAX;
        assert(q * b <= q * c) by {
            lemma_mul_inequality(b as int, c as int, q as int);
        }
        assert(q * c <= a) by (nonlinear_arith)
            requires a == c * q + rem, rem >= 0;
    }
    let low = rem * (b as u128) / (c as u128);
    proof {
        let ab = a as int * b as int;
        lemma_fundamental_div_mod(rem * b, c as int);
        let r2 = (rem * b) % (c as int);
        assert(ab == (q * b + low) * c + r2) by (nonlinear_arith)
            requires
                a == c * q + rem,
                rem * b == c * low + r2,
                ab == a * b;
        lemma_fundamental_div_mod_converse_div(ab, c as int, q * b + low, r2);
        assert(ab <= a * c) by (nonlinear_arith)
            requires ab == a * b, b <= c, a >= 0;
        assert((a * c) / (c as int) == a) by (nonlinear_arith)
            requires c > 0;
        lemma_div_is_ordered(ab, a * c, c as int);
    }
    q * (b as u128) + low
}

} // verus!
