//! The pool-wide variant: one pool unlocks linearly over time and every
//! beneficiary's schedule draws from it.

use crate::error::VaultError;
use crate::schedule::{due_period_count, due_periods, is_transfer_of, mul_div, periods_elapsed, Payout};
use crate::utils::{to_nano, AccountId, Balance, TimestampSec};
use vstd::prelude::*;

verus! {

/// The version that [`Contract::get_stats`] reports.
pub const VERSION: &'static str = "0.2.1";

/// A beneficiary's vesting schedule and its claim progress.
pub struct Account {
    pub account_id: AccountId,
    /// The instant the first round starts, in seconds.
    pub start_timestamp: TimestampSec,
    /// How long one round lasts, in seconds.
    pub release_interval: TimestampSec,
    /// How many rounds the schedule has.
    pub release_rounds: u32,
    /// How many rounds have been claimed.
    pub last_claim_round: u32,
    /// The amount released by each round.
    pub release_per_round: Balance,
}

impl Account {
    /// A schedule that can be computed on: rounds have a length, progress
    /// never passes the last round, and the whole entitlement fits a `u128`.
    pub open spec fn wf(self) -> bool {
        &&& self.release_interval > 0
        &&& self.last_claim_round <= self.release_rounds
        &&& self.release_rounds as int * self.release_per_round as int <= u128::MAX
    }

    /// Rounds unlocked at `now` and not yet claimed.
    pub open spec fn due(self, now: u64) -> int {
        due_periods(
            self.start_timestamp,
            self.release_interval,
            self.release_rounds,
            self.last_claim_round,
            now,
        )
    }

    /// The amount unlocked at `now` and not yet claimed.
    pub open spec fn unclaimed(self, now: u64) -> int {
        self.release_per_round * self.due(now)
    }

    /// The same schedule with `last` rounds claimed.
    pub open spec fn with_last(self, last: int) -> Account {
        Account { last_claim_round: last as u32, ..self }
    }

    /// The amount unlocked at `cur_ts` (nanoseconds) and not yet claimed.
    pub fn unclaimed_amount(&self, cur_ts: u64) -> (r: u128)
        requires
            self.wf(),
        ensures
            r == self.unclaimed(cur_ts),
    {
        let times = due_period_count(
            self.start_timestamp,
            self.release_interval,
            self.release_rounds,
            self.last_claim_round,
            cur_ts,
        );
        assert(self.release_per_round * times <= self.release_rounds * self.release_per_round)
            by (nonlinear_arith)
            requires
                times <= self.release_rounds,
        ;
        self.release_per_round * times as u128
    }
}

/// The sum of what the schedules in `s` have unlocked at `now` and not
/// claimed.
pub open spec fn unclaimed_sum(s: Seq<Account>, now: u64) -> int
    decreases s.len(),
{
    if s.len() == 0 {
        0
    } else {
        unclaimed_sum(s.drop_last(), now) + s.last().unclaimed(now)
    }
}

/// The vault: a pool of `total_balance` tokens that unlocks in
/// `release_rounds` equal rounds, and the schedules that draw from it.
pub struct Contract {
    /// The administrator, the only one who may manage schedules and pay.
    pub owner_id: AccountId,
    /// The token that this vault keeps.
    pub token_account_id: AccountId,
    /// The pool.
    pub total_balance: Balance,
    /// The instant the first round of the pool starts, in seconds.
    pub start_timestamp: TimestampSec,
    /// How long one round of the pool lasts, in seconds.
    pub release_interval: TimestampSec,
    /// How many rounds the pool unlocks in.
    pub release_rounds: u32,
    /// The schedules, in the order they were added.
    pub accounts: Vec<Account>,
    /// Tokens paid out or in flight, by claims and payments together.
    pub claimed_balance: Balance,
}

impl Contract {
    /// The schedule at position `i`.
    pub open spec fn acct(self, i: int) -> Account {
        self.accounts@[i]
    }

    /// A schedule is registered for `id`.
    pub open spec fn has(self, id: Seq<char>) -> bool {
        exists|i: int| 0 <= i < self.accounts@.len() && (#[trigger] self.acct(i)).account_id@ == id
    }

    /// The position of the schedule registered for `id`.
    pub open spec fn index_of(self, id: Seq<char>) -> int {
        choose|i: int| 0 <= i < self.accounts@.len() && (#[trigger] self.acct(i)).account_id@ == id
    }

    /// Every beneficiary has at most one schedule.
    pub open spec fn ids_unique(self) -> bool {
        forall|i: int, j: int|
            0 <= i < self.accounts@.len() && 0 <= j < self.accounts@.len() && (#[trigger] self.acct(
                i,
            )).account_id@ == (#[trigger] self.acct(j)).account_id@ ==> i == j
    }

    /// The vault invariant: the pool's rounds have a length, beneficiaries
    /// are unique, schedules are computable, and no more has been paid than
    /// the pool holds.
    pub open spec fn wf(self) -> bool {
        &&& self.release_interval > 0
        &&& self.ids_unique()
        &&& forall|i: int| 0 <= i < self.accounts@.len() ==> (#[trigger] self.acct(i)).wf()
        &&& self.claimed_balance <= self.total_balance
    }

    /// Rounds of the pool that have passed at `now`.
    pub open spec fn cur_round(self, now: u64) -> int {
        periods_elapsed(self.start_timestamp, self.release_interval, now)
    }

    /// The part of the pool unlocked at `now`: `total * round / rounds`,
    /// rounded down, and the whole pool once every round has passed.
    pub open spec fn unlocked(self, now: u64) -> int {
        if self.cur_round(now) < self.release_rounds {
            (self.total_balance * self.cur_round(now)) / (self.release_rounds as int)
        } else {
            self.total_balance as int
        }
    }

    /// What the schedules have unlocked at `now` and not claimed, capped at
    /// `u128::MAX`.
    pub open spec fn unclaimed_total(self, now: u64) -> int {
        if unclaimed_sum(self.accounts@, now) <= u128::MAX {
            unclaimed_sum(self.accounts@, now)
        } else {
            u128::MAX as int
        }
    }

    /// Unlocked tokens not yet paid out.
    pub open spec fn liquid(self, now: u64) -> int {
        if self.unlocked(now) > self.claimed_balance {
            self.unlocked(now) - self.claimed_balance
        } else {
            0
        }
    }

    /// `post` is `pre` with the schedules `accounts` and the claimed total
    /// `claimed`.
    pub open spec fn moved_to(pre: Contract, post: Contract, accounts: Seq<Account>, claimed: int) -> bool {
        &&& post.owner_id == pre.owner_id
        &&& post.token_account_id == pre.token_account_id
        &&& post.total_balance == pre.total_balance
        &&& post.start_timestamp == pre.start_timestamp
        &&& post.release_interval == pre.release_interval
        &&& post.release_rounds == pre.release_rounds
        &&& post.claimed_balance == claimed
        &&& post.accounts@ == accounts
    }

    /// A vault for `total_balance` tokens of `token_account_id`, unlocking
    /// from `start_timestamp` in `release_rounds` rounds of
    /// `release_interval` seconds, administered by `owner_id`.
    pub fn new(
        owner_id: AccountId,
        token_account_id: AccountId,
        total_balance: Balance,
        start_timestamp: TimestampSec,
        release_interval: TimestampSec,
        release_rounds: u32,
    ) -> (r: Self)
        requires
            release_interval > 0,
        ensures
            r.wf(),
            r.owner_id == owner_id,
            r.token_account_id == token_account_id,
            r.total_balance == total_balance,
            r.start_timestamp == start_timestamp,
            r.release_interval == release_interval,
            r.release_rounds == release_rounds,
            r.accounts@.len() == 0,
            r.claimed_balance == 0,
    {
        Contract {
            accounts: Vec::new(),
            owner_id,
            token_account_id,
            total_balance,
            start_timestamp,
            release_interval,
            release_rounds,
            claimed_balance: 0,
        }
    }

    /// The position of the schedule registered for `account_id`, if any.
    pub fn find_account(&self, account_id: &AccountId) -> (r: Option<usize>)
        requires
            self.ids_unique(),
        ensures
            r.is_none() == !self.has(account_id@),
            r matches Some(i) ==> i == self.index_of(account_id@) && i < self.accounts@.len(),
    {
        let mut i: usize = 0;
        while i < self.accounts.len()
            invariant
                self.ids_unique(),
                i <= self.accounts@.len(),
                forall|j: int| 0 <= j < i ==> (#[trigger] self.acct(j)).account_id@ != account_id@,
            decreases self.accounts@.len() - i,
        {
            if self.accounts[i].account_id == *account_id {
                proof {
                    assert(self.acct(i as int).account_id@ == account_id@);
                    assert(self.has(account_id@));
                    let k = self.index_of(account_id@);
                    assert(self.acct(k).account_id@ == account_id@);
                    assert(k == i);
                }
                return Some(i);
            }
            i += 1;
        }
        None
    }

    /// The rounds of the pool passed at `now` and the part of the pool they
    /// unlock.
    pub fn cur_round_and_total_unlock(&self, now: u64) -> (r: (u64, u128))
        requires
            self.wf(),
        ensures
            r.0 == self.cur_round(now),
            r.1 == self.unlocked(now),
            r.1 <= self.total_balance,
    {
        let start_ns = to_nano(self.start_timestamp);
        let cur_round: u64 = if now > start_ns {
            let len = to_nano(self.release_interval);
            assert(len > 0) by (nonlinear_arith)
                requires
                    len == self.release_interval as int * 1_000_000_000,
                    self.release_interval > 0,
            ;
            (now - start_ns) / len
        } else {
            0
        };
        let unlocked = if cur_round < self.release_rounds as u64 {
            mul_div(self.total_balance, cur_round as u32, self.release_rounds)
        } else {
            self.total_balance
        };
        (cur_round, unlocked)
    }

    /// Unlocked tokens not yet paid out, and what the schedules have unlocked
    /// and not claimed (capped at `u128::MAX`), at `now`.
    pub fn cur_funding_balance(&self, now: u64) -> (r: (u128, u128))
        requires
            self.wf(),
        ensures
            r.0 == self.liquid(now),
            r.1 == self.unclaimed_total(now),
            self.liquid(now) + self.claimed_balance <= self.total_balance,
    {
        let (_, global_unlocked) = self.cur_round_and_total_unlock(now);
        let liquid_balance = if global_unlocked > self.claimed_balance {
            global_unlocked - self.claimed_balance
        } else {
            0
        };
        let mut unclaimed: u128 = 0;
        let mut i: usize = 0;
        while i < self.accounts.len()
            invariant
                self.wf(),
                i <= self.accounts@.len(),
                unclaimed == if unclaimed_sum(self.accounts@.take(i as int), now) <= u128::MAX {
                    unclaimed_sum(self.accounts@.take(i as int), now)
                } else {
                    u128::MAX as int
                },
            decreases self.accounts@.len() - i,
        {
            proof {
                assert(self.accounts@.take(i + 1).drop_last() =~= self.accounts@.take(i as int));
                lemma_unclaimed_sum_nonneg(self.accounts@.take(i as int), now);
                assert(self.acct(i as int).wf());
            }
            let amount = self.accounts[i].unclaimed_amount(now);
            proof {
                assert(amount >= 0);
            }
            unclaimed = unclaimed.saturating_add(amount);
            i += 1;
        }
        assert(self.accounts@.take(self.accounts@.len() as int) =~= self.accounts@);
        (liquid_balance, unclaimed)
    }

    /// A claim by `caller` at `now` leads from `pre` to `post` with result
    /// `r`: it pays out every round unlocked and not yet claimed, as long as
    /// the pool has unlocked enough, or changes nothing.
    pub open spec fn claim_spec(
        pre: Contract,
        caller: Seq<char>,
        now: u64,
        r: Result<Payout, VaultError>,
        post: Contract,
    ) -> bool {
        let i = pre.index_of(caller);
        let a = pre.acct(i);
        let amount = a.unclaimed(now);
        if !pre.has(caller) {
            r == Err::<Payout, VaultError>(VaultError::AccountNotFound) && post == pre
        } else if amount == 0 {
            r == Ok::<Payout, VaultError>(Payout::Nothing) && post == pre
        } else if pre.claimed_balance + amount > pre.unlocked(now) {
            r == Err::<Payout, VaultError>(VaultError::InsufficientLiquidity) && post == pre
        } else {
            &&& is_transfer_of(r, caller, amount)
            &&& Contract::moved_to(
                pre,
                post,
                pre.accounts@.update(i, a.with_last(a.last_claim_round + a.due(now))),
                pre.claimed_balance + amount,
            )
        }
    }

    /// The reconciliation of a claimed transfer of `amount` to `target`
    /// leads from `pre` to `post` with result `r`: a success changes
    /// nothing; a failure gives the rounds back to the schedule and the
    /// tokens back to the pool.
    pub open spec fn rollback_spec(
        pre: Contract,
        target: Seq<char>,
        amount: u128,
        success: bool,
        r: Result<bool, VaultError>,
        post: Contract,
    ) -> bool {
        let i = pre.index_of(target);
        let a = pre.acct(i);
        if success {
            r == Ok::<bool, VaultError>(true) && post == pre
        } else if !pre.has(target) || a.release_per_round == 0 || amount / a.release_per_round
            > a.last_claim_round || amount > pre.claimed_balance {
            r == Err::<bool, VaultError>(VaultError::ClaimNotFound) && post == pre
        } else {
            &&& r == Ok::<bool, VaultError>(false)
            &&& Contract::moved_to(
                pre,
                post,
                pre.accounts@.update(i, a.with_last(a.last_claim_round - amount / a.release_per_round)),
                pre.claimed_balance - amount,
            )
        }
    }

    /// The caller claims what its schedule has unlocked at `now`. The ledger
    /// is debited at once; the returned transfer is reconciled later through
    /// [`Contract::after_ft_transfer`].
    pub fn claim(&mut self, caller: &AccountId, now: u64) -> (r: Result<Payout, VaultError>)
        requires
            old(self).wf(),
        ensures
            final(self).wf(),
            Self::claim_spec(*old(self), caller@, now, r, *final(self)),
    {
        let (_, global_unlocked) = self.cur_round_and_total_unlock(now);
        let i = match self.find_account(caller) {
            Some(i) => i,
            None => return Err(VaultError::AccountNotFound),
        };
        let ghost pre = *self;
        let ghost a = self.acct(i as int);
        let amount = self.accounts[i].unclaimed_amount(now);
        if amount == 0 {
            return Ok(Payout::Nothing);
        }
        if global_unlocked < self.claimed_balance || amount > global_unlocked - self.claimed_balance {
            return Err(VaultError::InsufficientLiquidity);
        }
        let rate = self.accounts[i].release_per_round;
        proof {
            let due = a.due(now);
            assert(rate > 0) by (nonlinear_arith)
                requires
                    amount == rate * due,
                    amount > 0,
            ;
            vstd::arithmetic::div_mod::lemma_div_multiples_vanish(due, rate as int);
        }
        let times = (amount / rate) as u32;
        self.claimed_balance = self.claimed_balance + amount;
        let last = self.accounts[i].last_claim_round + times;
        self.accounts.set(i, Account { last_claim_round: last, ..self.accounts[i].clone_account() });
        proof {
            lemma_updated_wf(pre, *self, i as int, a.with_last(a.last_claim_round + a.due(now)));
        }
        Ok(Payout::Transfer { receiver_id: caller.clone(), amount })
    }

    /// Reconciles the transfer of `amount` to `account_id` that a claim
    /// issued: on success nothing changes; on failure the claim is taken back
    /// in full. Only the vault itself may call this.
    pub fn after_ft_transfer(&mut self, account_id: AccountId, amount: u128, promise_success: bool) -> (r:
        Result<bool, VaultError>)
        requires
            old(self).wf(),
        ensures
            final(self).wf(),
            Self::rollback_spec(*old(self), account_id@, amount, promise_success, r, *final(self)),
    {
        if promise_success {
            return Ok(true);
        }
        let i = match self.find_account(&account_id) {
            Some(i) => i,
            None => return Err(VaultError::ClaimNotFound),
        };
        let ghost pre = *self;
        let ghost a = self.acct(i as int);
        let rate = self.accounts[i].release_per_round;
        if rate == 0 || amount / rate > self.accounts[i].last_claim_round as u128 || amount
            > self.claimed_balance {
            return Err(VaultError::ClaimNotFound);
        }
        let times = (amount / rate) as u32;
        self.claimed_balance = self.claimed_balance - amount;
        let last = self.accounts[i].last_claim_round - times;
        self.accounts.set(i, Account { last_claim_round: last, ..self.accounts[i].clone_account() });
        proof {
            lemma_updated_wf(pre, *self, i as int, a.with_last(a.last_claim_round - amount / rate));
        }
        Ok(false)
    }
}

impl Contract {
    /// Removes the schedule of `account_id`, if it has one; what it had
    /// unlocked and not claimed is not paid out. Returns whether one was
    /// removed.
    pub fn internal_remove_account(&mut self, account_id: AccountId) -> (r: bool)
        requires
            old(self).wf(),
        ensures
            final(self).wf(),
            r == old(self).has(account_id@),
            !r ==> *final(self) == *old(self),
            r ==> Contract::moved_to(
                *old(self),
                *final(self),
                old(self).accounts@.remove(old(self).index_of(account_id@)),
                old(self).claimed_balance as int,
            ),
    {
        match self.find_account(&account_id) {
            Some(i) => {
                let ghost pre = *self;
                let _ = self.accounts.remove(i);
                proof {
                    assert forall|j: int| 0 <= j < self.accounts@.len() implies (#[trigger] self.acct(j)).wf() by {
                        if j < i {
                            assert(self.acct(j) == pre.acct(j));
                        } else {
                            assert(self.acct(j) == pre.acct(j + 1));
                        }
                    }
                    assert forall|j: int, k: int|
                        0 <= j < self.accounts@.len() && 0 <= k < self.accounts@.len()
                            && (#[trigger] self.acct(j)).account_id@ == (#[trigger] self.acct(k)).account_id@
                        implies j == k by {
                        let jj = if j < i { j } else { j + 1 };
                        let kk = if k < i { k } else { k + 1 };
                        assert(self.acct(j) == pre.acct(jj));
                        assert(self.acct(k) == pre.acct(kk));
                    }
                }
                true
            },
            None => false,
        }
    }

    /// Adds a schedule for `account_id` unless it already has one. Returns
    /// whether it was added.
    pub fn internal_add_account(
        &mut self,
        account_id: AccountId,
        start_timestamp: TimestampSec,
        release_interval: TimestampSec,
        release_rounds: u32,
        release_per_round: Balance,
    ) -> (r: bool)
        requires
            old(self).wf(),
            release_interval > 0,
            release_rounds as int * release_per_round as int <= u128::MAX,
        ensures
            final(self).wf(),
            r == !old(self).has(account_id@),
            !r ==> *final(self) == *old(self),
            r ==> {
                let n = old(self).accounts@.len() as int;
                let b = final(self).acct(n);
                &&& final(self).accounts@.len() == n + 1
                &&& Contract::moved_to(
                    *old(self),
                    *final(self),
                    old(self).accounts@.push(b),
                    old(self).claimed_balance as int,
                )
                &&& b.account_id@ == account_id@
                &&& b.start_timestamp == start_timestamp
                &&& b.release_interval == release_interval
                &&& b.release_rounds == release_rounds
                &&& b.last_claim_round == 0
                &&& b.release_per_round == release_per_round
            },
    {
        if self.find_account(&account_id).is_some() {
            return false;
        }
        let ghost pre = *self;
        self.accounts.push(
            Account {
                account_id,
                start_timestamp,
                release_interval,
                release_rounds,
                last_claim_round: 0,
                release_per_round,
            },
        );
        proof {
            let n = pre.accounts@.len() as int;
            assert(self.accounts@ =~= pre.accounts@.push(self.acct(n)));
            assert forall|j: int| 0 <= j < self.accounts@.len() implies (#[trigger] self.acct(j)).wf() by {
                if j < n {
                    assert(self.acct(j) == pre.acct(j));
                }
            }
            assert forall|j: int, k: int|
                0 <= j < self.accounts@.len() && 0 <= k < self.accounts@.len()
                    && (#[trigger] self.acct(j)).account_id@ == (#[trigger] self.acct(k)).account_id@
                implies j == k by {
                if j < n {
                    assert(self.acct(j) == pre.acct(j));
                }
                if k < n {
                    assert(self.acct(k) == pre.acct(k));
                }
                if j < n && k == n {
                    assert(pre.has(account_id@));
                }
                if k < n && j == n {
                    assert(pre.has(account_id@));
                }
            }
        }
        true
    }

    /// Fails with [`VaultError::NotAuthorized`] unless `caller` is the
    /// administrator.
    pub fn assert_owner(&self, caller: &AccountId) -> (r: Result<(), VaultError>)
        ensures
            r == (if caller@ == self.owner_id@ {
                Ok::<(), VaultError>(())
            } else {
                Err(VaultError::NotAuthorized)
            }),
    {
        if *caller == self.owner_id {
            Ok(())
        } else {
            Err(VaultError::NotAuthorized)
        }
    }

    /// Hands administration to `owner_id`; only the administrator may.
    pub fn set_owner(&mut self, caller: &AccountId, owner_id: AccountId) -> (r: Result<(), VaultError>)
        requires
            old(self).wf(),
        ensures
            final(self).wf(),
            caller@ != old(self).owner_id@ ==> r == Err::<(), VaultError>(VaultError::NotAuthorized)
                && *final(self) == *old(self),
            caller@ == old(self).owner_id@ ==> r == Ok::<(), VaultError>(()) && *final(self) == (
            Contract { owner_id, ..*old(self) }),
    {
        match self.assert_owner(caller) {
            Ok(()) => {},
            Err(e) => return Err(e),
        }
        let ghost pre = *self;
        self.owner_id = owner_id;
        proof {
            assert(self.accounts@ == pre.accounts@);
            assert forall|j: int, k: int|
                0 <= j < self.accounts@.len() && 0 <= k < self.accounts@.len()
                    && (#[trigger] self.acct(j)).account_id@ == (#[trigger] self.acct(k)).account_id@
                implies j == k by {
                assert(self.acct(j) == pre.acct(j));
                assert(self.acct(k) == pre.acct(k));
            }
            assert forall|j: int| 0 <= j < self.accounts@.len() implies (#[trigger] self.acct(j)).wf() by {
                assert(self.acct(j) == pre.acct(j));
            }
        }
        Ok(())
    }

    /// Removes the schedule of `account_id`; only the administrator may. See
    /// [`Contract::internal_remove_account`].
    pub fn remove_account(&mut self, caller: &AccountId, account_id: AccountId) -> (r: Result<bool, VaultError>)
        requires
            old(self).wf(),
        ensures
            final(self).wf(),
            caller@ != old(self).owner_id@ ==> r == Err::<bool, VaultError>(VaultError::NotAuthorized)
                && *final(self) == *old(self),
            caller@ == old(self).owner_id@ ==> r == Ok::<bool, VaultError>(old(self).has(account_id@)),
            caller@ == old(self).owner_id@ && !old(self).has(account_id@) ==> *final(self) == *old(self),
            caller@ == old(self).owner_id@ && old(self).has(account_id@) ==> Contract::moved_to(
                *old(self),
                *final(self),
                old(self).accounts@.remove(old(self).index_of(account_id@)),
                old(self).claimed_balance as int,
            ),
    {
        match self.assert_owner(caller) {
            Ok(()) => {},
            Err(e) => return Err(e),
        }
        Ok(self.internal_remove_account(account_id))
    }

    /// Adds a schedule for `account_id` unless it has one; only the
    /// administrator may. See [`Contract::internal_add_account`].
    pub fn add_account(
        &mut self,
        caller: &AccountId,
        account_id: AccountId,
        start_timestamp: TimestampSec,
        release_interval: TimestampSec,
        release_rounds: u32,
        release_per_round: Balance,
    ) -> (r: Result<bool, VaultError>)
        requires
            old(self).wf(),
            release_interval > 0,
            release_rounds as int * release_per_round as int <= u128::MAX,
        ensures
            final(self).wf(),
            caller@ != old(self).owner_id@ ==> r == Err::<bool, VaultError>(VaultError::NotAuthorized)
                && *final(self) == *old(self),
            caller@ == old(self).owner_id@ ==> r == Ok::<bool, VaultError>(!old(self).has(account_id@)),
            caller@ == old(self).owner_id@ && old(self).has(account_id@) ==> *final(self) == *old(self),
            caller@ == old(self).owner_id@ && !old(self).has(account_id@) ==> {
                let n = old(self).accounts@.len() as int;
                let b = final(self).acct(n);
                &&& final(self).accounts@.len() == n + 1
                &&& Contract::moved_to(
                    *old(self),
                    *final(self),
                    old(self).accounts@.push(b),
                    old(self).claimed_balance as int,
                )
                &&& b.account_id@ == account_id@
                &&& b.start_timestamp == start_timestamp
                &&& b.release_interval == release_interval
                &&& b.release_rounds == release_rounds
                &&& b.last_claim_round == 0
                &&& b.release_per_round == release_per_round
            },
    {
        match self.assert_owner(caller) {
            Ok(()) => {},
            Err(e) => return Err(e),
        }
        Ok(
            self.internal_add_account(
                account_id,
                start_timestamp,
                release_interval,
                release_rounds,
                release_per_round,
            ),
        )
    }

    /// A payment of `amount` to `receiver` by `caller` at `now` leads from
    /// `pre` to `post` with result `r`: the administrator may pay out of the
    /// liquid part of the pool whatever the schedules do not need for what
    /// they have unlocked and not claimed.
    pub open spec fn payment_spec(
        pre: Contract,
        caller: Seq<char>,
        receiver: Seq<char>,
        amount: u128,
        now: u64,
        r: Result<Payout, VaultError>,
        post: Contract,
    ) -> bool {
        if caller != pre.owner_id@ {
            r == Err::<Payout, VaultError>(VaultError::NotAuthorized) && post == pre
        } else if amount + pre.unclaimed_total(now) > pre.liquid(now) {
            r == Err::<Payout, VaultError>(VaultError::InsufficientLiquidity) && post == pre
        } else if amount == 0 {
            r == Ok::<Payout, VaultError>(Payout::Nothing) && post == pre
        } else {
            &&& is_transfer_of(r, receiver, amount as int)
            &&& post == (Contract { claimed_balance: (pre.claimed_balance + amount) as u128, ..pre })
        }
    }

    /// Pays `amount` to `receiver_id` out of the pool; only the
    /// administrator may. The ledger is debited at once; the returned
    /// transfer is reconciled later through
    /// [`Contract::after_payment_transfer`].
    pub fn payment(&mut self, caller: &AccountId, receiver_id: AccountId, amount: Balance, now: u64) -> (r:
        Result<Payout, VaultError>)
        requires
            old(self).wf(),
        ensures
            final(self).wf(),
            Self::payment_spec(*old(self), caller@, receiver_id@, amount, now, r, *final(self)),
    {
        match self.assert_owner(caller) {
            Ok(()) => {},
            Err(e) => return Err(e),
        }
        let (liquid_balance, unclaimed_balance) = self.cur_funding_balance(now);
        if unclaimed_balance > liquid_balance || amount > liquid_balance - unclaimed_balance {
            return Err(VaultError::InsufficientLiquidity);
        }
        if amount > 0 {
            let ghost pre = *self;
            self.claimed_balance = self.claimed_balance + amount;
            proof {
                assert(self.accounts@ == pre.accounts@);
                assert forall|j: int, k: int|
                    0 <= j < self.accounts@.len() && 0 <= k < self.accounts@.len()
                        && (#[trigger] self.acct(j)).account_id@ == (#[trigger] self.acct(k)).account_id@
                    implies j == k by {
                    assert(self.acct(j) == pre.acct(j));
                    assert(self.acct(k) == pre.acct(k));
                }
                assert forall|j: int| 0 <= j < self.accounts@.len() implies (#[trigger] self.acct(j)).wf() by {
                    assert(self.acct(j) == pre.acct(j));
                }
            }
            Ok(Payout::Transfer { receiver_id, amount })
        } else {
            Ok(Payout::Nothing)
        }
    }

    /// Reconciles the payment of `amount` to `account_id`: on success
    /// nothing changes; on failure the amount goes back to the pool. Only the
    /// vault itself may call this.
    pub fn after_payment_transfer(&mut self, account_id: AccountId, amount: Balance, promise_success: bool) -> (r:
        Result<bool, VaultError>)
        requires
            old(self).wf(),
        ensures
            final(self).wf(),
            promise_success ==> r == Ok::<bool, VaultError>(true) && *final(self) == *old(self),
            !promise_success && amount > old(self).claimed_balance ==> r == Err::<bool, VaultError>(
                VaultError::ClaimNotFound,
            ) && *final(self) == *old(self),
            !promise_success && amount <= old(self).claimed_balance ==> r == Ok::<bool, VaultError>(false)
                && *final(self) == (Contract {
                claimed_balance: (old(self).claimed_balance - amount) as u128,
                ..*old(self)
            }),
    {
        if promise_success {
            return Ok(true);
        }
        if amount > self.claimed_balance {
            return Err(VaultError::ClaimNotFound);
        }
        let ghost pre = *self;
        self.claimed_balance = self.claimed_balance - amount;
        proof {
            assert(self.accounts@ == pre.accounts@);
            assert forall|j: int, k: int|
                0 <= j < self.accounts@.len() && 0 <= k < self.accounts@.len()
                    && (#[trigger] self.acct(j)).account_id@ == (#[trigger] self.acct(k)).account_id@
                implies j == k by {
                assert(self.acct(j) == pre.acct(j));
                assert(self.acct(k) == pre.acct(k));
            }
            assert forall|j: int| 0 <= j < self.accounts@.len() implies (#[trigger] self.acct(j)).wf() by {
                assert(self.acct(j) == pre.acct(j));
            }
        }
        Ok(false)
    }
}

/// The public summary of the vault at one instant.
#[derive(Debug, Clone, PartialEq, Eq)]
pub struct Stats {
    pub version: String,
    /// The administrator, the only one who may manage schedules and pay.
    pub owner_id: AccountId,
    /// The token that this vault keeps.
    pub token_account_id: AccountId,
    /// The pool.
    pub total_balance: Balance,
    /// The instant the first round of the pool starts, in seconds.
    pub start_timestamp: TimestampSec,
    /// How long one round of the pool lasts, in seconds.
    pub release_interval: TimestampSec,
    /// How many rounds the pool unlocks in.
    pub release_rounds: u32,
    /// Tokens paid out or in flight, by claims and payments together.
    pub claimed_balance: Balance,
    /// The part of the pool still locked.
    pub locked_balance: Balance,
    /// Unlocked tokens not yet paid out.
    pub liquid_balance: Balance,
    /// What the schedules have unlocked and not claimed.
    pub unclaimed_balance: Balance,
    /// Rounds of the pool that have passed.
    pub current_round: u64,
}

/// The public view of one beneficiary's schedule.
#[derive(Debug, Clone, PartialEq, Eq)]
pub struct AccountOutput {
    pub account_id: AccountId,
    /// The instant the first round starts, in seconds.
    pub start_timestamp: TimestampSec,
    /// How long one round lasts, in seconds.
    pub release_interval: TimestampSec,
    /// How many rounds the schedule has.
    pub release_rounds: u32,
    /// How many rounds have been claimed.
    pub last_claim_round: u32,
    /// The amount released by each round.
    pub release_per_round: Balance,
    /// The amount unlocked and not yet claimed.
    pub unclaimed_amount: Balance,
}

impl Contract {
    /// The vault's settings and balances at `now`.
    pub fn get_stats(&self, now: u64) -> (r: Stats)
        requires
            self.wf(),
        ensures
            r.version@ == VERSION@,
            r.owner_id == self.owner_id,
            r.token_account_id == self.token_account_id,
            r.total_balance == self.total_balance,
            r.start_timestamp == self.start_timestamp,
            r.release_interval == self.release_interval,
            r.release_rounds == self.release_rounds,
            r.claimed_balance == self.claimed_balance,
            r.locked_balance == self.total_balance - self.unlocked(now),
            r.liquid_balance == self.liquid(now),
            r.unclaimed_balance == self.unclaimed_total(now),
            r.current_round == self.cur_round(now),
    {
        let (cur_round, unlocked) = self.cur_round_and_total_unlock(now);
        let (liquid_balance, unclaimed_balance) = self.cur_funding_balance(now);
        Stats {
            owner_id: self.owner_id.clone(),
            version: VERSION.to_owned(),
            token_account_id: self.token_account_id.clone(),
            total_balance: self.total_balance,
            claimed_balance: self.claimed_balance,
            start_timestamp: self.start_timestamp,
            release_interval: self.release_interval,
            release_rounds: self.release_rounds,
            locked_balance: self.total_balance - unlocked,
            liquid_balance,
            unclaimed_balance,
            current_round: cur_round,
        }
    }

    /// The schedule of `account_id` as seen at `now`, if it has one.
    pub fn get_account(&self, account_id: &AccountId, now: u64) -> (r: Option<AccountOutput>)
        requires
            self.wf(),
        ensures
            r.is_none() == !self.has(account_id@),
            r matches Some(out) ==> {
                let a = self.acct(self.index_of(account_id@));
                &&& out.account_id == a.account_id
                &&& out.start_timestamp == a.start_timestamp
                &&& out.release_interval == a.release_interval
                &&& out.release_rounds == a.release_rounds
                &&& out.last_claim_round == a.last_claim_round
                &&& out.release_per_round == a.release_per_round
                &&& out.unclaimed_amount == a.unclaimed(now)
            },
    {
        match self.find_account(account_id) {
            Some(i) => {
                let account = &self.accounts[i];
                Some(
                    AccountOutput {
                        account_id: account.account_id.clone(),
                        start_timestamp: account.start_timestamp,
                        release_interval: account.release_interval,
                        release_rounds: account.release_rounds,
                        last_claim_round: account.last_claim_round,
                        release_per_round: account.release_per_round,
                        unclaimed_amount: account.unclaimed_amount(now),
                    },
                )
            },
            None => None,
        }
    }
}

impl Account {
    /// A copy of this schedule.
    pub fn clone_account(&self) -> (r: Account)
        ensures
            r == *self,
    {
        Account {
            account_id: self.account_id.clone(),
            start_timestamp: self.start_timestamp,
            release_interval: self.release_interval,
            release_rounds: self.release_rounds,
            last_claim_round: self.last_claim_round,
            release_per_round: self.release_per_round,
        }
    }
}

proof fn lemma_unclaimed_sum_nonneg(s: Seq<Account>, now: u64)
    ensures
        unclaimed_sum(s, now) >= 0,
    decreases s.len(),
{
    if s.len() > 0 {
        lemma_unclaimed_sum_nonneg(s.drop_last(), now);
        let a = s.last();
        assert(a.release_per_round * a.due(now) >= 0) by (nonlinear_arith)
            requires
                a.due(now) >= 0,
        ;
    }
}

/// Replacing one schedule by a computable one for the same beneficiary,
/// with no more claimed than the pool holds, keeps the vault invariant.
proof fn lemma_updated_wf(pre: Contract, post: Contract, i: int, account: Account)
    requires
        pre.wf(),
        0 <= i < pre.accounts@.len(),
        post.accounts@ == pre.accounts@.update(i, account),
        post.release_interval == pre.release_interval,
        post.claimed_balance <= post.total_balance,
        account.wf(),
        account.account_id@ == pre.acct(i).account_id@,
    ensures
        post.wf(),
{
    assert forall|j: int| 0 <= j < post.accounts@.len() implies (#[trigger] post.acct(j)).wf() by {
        if j != i {
            assert(post.acct(j) == pre.acct(j));
        }
    }
    assert forall|j: int, k: int|
        0 <= j < post.accounts@.len() && 0 <= k < post.accounts@.len() && (#[trigger] post.acct(
            j,
        )).account_id@ == (#[trigger] post.acct(k)).account_id@ implies j == k by {
        assert(post.acct(j).account_id@ == pre.acct(j).account_id@);
        assert(post.acct(k).account_id@ == pre.acct(k).account_id@);
    }
}

} // verus!

verus! {

/// After a schedule is replaced by one for the same beneficiary, that
/// beneficiary is still found, at the same position.
proof fn lemma_updated_index(pre: Contract, post: Contract, i: int, account: Account, id: Seq<char>)
    requires
        post.ids_unique(),
        0 <= i < pre.accounts@.len(),
        post.accounts@ == pre.accounts@.update(i, account),
        account.account_id@ == id,
    ensures
        post.has(id),
        post.index_of(id) == i,
{
    assert(post.acct(i) == account);
    assert(post.has(id));
    let k = post.index_of(id);
    assert(post.acct(k).account_id@ == id);
}

/// The state a paying claim leads to satisfies the vault invariant, and
/// the claimant is found at the same position.
proof fn lemma_claim_post(pre: Contract, post: Contract, caller: Seq<char>, now: u64, r: Result<Payout, VaultError>)
    requires
        pre.wf(),
        Contract::claim_spec(pre, caller, now, r, post),
        pre.has(caller),
        pre.acct(pre.index_of(caller)).unclaimed(now) > 0,
        pre.claimed_balance + pre.acct(pre.index_of(caller)).unclaimed(now) <= pre.unlocked(now),
    ensures
        post.wf(),
        post.has(caller),
        post.index_of(caller) == pre.index_of(caller),
        pre.unlocked(now) <= pre.total_balance,
{
    let i = pre.index_of(caller);
    let a = pre.acct(i);
    let b = a.with_last(a.last_claim_round + a.due(now));
    lemma_unlocked_le_total(pre, now);
    lemma_updated_wf(pre, post, i, b);
    lemma_updated_index(pre, post, i, b, caller);
}

/// The unlocked part of the pool never exceeds the pool.
proof fn lemma_unlocked_le_total(c: Contract, now: u64)
    requires
        c.wf(),
    ensures
        0 <= c.unlocked(now) <= c.total_balance,
{
    let len = c.release_interval as int * 1_000_000_000;
    assert(len > 0) by (nonlinear_arith)
        requires
            len == c.release_interval as int * 1_000_000_000,
            c.release_interval > 0,
    ;
    let round = c.cur_round(now);
    if now > crate::utils::nano_of(c.start_timestamp) {
        vstd::arithmetic::div_mod::lemma_div_pos_is_pos(now - crate::utils::nano_of(c.start_timestamp), len);
    }
    if round < c.release_rounds {
        let t = c.total_balance as int;
        let n = c.release_rounds as int;
        assert(0 <= t * round <= t * n) by (nonlinear_arith)
            requires
                0 <= round < n,
                t >= 0,
        ;
        vstd::arithmetic::div_mod::lemma_div_is_ordered(t * round, t * n, n);
        vstd::arithmetic::div_mod::lemma_div_by_multiple(t, n);
        vstd::arithmetic::div_mod::lemma_div_pos_is_pos(t * round, n);
    }
}

/// Claiming twice at the same instant: the second claim changes nothing,
/// whatever the first one did.
pub proof fn lemma_claim_idempotent(
    s0: Contract,
    s1: Contract,
    s2: Contract,
    caller: Seq<char>,
    now: u64,
    r1: Result<Payout, VaultError>,
    r2: Result<Payout, VaultError>,
)
    requires
        s0.wf(),
        Contract::claim_spec(s0, caller, now, r1, s1),
        Contract::claim_spec(s1, caller, now, r2, s2),
    ensures
        s2 == s1,
        r1 is Ok ==> r2 == Ok::<Payout, VaultError>(Payout::Nothing),
{
    let i = s0.index_of(caller);
    let a = s0.acct(i);
    if s0.has(caller) && a.unclaimed(now) > 0 && s0.claimed_balance + a.unclaimed(now) <= s0.unlocked(now) {
        lemma_claim_post(s0, s1, caller, now, r1);
        let b = a.with_last(a.last_claim_round + a.due(now));
        assert(s1.acct(i) == b);
        assert(b.due(now) == 0);
        assert(b.unclaimed(now) == 0);
        assert(s1.acct(s1.index_of(caller)).unclaimed(now) == 0);
    }
}

/// A claim whose transfer then fails, once reconciled, leaves the vault
/// exactly as it was before the claim: the same settings, claimed total and
/// schedules.
pub proof fn lemma_rollback_restores(
    s0: Contract,
    s1: Contract,
    s2: Contract,
    caller: Seq<char>,
    now: u64,
    amount: u128,
    r1: Result<Payout, VaultError>,
    r2: Result<bool, VaultError>,
)
    requires
        s0.wf(),
        Contract::claim_spec(s0, caller, now, r1, s1),
        is_transfer_of(r1, caller, amount as int),
        Contract::rollback_spec(s1, caller, amount, false, r2, s2),
    ensures
        r2 == Ok::<bool, VaultError>(false),
        Contract::moved_to(s0, s2, s0.accounts@, s0.claimed_balance as int),
{
    let i = s0.index_of(caller);
    let a = s0.acct(i);
    let due = a.due(now);
    let rate = a.release_per_round;
    assert(amount == rate * due);
    assert(rate > 0) by (nonlinear_arith)
        requires
            amount == rate * due,
            amount > 0,
    ;
    vstd::arithmetic::div_mod::lemma_div_multiples_vanish(due, rate as int);
    lemma_claim_post(s0, s1, caller, now, r1);
    let b = a.with_last(a.last_claim_round + due);
    assert(s1.acct(i) == b);
    assert(amount / rate == due);
    assert(b.with_last(b.last_claim_round - due) == a);
    assert(s2.accounts@ =~= s0.accounts@);
}

/// A claim never lowers any schedule's count of claimed rounds, and a
/// payment leaves every count as it was.
pub proof fn lemma_claimed_rounds_monotone(
    s0: Contract,
    s1: Contract,
    caller: Seq<char>,
    now: u64,
    r: Result<Payout, VaultError>,
    s2: Contract,
    receiver: Seq<char>,
    amount: u128,
    r2: Result<Payout, VaultError>,
    j: int,
)
    requires
        s0.wf(),
        Contract::claim_spec(s0, caller, now, r, s1),
        Contract::payment_spec(s0, caller, receiver, amount, now, r2, s2),
        0 <= j < s0.accounts@.len(),
    ensures
        s1.accounts@.len() == s0.accounts@.len(),
        s1.acct(j).last_claim_round >= s0.acct(j).last_claim_round,
        s2.accounts@ == s0.accounts@,
{
    let i = s0.index_of(caller);
    let a = s0.acct(i);
    if s0.has(caller) && j == i {
        assert(a.last_claim_round + a.due(now) <= a.release_rounds);
    }
}

/// Every state the vault invariant admits has paid out no more than the
/// pool; a paying claim keeps the claimed total within what the pool has
/// unlocked, and a payment keeps it, together with what the schedules may
/// still claim, within the same bound.
pub proof fn lemma_payouts_within_unlocked(
    s0: Contract,
    s1: Contract,
    caller: Seq<char>,
    now: u64,
    r: Result<Payout, VaultError>,
    s2: Contract,
    receiver: Seq<char>,
    amount: u128,
    r2: Result<Payout, VaultError>,
)
    requires
        s0.wf(),
        Contract::claim_spec(s0, caller, now, r, s1),
        Contract::payment_spec(s0, caller, receiver, amount, now, r2, s2),
    ensures
        s0.claimed_balance <= s0.total_balance,
        r matches Ok(Payout::Transfer { .. }) ==> s1.claimed_balance <= s1.unlocked(now) <= s1.total_balance,
        r2 matches Ok(Payout::Transfer { .. }) ==> s2.claimed_balance + s2.unclaimed_total(now)
            <= s2.unlocked(now) <= s2.total_balance,
{
    lemma_unlocked_le_total(s0, now);
    let i = s0.index_of(caller);
    let a = s0.acct(i);
    if s0.has(caller) && a.unclaimed(now) > 0 && s0.claimed_balance + a.unclaimed(now) <= s0.unlocked(now) {
        lemma_claim_post(s0, s1, caller, now, r);
    }
    if r2 is Ok && amount > 0 {
        lemma_unclaimed_sum_nonneg(s0.accounts@, now);
        assert(s2.accounts@ == s0.accounts@);
    }
}

} // verus!
