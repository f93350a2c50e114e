//! The per-account funded variant: every beneficiary's schedule is backed by
//! the tokens deposited for that beneficiary alone.

use crate::error::VaultError;
use crate::schedule::{due_period_count, due_periods, is_transfer_of, Payout};
use crate::utils::{AccountId, Balance, TimestampSec};
use vstd::prelude::*;

verus! {

/// The version that [`Contract::contract_metadata`] reports.
pub const VERSION: &'static str = "1.0.0";

/// Keys of the host storage collections.
pub enum StorageKeys {
    Accounts,
}

/// A beneficiary's vesting schedule, its claim progress and its funding.
pub struct Account {
    pub account_id: AccountId,
    /// The instant the first session starts, in seconds.
    pub start_timestamp: TimestampSec,
    /// How long one session lasts, in seconds.
    pub session_interval: TimestampSec,
    /// How many sessions the schedule has.
    pub session_num: u32,
    /// How many sessions have been claimed.
    pub last_claim_session: u32,
    /// The amount released by each session.
    pub release_per_session: Balance,
    /// Tokens deposited for this beneficiary and not yet claimed.
    pub realized_total_amount: Balance,
}

impl Account {
    /// A schedule that can be computed on: sessions have a length, progress
    /// never passes the last session, and the whole entitlement fits a
    /// `u128`.
    pub open spec fn wf(self) -> bool {
        &&& self.session_interval > 0
        &&& self.last_claim_session <= self.session_num
        &&& self.session_num as int * self.release_per_session as int <= u128::MAX
    }

    /// Sessions unlocked at `now` and not yet claimed.
    pub open spec fn due(self, now: u64) -> int {
        due_periods(
            self.start_timestamp,
            self.session_interval,
            self.session_num,
            self.last_claim_session,
            now,
        )
    }

    /// The amount unlocked at `now` and not yet claimed.
    pub open spec fn unclaimed(self, now: u64) -> int {
        self.release_per_session * self.due(now)
    }

    /// The instant, in nanoseconds, at which the last session ends.
    pub open spec fn end_nano(self) -> int {
        (self.start_timestamp + self.session_num * self.session_interval) * 1_000_000_000
    }

    /// The same beneficiary and funding under a new schedule, with no
    /// session claimed yet.
    pub open spec fn rescheduled(
        self,
        start_timestamp: TimestampSec,
        session_interval: TimestampSec,
        session_num: u32,
        release_per_session: Balance,
    ) -> Account {
        Account {
            start_timestamp,
            session_interval,
            session_num,
            release_per_session,
            last_claim_session: 0,
            ..self
        }
    }

    /// The same schedule with the given claim progress and funding.
    pub open spec fn with_progress(self, last: int, realized: int) -> Account {
        Account { last_claim_session: last as u32, realized_total_amount: realized as u128, ..self }
    }

    /// The amount unlocked at `cur_ts` (nanoseconds) and not yet claimed.
    pub fn unclaimed_amount(&self, cur_ts: u64) -> (r: u128)
        requires
            self.wf(),
        ensures
            r == self.unclaimed(cur_ts),
    {
        let times = due_period_count(
            self.start_timestamp,
            self.session_interval,
            self.session_num,
            self.last_claim_session,
            cur_ts,
        );
        assert(self.release_per_session * times <= self.session_num * self.release_per_session)
            by (nonlinear_arith)
            requires
                times <= self.session_num,
        ;
        self.release_per_session * times as u128
    }
}

/// A stored schedule, tagged with the layout it was written in.
pub enum VAccount {
    Current(Account),
}

impl VAccount {
    /// The schedule in the current layout.
    pub open spec fn current(self) -> Account {
        match self {
            VAccount::Current(account) => account,
        }
    }

    /// Upgrades a stored schedule to the current layout.
    pub fn into_current(self) -> (r: Account)
        ensures
            r == self.current(),
    {
        match self {
            VAccount::Current(account) => account,
        }
    }
}

impl From<Account> for VAccount {
    fn from(account: Account) -> (r: Self)
        ensures
            r == VAccount::Current(account),
    {
        VAccount::Current(account)
    }
}

impl vstd::std_specs::convert::FromSpecImpl<Account> for VAccount {
    open spec fn obeys_from_spec() -> bool {
        true
    }

    open spec fn from_spec(account: Account) -> VAccount {
        VAccount::Current(account)
    }
}

/// The sum of the unclaimed deposits held for the schedules in `s`.
pub open spec fn realized_sum(s: Seq<VAccount>) -> int
    decreases s.len(),
{
    if s.len() == 0 {
        0
    } else {
        realized_sum(s.drop_last()) + s.last().current().realized_total_amount
    }
}

proof fn lemma_realized_sum_push(s: Seq<VAccount>, v: VAccount)
    ensures
        realized_sum(s.push(v)) == realized_sum(s) + v.current().realized_total_amount,
{
    assert(s.push(v).drop_last() =~= s);
}

proof fn lemma_realized_sum_update(s: Seq<VAccount>, i: int, v: VAccount)
    requires
        0 <= i < s.len(),
    ensures
        realized_sum(s.update(i, v)) == realized_sum(s) - s[i].current().realized_total_amount
            + v.current().realized_total_amount,
    decreases s.len(),
{
    if i == s.len() - 1 {
        assert(s.update(i, v).drop_last() =~= s.drop_last());
    } else {
        lemma_realized_sum_update(s.drop_last(), i, v);
        assert(s.update(i, v).drop_last() =~= s.drop_last().update(i, v));
    }
}

proof fn lemma_realized_le_sum(s: Seq<VAccount>, i: int)
    requires
        0 <= i < s.len(),
    ensures
        s[i].current().realized_total_amount <= realized_sum(s),
    decreases s.len(),
{
    lemma_realized_sum_nonneg(s.drop_last());
    if i < s.len() - 1 {
        lemma_realized_le_sum(s.drop_last(), i);
    }
}

proof fn lemma_realized_sum_nonneg(s: Seq<VAccount>)
    ensures
        realized_sum(s) >= 0,
    decreases s.len(),
{
    if s.len() > 0 {
        lemma_realized_sum_nonneg(s.drop_last());
    }
}

/// The ledger: administrator, kept token, pool totals and schedules.
pub struct ContractData {
    /// The administrator.
    pub owner_id: AccountId,
    /// The token that this vault keeps.
    pub token_account_id: AccountId,
    /// Tokens deposited so far, over all schedules.
    pub total_balance: Balance,
    /// Tokens claimed so far.
    pub claimed_balance: Balance,
    /// The schedules, in the order they were first added.
    pub accounts: Vec<VAccount>,
}

impl ContractData {
    /// The schedule at position `i`.
    pub open spec fn acct(self, i: int) -> Account {
        self.accounts@[i].current()
    }

    /// A schedule is registered for `id`.
    pub open spec fn has(self, id: Seq<char>) -> bool {
        exists|i: int| 0 <= i < self.accounts@.len() && (#[trigger] self.acct(i)).account_id@ == id
    }

    /// The position of the schedule registered for `id`.
    pub open spec fn index_of(self, id: Seq<char>) -> int {
        choose|i: int| 0 <= i < self.accounts@.len() && (#[trigger] self.acct(i)).account_id@ == id
    }

    /// Every beneficiary has at most one schedule.
    pub open spec fn ids_unique(self) -> bool {
        forall|i: int, j: int|
            0 <= i < self.accounts@.len() && 0 <= j < self.accounts@.len() && (#[trigger] self.acct(
                i,
            )).account_id@ == (#[trigger] self.acct(j)).account_id@ ==> i == j
    }

    /// The ledger invariant: unique beneficiaries, computable schedules, and
    /// a pool whose deposits are exactly what the schedules hold unclaimed
    /// plus what has been claimed.
    pub open spec fn wf(self) -> bool {
        &&& self.ids_unique()
        &&& forall|i: int| 0 <= i < self.accounts@.len() ==> (#[trigger] self.acct(i)).wf()
        &&& self.total_balance == realized_sum(self.accounts@) + self.claimed_balance
    }

    /// `post` is `pre` with the schedule at `i` replaced by `account` and the
    /// pool totals set to `total` and `claimed`.
    pub open spec fn moved_to(
        pre: ContractData,
        post: ContractData,
        i: int,
        account: Account,
        total: int,
        claimed: int,
    ) -> bool {
        &&& post.owner_id == pre.owner_id
        &&& post.token_account_id == pre.token_account_id
        &&& post.total_balance == total
        &&& post.claimed_balance == claimed
        &&& post.accounts@ == pre.accounts@.update(i, VAccount::Current(account))
    }

    /// The position of the schedule registered for `account_id`, if any.
    pub fn find_account(&self, account_id: &AccountId) -> (r: Option<usize>)
        requires
            self.ids_unique(),
        ensures
            r.is_none() == !self.has(account_id@),
            r matches Some(i) ==> i == self.index_of(account_id@) && i < self.accounts@.len(),
    {
        let mut i: usize = 0;
        while i < self.accounts.len()
            invariant
                self.ids_unique(),
                i <= self.accounts@.len(),
                forall|j: int| 0 <= j < i ==> (#[trigger] self.acct(j)).account_id@ != account_id@,
            decreases self.accounts@.len() - i,
        {
            let found = match &self.accounts[i] {
                VAccount::Current(account) => account.account_id == *account_id,
            };
            if found {
                proof {
                    assert(self.acct(i as int).account_id@ == account_id@);
                    assert(self.has(account_id@));
                    let k = self.index_of(account_id@);
                    assert(self.acct(k).account_id@ == account_id@);
                    assert(k == i);
                }
                return Some(i);
            }
            i += 1;
        }
        None
    }
}

/// Replacing one schedule by a computable one for the same beneficiary, with
/// the pool total moved by the change in that schedule's deposits, keeps the
/// ledger invariant.
proof fn lemma_moved_wf(
    pre: ContractData,
    post: ContractData,
    i: int,
    account: Account,
    total: int,
    claimed: int,
)
    requires
        pre.wf(),
        0 <= i < pre.accounts@.len(),
        ContractData::moved_to(pre, post, i, account, total, claimed),
        account.wf(),
        account.account_id@ == pre.acct(i).account_id@,
        total - claimed == pre.total_balance - pre.claimed_balance - pre.acct(
            i,
        ).realized_total_amount + account.realized_total_amount,
    ensures
        post.wf(),
{
    lemma_realized_sum_update(pre.accounts@, i, VAccount::Current(account));
    assert forall|j: int| 0 <= j < post.accounts@.len() implies (#[trigger] post.acct(j)).wf() by {
        if j != i {
            assert(post.acct(j) == pre.acct(j));
        }
    }
    assert forall|j: int, k: int|
        0 <= j < post.accounts@.len() && 0 <= k < post.accounts@.len() && (#[trigger] post.acct(
            j,
        )).account_id@ == (#[trigger] post.acct(k)).account_id@ implies j == k by {
        assert(post.acct(j).account_id@ == pre.acct(j).account_id@);
        assert(post.acct(k).account_id@ == pre.acct(k).account_id@);
    }
}

/// The stored ledger, tagged with the layout it was written in.
pub enum VContractData {
    Current(ContractData),
}

/// The public summary of the vault.
#[derive(Debug, Clone, PartialEq, Eq)]
pub struct ContractInfo {
    pub version: String,
    /// The administrator, the only one who may manage schedules.
    pub owner_id: AccountId,
    /// The token that this vault keeps.
    pub token_account_id: AccountId,
    /// Tokens deposited so far.
    pub total_balance: Balance,
    /// Tokens claimed so far.
    pub claimed_balance: Balance,
}

/// The public view of one beneficiary's schedule.
#[derive(Debug, Clone, PartialEq, Eq)]
pub struct AccountInfo {
    pub account_id: AccountId,
    /// The instant the first session starts, in seconds.
    pub start_timestamp: TimestampSec,
    /// How long one session lasts, in seconds.
    pub session_interval: TimestampSec,
    /// How many sessions the schedule has.
    pub session_num: u32,
    /// How many sessions have been claimed.
    pub last_claim_session: u32,
    /// The amount released by each session.
    pub release_per_session: Balance,
    /// The amount claimed under the current schedule.
    pub claimed_amount: Balance,
    /// Deposits held for the schedule, claimed under it or not (capped at
    /// `u128::MAX`).
    pub deposited_amount: Balance,
    /// The amount unlocked and not yet claimed.
    pub unclaimed_amount: Balance,
}

impl AccountInfo {
    /// The view of schedule `a` at `now`.
    pub open spec fn of(a: Account, now: u64) -> AccountInfo {
        AccountInfo {
            account_id: a.account_id,
            start_timestamp: a.start_timestamp,
            session_interval: a.session_interval,
            session_num: a.session_num,
            last_claim_session: a.last_claim_session,
            release_per_session: a.release_per_session,
            claimed_amount: (a.last_claim_session * a.release_per_session) as u128,
            deposited_amount: if a.realized_total_amount + a.last_claim_session * a.release_per_session
                <= u128::MAX {
                (a.realized_total_amount + a.last_claim_session * a.release_per_session) as u128
            } else {
                u128::MAX
            },
            unclaimed_amount: a.unclaimed(now) as u128,
        }
    }

    /// The view of the stored schedule `vacc` at `now` (nanoseconds).
    pub fn from(vacc: &VAccount, now: u64) -> (r: AccountInfo)
        requires
            vacc.current().wf(),
        ensures
            r == AccountInfo::of(vacc.current(), now),
    {
        let acc = match vacc {
            VAccount::Current(acc) => acc,
        };
        assert(acc.last_claim_session * acc.release_per_session <= acc.session_num
            * acc.release_per_session) by (nonlinear_arith)
            requires
                acc.last_claim_session <= acc.session_num,
        ;
        let claimed_amount = acc.last_claim_session as u128 * acc.release_per_session;
        AccountInfo {
            account_id: acc.account_id.clone(),
            start_timestamp: acc.start_timestamp,
            session_interval: acc.session_interval,
            session_num: acc.session_num,
            last_claim_session: acc.last_claim_session,
            release_per_session: acc.release_per_session,
            claimed_amount,
            deposited_amount: acc.realized_total_amount.saturating_add(claimed_amount),
            unclaimed_amount: acc.unclaimed_amount(now),
        }
    }
}

/// The per-account funded vault.
pub struct Contract {
    pub data: VContractData,
}

impl Contract {
    /// The ledger in the current layout.
    pub open spec fn d(self) -> ContractData {
        match self.data {
            VContractData::Current(data) => data,
        }
    }

    /// The ledger invariant of the current layout.
    pub open spec fn wf(self) -> bool {
        self.d().wf()
    }

    /// A vault administered by `owner_id` that keeps the token `token_id`,
    /// with no schedules and empty pools.
    pub fn new(owner_id: AccountId, token_id: AccountId) -> (r: Self)
        ensures
            r.wf(),
            r.d().owner_id == owner_id,
            r.d().token_account_id == token_id,
            r.d().total_balance == 0,
            r.d().claimed_balance == 0,
            r.d().accounts@.len() == 0,
    {
        let r = Contract {
            data: VContractData::Current(
                ContractData {
                    owner_id,
                    token_account_id: token_id,
                    total_balance: 0,
                    claimed_balance: 0,
                    accounts: Vec::new(),
                },
            ),
        };
        assert(r.d().accounts@.len() == 0);
        r
    }

    /// The beneficiary a claim is for: the one named, else the caller.
    pub open spec fn claim_target(account_id: Option<AccountId>, caller: AccountId) -> Seq<char> {
        match account_id {
            Some(id) => id@,
            None => caller@,
        }
    }

    /// A claim for `target` at `now` leads from `pre` to `post` with result `r`:
    /// it pays out every session unlocked and not yet claimed, from that
    /// beneficiary's own deposits, or changes nothing.
    pub open spec fn claim_spec(
        pre: Contract,
        target: Seq<char>,
        now: u64,
        r: Result<Payout, VaultError>,
        post: Contract,
    ) -> bool {
        let d = pre.d();
        let i = d.index_of(target);
        let a = d.acct(i);
        let amount = a.unclaimed(now);
        if !d.has(target) {
            r == Err::<Payout, VaultError>(VaultError::AccountNotFound) && post == pre
        } else if amount == 0 {
            r == Ok::<Payout, VaultError>(Payout::Nothing) && post == pre
        } else if amount > a.realized_total_amount {
            r == Err::<Payout, VaultError>(VaultError::InsufficientLiquidity) && post == pre
        } else {
            &&& is_transfer_of(r, target, amount)
            &&& ContractData::moved_to(
                d,
                post.d(),
                i,
                a.with_progress(
                    a.last_claim_session + a.due(now),
                    a.realized_total_amount - amount,
                ),
                d.total_balance as int,
                d.claimed_balance + amount,
            )
        }
    }

    /// The reconciliation of a transfer of `amount` to `target` leads from
    /// `pre` to `post` with result `r`: a success changes nothing; a failure
    /// gives the sessions and the tokens back to the schedule and the pool.
    pub open spec fn rollback_spec(
        pre: Contract,
        target: Seq<char>,
        amount: u128,
        success: bool,
        r: Result<bool, VaultError>,
        post: Contract,
    ) -> bool {
        let d = pre.d();
        let i = d.index_of(target);
        let a = d.acct(i);
        if success {
            r == Ok::<bool, VaultError>(true) && post == pre
        } else if !d.has(target) || a.release_per_session == 0 || amount / a.release_per_session
            > a.last_claim_session || amount > d.claimed_balance {
            r == Err::<bool, VaultError>(VaultError::ClaimNotFound) && post == pre
        } else {
            &&& r == Ok::<bool, VaultError>(false)
            &&& ContractData::moved_to(
                d,
                post.d(),
                i,
                a.with_progress(
                    a.last_claim_session - amount / a.release_per_session,
                    a.realized_total_amount + amount,
                ),
                d.total_balance as int,
                d.claimed_balance - amount,
            )
        }
    }

    /// Claims what is unlocked at `now` for `account_id`, or for the caller
    /// when none is named. The ledger is debited at once; the returned
    /// transfer is reconciled later through [`Contract::after_ft_transfer`].
    pub fn claim(&mut self, account_id: Option<AccountId>, caller: &AccountId, now: u64) -> (r:
        Result<Payout, VaultError>)
        requires
            old(self).wf(),
        ensures
            final(self).wf(),
            Self::claim_spec(
                *old(self),
                Self::claim_target(account_id, *caller),
                now,
                r,
                *final(self),
            ),
    {
        let account_id = match account_id {
            Some(id) => id,
            None => caller.clone(),
        };
        let i = match self.data().find_account(&account_id) {
            Some(i) => i,
            None => return Err(VaultError::AccountNotFound),
        };
        let ghost d = self.d();
        let ghost a = d.acct(i as int);
        let account = match &self.data().accounts[i] {
            VAccount::Current(account) => account,
        };
        assert(account == a);
        let amount = account.unclaimed_amount(now);
        if amount == 0 {
            return Ok(Payout::Nothing);
        }
        if amount > account.realized_total_amount {
            return Err(VaultError::InsufficientLiquidity);
        }
        let rate = account.release_per_session;
        proof {
            let due = a.due(now);
            assert(rate > 0) by (nonlinear_arith)
                requires
                    amount == rate * due,
                    amount > 0,
            ;
            vstd::arithmetic::div_mod::lemma_div_multiples_vanish(a.due(now), rate as int);
            lemma_realized_le_sum(d.accounts@, i as int);
        }
        let sessions = (amount / rate) as u32;
        let paid = Account {
            account_id: account.account_id.clone(),
            start_timestamp: account.start_timestamp,
            session_interval: account.session_interval,
            session_num: account.session_num,
            last_claim_session: account.last_claim_session + sessions,
            release_per_session: rate,
            realized_total_amount: account.realized_total_amount - amount,
        };
        let data = self.data_mut();
        data.accounts.set(i, VAccount::Current(paid));
        data.claimed_balance = data.claimed_balance + amount;
        proof {
            lemma_moved_wf(
                d,
                self.d(),
                i as int,
                paid,
                self.d().total_balance as int,
                self.d().claimed_balance as int,
            );
        }
        Ok(Payout::Transfer { receiver_id: account_id, amount })
    }

    /// Reconciles the transfer of `amount` to `account_id` that a claim
    /// issued: on success nothing changes; on failure the claim is taken back
    /// in full. Only the vault itself may call this.
    pub fn after_ft_transfer(&mut self, account_id: AccountId, amount: u128, promise_success: bool) -> (r:
        Result<bool, VaultError>)
        requires
            old(self).wf(),
        ensures
            final(self).wf(),
            Self::rollback_spec(*old(self), account_id@, amount, promise_success, r, *final(self)),
    {
        if promise_success {
            return Ok(true);
        }
        let i = match self.data().find_account(&account_id) {
            Some(i) => i,
            None => return Err(VaultError::ClaimNotFound),
        };
        let ghost d = self.d();
        let account = match &self.data().accounts[i] {
            VAccount::Current(account) => account,
        };
        let rate = account.release_per_session;
        if rate == 0 || amount / rate > account.last_claim_session as u128 || amount
            > self.data().claimed_balance {
            return Err(VaultError::ClaimNotFound);
        }
        let times = (amount / rate) as u32;
        proof {
            lemma_realized_le_sum(d.accounts@, i as int);
        }
        let restored = Account {
            account_id: account.account_id.clone(),
            start_timestamp: account.start_timestamp,
            session_interval: account.session_interval,
            session_num: account.session_num,
            last_claim_session: account.last_claim_session - times,
            release_per_session: rate,
            realized_total_amount: account.realized_total_amount + amount,
        };
        let data = self.data_mut();
        data.accounts.set(i, VAccount::Current(restored));
        data.claimed_balance = data.claimed_balance - amount;
        proof {
            lemma_moved_wf(
                d,
                self.d(),
                i as int,
                restored,
                self.d().total_balance as int,
                self.d().claimed_balance as int,
            );
        }
        Ok(false)
    }

    /// A deposit of `amount` from `token_in`, tagged `msg`, leads from `pre`
    /// to `post` with result `r`: it credits the tagged beneficiary's
    /// schedule and the pool, or changes nothing.
    pub open spec fn deposit_spec(
        pre: Contract,
        token_in: Seq<char>,
        amount: u128,
        msg: Seq<char>,
        r: Result<u128, VaultError>,
        post: Contract,
    ) -> bool {
        let d = pre.d();
        let i = d.index_of(msg);
        let a = d.acct(i);
        if token_in != d.token_account_id@ {
            r == Err::<u128, VaultError>(VaultError::IllegalFundingSource) && post == pre
        } else if msg.len() == 0 {
            r == Err::<u128, VaultError>(VaultError::MissingBeneficiaryTag) && post == pre
        } else if !d.has(msg) {
            r == Err::<u128, VaultError>(VaultError::AccountNotFound) && post == pre
        } else if a.session_num * a.release_per_session > amount {
            r == Err::<u128, VaultError>(VaultError::AmountTooSmall) && post == pre
        } else {
            &&& r == Ok::<u128, VaultError>(0)
            &&& ContractData::moved_to(
                d,
                post.d(),
                i,
                a.with_progress(a.last_claim_session as int, a.realized_total_amount + amount),
                d.total_balance + amount,
                d.claimed_balance as int,
            )
        }
    }

    /// Credits `amount` to the deposits of `account_id`'s schedule, which
    /// must be at least that schedule's full entitlement. The pool total is
    /// left to the caller.
    pub fn internal_add_realized_total_amount(&mut self, account_id: &AccountId, amount: Balance) -> (r:
        Result<(), VaultError>)
        requires
            old(self).wf(),
            old(self).d().total_balance + amount <= u128::MAX,
        ensures
            ({
                let d = old(self).d();
                let i = d.index_of(account_id@);
                let a = d.acct(i);
                if !d.has(account_id@) {
                    r == Err::<(), VaultError>(VaultError::AccountNotFound) && *final(self) == *old(self)
                } else if a.session_num * a.release_per_session > amount {
                    r == Err::<(), VaultError>(VaultError::AmountTooSmall) && *final(self) == *old(self)
                } else {
                    &&& r == Ok::<(), VaultError>(())
                    &&& ContractData::moved_to(
                        d,
                        final(self).d(),
                        i,
                        a.with_progress(a.last_claim_session as int, a.realized_total_amount + amount),
                        d.total_balance as int,
                        d.claimed_balance as int,
                    )
                }
            }),
    {
        let i = match self.data().find_account(account_id) {
            Some(i) => i,
            None => return Err(VaultError::AccountNotFound),
        };
        let ghost d = self.d();
        let account = match &self.data().accounts[i] {
            VAccount::Current(account) => account,
        };
        if (account.session_num as u128) * account.release_per_session > amount {
            return Err(VaultError::AmountTooSmall);
        }
        proof {
            lemma_realized_le_sum(d.accounts@, i as int);
        }
        let funded = Account {
            account_id: account.account_id.clone(),
            start_timestamp: account.start_timestamp,
            session_interval: account.session_interval,
            session_num: account.session_num,
            last_claim_session: account.last_claim_session,
            release_per_session: account.release_per_session,
            realized_total_amount: account.realized_total_amount + amount,
        };
        self.data_mut().accounts.set(i, VAccount::Current(funded));
        Ok(())
    }

    /// Takes in `amount` tokens sent by `token_in` for the beneficiary named
    /// in `msg`. Returns the amount to hand back, which is always zero.
    pub fn ft_on_transfer(&mut self, token_in: &AccountId, amount: Balance, msg: String) -> (r:
        Result<Balance, VaultError>)
        requires
            old(self).wf(),
            old(self).d().total_balance + amount <= u128::MAX,
        ensures
            final(self).wf(),
            Self::deposit_spec(*old(self), token_in@, amount, msg@, r, *final(self)),
    {
        if *token_in != self.data().token_account_id {
            return Err(VaultError::IllegalFundingSource);
        }
        if msg.as_str().is_empty() {
            return Err(VaultError::MissingBeneficiaryTag);
        }
        let ghost d = self.d();
        match self.internal_add_realized_total_amount(&msg, amount) {
            Ok(()) => {},
            Err(e) => return Err(e),
        }
        let data = self.data_mut();
        data.total_balance = data.total_balance + amount;
        proof {
            let i = d.index_of(msg@);
            lemma_realized_le_sum(d.accounts@, i);
            lemma_moved_wf(
                d,
                self.d(),
                i,
                self.d().acct(i),
                self.d().total_balance as int,
                self.d().claimed_balance as int,
            );
        }
        Ok(0)
    }

    /// Adding a schedule for `id` at `now` leads from `pre` to `post` with
    /// result `r`: a new beneficiary is appended; an existing one gets the new
    /// schedule only once the old one has ended and been claimed in full.
    pub open spec fn add_spec(
        pre: Contract,
        id: Seq<char>,
        start_timestamp: TimestampSec,
        session_interval: TimestampSec,
        session_num: u32,
        release_per_session: Balance,
        now: u64,
        r: Result<bool, VaultError>,
        post: Contract,
    ) -> bool {
        let d = pre.d();
        let i = d.index_of(id);
        let a = d.acct(i);
        let n = d.accounts@.len();
        if !d.has(id) {
            let b = post.d().acct(n as int);
            &&& r == Ok::<bool, VaultError>(true)
            &&& post.d().owner_id == d.owner_id
            &&& post.d().token_account_id == d.token_account_id
            &&& post.d().total_balance == d.total_balance
            &&& post.d().claimed_balance == d.claimed_balance
            &&& post.d().accounts@.len() == n + 1
            &&& post.d().accounts@.take(n as int) == d.accounts@
            &&& b.account_id@ == id
            &&& b.start_timestamp == start_timestamp
            &&& b.session_interval == session_interval
            &&& b.session_num == session_num
            &&& b.last_claim_session == 0
            &&& b.release_per_session == release_per_session
            &&& b.realized_total_amount == 0
        } else if !(a.end_nano() < now) {
            r == Err::<bool, VaultError>(VaultError::ScheduleStillActive) && post == pre
        } else if a.unclaimed(now) != 0 {
            r == Err::<bool, VaultError>(VaultError::UnclaimedRemainderExists) && post == pre
        } else {
            &&& r == Ok::<bool, VaultError>(true)
            &&& ContractData::moved_to(
                d,
                post.d(),
                i,
                a.rescheduled(start_timestamp, session_interval, session_num, release_per_session),
                d.total_balance as int,
                d.claimed_balance as int,
            )
        }
    }

    /// Adds a schedule for `account_id`, or replaces the one it has.
    pub fn internal_add_account(
        &mut self,
        account_id: AccountId,
        start_timestamp: TimestampSec,
        session_interval: TimestampSec,
        session_num: u32,
        release_per_session: Balance,
        now: u64,
    ) -> (r: Result<bool, VaultError>)
        requires
            old(self).wf(),
            session_interval > 0,
            session_num as int * release_per_session as int <= u128::MAX,
        ensures
            final(self).wf(),
            Self::add_spec(
                *old(self),
                account_id@,
                start_timestamp,
                session_interval,
                session_num,
                release_per_session,
                now,
                r,
                *final(self),
            ),
    {
        let ghost d = self.d();
        match self.data().find_account(&account_id) {
            Some(i) => {
                let account = match &self.data().accounts[i] {
                    VAccount::Current(account) => account,
                };
                assert(account.session_num as int * account.session_interval as int <= u32::MAX as int
                    * u32::MAX as int) by (nonlinear_arith)
                    requires
                        account.session_num <= u32::MAX,
                        account.session_interval <= u32::MAX,
                ;
                let span = account.session_num as u128 * account.session_interval as u128;
                let end: u128 = (account.start_timestamp as u128 + span) * 1_000_000_000;
                if !(end < now as u128) {
                    return Err(VaultError::ScheduleStillActive);
                }
                if account.unclaimed_amount(now) != 0 {
                    return Err(VaultError::UnclaimedRemainderExists);
                }
                let replaced = Account {
                    account_id: account.account_id.clone(),
                    start_timestamp,
                    session_interval,
                    session_num,
                    last_claim_session: 0,
                    release_per_session,
                    realized_total_amount: account.realized_total_amount,
                };
                self.data_mut().accounts.set(i, VAccount::Current(replaced));
                proof {
                    lemma_moved_wf(
                        d,
                        self.d(),
                        i as int,
                        replaced,
                        d.total_balance as int,
                        d.claimed_balance as int,
                    );
                }
            },
            None => {
                let account = Account {
                    account_id,
                    start_timestamp,
                    session_interval,
                    session_num,
                    last_claim_session: 0,
                    release_per_session,
                    realized_total_amount: 0,
                };
                proof {
                    lemma_realized_sum_push(d.accounts@, VAccount::Current(account));
                }
                self.data_mut().accounts.push(VAccount::Current(account));
                proof {
                    let post = self.d();
                    let n = d.accounts@.len();
                    assert(post.accounts@.take(n as int) =~= d.accounts@);
                    assert forall|j: int| 0 <= j < post.accounts@.len() implies (#[trigger] post.acct(j)).wf() by {
                        if j < n {
                            assert(post.acct(j) == d.acct(j));
                        }
                    }
                    assert forall|j: int, k: int|
                        0 <= j < post.accounts@.len() && 0 <= k < post.accounts@.len()
                            && (#[trigger] post.acct(j)).account_id@ == (#[trigger] post.acct(k)).account_id@
                        implies j == k by {
                        if j < n && k < n {
                            assert(post.acct(j) == d.acct(j));
                            assert(post.acct(k) == d.acct(k));
                        } else if j < n {
                            assert(post.acct(j) == d.acct(j));
                            assert(d.has(post.acct(j).account_id@));
                        } else if k < n {
                            assert(post.acct(k) == d.acct(k));
                            assert(d.has(post.acct(k).account_id@));
                        }
                    }
                }
            },
        }
        Ok(true)
    }

    /// Fails with [`VaultError::NotAuthorized`] unless `caller` is the
    /// administrator.
    pub fn assert_owner(&self, caller: &AccountId) -> (r: Result<(), VaultError>)
        ensures
            r == (if caller@ == self.d().owner_id@ {
                Ok::<(), VaultError>(())
            } else {
                Err(VaultError::NotAuthorized)
            }),
    {
        if *caller == self.data().owner_id {
            Ok(())
        } else {
            Err(VaultError::NotAuthorized)
        }
    }

    /// Hands administration to `owner_id`; only the administrator may.
    pub fn set_owner(&mut self, caller: &AccountId, owner_id: AccountId) -> (r: Result<(), VaultError>)
        requires
            old(self).wf(),
        ensures
            final(self).wf(),
            caller@ != old(self).d().owner_id@ ==> r == Err::<(), VaultError>(VaultError::NotAuthorized)
                && *final(self) == *old(self),
            caller@ == old(self).d().owner_id@ ==> r == Ok::<(), VaultError>(()) && final(self).d()
                == (ContractData { owner_id, ..old(self).d() }),
    {
        match self.assert_owner(caller) {
            Ok(()) => {},
            Err(e) => return Err(e),
        }
        let ghost d = self.d();
        self.data_mut().owner_id = owner_id;
        proof {
            let post = self.d();
            assert(post.accounts@ == d.accounts@);
            assert(d.ids_unique());
            assert forall|j: int, k: int|
                0 <= j < post.accounts@.len() && 0 <= k < post.accounts@.len()
                    && (#[trigger] post.acct(j)).account_id@ == (#[trigger] post.acct(k)).account_id@
                implies j == k by {
                assert(post.acct(j) == d.acct(j));
                assert(post.acct(k) == d.acct(k));
            }
            assert forall|j: int| 0 <= j < post.accounts@.len() implies (#[trigger] post.acct(j)).wf() by {
                assert(post.acct(j) == d.acct(j));
            }
        }
        Ok(())
    }

    /// Adds or replaces the schedule of `account_id`; only the administrator
    /// may. See [`Contract::internal_add_account`].
    pub fn add_account(
        &mut self,
        caller: &AccountId,
        account_id: AccountId,
        start_timestamp: TimestampSec,
        session_interval: TimestampSec,
        session_num: u32,
        release_per_session: Balance,
        now: u64,
    ) -> (r: Result<bool, VaultError>)
        requires
            old(self).wf(),
            session_interval > 0,
            session_num as int * release_per_session as int <= u128::MAX,
        ensures
            final(self).wf(),
            caller@ != old(self).d().owner_id@ ==> r == Err::<bool, VaultError>(VaultError::NotAuthorized)
                && *final(self) == *old(self),
            caller@ == old(self).d().owner_id@ ==> Self::add_spec(
                *old(self),
                account_id@,
                start_timestamp,
                session_interval,
                session_num,
                release_per_session,
                now,
                r,
                *final(self),
            ),
    {
        match self.assert_owner(caller) {
            Ok(()) => {},
            Err(e) => return Err(e),
        }
        self.internal_add_account(
            account_id,
            start_timestamp,
            session_interval,
            session_num,
            release_per_session,
            now,
        )
    }

    /// The vault's administrator, token and pool totals.
    pub fn contract_metadata(&self) -> (r: ContractInfo)
        ensures
            r.version@ == VERSION@,
            r.owner_id == self.d().owner_id,
            r.token_account_id == self.d().token_account_id,
            r.total_balance == self.d().total_balance,
            r.claimed_balance == self.d().claimed_balance,
    {
        let data = self.data();
        ContractInfo {
            version: VERSION.to_owned(),
            owner_id: data.owner_id.clone(),
            token_account_id: data.token_account_id.clone(),
            total_balance: data.total_balance,
            claimed_balance: data.claimed_balance,
        }
    }

    /// The schedule of `account_id` as seen at `now`, if it has one.
    pub fn get_account(&self, account_id: &AccountId, now: u64) -> (r: Option<AccountInfo>)
        requires
            self.wf(),
        ensures
            r.is_none() == !self.d().has(account_id@),
            r matches Some(info) ==> info == AccountInfo::of(
                self.d().acct(self.d().index_of(account_id@)),
                now,
            ),
    {
        match self.data().find_account(account_id) {
            Some(i) => Some(AccountInfo::from(&self.data().accounts[i], now)),
            None => None,
        }
    }

    /// Up to `limit` schedules (all by default) as seen at `now`, from
    /// position `from_index` (zero by default) in the order they were added.
    pub fn list_accounts(&self, from_index: Option<u64>, limit: Option<u64>, now: u64) -> (r: Vec<
        AccountInfo,
    >)
        requires
            self.wf(),
        ensures
            ({
                let n = self.d().accounts@.len() as int;
                let from = match from_index {
                    Some(f) => f as int,
                    None => 0,
                };
                let end = match limit {
                    Some(l) => if from + l < n {
                        from + l
                    } else {
                        n
                    },
                    None => n,
                };
                &&& r@.len() == if from < end {
                    end - from
                } else {
                    0
                }
                &&& forall|k: int|
                    0 <= k < r@.len() ==> #[trigger] r@[k] == AccountInfo::of(
                        self.d().acct(from + k),
                        now,
                    )
            }),
    {
        let data = self.data();
        let n = data.accounts.len() as u64;
        let from = match from_index {
            Some(f) => f,
            None => 0,
        };
        let end = match limit {
            Some(l) => if l < n && from < n - l {
                from + l
            } else {
                n
            },
            None => n,
        };
        let mut r: Vec<AccountInfo> = Vec::new();
        let mut i = from;
        while i < end
            invariant
                data == self.d(),
                self.wf(),
                n == data.accounts@.len(),
                n <= usize::MAX,
                end <= n,
                from <= i <= end || (from >= end && i == from),
                r@.len() == i - from,
                forall|k: int|
                    0 <= k < r@.len() ==> #[trigger] r@[k] == AccountInfo::of(data.acct(from + k), now),
            decreases end - i,
        {
            assert(data.acct(i as int).wf());
            let idx = i as usize;
            let info = AccountInfo::from(&data.accounts[idx], now);
            let ghost prev = r@;
            r.push(info);
            assert forall|k: int| 0 <= k < r@.len() implies #[trigger] r@[k] == AccountInfo::of(
                data.acct(from + k),
                now,
            ) by {
                if k < prev.len() {
                    assert(r@[k] == prev[k]);
                }
            }
            i += 1;
        }
        r
    }

    fn data(&self) -> (r: &ContractData)
        ensures
            *r == self.d(),
    {
        match &self.data {
            VContractData::Current(data) => data,
        }
    }

    fn data_mut(&mut self) -> (r: &mut ContractData)
        ensures
            *r == old(self).d(),
            *final(self) == (Contract { data: VContractData::Current(*final(r)) }),
    {
        match &mut self.data {
            VContractData::Current(data) => data,
        }
    }
}

} // verus!

verus! {

/// After a schedule is replaced by one for the same beneficiary, that
/// beneficiary is still found, at the same position.
proof fn lemma_moved_index(pre: ContractData, post: ContractData, i: int, account: Account, id: Seq<char>)
    requires
        post.ids_unique(),
        0 <= i < pre.accounts@.len(),
        post.accounts@ == pre.accounts@.update(i, VAccount::Current(account)),
        account.account_id@ == id,
    ensures
        post.has(id),
        post.index_of(id) == i,
{
    assert(post.acct(i) == account);
    assert(post.has(id));
    let k = post.index_of(id);
    assert(post.acct(k).account_id@ == id);
}

/// A stored schedule is the current-layout record of its contents.
proof fn lemma_current_roundtrip(v: VAccount)
    ensures
        v == VAccount::Current(v.current()),
{
    match v {
        VAccount::Current(a) => {},
    }
}

/// Claiming twice for the same beneficiary at the same instant: the second
/// claim changes nothing, whatever the first one did.
pub proof fn lemma_claim_idempotent(
    s0: Contract,
    s1: Contract,
    s2: Contract,
    target: Seq<char>,
    now: u64,
    r1: Result<Payout, VaultError>,
    r2: Result<Payout, VaultError>,
)
    requires
        s0.wf(),
        Contract::claim_spec(s0, target, now, r1, s1),
        Contract::claim_spec(s1, target, now, r2, s2),
    ensures
        s2 == s1,
        r1 is Ok ==> r2 == Ok::<Payout, VaultError>(Payout::Nothing),
{
    let d = s0.d();
    if is_transfer_of(r1, target, d.acct(d.index_of(target)).unclaimed(now)) && d.has(target) {
        let i = d.index_of(target);
        let a = d.acct(i);
        let amount = a.unclaimed(now);
        let b = a.with_progress(a.last_claim_session + a.due(now), a.realized_total_amount - amount);
        assert(amount > 0 && amount <= a.realized_total_amount);
        lemma_realized_le_sum(d.accounts@, i);
        lemma_moved_wf(d, s1.d(), i, b, d.total_balance as int, d.claimed_balance + amount);
        lemma_moved_index(d, s1.d(), i, b, target);
        assert(s1.d().acct(i) == b);
        assert(b.due(now) == 0);
    }
}

/// A claim whose transfer then fails, once reconciled, leaves the ledger
/// exactly as it was before the claim: the same administrator, token, pool
/// totals and schedules, sessions and deposits alike.
pub proof fn lemma_rollback_restores(
    s0: Contract,
    s1: Contract,
    s2: Contract,
    target: Seq<char>,
    now: u64,
    amount: u128,
    r1: Result<Payout, VaultError>,
    r2: Result<bool, VaultError>,
)
    requires
        s0.wf(),
        Contract::claim_spec(s0, target, now, r1, s1),
        is_transfer_of(r1, target, amount as int),
        Contract::rollback_spec(s1, target, amount, false, r2, s2),
    ensures
        r2 == Ok::<bool, VaultError>(false),
        s2.d().owner_id == s0.d().owner_id,
        s2.d().token_account_id == s0.d().token_account_id,
        s2.d().total_balance == s0.d().total_balance,
        s2.d().claimed_balance == s0.d().claimed_balance,
        s2.d().accounts@ == s0.d().accounts@,
{
    let d = s0.d();
    let i = d.index_of(target);
    let a = d.acct(i);
    let due = a.due(now);
    let rate = a.release_per_session;
    assert(amount == rate * due);
    assert(rate > 0) by (nonlinear_arith)
        requires
            amount == rate * due,
            amount > 0,
    ;
    vstd::arithmetic::div_mod::lemma_div_multiples_vanish(due, rate as int);
    let b = a.with_progress(a.last_claim_session + due, a.realized_total_amount - amount);
    lemma_realized_le_sum(d.accounts@, i);
    lemma_moved_wf(d, s1.d(), i, b, d.total_balance as int, d.claimed_balance + amount);
    lemma_moved_index(d, s1.d(), i, b, target);
    assert(s1.d().acct(i) == b);
    assert(amount / rate == due);
    let c = b.with_progress(b.last_claim_session - due, b.realized_total_amount + amount);
    assert(c == a);
    lemma_current_roundtrip(d.accounts@[i]);
    assert(s2.d().accounts@ =~= d.accounts@);
}

/// A claim never lowers any schedule's count of claimed sessions, and a
/// deposit leaves every count as it was.
pub proof fn lemma_claimed_sessions_monotone(
    s0: Contract,
    s1: Contract,
    target: Seq<char>,
    now: u64,
    r: Result<Payout, VaultError>,
    s2: Contract,
    token_in: Seq<char>,
    amount: u128,
    msg: Seq<char>,
    r2: Result<u128, VaultError>,
    j: int,
)
    requires
        s0.wf(),
        Contract::claim_spec(s0, target, now, r, s1),
        Contract::deposit_spec(s0, token_in, amount, msg, r2, s2),
        0 <= j < s0.d().accounts@.len(),
    ensures
        s1.d().accounts@.len() == s0.d().accounts@.len(),
        s1.d().acct(j).last_claim_session >= s0.d().acct(j).last_claim_session,
        s2.d().accounts@.len() == s0.d().accounts@.len(),
        s2.d().acct(j).last_claim_session == s0.d().acct(j).last_claim_session,
{
    let d = s0.d();
    let i = d.index_of(target);
    let a = d.acct(i);
    if d.has(target) && a.unclaimed(now) > 0 && a.unclaimed(now) <= a.realized_total_amount {
        if j == i {
            assert(a.last_claim_session + a.due(now) <= a.session_num);
        }
    }
}

/// In every state the ledger invariant admits, no more has been claimed than
/// deposited, and no schedule holds more unclaimed deposits than the pool
/// has left; a claim keeps the invariant and moves exactly what it pays
/// from the schedule's own deposits to the claimed total, one session's
/// amount for each session it marks claimed.
pub proof fn lemma_claim_conserves(
    s0: Contract,
    s1: Contract,
    target: Seq<char>,
    now: u64,
    r: Result<Payout, VaultError>,
    j: int,
)
    requires
        s0.wf(),
        Contract::claim_spec(s0, target, now, r, s1),
        0 <= j < s0.d().accounts@.len(),
    ensures
        s0.d().claimed_balance <= s0.d().total_balance,
        s0.d().acct(j).realized_total_amount <= s0.d().total_balance - s0.d().claimed_balance,
        s1.wf(),
        s1.d().total_balance == s0.d().total_balance,
        s0.d().acct(j).realized_total_amount - s1.d().acct(j).realized_total_amount == (s1.d().acct(
            j,
        ).last_claim_session - s0.d().acct(j).last_claim_session) * s0.d().acct(
            j,
        ).release_per_session,
{
    let d = s0.d();
    lemma_realized_le_sum(d.accounts@, j);
    let i = d.index_of(target);
    let a = d.acct(i);
    let amount = a.unclaimed(now);
    if d.has(target) && amount > 0 && amount <= a.realized_total_amount {
        let b = a.with_progress(a.last_claim_session + a.due(now), a.realized_total_amount - amount);
        lemma_realized_le_sum(d.accounts@, i);
        lemma_moved_wf(d, s1.d(), i, b, d.total_balance as int, d.claimed_balance + amount);
        if j == i {
            let due = a.due(now);
            let rate = a.release_per_session;
            assert(a.last_claim_session + due <= a.session_num);
            assert(s1.d().acct(j) == b);
            let diff = s1.d().acct(j).last_claim_session - a.last_claim_session;
            assert(diff == due);
            assert(diff * rate == rate * due) by (nonlinear_arith)
                requires
                    diff == due,
            ;
        } else {
            assert(s1.d().acct(j) == d.acct(j));
        }
    } else {
        assert(s1 == s0);
    }
    let diff = s1.d().acct(j).last_claim_session - d.acct(j).last_claim_session;
    if diff == 0 {
        assert(diff * d.acct(j).release_per_session == 0);
    }
}

} // verus!
