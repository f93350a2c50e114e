use vstd::prelude::*;

verus! {

/// Why a call was rejected. A rejected call changes nothing.
#[derive(Debug, Clone, Copy, PartialEq, Eq, Structural)]
pub enum VaultError {
    /// The caller is not the administrator.
    NotAuthorized,
    /// No schedule is registered for the beneficiary.
    AccountNotFound,
    /// The schedule to replace has not run past its last period.
    ScheduleStillActive,
    /// The schedule to replace still holds an unclaimed amount.
    UnclaimedRemainderExists,
    /// Paying the amount would exceed the available liquidity.
    InsufficientLiquidity,
    /// Funds arrived from a token other than the one the vault keeps.
    IllegalFundingSource,
    /// A deposit named no beneficiary.
    MissingBeneficiaryTag,
    /// A deposit is smaller than the schedule's full entitlement.
    AmountTooSmall,
    /// A reconciliation names a claim that the ledger cannot take back.
    ClaimNotFound,
}

impl VaultError {
    /// The machine-readable reason that a rejected call carries.
    pub open spec fn reason(self) -> Seq<char> {
        match self {
            VaultError::NotAuthorized => "ERR_NOT_ALLOWED"@,
            VaultError::AccountNotFound => "ERR_ACCOUNT_NOT_EXIST"@,
            VaultError::ScheduleStillActive => "ERR_ACCOUNT_IN_SESSION"@,
            VaultError::UnclaimedRemainderExists => "ERR_ACCOUNT_NEED_CLAIM"@,
            VaultError::InsufficientLiquidity => "ERR_NOT_ENOUGH_BALANCE"@,
            VaultError::IllegalFundingSource => "ERR_ILLEGAL_TOKEN"@,
            VaultError::MissingBeneficiaryTag => "ERR_MISSING_ACCOUNT_ID"@,
            VaultError::AmountTooSmall => "ERR_AMOUNT_TOO_SMALL"@,
            VaultError::ClaimNotFound => "ERR_CLAIM_NOT_FOUND"@,
        }
    }

    /// The machine-readable reason that a rejected call carries.
    pub fn as_str(&self) -> (r: &'static str)
        ensures
            r@ == self.reason(),
    {
        let r = match self {
            VaultError::NotAuthorized => "ERR_NOT_ALLOWED",
            VaultError::AccountNotFound => "ERR_ACCOUNT_NOT_EXIST",
            VaultError::ScheduleStillActive => "ERR_ACCOUNT_IN_SESSION",
            VaultError::UnclaimedRemainderExists => "ERR_ACCOUNT_NEED_CLAIM",
            VaultError::InsufficientLiquidity => "ERR_NOT_ENOUGH_BALANCE",
            VaultError::IllegalFundingSource => "ERR_ILLEGAL_TOKEN",
            VaultError::MissingBeneficiaryTag => "ERR_MISSING_ACCOUNT_ID",
            VaultError::AmountTooSmall => "ERR_AMOUNT_TOO_SMALL",
            VaultError::ClaimNotFound => "ERR_CLAIM_NOT_FOUND",
        };
        r
    }
}

} // verus!
