use vault::mul_div;
use vault::session_vault::Contract;
use vault::utils::to_nano;
use vault::VaultError;

#[test]
fn to_nano_scales_seconds() {
    assert_eq!(to_nano(0), 0);
    assert_eq!(to_nano(20), 20_000_000_000);
    assert_eq!(to_nano(u32::MAX), u32::MAX as u64 * 1_000_000_000);
}

#[test]
fn mul_div_rounds_down_without_overflow() {
    assert_eq!(mul_div(100, 1, 3), 33);
    assert_eq!(mul_div(100, 2, 3), 66);
    assert_eq!(mul_div(100, 3, 3), 100);
    assert_eq!(mul_div(7, 0, 5), 0);
    assert_eq!(mul_div(u128::MAX, 3, 4), 255211775190703847597530955573826158591);
    assert_eq!(mul_div(u128::MAX, u32::MAX - 1, u32::MAX), 340282366841710300930663525760219742206);
}

#[test]
fn error_reasons() {
    let all = [
        (VaultError::NotAuthorized, "ERR_NOT_ALLOWED"),
        (VaultError::AccountNotFound, "ERR_ACCOUNT_NOT_EXIST"),
        (VaultError::ScheduleStillActive, "ERR_ACCOUNT_IN_SESSION"),
        (VaultError::UnclaimedRemainderExists, "ERR_ACCOUNT_NEED_CLAIM"),
        (VaultError::InsufficientLiquidity, "ERR_NOT_ENOUGH_BALANCE"),
        (VaultError::IllegalFundingSource, "ERR_ILLEGAL_TOKEN"),
        (VaultError::MissingBeneficiaryTag, "ERR_MISSING_ACCOUNT_ID"),
        (VaultError::AmountTooSmall, "ERR_AMOUNT_TOO_SMALL"),
        (VaultError::ClaimNotFound, "ERR_CLAIM_NOT_FOUND"),
    ];
    for (e, s) in all {
        assert_eq!(e.as_str(), s);
    }
}

#[test]
fn claimed_sessions_never_decrease_and_claims_stay_funded() {
    let owner = "owner".to_string();
    let mut vault = Contract::new(owner.clone(), "token".to_string());
    vault.add_account(&owner, "a".to_string(), 0, 10, 5, 7, 0).unwrap();
    vault.ft_on_transfer(&"token".to_string(), 35, "a".to_string()).unwrap();
    let mut last = 0;
    for secs in [0u32, 5, 10, 11, 25, 25, 40, 49, 50, 51, 80, 1000] {
        let _ = vault.claim(None, &"a".to_string(), to_nano(secs));
        let info = vault.get_account(&"a".to_string(), to_nano(secs)).unwrap();
        assert!(info.last_claim_session >= last);
        last = info.last_claim_session;
        let meta = vault.contract_metadata();
        assert!(meta.claimed_balance <= meta.total_balance);
        assert_eq!(info.claimed_amount, info.last_claim_session as u128 * 7);
        assert_eq!(meta.claimed_balance, info.claimed_amount);
    }
    assert_eq!(last, 5);
    assert_eq!(vault.contract_metadata().claimed_balance, 35);
}
