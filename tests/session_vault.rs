use vault::session_vault::{Account, AccountInfo, Contract, VAccount, VContractData};
use vault::utils::to_nano;
use vault::{Payout, VaultError};

const OWNER: &str = "owner";
const TOKEN: &str = "token";

fn id(s: &str) -> String {
    s.to_string()
}

fn setup_vault() -> Contract {
    Contract::new(id(OWNER), id(TOKEN))
}

fn deposit(vault: &mut Contract, amount: u128, tag: &str) -> Result<u128, VaultError> {
    vault.ft_on_transfer(&id(TOKEN), amount, id(tag))
}

fn claimed(vault: &Contract) -> u128 {
    vault.contract_metadata().claimed_balance
}

fn total(vault: &Contract) -> u128 {
    vault.contract_metadata().total_balance
}

fn info(vault: &Contract, who: &str, secs: u32) -> AccountInfo {
    vault.get_account(&id(who), to_nano(secs)).unwrap()
}

fn realized(vault: &Contract, who: &str) -> Option<u128> {
    let VContractData::Current(data) = &vault.data;
    data.accounts
        .iter()
        .map(|v| match v {
            VAccount::Current(a) => a,
        })
        .find(|a| a.account_id == who)
        .map(|a| a.realized_total_amount)
}

fn assert_info(i: &AccountInfo, claimed: u128, deposited: u128, unclaimed: u128, last: u32) {
    assert_eq!(i.claimed_amount, claimed);
    assert_eq!(i.deposited_amount, deposited);
    assert_eq!(i.unclaimed_amount, unclaimed);
    assert_eq!(i.start_timestamp, 100);
    assert_eq!(i.session_interval, 100);
    assert_eq!(i.session_num, 4);
    assert_eq!(i.release_per_session, 100);
    assert_eq!(i.last_claim_session, last);
}

fn sent(p: &Payout) -> u128 {
    match p {
        Payout::Transfer { amount, .. } => *amount,
        Payout::Nothing => 0,
    }
}

#[test]
fn single_period_schedule_unlocks_after_its_period() {
    let mut vault = setup_vault();
    vault.add_account(&id(OWNER), id("user1"), 10, 10, 1, 100, 0).unwrap();
    assert_eq!(deposit(&mut vault, 100, "user1"), Ok(0));
    assert_eq!(info(&vault, "user1", 5).unclaimed_amount, 0);
    assert_eq!(vault.claim(None, &id("user1"), to_nano(5)), Ok(Payout::Nothing));
    assert_eq!(info(&vault, "user1", 25).unclaimed_amount, 100);
    let p = vault.claim(None, &id("user1"), to_nano(25)).unwrap();
    assert_eq!(p, Payout::Transfer { receiver_id: id("user1"), amount: 100 });
    assert_eq!(info(&vault, "user1", 25).last_claim_session, 1);
    assert_eq!(claimed(&vault), 100);
}

#[test]
fn four_period_schedule_claimed_in_two_steps() {
    let mut vault = setup_vault();
    vault.add_account(&id(OWNER), id("user1"), 100, 100, 4, 100, 0).unwrap();
    deposit(&mut vault, 400, "user1").unwrap();
    assert_eq!(info(&vault, "user1", 300).unclaimed_amount, 200);
    assert_eq!(sent(&vault.claim(None, &id("user1"), to_nano(300)).unwrap()), 200);
    assert_eq!(info(&vault, "user1", 300).last_claim_session, 2);
    assert_eq!(info(&vault, "user1", 700).unclaimed_amount, 200);
    assert_eq!(sent(&vault.claim(None, &id("user1"), to_nano(700)).unwrap()), 200);
    assert_eq!(info(&vault, "user1", 700).last_claim_session, 4);
    assert_eq!(vault.claim(None, &id("user1"), to_nano(700)), Ok(Payout::Nothing));
    assert_eq!(vault.claim(None, &id("user1"), to_nano(9000)), Ok(Payout::Nothing));
    assert_eq!(claimed(&vault), 400);
}

#[test]
fn claim_without_liquidity_fails_and_changes_nothing() {
    let mut vault = setup_vault();
    vault.add_account(&id(OWNER), id("user1"), 10, 10, 1, 100, 0).unwrap();
    assert_eq!(
        vault.claim(Some(id("user1")), &id(OWNER), to_nano(25)),
        Err(VaultError::InsufficientLiquidity)
    );
    assert_eq!(info(&vault, "user1", 25).last_claim_session, 0);
    assert_eq!(info(&vault, "user1", 25).unclaimed_amount, 100);
    assert_eq!(claimed(&vault), 0);
    assert_eq!(total(&vault), 0);
}

#[test]
fn replacing_a_schedule_with_unclaimed_remainder_fails() {
    let mut vault = setup_vault();
    vault.add_account(&id(OWNER), id("user1"), 10, 10, 1, 100, 0).unwrap();
    deposit(&mut vault, 100, "user1").unwrap();
    assert_eq!(
        vault.add_account(&id(OWNER), id("user1"), 30, 10, 2, 50, to_nano(25)),
        Err(VaultError::UnclaimedRemainderExists)
    );
    assert_eq!(info(&vault, "user1", 25).session_num, 1);
    // once claimed, the schedule can be replaced; its progress starts over
    vault.claim(None, &id("user1"), to_nano(25)).unwrap();
    assert_eq!(vault.add_account(&id(OWNER), id("user1"), 30, 10, 2, 50, to_nano(25)), Ok(true));
    let i = info(&vault, "user1", 25);
    assert_eq!((i.start_timestamp, i.session_interval, i.session_num, i.release_per_session), (30, 10, 2, 50));
    assert_eq!(i.last_claim_session, 0);
}

#[test]
fn claim_twice_at_the_same_instant_is_a_no_op() {
    let mut vault = setup_vault();
    vault.add_account(&id(OWNER), id("user1"), 100, 100, 4, 100, 0).unwrap();
    deposit(&mut vault, 400, "user1").unwrap();
    assert_eq!(sent(&vault.claim(None, &id("user1"), to_nano(350)).unwrap()), 200);
    let before = (info(&vault, "user1", 350), vault.contract_metadata());
    assert_eq!(vault.claim(None, &id("user1"), to_nano(350)), Ok(Payout::Nothing));
    assert_eq!((info(&vault, "user1", 350), vault.contract_metadata()), before);
}

#[test]
fn failed_transfer_is_rolled_back_exactly() {
    let mut vault = setup_vault();
    vault.add_account(&id(OWNER), id("user1"), 100, 100, 4, 100, 0).unwrap();
    deposit(&mut vault, 400, "user1").unwrap();
    let before = (info(&vault, "user1", 350), vault.contract_metadata());
    assert_eq!(realized(&vault, "user1"), Some(400));
    assert_eq!(sent(&vault.claim(None, &id("user1"), to_nano(350)).unwrap()), 200);
    assert_eq!(realized(&vault, "user1"), Some(200));
    assert_eq!(vault.after_ft_transfer(id("user1"), 200, false), Ok(false));
    assert_eq!((info(&vault, "user1", 350), vault.contract_metadata()), before);
    assert_eq!(realized(&vault, "user1"), Some(400));
    // a successful transfer changes nothing
    assert_eq!(sent(&vault.claim(None, &id("user1"), to_nano(350)).unwrap()), 200);
    assert_eq!(vault.after_ft_transfer(id("user1"), 200, true), Ok(true));
    assert_eq!(claimed(&vault), 200);
    // a rollback that the ledger cannot match is refused
    assert_eq!(vault.after_ft_transfer(id("user2"), 200, false), Err(VaultError::ClaimNotFound));
    assert_eq!(vault.after_ft_transfer(id("user1"), 300, false), Err(VaultError::ClaimNotFound));
}

#[test]
fn sim_set_owner() {
    let mut vault = setup_vault();
    assert_eq!(vault.contract_metadata().owner_id, id(OWNER));
    assert_eq!(vault.set_owner(&id("user1"), id("user1")), Err(VaultError::NotAuthorized));
    assert_eq!(vault.set_owner(&id(OWNER), id("user1")), Ok(()));
    assert_eq!(vault.contract_metadata().owner_id, id("user1"));
    assert_eq!(vault.add_account(&id("user1"), id("user1"), 10, 10, 1, 100, 0), Ok(true));
    assert_eq!(vault.set_owner(&id("user1"), id(OWNER)), Ok(()));
    assert_eq!(
        vault.add_account(&id("user1"), id("user1"), 10, 10, 1, 100, 0),
        Err(VaultError::NotAuthorized)
    );
    assert_eq!(VaultError::NotAuthorized.as_str(), "ERR_NOT_ALLOWED");
}

#[test]
fn sim_add_user() {
    let mut vault = setup_vault();
    assert_eq!(
        vault.add_account(&id("user1"), id("user1"), 10, 10, 1, 100, 0),
        Err(VaultError::NotAuthorized)
    );
    assert_eq!(vault.add_account(&id(OWNER), id("user1"), 10, 10, 1, 100, 0), Ok(true));
    let err = vault.add_account(&id(OWNER), id("user1"), 10, 10, 1, 100, 0).unwrap_err();
    assert_eq!(err, VaultError::ScheduleStillActive);
    assert_eq!(err.as_str(), "ERR_ACCOUNT_IN_SESSION");
    // the next block comes a second after the one at 20 s
    let err = vault.add_account(&id(OWNER), id("user1"), 10, 10, 1, 100, to_nano(21)).unwrap_err();
    assert_eq!(err, VaultError::UnclaimedRemainderExists);
    assert_eq!(err.as_str(), "ERR_ACCOUNT_NEED_CLAIM");
}

#[test]
fn sim_deposit_token() {
    let mut vault = setup_vault();
    vault.add_account(&id(OWNER), id("user1"), 10, 10, 1, 100, 0).unwrap();

    let err = vault.ft_on_transfer(&id("other_token"), 100, id("user1")).unwrap_err();
    assert_eq!(err.as_str(), "ERR_ILLEGAL_TOKEN");
    let err = deposit(&mut vault, 100, "").unwrap_err();
    assert_eq!(err.as_str(), "ERR_MISSING_ACCOUNT_ID");
    let err = deposit(&mut vault, 100, "user2").unwrap_err();
    assert_eq!(err.as_str(), "ERR_ACCOUNT_NOT_EXIST");
    let err = deposit(&mut vault, 99, "user1").unwrap_err();
    assert_eq!(err.as_str(), "ERR_AMOUNT_TOO_SMALL");
    assert_eq!(total(&vault), 0);

    assert_eq!(deposit(&mut vault, 100, "user1"), Ok(0));
    assert_eq!(total(&vault), 100);

    assert_eq!(sent(&vault.claim(None, &id("user1"), to_nano(20)).unwrap()), 100);
    assert_eq!(info(&vault, "user1", 20).unclaimed_amount, 0);
    // funding beyond the schedule's entitlement is kept as credit
    assert_eq!(deposit(&mut vault, 110, "user1"), Ok(0));
    assert_eq!(total(&vault), 210);
    assert_eq!(realized(&vault, "user1"), Some(110));
}

#[test]
fn sim_claim() {
    let mut vault = setup_vault();
    vault.add_account(&id(OWNER), id("user1"), 10, 10, 1, 100, 0).unwrap();
    assert_eq!(claimed(&vault), 0);
    assert_eq!(total(&vault), 0);

    assert_eq!(info(&vault, "user1", 20).unclaimed_amount, 100);
    let err = vault.claim(Some(id(OWNER)), &id(OWNER), to_nano(20)).unwrap_err();
    assert_eq!(err.as_str(), "ERR_ACCOUNT_NOT_EXIST");
    let err = vault.claim(Some(id("user1")), &id(OWNER), to_nano(20)).unwrap_err();
    assert_eq!(err.as_str(), "ERR_NOT_ENOUGH_BALANCE");

    deposit(&mut vault, 100, "user1").unwrap();
    assert_eq!(claimed(&vault), 0);
    assert_eq!(total(&vault), 100);

    // user1 is not registered with the token: the transfer fails
    assert_eq!(sent(&vault.claim(None, &id("user1"), to_nano(20)).unwrap()), 100);
    assert_eq!(vault.after_ft_transfer(id("user1"), 100, false), Ok(false));
    assert_eq!(info(&vault, "user1", 20).unclaimed_amount, 100);

    assert_eq!(sent(&vault.claim(None, &id("user1"), to_nano(20)).unwrap()), 100);
    assert_eq!(vault.after_ft_transfer(id("user1"), 100, true), Ok(true));
    assert_eq!(claimed(&vault), 100);
    assert_eq!(total(&vault), 100);
    assert_eq!(info(&vault, "user1", 20).unclaimed_amount, 0);

    assert_eq!(vault.add_account(&id(OWNER), id("user1"), 20, 20, 2, 100, to_nano(21)), Ok(true));
    let err = deposit(&mut vault, 100, "user1").unwrap_err();
    assert_eq!(err, VaultError::AmountTooSmall);
    assert_eq!(deposit(&mut vault, 200, "user1"), Ok(0));

    assert_eq!(sent(&vault.claim(None, &id("user1"), to_nano(40)).unwrap()), 100);
    assert_eq!(sent(&vault.claim(Some(id("user1")), &id(OWNER), to_nano(60)).unwrap()), 100);
    assert_eq!(claimed(&vault), 300);
}

#[test]
fn sim_one_round() {
    let mut vault = setup_vault();
    for who in ["alice", "bob", "charlie"] {
        assert_eq!(vault.add_account(&id(OWNER), id(who), 100, 100, 4, 100, 0), Ok(true));
    }
    for who in ["alice", "bob", "charlie"] {
        assert_eq!(deposit(&mut vault, 400, who), Ok(0));
    }
    assert_eq!(claimed(&vault), 0);
    assert_eq!(total(&vault), 1200);
    assert_info(&info(&vault, "alice", 0), 0, 400, 0, 0);
    assert_eq!(vault.claim(None, &id("alice"), 0), Ok(Payout::Nothing));
    assert_eq!((claimed(&vault), total(&vault)), (0, 1200));
    assert_info(&info(&vault, "alice", 0), 0, 400, 0, 0);

    // the start time
    assert_info(&info(&vault, "alice", 100), 0, 400, 0, 0);
    assert_eq!(vault.claim(None, &id("alice"), to_nano(100)), Ok(Payout::Nothing));
    assert_eq!((claimed(&vault), total(&vault)), (0, 1200));
    assert_info(&info(&vault, "alice", 100), 0, 400, 0, 0);

    // one interval
    assert_info(&info(&vault, "alice", 200), 0, 400, 100, 0);
    assert_eq!(sent(&vault.claim(None, &id("alice"), to_nano(200)).unwrap()), 100);
    assert_eq!((claimed(&vault), total(&vault)), (100, 1200));
    assert_info(&info(&vault, "alice", 200), 100, 400, 0, 1);

    // one and a half intervals
    assert_info(&info(&vault, "alice", 250), 100, 400, 0, 1);
    assert_eq!(vault.claim(None, &id("alice"), to_nano(250)), Ok(Payout::Nothing));
    assert_eq!((claimed(&vault), total(&vault)), (100, 1200));
    assert_info(&info(&vault, "alice", 250), 100, 400, 0, 1);

    // two intervals
    assert_info(&info(&vault, "bob", 300), 0, 400, 200, 0);
    assert_eq!(sent(&vault.claim(Some(id("bob")), &id(OWNER), to_nano(300)).unwrap()), 200);
    assert_eq!((claimed(&vault), total(&vault)), (300, 1200));
    assert_info(&info(&vault, "bob", 300), 200, 400, 0, 2);
    assert_eq!(vault.claim(None, &id("bob"), to_nano(300)), Ok(Payout::Nothing));
    assert_eq!((claimed(&vault), total(&vault)), (300, 1200));
    assert_info(&info(&vault, "bob", 300), 200, 400, 0, 2);

    // four intervals
    assert_info(&info(&vault, "alice", 500), 100, 400, 300, 1);
    assert_eq!(sent(&vault.claim(Some(id("alice")), &id(OWNER), to_nano(500)).unwrap()), 300);
    assert_eq!((claimed(&vault), total(&vault)), (600, 1200));
    assert_info(&info(&vault, "alice", 500), 400, 400, 0, 4);
    assert_eq!(vault.claim(None, &id("alice"), to_nano(500)), Ok(Payout::Nothing));
    assert_eq!((claimed(&vault), total(&vault)), (600, 1200));
    assert_info(&info(&vault, "alice", 500), 400, 400, 0, 4);

    // five intervals
    assert_info(&info(&vault, "charlie", 600), 0, 400, 400, 0);
    assert_eq!(sent(&vault.claim(Some(id("charlie")), &id(OWNER), to_nano(600)).unwrap()), 400);
    assert_eq!((claimed(&vault), total(&vault)), (1000, 1200));
    assert_info(&info(&vault, "charlie", 600), 400, 400, 0, 4);
    assert_eq!(vault.claim(None, &id("charlie"), to_nano(600)), Ok(Payout::Nothing));
    assert_eq!((claimed(&vault), total(&vault)), (1000, 1200));
    assert_info(&info(&vault, "charlie", 600), 400, 400, 0, 4);

    // six intervals: everything ends
    assert_eq!(info(&vault, "bob", 700).unclaimed_amount, 200);
    for who in ["alice", "bob", "charlie"] {
        vault.claim(Some(id(who)), &id(OWNER), to_nano(700)).unwrap();
    }
    assert_eq!((claimed(&vault), total(&vault)), (1200, 1200));
    assert_info(&info(&vault, "bob", 700), 400, 400, 0, 4);
}

#[test]
fn list_accounts_pages_in_insertion_order() {
    let mut vault = setup_vault();
    for who in ["alice", "bob", "charlie"] {
        vault.add_account(&id(OWNER), id(who), 100, 100, 4, 100, 0).unwrap();
    }
    let all = vault.list_accounts(None, None, to_nano(200));
    let names: Vec<String> = all.iter().map(|i| i.account_id.clone()).collect();
    assert_eq!(names, vec![id("alice"), id("bob"), id("charlie")]);
    assert_eq!(all[0].unclaimed_amount, 100);
    let page = vault.list_accounts(Some(1), Some(1), to_nano(200));
    assert_eq!(page.len(), 1);
    assert_eq!(page[0].account_id, id("bob"));
    assert_eq!(vault.list_accounts(Some(2), Some(5), 0).len(), 1);
    assert_eq!(vault.list_accounts(Some(7), None, 0).len(), 0);
    assert_eq!(vault.list_accounts(Some(1), Some(u64::MAX), 0).len(), 2);
    assert!(vault.get_account(&id("dave"), 0).is_none());
}

#[test]
fn stored_records_upgrade_to_the_current_layout() {
    let vault = setup_vault();
    let rec = VAccount::from(Account {
        account_id: id("alice"),
        start_timestamp: 100,
        session_interval: 100,
        session_num: 4,
        last_claim_session: 0,
        release_per_session: 100,
        realized_total_amount: 0,
    });
    let info = AccountInfo::from(&rec, to_nano(300));
    assert_eq!(info.unclaimed_amount, 200);
    let acc = rec.into_current();
    assert_eq!(acc.account_id, id("alice"));
    assert_eq!(acc.unclaimed_amount(to_nano(300)), 200);
    assert_eq!(vault.contract_metadata().version, "1.0.0".to_string());
}
