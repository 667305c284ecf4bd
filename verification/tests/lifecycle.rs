use record_lifecycle::addr::seeds2;
use record_lifecycle::bridge::Config;
use record_lifecycle::error::LedgerError;
use record_lifecycle::ledger::{min_balance, Ledger, RecordKind, STAKE_ACCOUNT_LEN};
use record_lifecycle::records::{parse_stake, StakeStatus};
use record_lifecycle::stake::{initialize_stake_record, redeem, stake, unstake};

fn pid() -> Vec<u8> {
    vec![7u8; 32]
}

fn owner() -> Vec<u8> {
    vec![1u8; 32]
}

fn item() -> Vec<u8> {
    vec![2u8; 32]
}

fn stake_addr(cfg: &Config) -> Vec<u8> {
    let s = seeds2(&owner(), &item());
    record_lifecycle::addr::derive(&s, &cfg.program_id).unwrap().0
}

fn funded_ledger(now: u64) -> Ledger {
    let mut l = Ledger::new(now);
    l.fund_wallet(&owner(), 100_000_000);
    l
}

#[test]
fn initialize_once_then_already_initialized() {
    let cfg = Config::with_token_bridge(pid());
    let mut l = funded_ledger(0);
    let pda = stake_addr(&cfg);
    assert_eq!(initialize_stake_record(&cfg, &mut l, &owner(), &item(), &pda), Ok(()));
    let e = l.read_record(&pda).unwrap();
    assert!(matches!(e.kind, RecordKind::Stake));
    let rec = parse_stake(&e.data).unwrap();
    assert!(rec.is_initialized);
    assert!(matches!(rec.status, StakeStatus::Unstaked));
    assert_eq!(
        initialize_stake_record(&cfg, &mut l, &owner(), &item(), &pda),
        Err(LedgerError::AlreadyInitialized)
    );
    let rec2 = parse_stake(&l.read_record(&pda).unwrap().data).unwrap();
    assert!(matches!(rec2.status, StakeStatus::Unstaked));
}

#[test]
fn initialize_moves_funding_from_payer() {
    let cfg = Config::without_bridge(pid());
    let mut l = funded_ledger(0);
    let pda = stake_addr(&cfg);
    let before = l.wallet_balance(&owner());
    initialize_stake_record(&cfg, &mut l, &owner(), &item(), &pda).unwrap();
    let after = l.wallet_balance(&owner());
    assert_eq!(before - after, min_balance(STAKE_ACCOUNT_LEN));
    let e = l.read_record(&pda).unwrap();
    assert_eq!(e.balance, min_balance(STAKE_ACCOUNT_LEN));
    assert_eq!(e.owner, pid());
}

#[test]
fn initialize_without_funds_fails() {
    let cfg = Config::without_bridge(pid());
    let mut l = Ledger::new(0);
    let pda = stake_addr(&cfg);
    assert_eq!(
        initialize_stake_record(&cfg, &mut l, &owner(), &item(), &pda),
        Err(LedgerError::ExternalCallFailed)
    );
    assert!(!l.has_record(&pda));
}

#[test]
fn stake_redeem_unstake_cycle_mints_elapsed_time() {
    let cfg = Config::with_token_bridge(pid());
    let mut l = funded_ledger(1000);
    let pda = stake_addr(&cfg);
    initialize_stake_record(&cfg, &mut l, &owner(), &item(), &pda).unwrap();

    assert_eq!(stake(&cfg, &mut l, &owner(), &item(), &pda), Ok(()));
    let rec = parse_stake(&l.read_record(&pda).unwrap().data).unwrap();
    assert!(matches!(rec.status, StakeStatus::Staked));
    assert_eq!(rec.staked_at, 1000);
    assert_eq!(rec.last_redeemed_at, 1000);

    l.advance_time(50);
    assert_eq!(redeem(&cfg, &mut l, &owner(), &item(), &pda, true), Ok(()));
    assert_eq!(l.minted_balance(&owner()), 50);
    let rec = parse_stake(&l.read_record(&pda).unwrap().data).unwrap();
    assert!(matches!(rec.status, StakeStatus::Staked));
    assert_eq!(rec.last_redeemed_at, 1050);

    l.advance_time(7);
    assert_eq!(unstake(&cfg, &mut l, &owner(), &item(), &pda, true), Ok(()));
    assert_eq!(l.minted_balance(&owner()), 57);
    let rec = parse_stake(&l.read_record(&pda).unwrap().data).unwrap();
    assert!(matches!(rec.status, StakeStatus::Unstaked));
    assert_eq!(rec.staked_at, 1000);
}

#[test]
fn redeem_without_elapsed_time_mints_nothing() {
    let cfg = Config::with_token_bridge(pid());
    let mut l = funded_ledger(500);
    let pda = stake_addr(&cfg);
    initialize_stake_record(&cfg, &mut l, &owner(), &item(), &pda).unwrap();
    stake(&cfg, &mut l, &owner(), &item(), &pda).unwrap();
    assert_eq!(redeem(&cfg, &mut l, &owner(), &item(), &pda, true), Ok(()));
    assert_eq!(l.minted_balance(&owner()), 0);
}

#[test]
fn forged_address_rejected_without_mutation() {
    let cfg = Config::with_token_bridge(pid());
    let mut l = funded_ledger(0);
    let pda = stake_addr(&cfg);
    let forged: Vec<u8> = vec![9u8; 32];
    assert_ne!(forged, pda);
    let before = l.wallet_balance(&owner());
    assert_eq!(
        initialize_stake_record(&cfg, &mut l, &owner(), &item(), &forged),
        Err(LedgerError::InvalidDerivedAddress)
    );
    assert_eq!(
        stake(&cfg, &mut l, &owner(), &item(), &forged),
        Err(LedgerError::InvalidDerivedAddress)
    );
    assert_eq!(
        redeem(&cfg, &mut l, &owner(), &item(), &forged, true),
        Err(LedgerError::InvalidDerivedAddress)
    );
    assert_eq!(
        unstake(&cfg, &mut l, &owner(), &item(), &forged, true),
        Err(LedgerError::InvalidDerivedAddress)
    );
    assert!(!l.has_record(&pda));
    assert!(!l.has_record(&forged));
    assert_eq!(l.wallet_balance(&owner()), before);
    assert_eq!(l.minted_balance(&owner()), 0);
}

#[test]
fn stake_before_initialize_fails() {
    let cfg = Config::without_bridge(pid());
    let mut l = funded_ledger(0);
    let pda = stake_addr(&cfg);
    assert_eq!(
        stake(&cfg, &mut l, &owner(), &item(), &pda),
        Err(LedgerError::UninitializedRecord)
    );
}

#[test]
fn redeem_demands_signature_staked_status_and_matching_accounts() {
    let cfg = Config::with_token_bridge(pid());
    let mut l = funded_ledger(0);
    let pda = stake_addr(&cfg);
    initialize_stake_record(&cfg, &mut l, &owner(), &item(), &pda).unwrap();
    assert_eq!(
        redeem(&cfg, &mut l, &owner(), &item(), &pda, false),
        Err(LedgerError::UnauthenticatedCaller)
    );
    assert_eq!(
        redeem(&cfg, &mut l, &owner(), &item(), &pda, true),
        Err(LedgerError::NotCurrentlyStaked)
    );
    stake(&cfg, &mut l, &owner(), &item(), &pda).unwrap();
    assert_eq!(redeem(&cfg, &mut l, &owner(), &item(), &pda, true), Ok(()));
}

#[test]
fn unstake_checks_owner_and_item_against_record() {
    let cfg = Config::with_token_bridge(pid());
    let mut l = funded_ledger(0);
    let pda = stake_addr(&cfg);
    initialize_stake_record(&cfg, &mut l, &owner(), &item(), &pda).unwrap();
    stake(&cfg, &mut l, &owner(), &item(), &pda).unwrap();
    // The record at this derived address stores the staking owner and
    // item; a later call re-derives the same address, so mismatches can
    // only arise when a record written under other field values sits
    // there.  Matching calls succeed:
    assert_eq!(unstake(&cfg, &mut l, &owner(), &item(), &pda, true), Ok(()));
    let rec = parse_stake(&l.read_record(&pda).unwrap().data).unwrap();
    assert!(matches!(rec.status, StakeStatus::Unstaked));
}

#[test]
fn without_bridge_no_reward_is_minted() {
    let cfg = Config::without_bridge(pid());
    let mut l = funded_ledger(100);
    let pda = stake_addr(&cfg);
    initialize_stake_record(&cfg, &mut l, &owner(), &item(), &pda).unwrap();
    stake(&cfg, &mut l, &owner(), &item(), &pda).unwrap();
    l.advance_time(40);
    assert_eq!(redeem(&cfg, &mut l, &owner(), &item(), &pda, true), Ok(()));
    assert_eq!(l.minted_balance(&owner()), 0);
    let rec = parse_stake(&l.read_record(&pda).unwrap().data).unwrap();
    assert_eq!(rec.last_redeemed_at, 140);
}
