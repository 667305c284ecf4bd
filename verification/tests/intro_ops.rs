use record_lifecycle::addr::{seeds1, seeds2};
use record_lifecycle::bridge::{
    associated_token_account, auth_seed_bytes, mint_seed_bytes, Config, INTRO_MINT_AMOUNT,
    REPLY_MINT_AMOUNT,
};
use record_lifecycle::codec::u64_be_bytes;
use record_lifecycle::dispatch::{process_instruction, unpack, CallAccounts, Instruction};
use record_lifecycle::error::LedgerError;
use record_lifecycle::intro::{
    add_reply, add_student_intro, initialize_token_mint, update_student_intro, IntroAccounts,
};
use record_lifecycle::ledger::{min_balance, Ledger, RecordKind};
use record_lifecycle::records::{parse_counter, parse_info, parse_reply, reply_discriminator};

fn pid() -> Vec<u8> {
    vec![7u8; 32]
}

fn caller() -> Vec<u8> {
    vec![3u8; 32]
}

fn accounts_for(cfg: &Config, who: &Vec<u8>) -> IntroAccounts {
    let info = record_lifecycle::addr::derive(&seeds1(who), &cfg.program_id).unwrap().0;
    let counter = record_lifecycle::addr::derive(
        &seeds2(&info, &reply_discriminator()),
        &cfg.program_id,
    )
    .unwrap()
    .0;
    let (token_mint, mint_auth, user_ata, token_program) = match &cfg.bridge {
        Some(b) => {
            let tm = record_lifecycle::addr::derive(&seeds1(&mint_seed_bytes()), &cfg.program_id)
                .unwrap()
                .0;
            let ma = record_lifecycle::addr::derive(&seeds1(&auth_seed_bytes()), &cfg.program_id)
                .unwrap()
                .0;
            let ata = associated_token_account(who, &tm);
            (tm, ma, ata, b.token_program.clone())
        },
        None => (Vec::new(), Vec::new(), Vec::new(), Vec::new()),
    };
    IntroAccounts {
        caller: who.clone(),
        info,
        counter,
        reply: Vec::new(),
        token_mint,
        mint_auth,
        user_ata,
        token_program,
    }
}

fn funded_ledger(who: &Vec<u8>) -> Ledger {
    let mut l = Ledger::new(0);
    l.fund_wallet(who, 1_000_000_000);
    l
}

#[test]
fn add_intro_creates_info_and_counter_and_mints() {
    let cfg = Config::with_token_bridge(pid());
    let a = accounts_for(&cfg, &caller());
    let mut l = funded_ledger(&caller());
    let before = l.wallet_balance(&caller());
    let r = add_student_intro(&cfg, &mut l, &a, &b"Alice".to_vec(), &b"hello".to_vec());
    assert_eq!(r, Ok(()));
    let info = parse_info(&l.read_record(&a.info).unwrap().data).unwrap();
    assert_eq!(info.discriminator, b"info".to_vec());
    assert!(info.is_initialized);
    assert_eq!(info.name, b"Alice".to_vec());
    assert_eq!(info.msg, b"hello".to_vec());
    let counter = parse_counter(&l.read_record(&a.counter).unwrap().data).unwrap();
    assert_eq!(counter.discriminator, b"counter".to_vec());
    assert_eq!(counter.counter, 0);
    assert_eq!(l.minted_balance(&a.user_ata), INTRO_MINT_AMOUNT);
    assert_eq!(before - l.wallet_balance(&caller()), min_balance(1000) + min_balance(20));
}

#[test]
fn add_intro_twice_fails() {
    let cfg = Config::with_token_bridge(pid());
    let a = accounts_for(&cfg, &caller());
    let mut l = funded_ledger(&caller());
    add_student_intro(&cfg, &mut l, &a, &b"Alice".to_vec(), &b"hi".to_vec()).unwrap();
    assert_eq!(
        add_student_intro(&cfg, &mut l, &a, &b"Alice".to_vec(), &b"hi".to_vec()),
        Err(LedgerError::AlreadyInitialized)
    );
}

#[test]
fn size_cap_enforced_before_allocation() {
    let cfg = Config::with_token_bridge(pid());
    let a = accounts_for(&cfg, &caller());
    let mut l = funded_ledger(&caller());
    let name: Vec<u8> = vec![b'x'; 500];
    let msg: Vec<u8> = vec![b'y'; 500];
    assert_eq!(
        add_student_intro(&cfg, &mut l, &a, &name, &msg),
        Err(LedgerError::SizeLimitExceeded)
    );
    assert!(!l.has_record(&a.info));
    assert!(!l.has_record(&a.counter));
    assert_eq!(l.minted_balance(&a.user_ata), 0);
}

#[test]
fn size_cap_boundary() {
    let cfg = Config::without_bridge(pid());
    let a = accounts_for(&cfg, &caller());
    let mut l = funded_ledger(&caller());
    // 17 + 483 + 500 == 1000: exactly at the cap, accepted.
    let name: Vec<u8> = vec![b'x'; 483];
    let msg: Vec<u8> = vec![b'y'; 500];
    assert_eq!(add_student_intro(&cfg, &mut l, &a, &name, &msg), Ok(()));
    // One more byte exceeds the cap.
    let b = accounts_for(&cfg, &vec![4u8; 32]);
    let mut l2 = funded_ledger(&vec![4u8; 32]);
    let name2: Vec<u8> = vec![b'x'; 484];
    assert_eq!(
        add_student_intro(&cfg, &mut l2, &b, &name2, &msg),
        Err(LedgerError::SizeLimitExceeded)
    );
}

#[test]
fn forged_info_address_rejected() {
    let cfg = Config::with_token_bridge(pid());
    let mut a = accounts_for(&cfg, &caller());
    a.info = vec![9u8; 32];
    let mut l = funded_ledger(&caller());
    assert_eq!(
        add_student_intro(&cfg, &mut l, &a, &b"n".to_vec(), &b"m".to_vec()),
        Err(LedgerError::InvalidDerivedAddress)
    );
    assert!(!l.has_record(&a.counter));
}

#[test]
fn wrong_bridge_accounts_rejected() {
    let cfg = Config::with_token_bridge(pid());
    let mut l = funded_ledger(&caller());
    let mut a = accounts_for(&cfg, &caller());
    a.user_ata = vec![9u8; 32];
    assert_eq!(
        add_student_intro(&cfg, &mut l, &a, &b"n".to_vec(), &b"m".to_vec()),
        Err(LedgerError::InvalidDerivedAddress)
    );
    let mut a = accounts_for(&cfg, &caller());
    a.token_program = vec![9u8; 32];
    assert_eq!(
        add_student_intro(&cfg, &mut l, &a, &b"n".to_vec(), &b"m".to_vec()),
        Err(LedgerError::InvalidDerivedAddress)
    );
    let mut a = accounts_for(&cfg, &caller());
    a.token_mint = vec![9u8; 32];
    assert_eq!(
        add_student_intro(&cfg, &mut l, &a, &b"n".to_vec(), &b"m".to_vec()),
        Err(LedgerError::InvalidDerivedAddress)
    );
    let mut a = accounts_for(&cfg, &caller());
    a.mint_auth = vec![9u8; 32];
    assert_eq!(
        add_student_intro(&cfg, &mut l, &a, &b"n".to_vec(), &b"m".to_vec()),
        Err(LedgerError::InvalidDerivedAddress)
    );
}

#[test]
fn update_replaces_message_and_keeps_name() {
    let cfg = Config::without_bridge(pid());
    let a = accounts_for(&cfg, &caller());
    let mut l = funded_ledger(&caller());
    add_student_intro(&cfg, &mut l, &a, &b"Alice".to_vec(), &b"old".to_vec()).unwrap();
    let r = update_student_intro(
        &cfg, &mut l, &caller(), &a.info, &b"ignored".to_vec(), &b"new msg".to_vec());
    assert_eq!(r, Ok(()));
    let info = parse_info(&l.read_record(&a.info).unwrap().data).unwrap();
    assert_eq!(info.name, b"Alice".to_vec());
    assert_eq!(info.msg, b"new msg".to_vec());
}

#[test]
fn update_of_missing_record_fails() {
    let cfg = Config::without_bridge(pid());
    let a = accounts_for(&cfg, &caller());
    let mut l = funded_ledger(&caller());
    assert_eq!(
        update_student_intro(&cfg, &mut l, &caller(), &a.info, &b"n".to_vec(), &b"m".to_vec()),
        Err(LedgerError::UninitializedRecord)
    );
}

#[test]
fn update_with_foreign_caller_rejected() {
    let cfg = Config::without_bridge(pid());
    let a = accounts_for(&cfg, &caller());
    let mut l = funded_ledger(&caller());
    add_student_intro(&cfg, &mut l, &a, &b"Alice".to_vec(), &b"old".to_vec()).unwrap();
    let other: Vec<u8> = vec![8u8; 32];
    let other_info = record_lifecycle::addr::derive(&seeds1(&other), &cfg.program_id).unwrap().0;
    assert_ne!(other_info, a.info);
    assert_eq!(
        update_student_intro(&cfg, &mut l, &other, &a.info, &b"n".to_vec(), &b"m".to_vec()),
        Err(LedgerError::InvalidDerivedAddress)
    );
    let info = parse_info(&l.read_record(&a.info).unwrap().data).unwrap();
    assert_eq!(info.msg, b"old".to_vec());
}

#[test]
fn update_size_cap_enforced() {
    let cfg = Config::without_bridge(pid());
    let a = accounts_for(&cfg, &caller());
    let mut l = funded_ledger(&caller());
    add_student_intro(&cfg, &mut l, &a, &b"Alice".to_vec(), &b"old".to_vec()).unwrap();
    let huge: Vec<u8> = vec![b'z'; 990];
    assert_eq!(
        update_student_intro(&cfg, &mut l, &caller(), &a.info, &b"n".to_vec(), &huge),
        Err(LedgerError::SizeLimitExceeded)
    );
}

#[test]
fn three_replies_get_consecutive_derived_addresses() {
    let cfg = Config::with_token_bridge(pid());
    let author = caller();
    let mut l = funded_ledger(&author);
    let a = accounts_for(&cfg, &author);
    add_student_intro(&cfg, &mut l, &a, &b"Alice".to_vec(), &b"hi".to_vec()).unwrap();

    let replier: Vec<u8> = vec![5u8; 32];
    l.fund_wallet(&replier, 1_000_000_000);
    let mut reply_addrs: Vec<Vec<u8>> = Vec::new();
    let mut k: u64 = 0;
    while k < 3 {
        let rpda = record_lifecycle::addr::derive(
            &seeds2(&a.info, &u64_be_bytes(k)),
            &cfg.program_id,
        )
        .unwrap()
        .0;
        let mut ra = accounts_for(&cfg, &replier);
        ra.info = a.info.clone();
        ra.counter = a.counter.clone();
        ra.reply = rpda.clone();
        let text = format!("reply number {}", k).into_bytes();
        assert_eq!(add_reply(&cfg, &mut l, &ra, &text), Ok(()));
        reply_addrs.push(rpda);
        k += 1;
    }
    assert_ne!(reply_addrs[0], reply_addrs[1]);
    assert_ne!(reply_addrs[0], reply_addrs[2]);
    assert_ne!(reply_addrs[1], reply_addrs[2]);
    let counter = parse_counter(&l.read_record(&a.counter).unwrap().data).unwrap();
    assert_eq!(counter.counter, 3);
    let rec = parse_reply(&l.read_record(&reply_addrs[1]).unwrap().data).unwrap();
    assert_eq!(rec.discriminator, b"reply".to_vec());
    assert_eq!(rec.reply_message, b"reply number 1".to_vec());
    assert_eq!(rec.reply, reply_addrs[1]);
    assert_eq!(rec.replier, replier);
    let replier_ata = associated_token_account(&replier, &a.token_mint);
    assert_eq!(l.minted_balance(&replier_ata), 3 * REPLY_MINT_AMOUNT);
}

#[test]
fn reply_with_forged_counter_rejected() {
    let cfg = Config::with_token_bridge(pid());
    let author = caller();
    let mut l = funded_ledger(&author);
    let a = accounts_for(&cfg, &author);
    add_student_intro(&cfg, &mut l, &a, &b"Alice".to_vec(), &b"hi".to_vec()).unwrap();
    let mut ra = accounts_for(&cfg, &author);
    ra.info = a.info.clone();
    ra.counter = vec![9u8; 32];
    assert_eq!(
        add_reply(&cfg, &mut l, &ra, &b"t".to_vec()),
        Err(LedgerError::InvalidDerivedAddress)
    );
}

#[test]
fn reply_before_intro_fails() {
    let cfg = Config::with_token_bridge(pid());
    let author = caller();
    let mut l = funded_ledger(&author);
    let a = accounts_for(&cfg, &author);
    let mut ra = a;
    ra.reply = vec![9u8; 32];
    assert_eq!(
        add_reply(&cfg, &mut l, &ra, &b"t".to_vec()),
        Err(LedgerError::UninitializedRecord)
    );
}

#[test]
fn token_mint_record_created_once() {
    let cfg = Config::with_token_bridge(pid());
    let mut l = funded_ledger(&caller());
    let a = accounts_for(&cfg, &caller());
    assert_eq!(initialize_token_mint(&cfg, &mut l, &a), Ok(()));
    let e = l.read_record(&a.token_mint).unwrap();
    assert!(matches!(e.kind, RecordKind::Mint));
    assert_eq!(e.owner, cfg.bridge.as_ref().unwrap().token_program);
    assert_eq!(e.size, 82);
    assert_eq!(
        initialize_token_mint(&cfg, &mut l, &a),
        Err(LedgerError::AlreadyInitialized)
    );
    let mut forged = accounts_for(&cfg, &caller());
    forged.mint_auth = vec![9u8; 32];
    let mut l2 = funded_ledger(&caller());
    assert_eq!(
        initialize_token_mint(&cfg, &mut l2, &forged),
        Err(LedgerError::InvalidDerivedAddress)
    );
}

fn length_prefixed(b: &[u8]) -> Vec<u8> {
    let mut v = (b.len() as u32).to_le_bytes().to_vec();
    v.extend_from_slice(b);
    v
}

fn call_accounts(cfg: &Config, who: &Vec<u8>, signer: bool) -> CallAccounts {
    let a = accounts_for(cfg, who);
    CallAccounts {
        caller: who.clone(),
        caller_is_signer: signer,
        item: vec![2u8; 32],
        record: a.info.clone(),
        counter: a.counter.clone(),
        reply: a.reply.clone(),
        token_mint: a.token_mint.clone(),
        mint_auth: a.mint_auth.clone(),
        user_ata: a.user_ata.clone(),
        token_program: a.token_program.clone(),
    }
}

#[test]
fn unpack_decodes_tags_and_payloads() {
    assert_eq!(unpack(&Vec::new()).unwrap_err(), LedgerError::InvalidInstructionData);
    assert_eq!(unpack(&vec![9u8]).unwrap_err(), LedgerError::UnknownInstruction);
    assert!(matches!(unpack(&vec![0u8]).unwrap(), Instruction::InitializeStake));
    assert!(matches!(unpack(&vec![1u8]).unwrap(), Instruction::Stake));
    assert!(matches!(unpack(&vec![2u8]).unwrap(), Instruction::Redeem));
    assert!(matches!(unpack(&vec![3u8]).unwrap(), Instruction::Unstake));
    let mut data: Vec<u8> = vec![4u8];
    data.extend_from_slice(&length_prefixed(b"Ann"));
    data.extend_from_slice(&length_prefixed(b"yo"));
    match unpack(&data).unwrap() {
        Instruction::InitInfo { name, msg } => {
            assert_eq!(name, b"Ann".to_vec());
            assert_eq!(msg, b"yo".to_vec());
        },
        _ => panic!("wrong instruction"),
    }
    // A length prefix pointing past the end of the buffer is malformed.
    let mut bad: Vec<u8> = vec![6u8];
    bad.extend_from_slice(&(10u32).to_le_bytes());
    bad.push(1);
    assert_eq!(unpack(&bad).unwrap_err(), LedgerError::InvalidInstructionData);
    // A missing payload is malformed.
    assert_eq!(unpack(&vec![5u8, 1]).unwrap_err(), LedgerError::InvalidInstructionData);
}

#[test]
fn process_instruction_routes_intro_and_stake_calls() {
    let cfg = Config::with_token_bridge(pid());
    let who = caller();
    let mut l = funded_ledger(&who);
    let ca = call_accounts(&cfg, &who, true);

    let mut data: Vec<u8> = vec![4u8];
    data.extend_from_slice(&length_prefixed(b"Ann"));
    data.extend_from_slice(&length_prefixed(b"yo"));
    assert_eq!(process_instruction(&cfg, &mut l, &ca, &data), Ok(()));
    let info = parse_info(&l.read_record(&ca.record).unwrap().data).unwrap();
    assert_eq!(info.name, b"Ann".to_vec());

    let mut upd: Vec<u8> = vec![5u8];
    upd.extend_from_slice(&length_prefixed(b"Ann"));
    upd.extend_from_slice(&length_prefixed(b"newer"));
    assert_eq!(process_instruction(&cfg, &mut l, &ca, &upd), Ok(()));
    let info = parse_info(&l.read_record(&ca.record).unwrap().data).unwrap();
    assert_eq!(info.msg, b"newer".to_vec());

    let stake_pda = record_lifecycle::addr::derive(
        &seeds2(&who, &vec![2u8; 32]),
        &cfg.program_id,
    )
    .unwrap()
    .0;
    let mut sa = call_accounts(&cfg, &who, true);
    sa.record = stake_pda.clone();
    assert_eq!(process_instruction(&cfg, &mut l, &sa, &vec![0u8]), Ok(()));
    assert_eq!(process_instruction(&cfg, &mut l, &sa, &vec![1u8]), Ok(()));
    l.advance_time(9);
    assert_eq!(process_instruction(&cfg, &mut l, &sa, &vec![2u8]), Ok(()));
    assert_eq!(l.minted_balance(&who), 9);
    assert_eq!(process_instruction(&cfg, &mut l, &sa, &vec![3u8]), Ok(()));
    assert_eq!(
        process_instruction(&cfg, &mut l, &sa, &vec![7u8]),
        Err(LedgerError::UnknownInstruction)
    );
}
