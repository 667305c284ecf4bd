use record_lifecycle::addr::{bytes_eq, seeds1, seeds2};
use record_lifecycle::codec::u64_be_bytes;
use record_lifecycle::error::{LedgerError, StudentIntroError};
use record_lifecycle::records::{
    ser_counter, ser_info, ser_reply, ser_stake, StakeRecord, StakeStatus, StudentInfo,
    StudentIntroReply, StudentReplyCounter,
};

fn pid() -> Vec<u8> {
    vec![7u8; 32]
}

#[test]
fn derive_is_deterministic() {
    let owner: Vec<u8> = vec![1u8; 32];
    let item: Vec<u8> = vec![2u8; 32];
    let s = seeds2(&owner, &item);
    let a = record_lifecycle::addr::derive(&s, &pid()).unwrap();
    let b = record_lifecycle::addr::derive(&s, &pid()).unwrap();
    assert_eq!(a.0, b.0);
    assert_eq!(a.1, b.1);
    assert_eq!(a.0.len(), 32);
}

#[test]
fn distinct_seed_tuples_give_distinct_addresses() {
    let mut addrs: Vec<Vec<u8>> = Vec::new();
    addrs.push(record_lifecycle::addr::derive(&seeds2(&vec![1u8; 32], &vec![2u8; 32]), &pid()).unwrap().0);
    addrs.push(record_lifecycle::addr::derive(&seeds2(&vec![1u8; 32], &vec![3u8; 32]), &pid()).unwrap().0);
    addrs.push(record_lifecycle::addr::derive(&seeds2(&vec![2u8; 32], &vec![1u8; 32]), &pid()).unwrap().0);
    addrs.push(record_lifecycle::addr::derive(&seeds1(&vec![1u8; 32]), &pid()).unwrap().0);
    addrs.push(record_lifecycle::addr::derive(&seeds1(&vec![4u8; 32]), &pid()).unwrap().0);
    addrs.push(record_lifecycle::addr::derive(&seeds1(&vec![5u8; 7]), &pid()).unwrap().0);
    addrs.push(record_lifecycle::addr::derive(&seeds2(&vec![9u8; 3], &u64_be_bytes(0)), &pid()).unwrap().0);
    addrs.push(record_lifecycle::addr::derive(&seeds2(&vec![9u8; 3], &u64_be_bytes(1)), &pid()).unwrap().0);
    let n: usize = addrs.len();
    let mut i: usize = 0;
    while i < n {
        let mut j: usize = i + 1;
        while j < n {
            assert_ne!(addrs[i], addrs[j], "tuples {} and {} collide", i, j);
            j += 1;
        }
        i += 1;
    }
}

#[test]
fn derivation_exhausted_on_too_many_seeds() {
    let mut seeds: Vec<Vec<u8>> = Vec::new();
    let mut i: usize = 0;
    while i < 17 {
        seeds.push(vec![i as u8]);
        i += 1;
    }
    let r = record_lifecycle::addr::derive(&seeds, &pid());
    assert_eq!(r, Err(LedgerError::DerivationExhausted));
}

#[test]
fn derivation_exhausted_on_oversized_seed() {
    let seeds: Vec<Vec<u8>> = vec![vec![0u8; 33]];
    let r = record_lifecycle::addr::derive(&seeds, &pid());
    assert_eq!(r, Err(LedgerError::DerivationExhausted));
}

#[test]
fn bytes_eq_compares_contents() {
    assert!(bytes_eq(&vec![1u8, 2, 3], &vec![1u8, 2, 3]));
    assert!(!bytes_eq(&vec![1u8, 2, 3], &vec![1u8, 2]));
    assert!(!bytes_eq(&vec![1u8, 2, 3], &vec![1u8, 2, 4]));
}

#[test]
fn big_endian_counter_bytes() {
    assert_eq!(u64_be_bytes(0x0102030405060708), vec![1u8, 2, 3, 4, 5, 6, 7, 8]);
    assert_eq!(u64_be_bytes(0), vec![0u8; 8]);
    assert_eq!(u64_be_bytes(2), vec![0u8, 0, 0, 0, 0, 0, 0, 2]);
}

#[test]
fn info_layout_matches_reference_serializer() {
    let rec = StudentInfo {
        discriminator: b"info".to_vec(),
        is_initialized: true,
        name: b"Alice".to_vec(),
        msg: b"hello there".to_vec(),
    };
    let ours = ser_info(&rec);
    let reference = borsh::to_vec(&(
        "info".to_string(),
        true,
        "Alice".to_string(),
        "hello there".to_string(),
    ))
    .unwrap();
    assert_eq!(ours, reference);
}

#[test]
fn counter_layout_matches_reference_serializer() {
    let rec = StudentReplyCounter {
        discriminator: b"counter".to_vec(),
        is_initialized: true,
        counter: 3,
    };
    let ours = ser_counter(&rec);
    let reference = borsh::to_vec(&("counter".to_string(), true, 3u64)).unwrap();
    assert_eq!(ours, reference);
    assert_eq!(ours.len(), 20);
}

#[test]
fn reply_layout_matches_reference_serializer() {
    let rec = StudentIntroReply {
        discriminator: b"reply".to_vec(),
        is_initialized: true,
        reply_message: b"nice".to_vec(),
        reply: vec![8u8; 32],
        replier: vec![9u8; 32],
    };
    let ours = ser_reply(&rec);
    let reference =
        borsh::to_vec(&("reply".to_string(), true, "nice".to_string(), [8u8; 32], [9u8; 32]))
            .unwrap();
    assert_eq!(ours, reference);
    assert_eq!(ours.len(), 78 + 4);
}

#[test]
fn stake_layout_matches_reference_serializer() {
    let rec = StakeRecord {
        is_initialized: true,
        owner: vec![1u8; 32],
        item: vec![2u8; 32],
        status: StakeStatus::Staked,
        staked_at: 5,
        last_redeemed_at: 6,
    };
    let ours = ser_stake(&rec);
    let reference = borsh::to_vec(&(true, [1u8; 32], [2u8; 32], 1u8, 5u64, 6u64)).unwrap();
    assert_eq!(ours, reference);
    assert_eq!(ours.len(), 82);
}

#[test]
fn info_account_size_formula() {
    assert_eq!(StudentInfo::get_account_size(&b"ab".to_vec(), &b"cde".to_vec()), 22);
    assert_eq!(StudentInfo::get_account_size(&Vec::new(), &Vec::new()), 17);
}

#[test]
fn reply_account_size_formula() {
    assert_eq!(StudentIntroReply::get_account_size(&b"nice".to_vec()), 82);
    assert_eq!(StudentIntroReply::get_account_size(&Vec::new()), 78);
}

#[test]
fn intro_error_codes_and_mapping() {
    assert_eq!(StudentIntroError::UninitializedAccount.error_code(), 0);
    assert_eq!(StudentIntroError::InvalidPDA.error_code(), 1);
    assert_eq!(StudentIntroError::InvalidDataLength.error_code(), 2);
    assert_eq!(StudentIntroError::IncorrectAccountError.error_code(), 3);
    assert_eq!(
        StudentIntroError::UninitializedAccount.to_ledger_error(),
        LedgerError::UninitializedRecord
    );
    assert_eq!(
        StudentIntroError::InvalidPDA.to_ledger_error(),
        LedgerError::InvalidDerivedAddress
    );
    assert_eq!(
        StudentIntroError::InvalidDataLength.to_ledger_error(),
        LedgerError::SizeLimitExceeded
    );
    assert_eq!(
        StudentIntroError::IncorrectAccountError.to_ledger_error(),
        LedgerError::InvalidDerivedAddress
    );
}

#[test]
fn associated_token_account_is_a_fresh_derived_address() {
    let wallet: Vec<u8> = vec![1u8; 32];
    let mint: Vec<u8> = vec![2u8; 32];
    let ata = record_lifecycle::bridge::associated_token_account(&wallet, &mint);
    assert_eq!(ata.len(), 32);
    assert_ne!(ata, wallet);
    assert_ne!(ata, mint);
    let again = record_lifecycle::bridge::associated_token_account(&wallet, &mint);
    assert_eq!(ata, again);
    let other = record_lifecycle::bridge::associated_token_account(&wallet, &vec![3u8; 32]);
    assert_ne!(ata, other);
}
