//! Laws of the lifecycle engine, proved from the operations'
//! transition functions: initialization happens once, the
//! stake/redeem/unstake cycle mints exactly the elapsed time, forged
//! addresses are rejected without mutation, the size cap is enforced
//! before any allocation, and consecutive replies are addressed by
//! consecutive counter values.

use vstd::prelude::*;

use crate::addr::is_addr;
use crate::bridge::ConfigV;
use crate::error::LedgerError;
use crate::intro::{
    counter_pda, info_pda, reply_pda, spec_add_reply, spec_add_student_intro,
    spec_bridge_check, spec_update_student_intro, IntroAccountsV,
};
use crate::ledger::{
    minted_of, record_of, LedgerView, RecordKind, INFO_ACCOUNT_LEN,
};
use crate::records::{
    lemma_counter_round_trip, lemma_stake_round_trip, spec_parse_counter, spec_parse_info,
    spec_parse_stake, spec_ser_counter, spec_ser_stake, StakeRecordV, StakeStatus,
    StudentReplyCounterV,
};
use crate::stake::{
    fresh_stake, spec_initialize_stake_record, spec_redeem, spec_stake, spec_unstake, stake_pda,
};

verus! {

/// The stake record stored at an address, when the address holds one.
pub open spec fn stake_record_at(lv: LedgerView, addr: Seq<u8>) -> Option<StakeRecordV> {
    match record_of(lv, addr) {
        Some(e) => if e.kind == RecordKind::Stake {
            spec_parse_stake(e.data)
        } else {
            None
        },
        None => None,
    }
}

/// The reply-counter value stored at an address, when the address
/// holds a counter record.
pub open spec fn counter_value_at(lv: LedgerView, addr: Seq<u8>) -> Option<u64> {
    match record_of(lv, addr) {
        Some(e) => if e.kind == RecordKind::Counter {
            match spec_parse_counter(e.data) {
                Some(c) => Some(c.counter),
                None => None,
            }
        } else {
            None
        },
        None => None,
    }
}

/// Initialization happens once: after a successful
/// `initialize_stake_record`, the record is initialized and unstaked,
/// and repeating the same call fails with `AlreadyInitialized` and
/// changes nothing.
#[verifier::spinoff_prover]
#[verifier::rlimit(100)]
pub proof fn lemma_initialize_stake_record_once(
    cfg: ConfigV,
    lv: LedgerView,
    owner: Seq<u8>,
    item: Seq<u8>,
    supplied: Seq<u8>,
)
    requires
        is_addr(owner),
        is_addr(item),
        spec_initialize_stake_record(cfg, lv, owner, item, supplied).1 is Ok,
    ensures
        ({
            let (lv1, r1) = spec_initialize_stake_record(cfg, lv, owner, item, supplied);
            let (lv2, r2) = spec_initialize_stake_record(cfg, lv1, owner, item, supplied);
            &&& r2 == Err::<(), LedgerError>(LedgerError::AlreadyInitialized)
            &&& lv2 == lv1
            &&& stake_record_at(lv1, supplied) == Some(fresh_stake(owner, item))
            &&& fresh_stake(owner, item).status == StakeStatus::Unstaked
        }),
{
    match stake_pda(cfg, owner, item) {
        None => {
            assert(false);
        },
        Some((pda, bump)) => {
            assert(supplied == pda);
            let rec = fresh_stake(owner, item);
            lemma_stake_round_trip(rec, Seq::<u8>::empty());
            assert(spec_ser_stake(rec) + Seq::<u8>::empty() =~= spec_ser_stake(rec));
        },
    }
}

/// Forged-address rejection for the staking lifecycle: when the
/// supplied address differs from the derived one, every operation
/// fails with `InvalidDerivedAddress` and the ledger is unchanged.
pub proof fn lemma_forged_address_rejected_stake(
    cfg: ConfigV,
    lv: LedgerView,
    owner: Seq<u8>,
    item: Seq<u8>,
    supplied: Seq<u8>,
    owner_is_signer: bool,
)
    requires
        stake_pda(cfg, owner, item) is Some,
        supplied != (stake_pda(cfg, owner, item)->0).0,
    ensures
        spec_initialize_stake_record(cfg, lv, owner, item, supplied)
            == (lv, Err::<(), LedgerError>(LedgerError::InvalidDerivedAddress)),
        spec_stake(cfg, lv, owner, item, supplied)
            == (lv, Err::<(), LedgerError>(LedgerError::InvalidDerivedAddress)),
        spec_redeem(cfg, lv, owner, item, supplied, owner_is_signer)
            == (lv, Err::<(), LedgerError>(LedgerError::InvalidDerivedAddress)),
        spec_unstake(cfg, lv, owner, item, supplied, owner_is_signer)
            == (lv, Err::<(), LedgerError>(LedgerError::InvalidDerivedAddress)),
{
}

/// Forged-address rejection for publishing an intro: a caller that
/// supplies any address other than the derived info address is turned
/// away before any mutation.
pub proof fn lemma_forged_address_rejected_intro(
    cfg: ConfigV,
    lv: LedgerView,
    a: IntroAccountsV,
    name: Seq<u8>,
    msg: Seq<u8>,
)
    requires
        info_pda(cfg, a.caller) is Some,
        a.info != (info_pda(cfg, a.caller)->0).0,
    ensures
        spec_add_student_intro(cfg, lv, a, name, msg)
            == (lv, Err::<(), LedgerError>(LedgerError::InvalidDerivedAddress)),
{
}

/// Forged-address rejection for adding a reply: a forged counter
/// address is turned away before any mutation.
pub proof fn lemma_forged_address_rejected_reply(
    cfg: ConfigV,
    lv: LedgerView,
    a: IntroAccountsV,
    text: Seq<u8>,
)
    requires
        counter_pda(cfg, a.info) is Some,
        a.counter != (counter_pda(cfg, a.info)->0).0,
    ensures
        spec_add_reply(cfg, lv, a, text)
            == (lv, Err::<(), LedgerError>(LedgerError::InvalidDerivedAddress)),
{
}

/// Forged-address rejection for updating an intro: when the supplied
/// address holds an engine-owned info record but is not the address
/// derived from the caller, the update is turned away unchanged.
pub proof fn lemma_forged_address_rejected_update(
    cfg: ConfigV,
    lv: LedgerView,
    caller: Seq<u8>,
    info_addr: Seq<u8>,
    name: Seq<u8>,
    msg: Seq<u8>,
)
    requires
        ({
            match record_of(lv, info_addr) {
                Some(e) => e.kind == RecordKind::Info && spec_parse_info(e.data) is Some
                    && e.owner == cfg.program_id,
                None => false,
            }
        }),
        info_pda(cfg, caller) is Some,
        info_addr != (info_pda(cfg, caller)->0).0,
    ensures
        spec_update_student_intro(cfg, lv, caller, info_addr, name, msg)
            == (lv, Err::<(), LedgerError>(LedgerError::InvalidDerivedAddress)),
{
}

/// Size-cap enforcement: with well-formed addresses, an intro whose
/// serialized size would exceed the cap fails with
/// `SizeLimitExceeded`, before any allocation.
pub proof fn lemma_size_cap_enforced(
    cfg: ConfigV,
    lv: LedgerView,
    a: IntroAccountsV,
    name: Seq<u8>,
    msg: Seq<u8>,
)
    requires
        info_pda(cfg, a.caller) is Some,
        a.info == (info_pda(cfg, a.caller)->0).0,
        counter_pda(cfg, a.info) is Some,
        a.counter == (counter_pda(cfg, a.info)->0).0,
        spec_bridge_check(cfg, a) is None,
        17 + name.len() + msg.len() > INFO_ACCOUNT_LEN,
    ensures
        spec_add_student_intro(cfg, lv, a, name, msg)
            == (lv, Err::<(), LedgerError>(LedgerError::SizeLimitExceeded)),
{
}

/// The stake/redeem/unstake cycle: starting from an initialized
/// record, `stake` at `t0` stamps both timestamps `t0`; a `redeem`
/// after `d1` seconds mints exactly `d1` units and checkpoints; an
/// `unstake` after `d2` more seconds mints exactly `d2` units and
/// leaves the record unstaked.
#[verifier::spinoff_prover]
#[verifier::rlimit(100)]
pub proof fn lemma_stake_redeem_unstake_cycle(
    cfg: ConfigV,
    lv0: LedgerView,
    owner: Seq<u8>,
    item: Seq<u8>,
    pda: Seq<u8>,
    d1: u64,
    d2: u64,
)
    requires
        cfg.bridge is Some,
        is_addr(owner),
        is_addr(item),
        stake_pda(cfg, owner, item) is Some,
        pda == (stake_pda(cfg, owner, item)->0).0,
        stake_record_at(lv0, pda) is Some,
        lv0.now + d1 + d2 <= u64::MAX,
        minted_of(lv0, owner) + d1 + d2 <= u64::MAX,
    ensures
        ({
            let t0 = lv0.now;
            let (lv1, r1) = spec_stake(cfg, lv0, owner, item, pda);
            let lv1t = LedgerView { now: (t0 + d1) as u64, ..lv1 };
            let (lv2, r2) = spec_redeem(cfg, lv1t, owner, item, pda, true);
            let lv2t = LedgerView { now: (t0 + d1 + d2) as u64, ..lv2 };
            let (lv3, r3) = spec_unstake(cfg, lv2t, owner, item, pda, true);
            &&& r1 is Ok
            &&& stake_record_at(lv1, pda) matches Some(s1)
                && s1.status == StakeStatus::Staked
                && s1.staked_at == t0 && s1.last_redeemed_at == t0
            &&& r2 is Ok
            &&& minted_of(lv2, owner) == minted_of(lv0, owner) + d1
            &&& stake_record_at(lv2, pda) matches Some(s2)
                && s2.status == StakeStatus::Staked
                && s2.last_redeemed_at == t0 + d1
            &&& r3 is Ok
            &&& minted_of(lv3, owner) == minted_of(lv0, owner) + d1 + d2
            &&& stake_record_at(lv3, pda) matches Some(s3)
                && s3.status == StakeStatus::Unstaked
        }),
{
    let t0 = lv0.now;
    let (lv1, r1) = spec_stake(cfg, lv0, owner, item, pda);
    let s1 = StakeRecordV {
        is_initialized: true,
        owner,
        item,
        status: StakeStatus::Staked,
        staked_at: t0,
        last_redeemed_at: t0,
    };
    lemma_stake_round_trip(s1, Seq::<u8>::empty());
    assert(spec_ser_stake(s1) + Seq::<u8>::empty() =~= spec_ser_stake(s1));
    assert(stake_record_at(lv1, pda) == Some(s1));
    let lv1t = LedgerView { now: (t0 + d1) as u64, ..lv1 };
    let (lv2, r2) = spec_redeem(cfg, lv1t, owner, item, pda, true);
    assert(minted_of(lv1t, owner) == minted_of(lv0, owner));
    let s2 = StakeRecordV { last_redeemed_at: (t0 + d1) as u64, ..s1 };
    lemma_stake_round_trip(s2, Seq::<u8>::empty());
    assert(spec_ser_stake(s2) + Seq::<u8>::empty() =~= spec_ser_stake(s2));
    assert(r2 is Ok);
    assert(stake_record_at(lv2, pda) == Some(s2));
    assert(minted_of(lv2, owner) == minted_of(lv0, owner) + d1);
    let lv2t = LedgerView { now: (t0 + d1 + d2) as u64, ..lv2 };
    let (lv3, r3) = spec_unstake(cfg, lv2t, owner, item, pda, true);
    assert(minted_of(lv2t, owner) == minted_of(lv0, owner) + d1);
    let s3 = StakeRecordV { status: StakeStatus::Unstaked, ..s2 };
    lemma_stake_round_trip(s3, Seq::<u8>::empty());
    assert(spec_ser_stake(s3) + Seq::<u8>::empty() =~= spec_ser_stake(s3));
    assert(r3 is Ok);
    assert(stake_record_at(lv3, pda) == Some(s3));
    assert(minted_of(lv3, owner) == minted_of(lv0, owner) + d1 + d2);
}

/// One successful `add_reply`, seen from the counter: the reply is
/// created at the address derived from the info address and the
/// counter's current value, at a previously free address, and the
/// counter advances by one.
#[verifier::spinoff_prover]
#[verifier::rlimit(100)]
pub proof fn lemma_add_reply_ok_step(
    cfg: ConfigV,
    lv: LedgerView,
    a: IntroAccountsV,
    text: Seq<u8>,
)
    requires
        spec_add_reply(cfg, lv, a, text).1 is Ok,
    ensures
        ({
            let lv1 = spec_add_reply(cfg, lv, a, text).0;
            match counter_value_at(lv, a.counter) {
                None => false,
                Some(c) => {
                    &&& c < u64::MAX
                    &&& (exists|b: u8| reply_pda(cfg, a.info, c) == Some((a.reply, b)))
                    &&& !lv.records.contains_key(a.reply)
                    &&& counter_value_at(lv1, a.counter) == Some((c + 1) as u64)
                    &&& (match record_of(lv1, a.reply) {
                        Some(e) => e.kind == RecordKind::Reply,
                        None => false,
                    })
                    &&& (forall|x: Seq<u8>|
                        lv.records.contains_key(x) ==> #[trigger] lv1.records.contains_key(x))
                },
            }
        }),
{
    match record_of(lv, a.counter) {
        None => {
            assert(false);
        },
        Some(ce) => {
            match spec_parse_counter(ce.data) {
                None => {
                    assert(false);
                },
                Some(c0) => {
                    let c1 = StudentReplyCounterV {
                        discriminator: c0.discriminator,
                        is_initialized: true,
                        counter: (c0.counter + 1) as u64,
                    };
                    lemma_counter_round_trip(c1, Seq::<u8>::empty());
                    assert(spec_ser_counter(c1) + Seq::<u8>::empty() =~= spec_ser_counter(c1));
                    match reply_pda(cfg, a.info, c0.counter) {
                        None => {
                            assert(false);
                        },
                        Some((rpda, rb)) => {
                            assert(reply_pda(cfg, a.info, c0.counter)
                                == Some((a.reply, rb)));
                        },
                    }
                },
            }
        },
    }
}

/// Reply addressing: three successful replies in sequence, against a
/// counter starting at zero, are created at the addresses derived from
/// counter values 0, 1 and 2, those three addresses are pairwise
/// distinct, and the counter ends at 3.
#[verifier::spinoff_prover]
#[verifier::rlimit(100)]
pub proof fn lemma_reply_addressing(
    cfg: ConfigV,
    lv0: LedgerView,
    a1: IntroAccountsV,
    a2: IntroAccountsV,
    a3: IntroAccountsV,
    t1: Seq<u8>,
    t2: Seq<u8>,
    t3: Seq<u8>,
)
    requires
        a2.info == a1.info,
        a3.info == a1.info,
        a2.counter == a1.counter,
        a3.counter == a1.counter,
        counter_value_at(lv0, a1.counter) == Some(0u64),
        spec_add_reply(cfg, lv0, a1, t1).1 is Ok,
        spec_add_reply(cfg, spec_add_reply(cfg, lv0, a1, t1).0, a2, t2).1 is Ok,
        spec_add_reply(
            cfg,
            spec_add_reply(cfg, spec_add_reply(cfg, lv0, a1, t1).0, a2, t2).0,
            a3,
            t3,
        ).1 is Ok,
    ensures
        ({
            let lv1 = spec_add_reply(cfg, lv0, a1, t1).0;
            let lv2 = spec_add_reply(cfg, lv1, a2, t2).0;
            let lv3 = spec_add_reply(cfg, lv2, a3, t3).0;
            &&& (exists|b: u8| reply_pda(cfg, a1.info, 0) == Some((a1.reply, b)))
            &&& (exists|b: u8| reply_pda(cfg, a1.info, 1) == Some((a2.reply, b)))
            &&& (exists|b: u8| reply_pda(cfg, a1.info, 2) == Some((a3.reply, b)))
            &&& a1.reply != a2.reply
            &&& a1.reply != a3.reply
            &&& a2.reply != a3.reply
            &&& counter_value_at(lv3, a1.counter) == Some(3u64)
        }),
{
    let lv1 = spec_add_reply(cfg, lv0, a1, t1).0;
    let lv2 = spec_add_reply(cfg, lv1, a2, t2).0;
    let lv3 = spec_add_reply(cfg, lv2, a3, t3).0;
    lemma_add_reply_ok_step(cfg, lv0, a1, t1);
    lemma_add_reply_ok_step(cfg, lv1, a2, t2);
    lemma_add_reply_ok_step(cfg, lv2, a3, t3);
    assert(lv1.records.contains_key(a1.reply));
    assert(lv2.records.contains_key(a2.reply));
    assert(lv2.records.contains_key(a1.reply));
}

} // verus!
