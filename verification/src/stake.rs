//! The staking lifecycle state machine: initialize, stake, redeem,
//! unstake.
//!
//! Every operation takes the record store explicitly, re-derives the
//! expected record address from its own seed rule, and rejects a caller
//! that supplies any other address; reward accrual is linear in the
//! clock time since the last redemption.  Each operation's contract is
//! a transition function on the ledger view: the exact new view and the
//! exact result, error cases included, so a failed operation provably
//! leaves the ledger unchanged.

use vstd::prelude::*;

use crate::addr::{bytes_eq, is_addr, pda_of, seeds2};
use crate::bridge::{Config, ConfigV};
use crate::error::LedgerError;
use crate::ledger::{
    minted_of, record_of, spec_min_balance, wallet_of, EntryV, Ledger, LedgerView,
    RecordKind, STAKE_ACCOUNT_LEN,
};
use crate::records::{
    lemma_stake_round_trip, lemma_stake_serialized_size, parse_stake, ser_stake, spec_parse_stake,
    spec_ser_stake, StakeRecord, StakeRecordV, StakeStatus,
};

verus! {

/// Seed rule of a stake record: the owner's address, then the staked
/// item's address.
pub open spec fn stake_seeds(owner: Seq<u8>, item: Seq<u8>) -> Seq<Seq<u8>> {
    seq![owner, item]
}

/// The address a stake record for (owner, item) must live at.
pub open spec fn stake_pda(cfg: ConfigV, owner: Seq<u8>, item: Seq<u8>) -> Option<(Seq<u8>, u8)> {
    pda_of(stake_seeds(owner, item), cfg.program_id)
}

/// A freshly initialized stake record: unstaked, with zeroed
/// timestamps.
pub open spec fn fresh_stake(owner: Seq<u8>, item: Seq<u8>) -> StakeRecordV {
    StakeRecordV {
        is_initialized: true,
        owner,
        item,
        status: StakeStatus::Unstaked,
        staked_at: 0,
        last_redeemed_at: 0,
    }
}

/// Transition of `initialize_stake_record`.
pub open spec fn spec_initialize_stake_record(
    cfg: ConfigV,
    lv: LedgerView,
    owner: Seq<u8>,
    item: Seq<u8>,
    supplied: Seq<u8>,
) -> (LedgerView, Result<(), LedgerError>) {
    match stake_pda(cfg, owner, item) {
        None => (lv, Err(LedgerError::DerivationExhausted)),
        Some((pda, bump)) => if supplied != pda {
            (lv, Err(LedgerError::InvalidDerivedAddress))
        } else if lv.records.contains_key(pda) {
            (lv, Err(LedgerError::AlreadyInitialized))
        } else if wallet_of(lv, owner) < spec_min_balance(STAKE_ACCOUNT_LEN) {
            (lv, Err(LedgerError::ExternalCallFailed))
        } else {
            (
                LedgerView {
                    records: lv.records.insert(
                        pda,
                        (EntryV {
                            addr: pda,
                            kind: RecordKind::Stake,
                            data: spec_ser_stake(fresh_stake(owner, item)),
                            size: STAKE_ACCOUNT_LEN,
                            balance: spec_min_balance(STAKE_ACCOUNT_LEN) as u64,
                            owner: cfg.program_id,
                        }),
                    ),
                    wallets: lv.wallets.insert(
                        owner,
                        (wallet_of(lv, owner) - spec_min_balance(STAKE_ACCOUNT_LEN)) as u64,
                    ),
                    ..lv
                },
                Ok(()),
            )
        },
    }
}

/// Transition of `stake`: the record becomes staked and both timestamps
/// are set to the current clock.
pub open spec fn spec_stake(
    cfg: ConfigV,
    lv: LedgerView,
    owner: Seq<u8>,
    item: Seq<u8>,
    supplied: Seq<u8>,
) -> (LedgerView, Result<(), LedgerError>) {
    match stake_pda(cfg, owner, item) {
        None => (lv, Err(LedgerError::DerivationExhausted)),
        Some((pda, bump)) => if supplied != pda {
            (lv, Err(LedgerError::InvalidDerivedAddress))
        } else {
            match record_of(lv, pda) {
                None => (lv, Err(LedgerError::UninitializedRecord)),
                Some(e) => if e.kind != RecordKind::Stake {
                    (lv, Err(LedgerError::UninitializedRecord))
                } else {
                    match spec_parse_stake(e.data) {
                        None => (lv, Err(LedgerError::UninitializedRecord)),
                        Some(r0) => {
                            let r1 = StakeRecordV {
                                is_initialized: true,
                                owner,
                                item,
                                status: StakeStatus::Staked,
                                staked_at: lv.now,
                                last_redeemed_at: lv.now,
                            };
                            (
                                LedgerView {
                                    records: lv.records.insert(
                                        pda,
                                        (EntryV { data: spec_ser_stake(r1), ..e }),
                                    ),
                                    ..lv
                                },
                                Ok(()),
                            )
                        },
                    }
                },
            }
        },
    }
}

/// Reward owed at clock `now` to a record last redeemed at
/// `last_redeemed_at`: one unit per elapsed second.
pub open spec fn spec_reward(now: u64, last_redeemed_at: u64) -> u64 {
    (now - last_redeemed_at) as u64
}

/// Transition shared by `redeem` and `unstake`: validate, compute the
/// reward since the last redemption, mint it through the bridge when
/// one is configured, and write the record back; `redeem` checkpoints
/// `last_redeemed_at` and stays staked, `unstake` leaves the checkpoint
/// and becomes unstaked.
pub open spec fn spec_redeem_or_unstake(
    cfg: ConfigV,
    lv: LedgerView,
    owner: Seq<u8>,
    item: Seq<u8>,
    supplied: Seq<u8>,
    owner_is_signer: bool,
    unstake_after: bool,
) -> (LedgerView, Result<(), LedgerError>) {
    match stake_pda(cfg, owner, item) {
        None => (lv, Err(LedgerError::DerivationExhausted)),
        Some((pda, bump)) => if supplied != pda {
            (lv, Err(LedgerError::InvalidDerivedAddress))
        } else if !owner_is_signer {
            (lv, Err(LedgerError::UnauthenticatedCaller))
        } else {
            match record_of(lv, pda) {
                None => (lv, Err(LedgerError::UninitializedRecord)),
                Some(e) => if e.kind != RecordKind::Stake {
                    (lv, Err(LedgerError::UninitializedRecord))
                } else {
                    match spec_parse_stake(e.data) {
                        None => (lv, Err(LedgerError::UninitializedRecord)),
                        Some(r0) => if r0.status != StakeStatus::Staked {
                            (lv, Err(LedgerError::NotCurrentlyStaked))
                        } else if r0.owner != owner {
                            (lv, Err(LedgerError::OwnerMismatch))
                        } else if r0.item != item {
                            (lv, Err(LedgerError::ItemMismatch))
                        } else {
                            let reward = spec_reward(lv.now, r0.last_redeemed_at);
                            if cfg.bridge is Some
                                && minted_of(lv, owner) + reward > u64::MAX {
                                (lv, Err(LedgerError::ExternalCallFailed))
                            } else {
                                let r1 = StakeRecordV {
                                    status: if unstake_after {
                                        StakeStatus::Unstaked
                                    } else {
                                        StakeStatus::Staked
                                    },
                                    last_redeemed_at: if unstake_after {
                                        r0.last_redeemed_at
                                    } else {
                                        lv.now
                                    },
                                    ..r0
                                };
                                (
                                    LedgerView {
                                        records: lv.records.insert(
                                            pda,
                                            (EntryV { data: spec_ser_stake(r1), ..e }),
                                        ),
                                        minted: if cfg.bridge is Some {
                                            lv.minted.insert(
                                                owner,
                                                (minted_of(lv, owner) + reward) as u64,
                                            )
                                        } else {
                                            lv.minted
                                        },
                                        ..lv
                                    },
                                    Ok(()),
                                )
                            }
                        },
                    }
                },
            }
        },
    }
}

pub open spec fn spec_redeem(
    cfg: ConfigV,
    lv: LedgerView,
    owner: Seq<u8>,
    item: Seq<u8>,
    supplied: Seq<u8>,
    owner_is_signer: bool,
) -> (LedgerView, Result<(), LedgerError>) {
    spec_redeem_or_unstake(cfg, lv, owner, item, supplied, owner_is_signer, false)
}

pub open spec fn spec_unstake(
    cfg: ConfigV,
    lv: LedgerView,
    owner: Seq<u8>,
    item: Seq<u8>,
    supplied: Seq<u8>,
    owner_is_signer: bool,
) -> (LedgerView, Result<(), LedgerError>) {
    spec_redeem_or_unstake(cfg, lv, owner, item, supplied, owner_is_signer, true)
}

/// Create the stake record for (owner, item): the caller must supply
/// the address derived from the stake seed rule, the address must be
/// free, and the owner's wallet funds the allocation.
pub fn initialize_stake_record(
    cfg: &Config,
    l: &mut Ledger,
    owner: &Vec<u8>,
    item: &Vec<u8>,
    supplied: &Vec<u8>,
) -> (r: Result<(), LedgerError>)
    requires
        cfg@.wf(),
        old(l).wf(),
        is_addr(owner@),
        is_addr(item@),
    ensures
        final(l).wf(),
        ({
            let (lv2, rr) = spec_initialize_stake_record(cfg@, old(l)@, owner@, item@, supplied@);
            final(l)@ == lv2 && r == rr
        }),
{
    let seeds = seeds2(owner, item);
    let pda = match crate::addr::derive(&seeds, &cfg.program_id) {
        Ok((pda, _bump)) => pda,
        Err(e) => {
            return Err(e);
        },
    };
    if !bytes_eq(supplied, &pda) {
        return Err(LedgerError::InvalidDerivedAddress);
    }
    if l.has_record(&pda) {
        return Err(LedgerError::AlreadyInitialized);
    }
    let cost = crate::ledger::min_balance(STAKE_ACCOUNT_LEN);
    if l.wallet_balance(owner) < cost {
        return Err(LedgerError::ExternalCallFailed);
    }
    let rec = StakeRecord {
        is_initialized: true,
        owner: crate::ledger::copy_bytes(owner),
        item: crate::ledger::copy_bytes(item),
        status: StakeStatus::Unstaked,
        staked_at: 0,
        last_redeemed_at: 0,
    };
    proof {
        assert(rec@ == fresh_stake(owner@, item@));
        lemma_stake_round_trip(rec@, Seq::<u8>::empty());
        assert(spec_ser_stake(rec@) + Seq::<u8>::empty() =~= spec_ser_stake(rec@));
        lemma_stake_serialized_size(rec@);
    }
    let data = ser_stake(&rec);
    l.create_record(&pda, RecordKind::Stake, STAKE_ACCOUNT_LEN, data, owner, &cfg.program_id);
    Ok(())
}

/// Move the record to Staked and set both timestamps to the current
/// clock.
pub fn stake(
    cfg: &Config,
    l: &mut Ledger,
    owner: &Vec<u8>,
    item: &Vec<u8>,
    supplied: &Vec<u8>,
) -> (r: Result<(), LedgerError>)
    requires
        cfg@.wf(),
        old(l).wf(),
        is_addr(owner@),
        is_addr(item@),
    ensures
        final(l).wf(),
        ({
            let (lv2, rr) = spec_stake(cfg@, old(l)@, owner@, item@, supplied@);
            final(l)@ == lv2 && r == rr
        }),
{
    let seeds = seeds2(owner, item);
    let pda = match crate::addr::derive(&seeds, &cfg.program_id) {
        Ok((pda, _bump)) => pda,
        Err(e) => {
            return Err(e);
        },
    };
    if !bytes_eq(supplied, &pda) {
        return Err(LedgerError::InvalidDerivedAddress);
    }
    match l.read_record(&pda) {
        None => {
            return Err(LedgerError::UninitializedRecord);
        },
        Some(e) => {
            if !matches!(e.kind, RecordKind::Stake) {
                return Err(LedgerError::UninitializedRecord);
            }
            if parse_stake(&e.data).is_none() {
                return Err(LedgerError::UninitializedRecord);
            }
        },
    }
    let now = l.now;
    let rec = StakeRecord {
        is_initialized: true,
        owner: crate::ledger::copy_bytes(owner),
        item: crate::ledger::copy_bytes(item),
        status: StakeStatus::Staked,
        staked_at: now,
        last_redeemed_at: now,
    };
    proof {
        lemma_stake_round_trip(rec@, Seq::<u8>::empty());
        assert(spec_ser_stake(rec@) + Seq::<u8>::empty() =~= spec_ser_stake(rec@));
        lemma_stake_serialized_size(rec@);
    }
    let data = ser_stake(&rec);
    l.write_record(&pda, data);
    Ok(())
}

fn redeem_or_unstake(
    cfg: &Config,
    l: &mut Ledger,
    owner: &Vec<u8>,
    item: &Vec<u8>,
    supplied: &Vec<u8>,
    owner_is_signer: bool,
    unstake_after: bool,
) -> (r: Result<(), LedgerError>)
    requires
        cfg@.wf(),
        old(l).wf(),
        is_addr(owner@),
        is_addr(item@),
    ensures
        final(l).wf(),
        ({
            let (lv2, rr) = spec_redeem_or_unstake(
                cfg@, old(l)@, owner@, item@, supplied@, owner_is_signer, unstake_after);
            final(l)@ == lv2 && r == rr
        }),
{
    let seeds = seeds2(owner, item);
    let pda = match crate::addr::derive(&seeds, &cfg.program_id) {
        Ok((pda, _bump)) => pda,
        Err(e) => {
            return Err(e);
        },
    };
    if !bytes_eq(supplied, &pda) {
        return Err(LedgerError::InvalidDerivedAddress);
    }
    if !owner_is_signer {
        return Err(LedgerError::UnauthenticatedCaller);
    }
    let r0 = match l.read_record(&pda) {
        None => {
            return Err(LedgerError::UninitializedRecord);
        },
        Some(e) => {
            if !matches!(e.kind, RecordKind::Stake) {
                return Err(LedgerError::UninitializedRecord);
            }
            match parse_stake(&e.data) {
                None => {
                    return Err(LedgerError::UninitializedRecord);
                },
                Some(r0) => r0,
            }
        },
    };
    if !matches!(r0.status, StakeStatus::Staked) {
        return Err(LedgerError::NotCurrentlyStaked);
    }
    if !bytes_eq(&r0.owner, owner) {
        return Err(LedgerError::OwnerMismatch);
    }
    if !bytes_eq(&r0.item, item) {
        return Err(LedgerError::ItemMismatch);
    }
    let now = l.now;
    let reward = now - r0.last_redeemed_at;
    if cfg.bridge.is_some() {
        let already = l.minted_balance(owner);
        if reward > u64::MAX - already {
            return Err(LedgerError::ExternalCallFailed);
        }
        l.mint_credit(owner, reward);
    }
    let rec = StakeRecord {
        is_initialized: r0.is_initialized,
        owner: r0.owner,
        item: r0.item,
        status: if unstake_after { StakeStatus::Unstaked } else { StakeStatus::Staked },
        staked_at: r0.staked_at,
        last_redeemed_at: if unstake_after { r0.last_redeemed_at } else { now },
    };
    proof {
        lemma_stake_round_trip(rec@, Seq::<u8>::empty());
        assert(spec_ser_stake(rec@) + Seq::<u8>::empty() =~= spec_ser_stake(rec@));
        lemma_stake_serialized_size(rec@);
    }
    let data = ser_stake(&rec);
    l.write_record(&pda, data);
    Ok(())
}

/// Mint the reward accrued since the last redemption to the owner and
/// checkpoint `last_redeemed_at`; the record stays staked.  The caller
/// must be authenticated and match the record's stored owner and item.
pub fn redeem(
    cfg: &Config,
    l: &mut Ledger,
    owner: &Vec<u8>,
    item: &Vec<u8>,
    supplied: &Vec<u8>,
    owner_is_signer: bool,
) -> (r: Result<(), LedgerError>)
    requires
        cfg@.wf(),
        old(l).wf(),
        is_addr(owner@),
        is_addr(item@),
    ensures
        final(l).wf(),
        ({
            let (lv2, rr) = spec_redeem(cfg@, old(l)@, owner@, item@, supplied@, owner_is_signer);
            final(l)@ == lv2 && r == rr
        }),
{
    redeem_or_unstake(cfg, l, owner, item, supplied, owner_is_signer, false)
}

/// Perform the same reward computation and mint as `redeem`, then move
/// the record to Unstaked.
pub fn unstake(
    cfg: &Config,
    l: &mut Ledger,
    owner: &Vec<u8>,
    item: &Vec<u8>,
    supplied: &Vec<u8>,
    owner_is_signer: bool,
) -> (r: Result<(), LedgerError>)
    requires
        cfg@.wf(),
        old(l).wf(),
        is_addr(owner@),
        is_addr(item@),
    ensures
        final(l).wf(),
        ({
            let (lv2, rr) = spec_unstake(cfg@, old(l)@, owner@, item@, supplied@, owner_is_signer);
            final(l)@ == lv2 && r == rr
        }),
{
    redeem_or_unstake(cfg, l, owner, item, supplied, owner_is_signer, true)
}

} // verus!
