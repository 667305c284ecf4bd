//! The intro-record surface: publish an info record with its reply
//! counter, update it, add individually addressable replies, and create
//! the token-mint record of the delegated bridge.
//!
//! As in the staking lifecycle, every operation re-derives the expected
//! addresses from its own seed rules, rejects any other address, checks
//! sizes before any storage mutation, and states its exact transition
//! on the ledger view.

use vstd::prelude::*;

use crate::addr::{bytes_eq, is_addr, pda_of, seeds1, seeds2};
use crate::bridge::{
    ata_of, auth_seed, auth_seed_bytes, derive_ata, mint_seed, mint_seed_bytes, Config, ConfigV,
    INTRO_MINT_AMOUNT, REPLY_MINT_AMOUNT,
};
use crate::codec::{spec_u64_be, u64_be_bytes};
use crate::error::LedgerError;
use crate::ledger::{
    copy_bytes, minted_of, record_of, spec_min_balance, wallet_of, EntryV, Ledger, LedgerView,
    RecordKind, COUNTER_ACCOUNT_LEN, INFO_ACCOUNT_LEN, MAX_RECORD_SIZE, MINT_ACCOUNT_LEN,
};
use crate::records::{
    counter_disc, counter_discriminator, info_disc, info_discriminator,
    lemma_counter_round_trip, lemma_counter_serialized_size, lemma_info_round_trip,
    lemma_info_serialized_size, lemma_reply_round_trip, lemma_reply_serialized_size,
    parse_counter, parse_info, reply_disc, reply_discriminator, ser_counter, ser_info, ser_reply,
    spec_parse_counter, spec_parse_info, spec_ser_counter, spec_ser_info, spec_ser_reply,
    StudentInfo, StudentInfoV, StudentIntroReply, StudentIntroReplyV, StudentReplyCounter,
    StudentReplyCounterV,
};

verus! {

/// Seed rule of an info record: the owner's address alone.
pub open spec fn info_seeds(owner: Seq<u8>) -> Seq<Seq<u8>> {
    seq![owner]
}

pub open spec fn info_pda(cfg: ConfigV, owner: Seq<u8>) -> Option<(Seq<u8>, u8)> {
    pda_of(info_seeds(owner), cfg.program_id)
}

/// Seed rule of a reply counter: the info record's address, then the
/// bytes of `"reply"`.
pub open spec fn counter_seeds(info: Seq<u8>) -> Seq<Seq<u8>> {
    seq![info, reply_disc()]
}

pub open spec fn counter_pda(cfg: ConfigV, info: Seq<u8>) -> Option<(Seq<u8>, u8)> {
    pda_of(counter_seeds(info), cfg.program_id)
}

/// Seed rule of a reply: the info record's address, then the counter's
/// value at creation in big-endian bytes, which makes each reply
/// individually addressable.
pub open spec fn reply_seeds(info: Seq<u8>, count: u64) -> Seq<Seq<u8>> {
    seq![info, spec_u64_be(count)]
}

pub open spec fn reply_pda(cfg: ConfigV, info: Seq<u8>, count: u64) -> Option<(Seq<u8>, u8)> {
    pda_of(reply_seeds(info, count), cfg.program_id)
}

/// The token-mint record's address under the engine's authority.
pub open spec fn mint_pda(cfg: ConfigV) -> Option<(Seq<u8>, u8)> {
    pda_of(seq![mint_seed()], cfg.program_id)
}

/// The delegated signing authority's address under the engine's
/// authority.
pub open spec fn auth_pda(cfg: ConfigV) -> Option<(Seq<u8>, u8)> {
    pda_of(seq![auth_seed()], cfg.program_id)
}

/// The accounts an intro operation is handed by its caller.  The caller
/// is adversarial: any of these may be forged, and each operation
/// re-derives and compares.
pub struct IntroAccounts {
    pub caller: Vec<u8>,
    pub info: Vec<u8>,
    pub counter: Vec<u8>,
    pub reply: Vec<u8>,
    pub token_mint: Vec<u8>,
    pub mint_auth: Vec<u8>,
    pub user_ata: Vec<u8>,
    pub token_program: Vec<u8>,
}

pub struct IntroAccountsV {
    pub caller: Seq<u8>,
    pub info: Seq<u8>,
    pub counter: Seq<u8>,
    pub reply: Seq<u8>,
    pub token_mint: Seq<u8>,
    pub mint_auth: Seq<u8>,
    pub user_ata: Seq<u8>,
    pub token_program: Seq<u8>,
}

impl View for IntroAccounts {
    type V = IntroAccountsV;

    open spec fn view(&self) -> IntroAccountsV {
        IntroAccountsV {
            caller: self.caller@,
            info: self.info@,
            counter: self.counter@,
            reply: self.reply@,
            token_mint: self.token_mint@,
            mint_auth: self.mint_auth@,
            user_ata: self.user_ata@,
            token_program: self.token_program@,
        }
    }
}

/// Validation of the bridge accounts, when a bridge is configured: the
/// token mint and the signing authority must sit at their derived
/// addresses, the recipient must be the associated token account of the
/// caller under that mint, and the token service must be the configured
/// one.  `None` when everything matches (or no bridge is configured).
pub open spec fn spec_bridge_check(cfg: ConfigV, a: IntroAccountsV) -> Option<LedgerError> {
    match cfg.bridge {
        None => None,
        Some(tp) => match mint_pda(cfg) {
            None => Some(LedgerError::DerivationExhausted),
            Some((mpda, m_bump)) => if a.token_mint != mpda {
                Some(LedgerError::InvalidDerivedAddress)
            } else {
                match auth_pda(cfg) {
                    None => Some(LedgerError::DerivationExhausted),
                    Some((apda, a_bump)) => if a.mint_auth != apda {
                        Some(LedgerError::InvalidDerivedAddress)
                    } else if a.user_ata != ata_of(a.caller, a.token_mint) {
                        Some(LedgerError::InvalidDerivedAddress)
                    } else if a.token_program != tp {
                        Some(LedgerError::InvalidDerivedAddress)
                    } else {
                        None
                    },
                }
            },
        },
    }
}

/// Validate the bridge accounts; on success, hand back the recipient
/// token account for minting (the caller's associated token account),
/// or nothing when no bridge is configured.
fn check_bridge(cfg: &Config, a: &IntroAccounts) -> (r: Result<Option<Vec<u8>>, LedgerError>)
    requires
        cfg@.wf(),
        is_addr(a.caller@),
    ensures
        match r {
            Ok(rec) => spec_bridge_check(cfg@, a@) is None && match rec {
                Some(ata) => cfg@.bridge is Some && ata@ == ata_of(a.caller@, a.token_mint@),
                None => cfg@.bridge is None,
            },
            Err(e) => spec_bridge_check(cfg@, a@) == Some(e),
        },
{
    if cfg.bridge.is_none() {
        return Ok(None);
    }
    let mint_seeds = seeds1(&mint_seed_bytes());
    proof {
        assert(crate::addr::views_of(mint_seeds@) =~= seq![mint_seed()]);
    }
    let mpda = match crate::addr::derive(&mint_seeds, &cfg.program_id) {
        Ok((p, _b)) => p,
        Err(e) => {
            return Err(e);
        },
    };
    if !bytes_eq(&a.token_mint, &mpda) {
        return Err(LedgerError::InvalidDerivedAddress);
    }
    let auth_seeds = seeds1(&auth_seed_bytes());
    proof {
        assert(crate::addr::views_of(auth_seeds@) =~= seq![auth_seed()]);
    }
    let apda = match crate::addr::derive(&auth_seeds, &cfg.program_id) {
        Ok((p, _b)) => p,
        Err(e) => {
            return Err(e);
        },
    };
    if !bytes_eq(&a.mint_auth, &apda) {
        return Err(LedgerError::InvalidDerivedAddress);
    }
    let expected_ata = derive_ata(&a.caller, &a.token_mint);
    if !bytes_eq(&a.user_ata, &expected_ata) {
        return Err(LedgerError::InvalidDerivedAddress);
    }
    match &cfg.bridge {
        Some(b) => {
            if !bytes_eq(&a.token_program, &b.token_program) {
                return Err(LedgerError::InvalidDerivedAddress);
            }
        },
        None => {},
    }
    Ok(Some(expected_ata))
}

/// The info record an intro publishes.
pub open spec fn intro_info_record(name: Seq<u8>, msg: Seq<u8>) -> StudentInfoV {
    StudentInfoV { discriminator: info_disc(), is_initialized: true, name, msg }
}

/// The fresh reply counter an intro publishes.
pub open spec fn intro_counter_record() -> StudentReplyCounterV {
    StudentReplyCounterV { discriminator: counter_disc(), is_initialized: true, counter: 0 }
}

/// The ledger after a successful `add_student_intro`.
pub open spec fn spec_add_intro_apply(
    cfg: ConfigV,
    lv: LedgerView,
    a: IntroAccountsV,
    name: Seq<u8>,
    msg: Seq<u8>,
    pda: Seq<u8>,
    cpda: Seq<u8>,
) -> LedgerView {
    LedgerView {
        records: lv.records.insert(
            pda,
            (EntryV {
                addr: pda,
                kind: RecordKind::Info,
                data: spec_ser_info(intro_info_record(name, msg)),
                size: INFO_ACCOUNT_LEN,
                balance: spec_min_balance(INFO_ACCOUNT_LEN) as u64,
                owner: cfg.program_id,
            }),
        ).insert(
            cpda,
            (EntryV {
                addr: cpda,
                kind: RecordKind::Counter,
                data: spec_ser_counter(intro_counter_record()),
                size: COUNTER_ACCOUNT_LEN,
                balance: spec_min_balance(COUNTER_ACCOUNT_LEN) as u64,
                owner: cfg.program_id,
            }),
        ),
        wallets: lv.wallets.insert(
            a.caller,
            (wallet_of(lv, a.caller) - spec_min_balance(INFO_ACCOUNT_LEN)
                - spec_min_balance(COUNTER_ACCOUNT_LEN)) as u64,
        ),
        minted: if cfg.bridge is Some {
            lv.minted.insert(
                ata_of(a.caller, a.token_mint),
                (minted_of(lv, ata_of(a.caller, a.token_mint)) + INTRO_MINT_AMOUNT) as u64,
            )
        } else {
            lv.minted
        },
        ..lv
    }
}

/// Transition of `add_student_intro`: create the info record and its
/// reply counter at their derived addresses, and mint the intro reward
/// to the caller's token account when a bridge is configured.
pub open spec fn spec_add_student_intro(
    cfg: ConfigV,
    lv: LedgerView,
    a: IntroAccountsV,
    name: Seq<u8>,
    msg: Seq<u8>,
) -> (LedgerView, Result<(), LedgerError>) {
    match info_pda(cfg, a.caller) {
        None => (lv, Err(LedgerError::DerivationExhausted)),
        Some((pda, bump)) => if a.info != pda {
            (lv, Err(LedgerError::InvalidDerivedAddress))
        } else {
            match counter_pda(cfg, pda) {
                None => (lv, Err(LedgerError::DerivationExhausted)),
                Some((cpda, c_bump)) => if a.counter != cpda {
                    (lv, Err(LedgerError::InvalidDerivedAddress))
                } else {
                    match spec_bridge_check(cfg, a) {
                        Some(e) => (lv, Err(e)),
                        None => if 17 + name.len() + msg.len() > INFO_ACCOUNT_LEN {
                            (lv, Err(LedgerError::SizeLimitExceeded))
                        } else if lv.records.contains_key(pda) {
                            (lv, Err(LedgerError::AlreadyInitialized))
                        } else if cpda == pda || lv.records.contains_key(cpda) {
                            (lv, Err(LedgerError::AlreadyInitialized))
                        } else if wallet_of(lv, a.caller)
                            < spec_min_balance(INFO_ACCOUNT_LEN)
                                + spec_min_balance(COUNTER_ACCOUNT_LEN) {
                            (lv, Err(LedgerError::ExternalCallFailed))
                        } else if cfg.bridge is Some
                            && minted_of(lv, ata_of(a.caller, a.token_mint)) + INTRO_MINT_AMOUNT
                                > u64::MAX {
                            (lv, Err(LedgerError::ExternalCallFailed))
                        } else {
                            (spec_add_intro_apply(cfg, lv, a, name, msg, pda, cpda), Ok(()))
                        },
                    }
                },
            }
        },
    }
}

/// Publish an info record for the caller, with its reply counter, and
/// mint the intro reward through the bridge when one is configured.
/// Size-limit and address failures are detected before any storage
/// mutation.
#[verifier::spinoff_prover]
#[verifier::rlimit(100)]
pub fn add_student_intro(
    cfg: &Config,
    l: &mut Ledger,
    accounts: &IntroAccounts,
    name: &Vec<u8>,
    msg: &Vec<u8>,
) -> (r: Result<(), LedgerError>)
    requires
        cfg@.wf(),
        old(l).wf(),
        is_addr(accounts.caller@),
    ensures
        final(l).wf(),
        ({
            let (lv2, rr) = spec_add_student_intro(cfg@, old(l)@, accounts@, name@, msg@);
            final(l)@ == lv2 && r == rr
        }),
{
    let info_seed_list = seeds1(&accounts.caller);
    proof {
        assert(crate::addr::views_of(info_seed_list@) =~= info_seeds(accounts.caller@));
    }
    let pda = match crate::addr::derive(&info_seed_list, &cfg.program_id) {
        Ok((p, _b)) => p,
        Err(e) => {
            return Err(e);
        },
    };
    if !bytes_eq(&accounts.info, &pda) {
        return Err(LedgerError::InvalidDerivedAddress);
    }
    let counter_seed_list = seeds2(&pda, &reply_discriminator());
    proof {
        assert(crate::addr::views_of(counter_seed_list@) =~= counter_seeds(pda@));
    }
    let cpda = match crate::addr::derive(&counter_seed_list, &cfg.program_id) {
        Ok((p, _b)) => p,
        Err(e) => {
            return Err(e);
        },
    };
    if !bytes_eq(&accounts.counter, &cpda) {
        return Err(LedgerError::InvalidDerivedAddress);
    }
    let (minting, recipient) = match check_bridge(cfg, accounts) {
        Ok(Some(ata)) => (true, ata),
        Ok(None) => (false, Vec::new()),
        Err(e) => {
            return Err(e);
        },
    };
    if name.len() >= 984 || msg.len() >= 984 {
        return Err(LedgerError::SizeLimitExceeded);
    }
    let size = StudentInfo::get_account_size(name, msg);
    if size > 1000 {
        return Err(LedgerError::SizeLimitExceeded);
    }
    if l.has_record(&pda) {
        return Err(LedgerError::AlreadyInitialized);
    }
    if bytes_eq(&cpda, &pda) || l.has_record(&cpda) {
        return Err(LedgerError::AlreadyInitialized);
    }
    let info_cost = crate::ledger::min_balance(INFO_ACCOUNT_LEN);
    let counter_cost = crate::ledger::min_balance(COUNTER_ACCOUNT_LEN);
    if l.wallet_balance(&accounts.caller) < info_cost + counter_cost {
        return Err(LedgerError::ExternalCallFailed);
    }
    if minting {
        let already = l.minted_balance(&recipient);
        if INTRO_MINT_AMOUNT > u64::MAX - already {
            return Err(LedgerError::ExternalCallFailed);
        }
    }
    perform_add_intro(cfg, l, accounts, name, msg, &pda, &cpda, minting, &recipient);
    Ok(())
}

/// The mutation tail of `add_student_intro`, entered after every check
/// has passed: create the info record and the counter, and credit the
/// intro reward.
#[verifier::spinoff_prover]
#[verifier::rlimit(100)]
fn perform_add_intro(
    cfg: &Config,
    l: &mut Ledger,
    accounts: &IntroAccounts,
    name: &Vec<u8>,
    msg: &Vec<u8>,
    pda: &Vec<u8>,
    cpda: &Vec<u8>,
    minting: bool,
    recipient: &Vec<u8>,
)
    requires
        cfg@.wf(),
        old(l).wf(),
        is_addr(accounts.caller@),
        is_addr(pda@),
        is_addr(cpda@),
        pda@ != cpda@,
        !old(l)@.records.contains_key(pda@),
        !old(l)@.records.contains_key(cpda@),
        17 + name@.len() + msg@.len() <= INFO_ACCOUNT_LEN,
        wallet_of(old(l)@, accounts.caller@) >= spec_min_balance(INFO_ACCOUNT_LEN)
            + spec_min_balance(COUNTER_ACCOUNT_LEN),
        minting == (cfg@.bridge is Some),
        minting ==> recipient@ == ata_of(accounts.caller@, accounts.token_mint@),
        minting ==> minted_of(old(l)@, recipient@) + INTRO_MINT_AMOUNT <= u64::MAX,
    ensures
        final(l).wf(),
        final(l)@ == spec_add_intro_apply(
            cfg@, old(l)@, accounts@, name@, msg@, pda@, cpda@),
{
    let info_rec = StudentInfo {
        discriminator: info_discriminator(),
        is_initialized: true,
        name: copy_bytes(name),
        msg: copy_bytes(msg),
    };
    proof {
        assert(crate::ledger::info_data_wf(spec_ser_info(info_rec@))) by {
            lemma_info_round_trip(info_rec@, Seq::<u8>::empty());
            assert(spec_ser_info(info_rec@) + Seq::<u8>::empty() =~= spec_ser_info(info_rec@));
        }
        assert(spec_ser_info(info_rec@).len() == 17 + name@.len() + msg@.len()) by {
            lemma_info_serialized_size(info_rec@);
        }
    }
    let info_data = ser_info(&info_rec);
    l.create_record(
        pda,
        RecordKind::Info,
        INFO_ACCOUNT_LEN,
        info_data,
        &accounts.caller,
        &cfg.program_id,
    );
    let counter_rec = StudentReplyCounter {
        discriminator: counter_discriminator(),
        is_initialized: true,
        counter: 0,
    };
    proof {
        assert(crate::ledger::counter_data_wf(spec_ser_counter(counter_rec@))) by {
            lemma_counter_round_trip(counter_rec@, Seq::<u8>::empty());
            assert(spec_ser_counter(counter_rec@) + Seq::<u8>::empty()
                =~= spec_ser_counter(counter_rec@));
        }
        assert(spec_ser_counter(counter_rec@).len() == COUNTER_ACCOUNT_LEN) by {
            lemma_counter_serialized_size(counter_rec@);
        }
    }
    let ghost lv_a = l@;
    let counter_data = ser_counter(&counter_rec);
    l.create_record(
        cpda,
        RecordKind::Counter,
        COUNTER_ACCOUNT_LEN,
        counter_data,
        &accounts.caller,
        &cfg.program_id,
    );
    let ghost lv_b = l@;
    if minting {
        l.mint_credit(recipient, INTRO_MINT_AMOUNT);
    }
    proof {
        let lv2 = spec_add_intro_apply(cfg@, old(l)@, accounts@, name@, msg@, pda@, cpda@);
        let m1 = spec_min_balance(INFO_ACCOUNT_LEN);
        let m2 = spec_min_balance(COUNTER_ACCOUNT_LEN);
        let c = accounts.caller@;
        let b0 = wallet_of(old(l)@, c);
        assert(wallet_of(lv_a, c) == (b0 - m1) as u64);
        assert(((b0 - m1) as u64 - m2) as u64 == (b0 - m1 - m2) as u64);
        assert(lv_b.wallets =~= old(l)@.wallets.insert(c, (b0 - m1 - m2) as u64));
        assert(l@.wallets == lv2.wallets);
        assert(l@.records == lv2.records);
        assert(l@.minted == lv2.minted);
        assert(l@ == lv2);
    }
}

/// Transition of `update_student_intro`: the stored name is kept, the
/// message is replaced, and the new serialized size must stay under the
/// cap.
pub open spec fn spec_update_student_intro(
    cfg: ConfigV,
    lv: LedgerView,
    caller: Seq<u8>,
    info_addr: Seq<u8>,
    name: Seq<u8>,
    msg: Seq<u8>,
) -> (LedgerView, Result<(), LedgerError>) {
    match record_of(lv, info_addr) {
        None => (lv, Err(LedgerError::UninitializedRecord)),
        Some(e) => if e.kind != RecordKind::Info {
            (lv, Err(LedgerError::UninitializedRecord))
        } else {
            match spec_parse_info(e.data) {
                None => (lv, Err(LedgerError::UninitializedRecord)),
                Some(v0) => if e.owner != cfg.program_id {
                    (lv, Err(LedgerError::IllegalOwner))
                } else {
                    match info_pda(cfg, caller) {
                        None => (lv, Err(LedgerError::DerivationExhausted)),
                        Some((pda, bump)) => if info_addr != pda {
                            (lv, Err(LedgerError::InvalidDerivedAddress))
                        } else if 17 + v0.name.len() + msg.len() > INFO_ACCOUNT_LEN {
                            (lv, Err(LedgerError::SizeLimitExceeded))
                        } else {
                            (
                                LedgerView {
                                    records: lv.records.insert(
                                        info_addr,
                                        (EntryV {
                                            data: spec_ser_info(
                                                (StudentInfoV {
                                                    discriminator: v0.discriminator,
                                                    is_initialized: true,
                                                    name: v0.name,
                                                    msg,
                                                }),
                                            ),
                                            ..e
                                        }),
                                    ),
                                    ..lv
                                },
                                Ok(()),
                            )
                        },
                    }
                },
            }
        },
    }
}

/// Replace the message of the caller's info record; the stored name is
/// kept.  The record must exist, be controlled by the engine, and sit
/// at the address derived from the caller.
pub fn update_student_intro(
    cfg: &Config,
    l: &mut Ledger,
    caller: &Vec<u8>,
    info_addr: &Vec<u8>,
    name: &Vec<u8>,
    msg: &Vec<u8>,
) -> (r: Result<(), LedgerError>)
    requires
        cfg@.wf(),
        old(l).wf(),
        is_addr(caller@),
    ensures
        final(l).wf(),
        ({
            let (lv2, rr) = spec_update_student_intro(
                cfg@, old(l)@, caller@, info_addr@, name@, msg@);
            final(l)@ == lv2 && r == rr
        }),
{
    let (v0, e_owner_ok) = match l.read_record(info_addr) {
        None => {
            return Err(LedgerError::UninitializedRecord);
        },
        Some(e) => {
            if !matches!(e.kind, RecordKind::Info) {
                return Err(LedgerError::UninitializedRecord);
            }
            match parse_info(&e.data) {
                None => {
                    return Err(LedgerError::UninitializedRecord);
                },
                Some(v0) => (v0, bytes_eq(&e.owner, &cfg.program_id)),
            }
        },
    };
    if !e_owner_ok {
        return Err(LedgerError::IllegalOwner);
    }
    let info_seed_list = seeds1(caller);
    proof {
        assert(crate::addr::views_of(info_seed_list@) =~= info_seeds(caller@));
    }
    let pda = match crate::addr::derive(&info_seed_list, &cfg.program_id) {
        Ok((p, _b)) => p,
        Err(e) => {
            return Err(e);
        },
    };
    if !bytes_eq(info_addr, &pda) {
        return Err(LedgerError::InvalidDerivedAddress);
    }
    if msg.len() >= 984 {
        return Err(LedgerError::SizeLimitExceeded);
    }
    if 17 + v0.name.len() + msg.len() > 1000 {
        return Err(LedgerError::SizeLimitExceeded);
    }
    let new_rec = StudentInfo {
        discriminator: v0.discriminator,
        is_initialized: true,
        name: v0.name,
        msg: copy_bytes(msg),
    };
    proof {
        lemma_info_round_trip(new_rec@, Seq::<u8>::empty());
        assert(spec_ser_info(new_rec@) + Seq::<u8>::empty() =~= spec_ser_info(new_rec@));
        lemma_info_serialized_size(new_rec@);
    }
    let data = ser_info(&new_rec);
    l.write_record(info_addr, data);
    Ok(())
}

/// The reply record created for a given text, reply address and
/// author.
pub open spec fn reply_record(text: Seq<u8>, rpda: Seq<u8>, caller: Seq<u8>) -> StudentIntroReplyV {
    StudentIntroReplyV {
        discriminator: reply_disc(),
        is_initialized: true,
        reply_message: text,
        reply: rpda,
        replier: caller,
    }
}

/// The ledger after a successful `add_reply`.
pub open spec fn spec_add_reply_apply(
    cfg: ConfigV,
    lv: LedgerView,
    a: IntroAccountsV,
    text: Seq<u8>,
    rpda: Seq<u8>,
    cpda: Seq<u8>,
    ce: EntryV,
    c0: StudentReplyCounterV,
) -> LedgerView {
    LedgerView {
        records: lv.records.insert(
            rpda,
            (EntryV {
                addr: rpda,
                kind: RecordKind::Reply,
                data: spec_ser_reply(reply_record(text, rpda, a.caller)),
                size: (78 + text.len()) as u64,
                balance: spec_min_balance((78 + text.len()) as u64) as u64,
                owner: cfg.program_id,
            }),
        ).insert(
            cpda,
            (EntryV {
                data: spec_ser_counter(
                    (StudentReplyCounterV {
                        discriminator: c0.discriminator,
                        is_initialized: true,
                        counter: (c0.counter + 1) as u64,
                    }),
                ),
                ..ce
            }),
        ),
        wallets: lv.wallets.insert(
            a.caller,
            (wallet_of(lv, a.caller) - spec_min_balance((78 + text.len()) as u64)) as u64,
        ),
        minted: if cfg.bridge is Some {
            lv.minted.insert(
                ata_of(a.caller, a.token_mint),
                (minted_of(lv, ata_of(a.caller, a.token_mint)) + REPLY_MINT_AMOUNT) as u64,
            )
        } else {
            lv.minted
        },
        ..lv
    }
}

/// Transition of `add_reply`: a reply record is created at the address
/// derived from the info record's address and the counter's current
/// value, the counter advances by one, and the reply reward is minted
/// through the bridge when one is configured.
pub open spec fn spec_add_reply(
    cfg: ConfigV,
    lv: LedgerView,
    a: IntroAccountsV,
    text: Seq<u8>,
) -> (LedgerView, Result<(), LedgerError>) {
    match counter_pda(cfg, a.info) {
        None => (lv, Err(LedgerError::DerivationExhausted)),
        Some((cpda, c_bump)) => if a.counter != cpda {
            (lv, Err(LedgerError::InvalidDerivedAddress))
        } else {
            match record_of(lv, cpda) {
                None => (lv, Err(LedgerError::UninitializedRecord)),
                Some(ce) => if ce.kind != RecordKind::Counter {
                    (lv, Err(LedgerError::UninitializedRecord))
                } else {
                    match spec_parse_counter(ce.data) {
                        None => (lv, Err(LedgerError::UninitializedRecord)),
                        Some(c0) => match spec_bridge_check(cfg, a) {
                            Some(e) => (lv, Err(e)),
                            None => match reply_pda(cfg, a.info, c0.counter) {
                                None => (lv, Err(LedgerError::DerivationExhausted)),
                                Some((rpda, r_bump)) => if a.reply != rpda {
                                    (lv, Err(LedgerError::InvalidDerivedAddress))
                                } else if 78 + text.len() > MAX_RECORD_SIZE {
                                    (lv, Err(LedgerError::SizeLimitExceeded))
                                } else if lv.records.contains_key(rpda) {
                                    (lv, Err(LedgerError::AlreadyInitialized))
                                } else if wallet_of(lv, a.caller)
                                    < spec_min_balance((78 + text.len()) as u64) {
                                    (lv, Err(LedgerError::ExternalCallFailed))
                                } else if c0.counter == u64::MAX {
                                    (lv, Err(LedgerError::ExternalCallFailed))
                                } else if cfg.bridge is Some
                                    && minted_of(lv, ata_of(a.caller, a.token_mint))
                                        + REPLY_MINT_AMOUNT > u64::MAX {
                                    (lv, Err(LedgerError::ExternalCallFailed))
                                } else {
                                    (spec_add_reply_apply(cfg, lv, a, text, rpda, cpda, ce, c0),
                                        Ok(()))
                                },
                            },
                        },
                    }
                },
            }
        },
    }
}

/// Add a reply to an info record.  The reply's address is derived from
/// the info record's address and the counter value at creation, so
/// consecutive replies live at distinct derived addresses while the
/// counter keeps advancing.
#[verifier::spinoff_prover]
#[verifier::rlimit(100)]
pub fn add_reply(
    cfg: &Config,
    l: &mut Ledger,
    accounts: &IntroAccounts,
    text: &Vec<u8>,
) -> (r: Result<(), LedgerError>)
    requires
        cfg@.wf(),
        old(l).wf(),
        is_addr(accounts.caller@),
    ensures
        final(l).wf(),
        ({
            let (lv2, rr) = spec_add_reply(cfg@, old(l)@, accounts@, text@);
            final(l)@ == lv2 && r == rr
        }),
{
    let counter_seed_list = seeds2(&accounts.info, &reply_discriminator());
    proof {
        assert(crate::addr::views_of(counter_seed_list@) =~= counter_seeds(accounts.info@));
    }
    let cpda = match crate::addr::derive(&counter_seed_list, &cfg.program_id) {
        Ok((p, _b)) => p,
        Err(e) => {
            return Err(e);
        },
    };
    if !bytes_eq(&accounts.counter, &cpda) {
        return Err(LedgerError::InvalidDerivedAddress);
    }
    let (c0, counter_size) = match l.read_record(&cpda) {
        None => {
            return Err(LedgerError::UninitializedRecord);
        },
        Some(ce) => {
            if !matches!(ce.kind, RecordKind::Counter) {
                return Err(LedgerError::UninitializedRecord);
            }
            match parse_counter(&ce.data) {
                None => {
                    return Err(LedgerError::UninitializedRecord);
                },
                Some(c0) => (c0, ce.size),
            }
        },
    };
    let (minting, recipient) = match check_bridge(cfg, accounts) {
        Ok(Some(ata)) => (true, ata),
        Ok(None) => (false, Vec::new()),
        Err(e) => {
            return Err(e);
        },
    };
    let count_bytes = u64_be_bytes(c0.counter);
    let reply_seed_list = seeds2(&accounts.info, &count_bytes);
    proof {
        assert(crate::addr::views_of(reply_seed_list@)
            =~= reply_seeds(accounts.info@, c0.counter));
    }
    let rpda = match crate::addr::derive(&reply_seed_list, &cfg.program_id) {
        Ok((p, _b)) => p,
        Err(e) => {
            return Err(e);
        },
    };
    if !bytes_eq(&accounts.reply, &rpda) {
        return Err(LedgerError::InvalidDerivedAddress);
    }
    if text.len() > (MAX_RECORD_SIZE - 78) as usize {
        return Err(LedgerError::SizeLimitExceeded);
    }
    if l.has_record(&rpda) {
        return Err(LedgerError::AlreadyInitialized);
    }
    let reply_size = StudentIntroReply::get_account_size(text) as u64;
    let cost = crate::ledger::min_balance(reply_size);
    if l.wallet_balance(&accounts.caller) < cost {
        return Err(LedgerError::ExternalCallFailed);
    }
    if c0.counter == u64::MAX {
        return Err(LedgerError::ExternalCallFailed);
    }
    if minting {
        let already = l.minted_balance(&recipient);
        if REPLY_MINT_AMOUNT > u64::MAX - already {
            return Err(LedgerError::ExternalCallFailed);
        }
    }
    let reply_rec = StudentIntroReply {
        discriminator: reply_discriminator(),
        is_initialized: true,
        reply_message: copy_bytes(text),
        reply: copy_bytes(&rpda),
        replier: copy_bytes(&accounts.caller),
    };
    proof {
        lemma_reply_round_trip(reply_rec@, Seq::<u8>::empty());
        assert(spec_ser_reply(reply_rec@) + Seq::<u8>::empty() =~= spec_ser_reply(reply_rec@));
        lemma_reply_serialized_size(reply_rec@);
    }
    let reply_data = ser_reply(&reply_rec);
    l.create_record(
        &rpda,
        RecordKind::Reply,
        reply_size,
        reply_data,
        &accounts.caller,
        &cfg.program_id,
    );
    let new_counter = StudentReplyCounter {
        discriminator: c0.discriminator,
        is_initialized: true,
        counter: c0.counter + 1,
    };
    proof {
        lemma_counter_round_trip(new_counter@, Seq::<u8>::empty());
        assert(spec_ser_counter(new_counter@) + Seq::<u8>::empty()
            =~= spec_ser_counter(new_counter@));
        lemma_counter_serialized_size(new_counter@);
    }
    let counter_data = ser_counter(&new_counter);
    l.write_record(&cpda, counter_data);
    if minting {
        l.mint_credit(&recipient, REPLY_MINT_AMOUNT);
    }
    proof {
        let (lv2, rr) = spec_add_reply(cfg@, old(l)@, accounts@, text@);
        assert(l@.records == lv2.records);
        assert(l@.wallets == lv2.wallets);
        assert(l@.minted == lv2.minted);
        assert(l@ == lv2);
    }
    Ok(())
}

/// Transition of `initialize_token_mint`: the token-mint record is
/// created at its derived address, owned by the configured token
/// service.
pub open spec fn spec_initialize_token_mint(
    cfg: ConfigV,
    tp: Seq<u8>,
    lv: LedgerView,
    a: IntroAccountsV,
) -> (LedgerView, Result<(), LedgerError>) {
    match mint_pda(cfg) {
        None => (lv, Err(LedgerError::DerivationExhausted)),
        Some((mpda, m_bump)) => if a.token_mint != mpda {
            (lv, Err(LedgerError::InvalidDerivedAddress))
        } else if a.token_program != tp {
            (lv, Err(LedgerError::InvalidDerivedAddress))
        } else {
            match auth_pda(cfg) {
                None => (lv, Err(LedgerError::DerivationExhausted)),
                Some((apda, a_bump)) => if a.mint_auth != apda {
                    (lv, Err(LedgerError::InvalidDerivedAddress))
                } else if lv.records.contains_key(mpda) {
                    (lv, Err(LedgerError::AlreadyInitialized))
                } else if wallet_of(lv, a.caller) < spec_min_balance(MINT_ACCOUNT_LEN) {
                    (lv, Err(LedgerError::ExternalCallFailed))
                } else {
                    (
                        LedgerView {
                            records: lv.records.insert(
                                mpda,
                                (EntryV {
                                    addr: mpda,
                                    kind: RecordKind::Mint,
                                    data: Seq::new(MINT_ACCOUNT_LEN as nat, |i: int| 0u8),
                                    size: MINT_ACCOUNT_LEN,
                                    balance: spec_min_balance(MINT_ACCOUNT_LEN) as u64,
                                    owner: tp,
                                }),
                            ),
                            wallets: lv.wallets.insert(
                                a.caller,
                                (wallet_of(lv, a.caller)
                                    - spec_min_balance(MINT_ACCOUNT_LEN)) as u64,
                            ),
                            ..lv
                        },
                        Ok(()),
                    )
                },
            }
        },
    }
}

/// Create the token-mint record of the bridge at its derived address,
/// owned by the external token service.  Requires a configuration with
/// the bridge present.
pub fn initialize_token_mint(
    cfg: &Config,
    l: &mut Ledger,
    accounts: &IntroAccounts,
) -> (r: Result<(), LedgerError>)
    requires
        cfg@.wf(),
        cfg@.bridge is Some,
        old(l).wf(),
        is_addr(accounts.caller@),
    ensures
        final(l).wf(),
        ({
            let (lv2, rr) = spec_initialize_token_mint(
                cfg@, cfg@.bridge->0, old(l)@, accounts@);
            final(l)@ == lv2 && r == rr
        }),
{
    let mint_seed_list = seeds1(&mint_seed_bytes());
    proof {
        assert(crate::addr::views_of(mint_seed_list@) =~= seq![mint_seed()]);
    }
    let mpda = match crate::addr::derive(&mint_seed_list, &cfg.program_id) {
        Ok((p, _b)) => p,
        Err(e) => {
            return Err(e);
        },
    };
    if !bytes_eq(&accounts.token_mint, &mpda) {
        return Err(LedgerError::InvalidDerivedAddress);
    }
    let tp_ok = match &cfg.bridge {
        Some(b) => bytes_eq(&accounts.token_program, &b.token_program),
        None => false,
    };
    if !tp_ok {
        return Err(LedgerError::InvalidDerivedAddress);
    }
    let auth_seed_list = seeds1(&auth_seed_bytes());
    proof {
        assert(crate::addr::views_of(auth_seed_list@) =~= seq![auth_seed()]);
    }
    let apda = match crate::addr::derive(&auth_seed_list, &cfg.program_id) {
        Ok((p, _b)) => p,
        Err(e) => {
            return Err(e);
        },
    };
    if !bytes_eq(&accounts.mint_auth, &apda) {
        return Err(LedgerError::InvalidDerivedAddress);
    }
    if l.has_record(&mpda) {
        return Err(LedgerError::AlreadyInitialized);
    }
    let cost = crate::ledger::min_balance(MINT_ACCOUNT_LEN);
    if l.wallet_balance(&accounts.caller) < cost {
        return Err(LedgerError::ExternalCallFailed);
    }
    let mut zero_data: Vec<u8> = Vec::new();
    let mut i: usize = 0;
    while i < 82
        invariant
            i <= 82,
            zero_data@ == Seq::new(i as nat, |k: int| 0u8),
        decreases 82 - i,
    {
        zero_data.push(0);
        i = i + 1;
        assert(zero_data@ =~= Seq::new(i as nat, |k: int| 0u8));
    }
    let owner = match &cfg.bridge {
        Some(b) => copy_bytes(&b.token_program),
        None => Vec::new(),
    };
    l.create_record(&mpda, RecordKind::Mint, MINT_ACCOUNT_LEN, zero_data, &accounts.caller, &owner);
    Ok(())
}

} // verus!
