//! The dispatch layer: decode an opaque instruction tag and payload
//! into one of the engine's operations and route it.
//!
//! The wire format is a single tag byte followed by a tag-specific
//! payload; texts travel as length-prefixed byte strings.  This layer
//! performs structural decoding only; every domain check lives in the
//! operations themselves.

use vstd::prelude::*;

use crate::addr::is_addr;
use crate::bridge::{Config, ConfigV};
use crate::error::LedgerError;
use crate::intro::{
    spec_add_reply, spec_add_student_intro, spec_update_student_intro, IntroAccounts,
    IntroAccountsV,
};
use crate::ledger::{copy_bytes, Ledger, LedgerView};
use crate::stake::{spec_initialize_stake_record, spec_redeem, spec_stake, spec_unstake};
use crate::codec::{parse_bytes, spec_parse_bytes};

verus! {

/// A decoded instruction.
#[derive(Debug)]
pub enum Instruction {
    InitializeStake,
    Stake,
    Redeem,
    Unstake,
    InitInfo { name: Vec<u8>, msg: Vec<u8> },
    UpdateInfo { name: Vec<u8>, msg: Vec<u8> },
    AddReply { text: Vec<u8> },
}

pub enum InstructionV {
    InitializeStake,
    Stake,
    Redeem,
    Unstake,
    InitInfo { name: Seq<u8>, msg: Seq<u8> },
    UpdateInfo { name: Seq<u8>, msg: Seq<u8> },
    AddReply { text: Seq<u8> },
}

impl View for Instruction {
    type V = InstructionV;

    open spec fn view(&self) -> InstructionV {
        match self {
            Instruction::InitializeStake => InstructionV::InitializeStake,
            Instruction::Stake => InstructionV::Stake,
            Instruction::Redeem => InstructionV::Redeem,
            Instruction::Unstake => InstructionV::Unstake,
            Instruction::InitInfo { name, msg } => (InstructionV::InitInfo {
                name: name@,
                msg: msg@,
            }),
            Instruction::UpdateInfo { name, msg } => (InstructionV::UpdateInfo {
                name: name@,
                msg: msg@,
            }),
            Instruction::AddReply { text } => (InstructionV::AddReply { text: text@ }),
        }
    }
}

/// Structural decoding of the wire format: one tag byte, then the
/// payload.  An empty buffer or a malformed payload is
/// `InvalidInstructionData`; a tag outside the instruction set is
/// `UnknownInstruction`.
pub open spec fn spec_unpack(data: Seq<u8>) -> Result<InstructionV, LedgerError> {
    if data.len() == 0 {
        Err(LedgerError::InvalidInstructionData)
    } else if data[0] == 0 {
        Ok(InstructionV::InitializeStake)
    } else if data[0] == 1 {
        Ok(InstructionV::Stake)
    } else if data[0] == 2 {
        Ok(InstructionV::Redeem)
    } else if data[0] == 3 {
        Ok(InstructionV::Unstake)
    } else if data[0] == 4 || data[0] == 5 {
        match spec_parse_bytes(data, 1) {
            None => Err(LedgerError::InvalidInstructionData),
            Some((name, a1)) => match spec_parse_bytes(data, a1) {
                None => Err(LedgerError::InvalidInstructionData),
                Some((msg, a2)) => if data[0] == 4 {
                    Ok(InstructionV::InitInfo { name, msg })
                } else {
                    Ok(InstructionV::UpdateInfo { name, msg })
                },
            },
        }
    } else if data[0] == 6 {
        match spec_parse_bytes(data, 1) {
            None => Err(LedgerError::InvalidInstructionData),
            Some((text, a1)) => Ok(InstructionV::AddReply { text }),
        }
    } else {
        Err(LedgerError::UnknownInstruction)
    }
}

/// Decode an instruction buffer.
pub fn unpack(data: &Vec<u8>) -> (r: Result<Instruction, LedgerError>)
    ensures
        match r {
            Ok(i) => spec_unpack(data@) == Ok::<InstructionV, LedgerError>(i@),
            Err(e) => spec_unpack(data@) == Err::<InstructionV, LedgerError>(e),
        },
{
    if data.len() == 0 {
        return Err(LedgerError::InvalidInstructionData);
    }
    let tag = data[0];
    if tag == 0 {
        Ok(Instruction::InitializeStake)
    } else if tag == 1 {
        Ok(Instruction::Stake)
    } else if tag == 2 {
        Ok(Instruction::Redeem)
    } else if tag == 3 {
        Ok(Instruction::Unstake)
    } else if tag == 4 || tag == 5 {
        let (name, a1) = match parse_bytes(data, 1) {
            None => {
                return Err(LedgerError::InvalidInstructionData);
            },
            Some(x) => x,
        };
        let (msg, _a2) = match parse_bytes(data, a1) {
            None => {
                return Err(LedgerError::InvalidInstructionData);
            },
            Some(x) => x,
        };
        if tag == 4 {
            Ok(Instruction::InitInfo { name, msg })
        } else {
            Ok(Instruction::UpdateInfo { name, msg })
        }
    } else if tag == 6 {
        match parse_bytes(data, 1) {
            None => Err(LedgerError::InvalidInstructionData),
            Some((text, _a1)) => Ok(Instruction::AddReply { text }),
        }
    } else {
        Err(LedgerError::UnknownInstruction)
    }
}

/// Every account an instruction may address, as handed in by the
/// caller; operations that do not use a field ignore it.
pub struct CallAccounts {
    pub caller: Vec<u8>,
    pub caller_is_signer: bool,
    pub item: Vec<u8>,
    pub record: Vec<u8>,
    pub counter: Vec<u8>,
    pub reply: Vec<u8>,
    pub token_mint: Vec<u8>,
    pub mint_auth: Vec<u8>,
    pub user_ata: Vec<u8>,
    pub token_program: Vec<u8>,
}

pub struct CallAccountsV {
    pub caller: Seq<u8>,
    pub caller_is_signer: bool,
    pub item: Seq<u8>,
    pub record: Seq<u8>,
    pub counter: Seq<u8>,
    pub reply: Seq<u8>,
    pub token_mint: Seq<u8>,
    pub mint_auth: Seq<u8>,
    pub user_ata: Seq<u8>,
    pub token_program: Seq<u8>,
}

impl View for CallAccounts {
    type V = CallAccountsV;

    open spec fn view(&self) -> CallAccountsV {
        CallAccountsV {
            caller: self.caller@,
            caller_is_signer: self.caller_is_signer,
            item: self.item@,
            record: self.record@,
            counter: self.counter@,
            reply: self.reply@,
            token_mint: self.token_mint@,
            mint_auth: self.mint_auth@,
            user_ata: self.user_ata@,
            token_program: self.token_program@,
        }
    }
}

/// The intro-operation view of a call's accounts: the addressed record
/// is the info record.
pub open spec fn intro_accounts_of(a: CallAccountsV) -> IntroAccountsV {
    IntroAccountsV {
        caller: a.caller,
        info: a.record,
        counter: a.counter,
        reply: a.reply,
        token_mint: a.token_mint,
        mint_auth: a.mint_auth,
        user_ata: a.user_ata,
        token_program: a.token_program,
    }
}

/// Transition of `process_instruction`: decode, then the routed
/// operation's transition.
pub open spec fn spec_process_instruction(
    cfg: ConfigV,
    lv: LedgerView,
    a: CallAccountsV,
    data: Seq<u8>,
) -> (LedgerView, Result<(), LedgerError>) {
    match spec_unpack(data) {
        Err(e) => (lv, Err(e)),
        Ok(i) => match i {
            InstructionV::InitializeStake => spec_initialize_stake_record(
                cfg, lv, a.caller, a.item, a.record),
            InstructionV::Stake => spec_stake(cfg, lv, a.caller, a.item, a.record),
            InstructionV::Redeem => spec_redeem(
                cfg, lv, a.caller, a.item, a.record, a.caller_is_signer),
            InstructionV::Unstake => spec_unstake(
                cfg, lv, a.caller, a.item, a.record, a.caller_is_signer),
            InstructionV::InitInfo { name, msg } => spec_add_student_intro(
                cfg, lv, intro_accounts_of(a), name, msg),
            InstructionV::UpdateInfo { name, msg } => spec_update_student_intro(
                cfg, lv, a.caller, a.record, name, msg),
            InstructionV::AddReply { text } => spec_add_reply(
                cfg, lv, intro_accounts_of(a), text),
        },
    }
}

fn intro_accounts(a: &CallAccounts) -> (r: IntroAccounts)
    ensures
        r@ == intro_accounts_of(a@),
{
    IntroAccounts {
        caller: copy_bytes(&a.caller),
        info: copy_bytes(&a.record),
        counter: copy_bytes(&a.counter),
        reply: copy_bytes(&a.reply),
        token_mint: copy_bytes(&a.token_mint),
        mint_auth: copy_bytes(&a.mint_auth),
        user_ata: copy_bytes(&a.user_ata),
        token_program: copy_bytes(&a.token_program),
    }
}

/// Decode an instruction and route it to the operation it names.
pub fn process_instruction(
    cfg: &Config,
    l: &mut Ledger,
    accounts: &CallAccounts,
    data: &Vec<u8>,
) -> (r: Result<(), LedgerError>)
    requires
        cfg@.wf(),
        old(l).wf(),
        is_addr(accounts.caller@),
        is_addr(accounts.item@),
    ensures
        final(l).wf(),
        ({
            let (lv2, rr) = spec_process_instruction(cfg@, old(l)@, accounts@, data@);
            final(l)@ == lv2 && r == rr
        }),
{
    let instruction = match unpack(data) {
        Err(e) => {
            return Err(e);
        },
        Ok(i) => i,
    };
    match instruction {
        Instruction::InitializeStake => crate::stake::initialize_stake_record(
            cfg, l, &accounts.caller, &accounts.item, &accounts.record),
        Instruction::Stake => crate::stake::stake(
            cfg, l, &accounts.caller, &accounts.item, &accounts.record),
        Instruction::Redeem => crate::stake::redeem(
            cfg, l, &accounts.caller, &accounts.item, &accounts.record,
            accounts.caller_is_signer),
        Instruction::Unstake => crate::stake::unstake(
            cfg, l, &accounts.caller, &accounts.item, &accounts.record,
            accounts.caller_is_signer),
        Instruction::InitInfo { name, msg } => {
            let ia = intro_accounts(accounts);
            crate::intro::add_student_intro(cfg, l, &ia, &name, &msg)
        },
        Instruction::UpdateInfo { name, msg } => crate::intro::update_student_intro(
            cfg, l, &accounts.caller, &accounts.record, &name, &msg),
        Instruction::AddReply { text } => {
            let ia = intro_accounts(accounts);
            crate::intro::add_reply(cfg, l, &ia, &text)
        },
    }
}

} // verus!
