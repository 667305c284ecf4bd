//! Versioned, size-computable record layouts: the stake record, the
//! intro (info) record, the reply-counter record and the reply record.
//!
//! Each record has a mathematical view, an exact serialized layout built
//! from the primitives in [`crate::codec`], and a parser that reads the
//! layout back.  The round-trip lemmas show that a parse of a serialized
//! record recovers the record exactly, so any later operation can re-read
//! what an earlier one wrote.

use vstd::prelude::*;

use crate::codec::{
    lemma_parse_ser_bool, lemma_parse_ser_bytes, lemma_parse_ser_id, lemma_parse_ser_u64,
    parse_bool, parse_bytes, parse_id, parse_u64, ser_bool, ser_bytes, ser_id, ser_u64_le,
    spec_bool, spec_bytes, spec_parse_bool, spec_parse_bytes, spec_parse_id, spec_parse_u64,
    spec_u64_le,
};

verus! {

/// Discriminator text of an info record: the bytes of `"info"`.
pub open spec fn info_disc() -> Seq<u8> {
    seq![105u8, 110u8, 102u8, 111u8]
}

/// Discriminator text of a reply record: the bytes of `"reply"`.
pub open spec fn reply_disc() -> Seq<u8> {
    seq![114u8, 101u8, 112u8, 108u8, 121u8]
}

/// Discriminator text of a reply-counter record: the bytes of `"counter"`.
pub open spec fn counter_disc() -> Seq<u8> {
    seq![99u8, 111u8, 117u8, 110u8, 116u8, 101u8, 114u8]
}

pub fn info_discriminator() -> (r: Vec<u8>)
    ensures
        r@ == info_disc(),
{
    let mut v: Vec<u8> = Vec::new();
    v.push(105);
    v.push(110);
    v.push(102);
    v.push(111);
    assert(v@ =~= info_disc());
    v
}

pub fn reply_discriminator() -> (r: Vec<u8>)
    ensures
        r@ == reply_disc(),
{
    let mut v: Vec<u8> = Vec::new();
    v.push(114);
    v.push(101);
    v.push(112);
    v.push(108);
    v.push(121);
    assert(v@ =~= reply_disc());
    v
}

pub fn counter_discriminator() -> (r: Vec<u8>)
    ensures
        r@ == counter_disc(),
{
    let mut v: Vec<u8> = Vec::new();
    v.push(99);
    v.push(111);
    v.push(117);
    v.push(110);
    v.push(116);
    v.push(101);
    v.push(114);
    assert(v@ =~= counter_disc());
    v
}

/// Lifecycle status of a stake record.
#[derive(Clone, Copy, PartialEq, Eq, Structural, Debug)]
pub enum StakeStatus {
    Unstaked,
    Staked,
}

/// One stake record per (owner, staked item) pair.
pub struct StakeRecord {
    pub is_initialized: bool,
    pub owner: Vec<u8>,
    pub item: Vec<u8>,
    pub status: StakeStatus,
    pub staked_at: u64,
    pub last_redeemed_at: u64,
}

pub struct StakeRecordV {
    pub is_initialized: bool,
    pub owner: Seq<u8>,
    pub item: Seq<u8>,
    pub status: StakeStatus,
    pub staked_at: u64,
    pub last_redeemed_at: u64,
}

impl View for StakeRecord {
    type V = StakeRecordV;

    open spec fn view(&self) -> StakeRecordV {
        StakeRecordV {
            is_initialized: self.is_initialized,
            owner: self.owner@,
            item: self.item@,
            status: self.status,
            staked_at: self.staked_at,
            last_redeemed_at: self.last_redeemed_at,
        }
    }
}

impl StakeRecordV {
    /// The identifiers a stake record carries are 32-byte addresses.
    pub open spec fn wf(self) -> bool {
        self.owner.len() == 32 && self.item.len() == 32
    }
}

/// Serialized size of a stake record: flag, two 32-byte identifiers,
/// status byte and two 8-byte timestamps.
pub const STAKE_RECORD_SIZE: usize = 82;

/// One info record per owner, with bounded-length text fields.
pub struct StudentInfo {
    pub discriminator: Vec<u8>,
    pub is_initialized: bool,
    pub name: Vec<u8>,
    pub msg: Vec<u8>,
}

pub struct StudentInfoV {
    pub discriminator: Seq<u8>,
    pub is_initialized: bool,
    pub name: Seq<u8>,
    pub msg: Seq<u8>,
}

impl View for StudentInfo {
    type V = StudentInfoV;

    open spec fn view(&self) -> StudentInfoV {
        StudentInfoV {
            discriminator: self.discriminator@,
            is_initialized: self.is_initialized,
            name: self.name@,
            msg: self.msg@,
        }
    }
}

impl StudentInfoV {
    pub open spec fn wf(self) -> bool {
        self.discriminator.len() <= u32::MAX
            && self.name.len() <= u32::MAX
            && self.msg.len() <= u32::MAX
    }
}

/// One reply-counter record per info record.
pub struct StudentReplyCounter {
    pub discriminator: Vec<u8>,
    pub is_initialized: bool,
    pub counter: u64,
}

pub struct StudentReplyCounterV {
    pub discriminator: Seq<u8>,
    pub is_initialized: bool,
    pub counter: u64,
}

impl View for StudentReplyCounter {
    type V = StudentReplyCounterV;

    open spec fn view(&self) -> StudentReplyCounterV {
        StudentReplyCounterV {
            discriminator: self.discriminator@,
            is_initialized: self.is_initialized,
            counter: self.counter,
        }
    }
}

impl StudentReplyCounterV {
    pub open spec fn wf(self) -> bool {
        self.discriminator.len() <= u32::MAX
    }
}

/// Serialized size of a reply-counter record with its `"counter"`
/// discriminator: length prefix and text, flag, and the count.
pub const COUNTER_RECORD_SIZE: usize = 20;

/// One reply record per reply, tied to its author and its own address.
pub struct StudentIntroReply {
    pub discriminator: Vec<u8>,
    pub is_initialized: bool,
    pub reply_message: Vec<u8>,
    pub reply: Vec<u8>,
    pub replier: Vec<u8>,
}

pub struct StudentIntroReplyV {
    pub discriminator: Seq<u8>,
    pub is_initialized: bool,
    pub reply_message: Seq<u8>,
    pub reply: Seq<u8>,
    pub replier: Seq<u8>,
}

impl View for StudentIntroReply {
    type V = StudentIntroReplyV;

    open spec fn view(&self) -> StudentIntroReplyV {
        StudentIntroReplyV {
            discriminator: self.discriminator@,
            is_initialized: self.is_initialized,
            reply_message: self.reply_message@,
            reply: self.reply@,
            replier: self.replier@,
        }
    }
}

impl StudentIntroReplyV {
    pub open spec fn wf(self) -> bool {
        self.discriminator.len() <= u32::MAX
            && self.reply_message.len() <= u32::MAX
            && self.reply.len() == 32
            && self.replier.len() == 32
    }
}

/// Status byte: 0 for `Unstaked`, 1 for `Staked`.
pub open spec fn spec_status(st: StakeStatus) -> Seq<u8> {
    seq![if st is Staked { 1u8 } else { 0u8 }]
}

pub open spec fn spec_parse_status(s: Seq<u8>, at: int) -> Option<(StakeStatus, int)> {
    if at + 1 <= s.len() && 0 <= at {
        if s[at] == 0 {
            Some((StakeStatus::Unstaked, at + 1))
        } else if s[at] == 1 {
            Some((StakeStatus::Staked, at + 1))
        } else {
            None
        }
    } else {
        None
    }
}

pub open spec fn spec_ser_stake(v: StakeRecordV) -> Seq<u8> {
    spec_bool(v.is_initialized) + v.owner + v.item + spec_status(v.status)
        + spec_u64_le(v.staked_at) + spec_u64_le(v.last_redeemed_at)
}

pub open spec fn spec_ser_info(v: StudentInfoV) -> Seq<u8> {
    spec_bytes(v.discriminator) + spec_bool(v.is_initialized) + spec_bytes(v.name)
        + spec_bytes(v.msg)
}

pub open spec fn spec_ser_counter(v: StudentReplyCounterV) -> Seq<u8> {
    spec_bytes(v.discriminator) + spec_bool(v.is_initialized) + spec_u64_le(v.counter)
}

pub open spec fn spec_ser_reply(v: StudentIntroReplyV) -> Seq<u8> {
    spec_bytes(v.discriminator) + spec_bool(v.is_initialized) + spec_bytes(v.reply_message)
        + v.reply + v.replier
}

/// Parse a stake record from the front of `s`; trailing bytes (zero
/// padding of a fixed-size allocation) are ignored.
pub open spec fn spec_parse_stake(s: Seq<u8>) -> Option<StakeRecordV> {
    match spec_parse_bool(s, 0) {
        None => None,
        Some((is_initialized, a1)) => match spec_parse_id(s, a1) {
            None => None,
            Some((owner, a2)) => match spec_parse_id(s, a2) {
                None => None,
                Some((item, a3)) => match spec_parse_status(s, a3) {
                    None => None,
                    Some((status, a4)) => match spec_parse_u64(s, a4) {
                        None => None,
                        Some((staked_at, a5)) => match spec_parse_u64(s, a5) {
                            None => None,
                            Some((last_redeemed_at, _)) => Some(StakeRecordV {
                                is_initialized,
                                owner,
                                item,
                                status,
                                staked_at,
                                last_redeemed_at,
                            }),
                        },
                    },
                },
            },
        },
    }
}

pub open spec fn spec_parse_info(s: Seq<u8>) -> Option<StudentInfoV> {
    match spec_parse_bytes(s, 0) {
        None => None,
        Some((discriminator, a1)) => match spec_parse_bool(s, a1) {
            None => None,
            Some((is_initialized, a2)) => match spec_parse_bytes(s, a2) {
                None => None,
                Some((name, a3)) => match spec_parse_bytes(s, a3) {
                    None => None,
                    Some((msg, _)) => Some(StudentInfoV {
                        discriminator,
                        is_initialized,
                        name,
                        msg,
                    }),
                },
            },
        },
    }
}

pub open spec fn spec_parse_counter(s: Seq<u8>) -> Option<StudentReplyCounterV> {
    match spec_parse_bytes(s, 0) {
        None => None,
        Some((discriminator, a1)) => match spec_parse_bool(s, a1) {
            None => None,
            Some((is_initialized, a2)) => match spec_parse_u64(s, a2) {
                None => None,
                Some((counter, _)) => Some(StudentReplyCounterV {
                    discriminator,
                    is_initialized,
                    counter,
                }),
            },
        },
    }
}

pub open spec fn spec_parse_reply(s: Seq<u8>) -> Option<StudentIntroReplyV> {
    match spec_parse_bytes(s, 0) {
        None => None,
        Some((discriminator, a1)) => match spec_parse_bool(s, a1) {
            None => None,
            Some((is_initialized, a2)) => match spec_parse_bytes(s, a2) {
                None => None,
                Some((reply_message, a3)) => match spec_parse_id(s, a3) {
                    None => None,
                    Some((reply, a4)) => match spec_parse_id(s, a4) {
                        None => None,
                        Some((replier, _)) => Some(StudentIntroReplyV {
                            discriminator,
                            is_initialized,
                            reply_message,
                            reply,
                            replier,
                        }),
                    },
                },
            },
        },
    }
}

pub fn ser_status(out: &mut Vec<u8>, st: StakeStatus)
    ensures
        final(out)@ == old(out)@ + spec_status(st),
{
    let ghost out0 = out@;
    out.push(if matches!(st, StakeStatus::Staked) { 1u8 } else { 0u8 });
    assert(out@ =~= out0 + spec_status(st));
}

pub fn ser_stake(r: &StakeRecord) -> (out: Vec<u8>)
    requires
        r@.wf(),
    ensures
        out@ == spec_ser_stake(r@),
{
    let mut out: Vec<u8> = Vec::new();
    ser_bool(&mut out, r.is_initialized);
    ser_id(&mut out, &r.owner);
    ser_id(&mut out, &r.item);
    ser_status(&mut out, r.status);
    ser_u64_le(&mut out, r.staked_at);
    ser_u64_le(&mut out, r.last_redeemed_at);
    assert(out@ =~= spec_ser_stake(r@));
    out
}

pub fn ser_info(r: &StudentInfo) -> (out: Vec<u8>)
    requires
        r@.wf(),
    ensures
        out@ == spec_ser_info(r@),
{
    let mut out: Vec<u8> = Vec::new();
    ser_bytes(&mut out, &r.discriminator);
    ser_bool(&mut out, r.is_initialized);
    ser_bytes(&mut out, &r.name);
    ser_bytes(&mut out, &r.msg);
    assert(out@ =~= spec_ser_info(r@));
    out
}

pub fn ser_counter(r: &StudentReplyCounter) -> (out: Vec<u8>)
    requires
        r@.wf(),
    ensures
        out@ == spec_ser_counter(r@),
{
    let mut out: Vec<u8> = Vec::new();
    ser_bytes(&mut out, &r.discriminator);
    ser_bool(&mut out, r.is_initialized);
    ser_u64_le(&mut out, r.counter);
    assert(out@ =~= spec_ser_counter(r@));
    out
}

pub fn ser_reply(r: &StudentIntroReply) -> (out: Vec<u8>)
    requires
        r@.wf(),
    ensures
        out@ == spec_ser_reply(r@),
{
    let mut out: Vec<u8> = Vec::new();
    ser_bytes(&mut out, &r.discriminator);
    ser_bool(&mut out, r.is_initialized);
    ser_bytes(&mut out, &r.reply_message);
    ser_id(&mut out, &r.reply);
    ser_id(&mut out, &r.replier);
    assert(out@ =~= spec_ser_reply(r@));
    out
}

pub fn parse_status(s: &Vec<u8>, at: usize) -> (r: Option<(StakeStatus, usize)>)
    ensures
        match r {
            Some((st, at2)) => spec_parse_status(s@, at as int) == Some((st, at2 as int)),
            None => spec_parse_status(s@, at as int) is None,
        },
{
    if at < s.len() {
        if s[at] == 0 {
            Some((StakeStatus::Unstaked, at + 1))
        } else if s[at] == 1 {
            Some((StakeStatus::Staked, at + 1))
        } else {
            None
        }
    } else {
        None
    }
}

pub fn parse_stake(s: &Vec<u8>) -> (r: Option<StakeRecord>)
    ensures
        match r {
            Some(rec) => spec_parse_stake(s@) == Some(rec@),
            None => spec_parse_stake(s@) is None,
        },
{
    match parse_bool(s, 0) {
        None => None,
        Some((is_initialized, a1)) => match parse_id(s, a1) {
            None => None,
            Some((owner, a2)) => match parse_id(s, a2) {
                None => None,
                Some((item, a3)) => match parse_status(s, a3) {
                    None => None,
                    Some((status, a4)) => match parse_u64(s, a4) {
                        None => None,
                        Some((staked_at, a5)) => match parse_u64(s, a5) {
                            None => None,
                            Some((last_redeemed_at, _)) => Some(StakeRecord {
                                is_initialized,
                                owner,
                                item,
                                status,
                                staked_at,
                                last_redeemed_at,
                            }),
                        },
                    },
                },
            },
        },
    }
}

pub fn parse_info(s: &Vec<u8>) -> (r: Option<StudentInfo>)
    ensures
        match r {
            Some(rec) => spec_parse_info(s@) == Some(rec@),
            None => spec_parse_info(s@) is None,
        },
{
    match parse_bytes(s, 0) {
        None => None,
        Some((discriminator, a1)) => match parse_bool(s, a1) {
            None => None,
            Some((is_initialized, a2)) => match parse_bytes(s, a2) {
                None => None,
                Some((name, a3)) => match parse_bytes(s, a3) {
                    None => None,
                    Some((msg, _)) => Some(StudentInfo {
                        discriminator,
                        is_initialized,
                        name,
                        msg,
                    }),
                },
            },
        },
    }
}

pub fn parse_counter(s: &Vec<u8>) -> (r: Option<StudentReplyCounter>)
    ensures
        match r {
            Some(rec) => spec_parse_counter(s@) == Some(rec@),
            None => spec_parse_counter(s@) is None,
        },
{
    match parse_bytes(s, 0) {
        None => None,
        Some((discriminator, a1)) => match parse_bool(s, a1) {
            None => None,
            Some((is_initialized, a2)) => match parse_u64(s, a2) {
                None => None,
                Some((counter, _)) => Some(StudentReplyCounter {
                    discriminator,
                    is_initialized,
                    counter,
                }),
            },
        },
    }
}

pub fn parse_reply(s: &Vec<u8>) -> (r: Option<StudentIntroReply>)
    ensures
        match r {
            Some(rec) => spec_parse_reply(s@) == Some(rec@),
            None => spec_parse_reply(s@) is None,
        },
{
    match parse_bytes(s, 0) {
        None => None,
        Some((discriminator, a1)) => match parse_bool(s, a1) {
            None => None,
            Some((is_initialized, a2)) => match parse_bytes(s, a2) {
                None => None,
                Some((reply_message, a3)) => match parse_id(s, a3) {
                    None => None,
                    Some((reply, a4)) => match parse_id(s, a4) {
                        None => None,
                        Some((replier, _)) => Some(StudentIntroReply {
                            discriminator,
                            is_initialized,
                            reply_message,
                            reply,
                            replier,
                        }),
                    },
                },
            },
        },
    }
}

impl StudentInfo {
    /// Serialized size of an info record with the given text fields: the
    /// `"info"` discriminator with its length prefix, the flag byte, and
    /// both length-prefixed texts.
    pub fn get_account_size(name: &Vec<u8>, msg: &Vec<u8>) -> (r: usize)
        requires
            17 + name@.len() + msg@.len() <= usize::MAX,
        ensures
            r == 17 + name@.len() + msg@.len(),
    {
        (4 + 4) + 1 + (4 + name.len()) + (4 + msg.len())
    }
}

impl StudentIntroReply {
    /// Serialized size of a reply record with the given text: the
    /// `"reply"` discriminator with its length prefix, the flag byte, the
    /// length-prefixed text and two 32-byte identifiers.
    pub fn get_account_size(reply_message: &Vec<u8>) -> (r: usize)
        requires
            78 + reply_message@.len() <= usize::MAX,
        ensures
            r == 78 + reply_message@.len(),
    {
        (4 + 5) + 1 + (4 + reply_message.len()) + 32 + 32
    }
}

/// The size functions above agree with the serialized layouts.
pub proof fn lemma_info_serialized_size(v: StudentInfoV)
    requires
        v.wf(),
        v.discriminator == info_disc(),
    ensures
        spec_ser_info(v).len() == 17 + v.name.len() + v.msg.len(),
{
}

pub proof fn lemma_reply_serialized_size(v: StudentIntroReplyV)
    requires
        v.wf(),
        v.discriminator == reply_disc(),
    ensures
        spec_ser_reply(v).len() == 78 + v.reply_message.len(),
{
}

pub proof fn lemma_counter_serialized_size(v: StudentReplyCounterV)
    requires
        v.wf(),
        v.discriminator == counter_disc(),
    ensures
        spec_ser_counter(v).len() == COUNTER_RECORD_SIZE,
{
}

pub proof fn lemma_stake_serialized_size(v: StakeRecordV)
    requires
        v.wf(),
    ensures
        spec_ser_stake(v).len() == STAKE_RECORD_SIZE,
{
}

/// Round trip: parsing a serialized stake record, with any trailing
/// padding, recovers the record exactly.
#[verifier::spinoff_prover]
#[verifier::rlimit(100)]
pub proof fn lemma_stake_round_trip(v: StakeRecordV, rest: Seq<u8>)
    requires
        v.wf(),
    ensures
        spec_parse_stake(spec_ser_stake(v) + rest) == Some(v),
{
    let s = spec_ser_stake(v) + rest;
    let t1 = v.owner + v.item + spec_status(v.status) + spec_u64_le(v.staked_at)
        + spec_u64_le(v.last_redeemed_at) + rest;
    assert(s =~= Seq::<u8>::empty() + spec_bool(v.is_initialized) + t1);
    lemma_parse_ser_bool(Seq::<u8>::empty(), v.is_initialized, t1);
    let p1 = Seq::<u8>::empty() + spec_bool(v.is_initialized);
    let t2 = v.item + spec_status(v.status) + spec_u64_le(v.staked_at)
        + spec_u64_le(v.last_redeemed_at) + rest;
    assert(s =~= p1 + v.owner + t2);
    lemma_parse_ser_id(p1, v.owner, t2);
    let p2 = p1 + v.owner;
    let t3 = spec_status(v.status) + spec_u64_le(v.staked_at)
        + spec_u64_le(v.last_redeemed_at) + rest;
    assert(s =~= p2 + v.item + t3);
    lemma_parse_ser_id(p2, v.item, t3);
    let p3 = p2 + v.item;
    assert(spec_parse_status(s, p3.len() as int)
        == Some((v.status, p3.len() as int + 1))) by {
        assert(s[p3.len() as int] == spec_status(v.status)[0]);
    }
    let p4 = p3 + spec_status(v.status);
    let t5 = spec_u64_le(v.last_redeemed_at) + rest;
    assert(s =~= p4 + spec_u64_le(v.staked_at) + t5);
    lemma_parse_ser_u64(p4, v.staked_at, t5);
    let p5 = p4 + spec_u64_le(v.staked_at);
    assert(s =~= p5 + spec_u64_le(v.last_redeemed_at) + rest);
    lemma_parse_ser_u64(p5, v.last_redeemed_at, rest);
}

/// Shared first steps of every discriminated record layout: the
/// length-prefixed discriminator parses back, and the flag byte after it.
#[verifier::rlimit(100)]
proof fn lemma_parse_header_disc(d: Seq<u8>, init: bool, tail: Seq<u8>)
    requires
        d.len() <= u32::MAX,
    ensures
        spec_parse_bytes(spec_bytes(d) + spec_bool(init) + tail, 0)
            == Some((d, 4 + d.len() as int)),
{
    let s = spec_bytes(d) + spec_bool(init) + tail;
    let t1 = spec_bool(init) + tail;
    assert(s =~= Seq::<u8>::empty() + spec_bytes(d) + t1);
    lemma_parse_ser_bytes(Seq::<u8>::empty(), d, t1);
}

#[verifier::rlimit(100)]
proof fn lemma_parse_header(d: Seq<u8>, init: bool, tail: Seq<u8>)
    requires
        d.len() <= u32::MAX,
    ensures
        spec_parse_bytes(spec_bytes(d) + spec_bool(init) + tail, 0)
            == Some((d, 4 + d.len() as int)),
        spec_parse_bool(spec_bytes(d) + spec_bool(init) + tail, 4 + d.len() as int)
            == Some((init, 5 + d.len() as int)),
{
    lemma_parse_header_disc(d, init, tail);
    lemma_parse_ser_bool(spec_bytes(d), init, tail);
}

#[verifier::spinoff_prover]
#[verifier::rlimit(100)]
pub proof fn lemma_info_round_trip(v: StudentInfoV, rest: Seq<u8>)
    requires
        v.wf(),
    ensures
        spec_parse_info(spec_ser_info(v) + rest) == Some(v),
{
    let d = v.discriminator;
    let s = spec_ser_info(v) + rest;
    lemma_parse_header(d, v.is_initialized, spec_bytes(v.name) + (spec_bytes(v.msg) + rest));
    assert(spec_bytes(d) + spec_bool(v.is_initialized)
        + (spec_bytes(v.name) + (spec_bytes(v.msg) + rest)) =~= s);
    let p2 = spec_bytes(d) + spec_bool(v.is_initialized);
    assert(p2.len() == 5 + d.len());
    lemma_parse_ser_bytes(p2, v.name, spec_bytes(v.msg) + rest);
    assert(p2 + spec_bytes(v.name) + (spec_bytes(v.msg) + rest) =~= s);
    let p3 = p2 + spec_bytes(v.name);
    assert(p3.len() == 9 + d.len() + v.name.len());
    lemma_parse_ser_bytes(p3, v.msg, rest);
    assert(p3 + spec_bytes(v.msg) + rest =~= s);
}

#[verifier::spinoff_prover]
#[verifier::rlimit(100)]
pub proof fn lemma_counter_round_trip(v: StudentReplyCounterV, rest: Seq<u8>)
    requires
        v.wf(),
    ensures
        spec_parse_counter(spec_ser_counter(v) + rest) == Some(v),
{
    let d = v.discriminator;
    let s = spec_ser_counter(v) + rest;
    lemma_parse_header(d, v.is_initialized, spec_u64_le(v.counter) + rest);
    assert(spec_bytes(d) + spec_bool(v.is_initialized) + (spec_u64_le(v.counter) + rest) =~= s);
    let p2 = spec_bytes(d) + spec_bool(v.is_initialized);
    assert(p2.len() == 5 + d.len());
    lemma_parse_ser_u64(p2, v.counter, rest);
}

#[verifier::spinoff_prover]
#[verifier::rlimit(100)]
pub proof fn lemma_reply_round_trip(v: StudentIntroReplyV, rest: Seq<u8>)
    requires
        v.wf(),
    ensures
        spec_parse_reply(spec_ser_reply(v) + rest) == Some(v),
{
    let d = v.discriminator;
    let s = spec_ser_reply(v) + rest;
    lemma_parse_header(d, v.is_initialized,
        spec_bytes(v.reply_message) + (v.reply + (v.replier + rest)));
    assert(spec_bytes(d) + spec_bool(v.is_initialized)
        + (spec_bytes(v.reply_message) + (v.reply + (v.replier + rest))) =~= s);
    let p2 = spec_bytes(d) + spec_bool(v.is_initialized);
    assert(p2.len() == 5 + d.len());
    lemma_parse_ser_bytes(p2, v.reply_message, v.reply + (v.replier + rest));
    assert(p2 + spec_bytes(v.reply_message) + (v.reply + (v.replier + rest)) =~= s);
    let p3 = p2 + spec_bytes(v.reply_message);
    assert(p3.len() == 9 + d.len() + v.reply_message.len());
    lemma_parse_ser_id(p3, v.reply, v.replier + rest);
    assert(p3 + v.reply + (v.replier + rest) =~= s);
    let p4 = p3 + v.reply;
    assert(p4.len() == p3.len() + 32);
    lemma_parse_ser_id(p4, v.replier, rest);
    assert(p4 + v.replier + rest =~= s);
}

} // verus!
