//! The record-store substrate model: an arena of addressable records,
//! wallet balances that fund record creation, the credits issued by the
//! delegated mint authority, and the substrate clock.
//!
//! The arena is injected into every operation of the engine; it is never
//! a hidden singleton.  Its mathematical view is a map from addresses to
//! records, plus maps of wallet balances and minted credits, and every
//! operation's contract is stated over that view.

use vstd::prelude::*;

use crate::addr::is_addr;
use crate::records::{
    counter_disc, info_disc, reply_disc, spec_parse_counter, spec_parse_info, spec_parse_reply,
    spec_parse_stake,
};

verus! {

/// The fixed purpose a record was created for.
#[derive(Clone, Copy, PartialEq, Eq, Structural, Debug)]
pub enum RecordKind {
    Stake,
    Info,
    Counter,
    Reply,
    Mint,
}

/// One record of the arena: its address, purpose, serialized contents,
/// allocated size, funding balance, and controlling authority.
pub struct Entry {
    pub addr: Vec<u8>,
    pub kind: RecordKind,
    pub data: Vec<u8>,
    pub size: u64,
    pub balance: u64,
    pub owner: Vec<u8>,
}

pub struct EntryV {
    pub addr: Seq<u8>,
    pub kind: RecordKind,
    pub data: Seq<u8>,
    pub size: u64,
    pub balance: u64,
    pub owner: Seq<u8>,
}

impl View for Entry {
    type V = EntryV;

    open spec fn view(&self) -> EntryV {
        EntryV {
            addr: self.addr@,
            kind: self.kind,
            data: self.data@,
            size: self.size,
            balance: self.balance,
            owner: self.owner@,
        }
    }
}

/// An address with a balance: a funding wallet, or a recipient of
/// minted reward units.
pub struct Balance {
    pub addr: Vec<u8>,
    pub amount: u64,
}

pub struct BalanceV {
    pub addr: Seq<u8>,
    pub amount: u64,
}

impl View for Balance {
    type V = BalanceV;

    open spec fn view(&self) -> BalanceV {
        BalanceV { addr: self.addr@, amount: self.amount }
    }
}

/// The substrate: record arena, funding wallets, mint credits, and the
/// monotonic clock (integer seconds).
pub struct Ledger {
    pub entries: Vec<Entry>,
    pub wallets: Vec<Balance>,
    pub minted: Vec<Balance>,
    pub now: u64,
}

/// The mathematical view of a ledger.
pub struct LedgerView {
    pub records: Map<Seq<u8>, EntryV>,
    pub wallets: Map<Seq<u8>, u64>,
    pub minted: Map<Seq<u8>, u64>,
    pub now: u64,
}

pub open spec fn entries_map(s: Seq<Entry>) -> Map<Seq<u8>, EntryV>
    decreases s.len(),
{
    if s.len() == 0 {
        Map::empty()
    } else {
        entries_map(s.drop_last()).insert(s.last().addr@, s.last()@)
    }
}

pub open spec fn balances_map(s: Seq<Balance>) -> Map<Seq<u8>, u64>
    decreases s.len(),
{
    if s.len() == 0 {
        Map::empty()
    } else {
        balances_map(s.drop_last()).insert(s.last().addr@, s.last().amount)
    }
}

pub open spec fn uniq_entries(s: Seq<Entry>) -> bool {
    forall|i: int, j: int| 0 <= i < j < s.len() ==> s[i].addr@ != s[j].addr@
}

pub open spec fn uniq_balances(s: Seq<Balance>) -> bool {
    forall|i: int, j: int| 0 <= i < j < s.len() ==> s[i].addr@ != s[j].addr@
}

/// Balance of a wallet, zero when the wallet is unknown.
pub open spec fn wallet_of(lv: LedgerView, a: Seq<u8>) -> u64 {
    if lv.wallets.contains_key(a) {
        lv.wallets[a]
    } else {
        0
    }
}

/// Reward units minted so far to a recipient.
pub open spec fn minted_of(lv: LedgerView, a: Seq<u8>) -> u64 {
    if lv.minted.contains_key(a) {
        lv.minted[a]
    } else {
        0
    }
}

/// The record stored at an address, if any.
pub open spec fn record_of(lv: LedgerView, a: Seq<u8>) -> Option<EntryV> {
    if lv.records.contains_key(a) {
        Some(lv.records[a])
    } else {
        None
    }
}

/// Fixed allocation size of an info record.
pub const INFO_ACCOUNT_LEN: u64 = 1000;

/// Serialized size of a reply-counter record.
pub const COUNTER_ACCOUNT_LEN: u64 = 20;

/// Serialized size of a stake record.
pub const STAKE_ACCOUNT_LEN: u64 = 82;

/// Allocation size of a token-mint record of the external token service.
pub const MINT_ACCOUNT_LEN: u64 = 82;

/// Contents a stake record's bytes must hold: they parse as an
/// initialized stake record whose timestamps do not run ahead of the
/// clock.
pub open spec fn stake_data_wf(data: Seq<u8>, now: u64) -> bool {
    match spec_parse_stake(data) {
        Some(r) => r.wf() && r.is_initialized && r.staked_at <= now && r.last_redeemed_at <= now,
        None => false,
    }
}

pub open spec fn info_data_wf(data: Seq<u8>) -> bool {
    match spec_parse_info(data) {
        Some(v) => v.wf() && v.is_initialized && v.discriminator == info_disc(),
        None => false,
    }
}

pub open spec fn counter_data_wf(data: Seq<u8>) -> bool {
    match spec_parse_counter(data) {
        Some(v) => v.wf() && v.is_initialized && v.discriminator == counter_disc(),
        None => false,
    }
}

pub open spec fn reply_data_wf(data: Seq<u8>) -> bool {
    match spec_parse_reply(data) {
        Some(v) => v.wf() && v.is_initialized && v.discriminator == reply_disc(),
        None => false,
    }
}

/// What the bytes of a record must hold, by its purpose, under the
/// current clock.
pub open spec fn kind_data_wf(kind: RecordKind, data: Seq<u8>, now: u64) -> bool {
    match kind {
        RecordKind::Stake => stake_data_wf(data, now),
        RecordKind::Info => info_data_wf(data),
        RecordKind::Counter => counter_data_wf(data),
        RecordKind::Reply => reply_data_wf(data),
        RecordKind::Mint => true,
    }
}

/// Allocation sizes are fixed per purpose for the record kinds the
/// engine rewrites in place.
pub open spec fn kind_size_wf(kind: RecordKind, size: u64) -> bool {
    match kind {
        RecordKind::Stake => size == STAKE_ACCOUNT_LEN,
        RecordKind::Info => size == INFO_ACCOUNT_LEN,
        RecordKind::Counter => size == COUNTER_ACCOUNT_LEN,
        RecordKind::Reply => true,
        RecordKind::Mint => true,
    }
}

pub open spec fn entry_wf(e: EntryV, now: u64) -> bool {
    is_addr(e.addr) && is_addr(e.owner) && e.data.len() <= e.size
        && kind_data_wf(e.kind, e.data, now) && kind_size_wf(e.kind, e.size)
}

impl View for Ledger {
    type V = LedgerView;

    open spec fn view(&self) -> LedgerView {
        LedgerView {
            records: entries_map(self.entries@),
            wallets: balances_map(self.wallets@),
            minted: balances_map(self.minted@),
            now: self.now,
        }
    }
}

impl Ledger {
    /// Every address holds at most one record, and every record's bytes
    /// are well-formed for its purpose under the current clock.
    pub open spec fn wf(self) -> bool {
        uniq_entries(self.entries@) && uniq_balances(self.wallets@)
            && uniq_balances(self.minted@)
            && forall|i: int|
                0 <= i < self.entries@.len() ==> entry_wf(#[trigger] self.entries@[i]@, self.now)
    }
}

proof fn lemma_entries_map_index(s: Seq<Entry>, i: int)
    requires
        uniq_entries(s),
        0 <= i < s.len(),
    ensures
        entries_map(s).contains_key(s[i].addr@),
        entries_map(s)[s[i].addr@] == s[i]@,
    decreases s.len(),
{
    if i == s.len() - 1 {
    } else {
        assert(uniq_entries(s.drop_last()));
        lemma_entries_map_index(s.drop_last(), i);
        assert(s.drop_last()[i] == s[i]);
        assert(s[i].addr@ != s.last().addr@);
    }
}

proof fn lemma_entries_map_absent(s: Seq<Entry>, a: Seq<u8>)
    requires
        forall|j: int| 0 <= j < s.len() ==> s[j].addr@ != a,
    ensures
        !entries_map(s).contains_key(a),
    decreases s.len(),
{
    if s.len() == 0 {
    } else {
        assert(forall|j: int| 0 <= j < s.drop_last().len() ==> s.drop_last()[j].addr@ != a);
        lemma_entries_map_absent(s.drop_last(), a);
        assert(s.last().addr@ != a);
    }
}

proof fn lemma_entries_map_push(s: Seq<Entry>, e: Entry)
    ensures
        entries_map(s.push(e)) == entries_map(s).insert(e.addr@, e@),
{
    assert(s.push(e).drop_last() =~= s);
    assert(s.push(e).last() == e);
}

proof fn lemma_entries_map_set(s: Seq<Entry>, i: int, e: Entry)
    requires
        uniq_entries(s),
        0 <= i < s.len(),
        s[i].addr@ == e.addr@,
    ensures
        entries_map(s.update(i, e)) == entries_map(s).insert(e.addr@, e@),
        uniq_entries(s.update(i, e)),
    decreases s.len(),
{
    assert(uniq_entries(s.update(i, e)));
    if i == s.len() - 1 {
        assert(s.update(i, e).drop_last() =~= s.drop_last());
        assert(s.update(i, e).last() == e);
        assert(entries_map(s).insert(e.addr@, e@)
            =~= entries_map(s.drop_last()).insert(e.addr@, e@));
    } else {
        assert(uniq_entries(s.drop_last()));
        assert(s.drop_last()[i] == s[i]);
        lemma_entries_map_set(s.drop_last(), i, e);
        assert(s.update(i, e).drop_last() =~= s.drop_last().update(i, e));
        assert(s.update(i, e).last() == s.last());
        assert(s.last().addr@ != e.addr@);
        assert(entries_map(s.update(i, e))
            == entries_map(s.drop_last()).insert(e.addr@, e@).insert(s.last().addr@, s.last()@));
        assert(entries_map(s.drop_last()).insert(e.addr@, e@).insert(s.last().addr@, s.last()@)
            =~= entries_map(s.drop_last()).insert(s.last().addr@, s.last()@).insert(e.addr@, e@));
    }
}

proof fn lemma_balances_map_index(s: Seq<Balance>, i: int)
    requires
        uniq_balances(s),
        0 <= i < s.len(),
    ensures
        balances_map(s).contains_key(s[i].addr@),
        balances_map(s)[s[i].addr@] == s[i].amount,
    decreases s.len(),
{
    if i == s.len() - 1 {
    } else {
        assert(uniq_balances(s.drop_last()));
        lemma_balances_map_index(s.drop_last(), i);
        assert(s.drop_last()[i] == s[i]);
        assert(s[i].addr@ != s.last().addr@);
    }
}

proof fn lemma_balances_map_absent(s: Seq<Balance>, a: Seq<u8>)
    requires
        forall|j: int| 0 <= j < s.len() ==> s[j].addr@ != a,
    ensures
        !balances_map(s).contains_key(a),
    decreases s.len(),
{
    if s.len() == 0 {
    } else {
        assert(forall|j: int| 0 <= j < s.drop_last().len() ==> s.drop_last()[j].addr@ != a);
        lemma_balances_map_absent(s.drop_last(), a);
        assert(s.last().addr@ != a);
    }
}

proof fn lemma_balances_map_push(s: Seq<Balance>, e: Balance)
    ensures
        balances_map(s.push(e)) == balances_map(s).insert(e.addr@, e.amount),
{
    assert(s.push(e).drop_last() =~= s);
    assert(s.push(e).last() == e);
}

proof fn lemma_balances_map_set(s: Seq<Balance>, i: int, e: Balance)
    requires
        uniq_balances(s),
        0 <= i < s.len(),
        s[i].addr@ == e.addr@,
    ensures
        balances_map(s.update(i, e)) == balances_map(s).insert(e.addr@, e.amount),
        uniq_balances(s.update(i, e)),
    decreases s.len(),
{
    assert(uniq_balances(s.update(i, e)));
    if i == s.len() - 1 {
        assert(s.update(i, e).drop_last() =~= s.drop_last());
        assert(s.update(i, e).last() == e);
        assert(balances_map(s).insert(e.addr@, e.amount)
            =~= balances_map(s.drop_last()).insert(e.addr@, e.amount));
    } else {
        assert(uniq_balances(s.drop_last()));
        assert(s.drop_last()[i] == s[i]);
        lemma_balances_map_set(s.drop_last(), i, e);
        assert(s.update(i, e).drop_last() =~= s.drop_last().update(i, e));
        assert(s.update(i, e).last() == s.last());
        assert(s.last().addr@ != e.addr@);
        assert(balances_map(s.update(i, e))
            == balances_map(s.drop_last()).insert(e.addr@, e.amount)
                .insert(s.last().addr@, s.last().amount));
        assert(balances_map(s.drop_last()).insert(e.addr@, e.amount)
            .insert(s.last().addr@, s.last().amount)
            =~= balances_map(s.drop_last()).insert(s.last().addr@, s.last().amount)
                .insert(e.addr@, e.amount));
    }
}

/// A fresh copy of a byte string.
pub fn copy_bytes(a: &Vec<u8>) -> (r: Vec<u8>)
    ensures
        r@ == a@,
{
    let mut r: Vec<u8> = Vec::new();
    let mut i: usize = 0;
    while i < a.len()
        invariant
            i <= a@.len(),
            r@ == a@.subrange(0, i as int),
        decreases a@.len() - i,
    {
        r.push(a[i]);
        i = i + 1;
        assert(r@ =~= a@.subrange(0, i as int));
    }
    assert(a@.subrange(0, a@.len() as int) =~= a@);
    r
}

fn find_balance(v: &Vec<Balance>, addr: &Vec<u8>) -> (r: Option<usize>)
    ensures
        match r {
            Some(i) => i < v@.len() && v@[i as int].addr@ == addr@,
            None => forall|j: int| 0 <= j < v@.len() ==> v@[j].addr@ != addr@,
        },
{
    let mut i: usize = 0;
    while i < v.len()
        invariant
            i <= v@.len(),
            forall|j: int| 0 <= j < i ==> v@[j].addr@ != addr@,
        decreases v@.len() - i,
    {
        if crate::addr::bytes_eq(&v[i].addr, addr) {
            return Some(i);
        }
        i = i + 1;
    }
    None
}

/// Set a balance to a new amount, creating the account if it is new.
fn upsert_balance(v: &mut Vec<Balance>, addr: &Vec<u8>, amount: u64)
    requires
        uniq_balances(old(v)@),
    ensures
        uniq_balances(final(v)@),
        balances_map(final(v)@) == balances_map(old(v)@).insert(addr@, amount),
{
    let b = Balance { addr: copy_bytes(addr), amount };
    match find_balance(v, addr) {
        Some(i) => {
            let ghost v0 = v@;
            v[i] = b;
            proof {
                lemma_balances_map_set(v0, i as int, v@[i as int]);
            }
        },
        None => {
            let ghost v0 = v@;
            v.push(b);
            proof {
                lemma_balances_map_push(v0, v@.last());
                assert(uniq_balances(v@));
            }
        },
    }
}

fn get_balance(v: &Vec<Balance>, addr: &Vec<u8>) -> (r: u64)
    requires
        uniq_balances(v@),
    ensures
        r == if balances_map(v@).contains_key(addr@) {
            balances_map(v@)[addr@]
        } else {
            0u64
        },
{
    match find_balance(v, addr) {
        Some(i) => {
            proof {
                lemma_balances_map_index(v@, i as int);
            }
            v[i].amount
        },
        None => {
            proof {
                lemma_balances_map_absent(v@, addr@);
            }
            0
        },
    }
}

/// Base funding cost of any record.
pub const RENT_BASE: u64 = 890880;

/// Funding cost per allocated byte.
pub const RENT_PER_BYTE: u64 = 6960;

/// Largest allocation the store accepts.
pub const MAX_RECORD_SIZE: u64 = 1000000;

/// The substrate's minimum funding for a record of the given size.
pub open spec fn spec_min_balance(size: u64) -> int {
    RENT_BASE + size * RENT_PER_BYTE
}

pub fn min_balance(size: u64) -> (r: u64)
    requires
        size <= MAX_RECORD_SIZE,
    ensures
        r == spec_min_balance(size),
{
    proof {
        assert(size * RENT_PER_BYTE <= MAX_RECORD_SIZE * RENT_PER_BYTE)
            by (nonlinear_arith)
            requires size <= MAX_RECORD_SIZE;
    }
    RENT_BASE + size * RENT_PER_BYTE
}

impl Ledger {
    /// An empty ledger with the clock at the given time.
    pub fn new(now: u64) -> (r: Ledger)
        ensures
            r.wf(),
            r@.records == Map::<Seq<u8>, EntryV>::empty(),
            r@.wallets == Map::<Seq<u8>, u64>::empty(),
            r@.minted == Map::<Seq<u8>, u64>::empty(),
            r@.now == now,
    {
        Ledger { entries: Vec::new(), wallets: Vec::new(), minted: Vec::new(), now }
    }

    /// Advance the monotonic clock.
    pub fn advance_time(&mut self, delta: u64)
        requires
            old(self).wf(),
            old(self).now + delta <= u64::MAX,
        ensures
            final(self).wf(),
            final(self)@.records == old(self)@.records,
            final(self)@.wallets == old(self)@.wallets,
            final(self)@.minted == old(self)@.minted,
            final(self)@.now == old(self)@.now + delta,
    {
        self.now = self.now + delta;
    }

    /// Credit a funding wallet, as the substrate's environment does when
    /// a caller is endowed.
    pub fn fund_wallet(&mut self, addr: &Vec<u8>, amount: u64)
        requires
            old(self).wf(),
            wallet_of(old(self)@, addr@) + amount <= u64::MAX,
        ensures
            final(self).wf(),
            final(self)@.records == old(self)@.records,
            final(self)@.minted == old(self)@.minted,
            final(self)@.now == old(self)@.now,
            final(self)@.wallets == old(self)@.wallets.insert(
                addr@,
                (wallet_of(old(self)@, addr@) + amount) as u64,
            ),
    {
        let cur = get_balance(&self.wallets, addr);
        upsert_balance(&mut self.wallets, addr, cur + amount);
    }

    /// Current balance of a funding wallet.
    pub fn wallet_balance(&self, addr: &Vec<u8>) -> (r: u64)
        requires
            self.wf(),
        ensures
            r == wallet_of(self@, addr@),
    {
        get_balance(&self.wallets, addr)
    }

    /// Reward units minted so far to a recipient.
    pub fn minted_balance(&self, addr: &Vec<u8>) -> (r: u64)
        requires
            self.wf(),
        ensures
            r == minted_of(self@, addr@),
    {
        get_balance(&self.minted, addr)
    }

    fn find_entry(&self, addr: &Vec<u8>) -> (r: Option<usize>)
        ensures
            match r {
                Some(i) => i < self.entries@.len() && self.entries@[i as int].addr@ == addr@,
                None => forall|j: int|
                    0 <= j < self.entries@.len() ==> self.entries@[j].addr@ != addr@,
            },
    {
        let mut i: usize = 0;
        while i < self.entries.len()
            invariant
                i <= self.entries@.len(),
                forall|j: int| 0 <= j < i ==> self.entries@[j].addr@ != addr@,
            decreases self.entries@.len() - i,
        {
            if crate::addr::bytes_eq(&self.entries[i].addr, addr) {
                return Some(i);
            }
            i = i + 1;
        }
        None
    }

    /// Whether a record exists at the address.
    pub fn has_record(&self, addr: &Vec<u8>) -> (r: bool)
        requires
            self.wf(),
        ensures
            r == self@.records.contains_key(addr@),
    {
        match self.find_entry(addr) {
            Some(i) => {
                proof {
                    lemma_entries_map_index(self.entries@, i as int);
                }
                true
            },
            None => {
                proof {
                    lemma_entries_map_absent(self.entries@, addr@);
                }
                false
            },
        }
    }

    /// The record stored at the address, if any.
    pub fn read_record(&self, addr: &Vec<u8>) -> (r: Option<&Entry>)
        requires
            self.wf(),
        ensures
            match r {
                Some(e) => record_of(self@, addr@) == Some(e@) && entry_wf(e@, self@.now),
                None => record_of(self@, addr@) is None,
            },
    {
        match self.find_entry(addr) {
            Some(i) => {
                proof {
                    lemma_entries_map_index(self.entries@, i as int);
                }
                Some(&self.entries[i])
            },
            None => {
                proof {
                    lemma_entries_map_absent(self.entries@, addr@);
                }
                None
            },
        }
    }

    /// Create a record: allocate `size` bytes at `addr` holding `data`,
    /// move the minimum funding for that size out of the payer's wallet
    /// into the record's balance, and hand control of the record to
    /// `owner`.  The caller has checked that the address is free and the
    /// payer can fund the allocation.
    pub fn create_record(
        &mut self,
        addr: &Vec<u8>,
        kind: RecordKind,
        size: u64,
        data: Vec<u8>,
        payer: &Vec<u8>,
        owner: &Vec<u8>,
    )
        requires
            old(self).wf(),
            is_addr(addr@),
            is_addr(owner@),
            size <= MAX_RECORD_SIZE,
            data@.len() <= size,
            kind_data_wf(kind, data@, old(self).now),
            kind_size_wf(kind, size),
            !old(self)@.records.contains_key(addr@),
            wallet_of(old(self)@, payer@) >= spec_min_balance(size),
        ensures
            final(self).wf(),
            final(self)@.now == old(self)@.now,
            final(self)@.minted == old(self)@.minted,
            final(self)@.records == old(self)@.records.insert(
                addr@,
                (EntryV {
                    addr: addr@,
                    kind,
                    data: data@,
                    size,
                    balance: (spec_min_balance(size)) as u64,
                    owner: owner@,
                }),
            ),
            final(self)@.wallets == old(self)@.wallets.insert(
                payer@,
                (wallet_of(old(self)@, payer@) - spec_min_balance(size)) as u64,
            ),
    {
        let cost = min_balance(size);
        let cur = self.wallet_balance(payer);
        upsert_balance(&mut self.wallets, payer, cur - cost);
        let e = Entry {
            addr: copy_bytes(addr),
            kind,
            data,
            size,
            balance: cost,
            owner: copy_bytes(owner),
        };
        let ghost entries0 = self.entries@;
        proof {
            if exists|j: int| 0 <= j < entries0.len() && entries0[j].addr@ == addr@ {
                let j = choose|j: int| 0 <= j < entries0.len() && entries0[j].addr@ == addr@;
                lemma_entries_map_index(entries0, j);
                assert(false);
            }
        }
        self.entries.push(e);
        proof {
            lemma_entries_map_push(entries0, self.entries@.last());
            assert(uniq_entries(self.entries@));
            assert(forall|i: int|
                0 <= i < self.entries@.len() ==> entry_wf(#[trigger] self.entries@[i]@, self.now));
        }
    }

    /// Overwrite the contents of an existing record; the full record is
    /// always serialized, never a partial write.  The caller has checked
    /// that the record exists and the new contents fit its allocation
    /// and purpose.
    pub fn write_record(&mut self, addr: &Vec<u8>, data: Vec<u8>)
        requires
            old(self).wf(),
            old(self)@.records.contains_key(addr@),
            data@.len() <= old(self)@.records[addr@].size,
            kind_data_wf(old(self)@.records[addr@].kind, data@, old(self).now),
        ensures
            final(self).wf(),
            final(self)@.now == old(self)@.now,
            final(self)@.minted == old(self)@.minted,
            final(self)@.wallets == old(self)@.wallets,
            final(self)@.records == old(self)@.records.insert(
                addr@,
                (EntryV { data: data@, ..old(self)@.records[addr@] }),
            ),
    {
        match self.find_entry(addr) {
            Some(i) => {
                proof {
                    lemma_entries_map_index(self.entries@, i as int);
                }
                let old_e = &self.entries[i];
                let e = Entry {
                    addr: copy_bytes(&old_e.addr),
                    kind: old_e.kind,
                    data,
                    size: old_e.size,
                    balance: old_e.balance,
                    owner: copy_bytes(&old_e.owner),
                };
                let ghost entries0 = self.entries@;
                self.entries[i] = e;
                proof {
                    lemma_entries_map_set(entries0, i as int, self.entries@[i as int]);
                    assert(forall|k: int|
                        0 <= k < self.entries@.len()
                            ==> entry_wf(#[trigger] self.entries@[k]@, self.now));
                }
            },
            None => {
                proof {
                    lemma_entries_map_absent(self.entries@, addr@);
                }
            },
        }
    }

    /// Record a delegated mint of reward units to a recipient.  The
    /// caller has checked that the credit is representable.
    pub fn mint_credit(&mut self, recipient: &Vec<u8>, amount: u64)
        requires
            old(self).wf(),
            minted_of(old(self)@, recipient@) + amount <= u64::MAX,
        ensures
            final(self).wf(),
            final(self)@.now == old(self)@.now,
            final(self)@.records == old(self)@.records,
            final(self)@.wallets == old(self)@.wallets,
            final(self)@.minted == old(self)@.minted.insert(
                recipient@,
                (minted_of(old(self)@, recipient@) + amount) as u64,
            ),
    {
        let cur = self.minted_balance(recipient);
        upsert_balance(&mut self.minted, recipient, cur + amount);
    }
}

} // verus!
