//! The delegated signing bridge and the engine configuration.
//!
//! The engine owns a second derived address used purely as a signing
//! authority for the external token service: reward units are minted to
//! a recipient on the engine's behalf, authorized by that derived
//! authority.  The bridge is optional and selected at configuration
//! time; without it the lifecycle operations perform no minting.

use vstd::prelude::*;

use crate::addr::is_addr;

verus! {

/// Seed bytes of the token-mint authority record: the bytes of
/// `"token_mint"`.
pub open spec fn mint_seed() -> Seq<u8> {
    seq![116u8, 111u8, 107u8, 101u8, 110u8, 95u8, 109u8, 105u8, 110u8, 116u8]
}

/// Seed bytes of the delegated signing authority: the bytes of
/// `"token_auth"`.
pub open spec fn auth_seed() -> Seq<u8> {
    seq![116u8, 111u8, 107u8, 101u8, 110u8, 95u8, 97u8, 117u8, 116u8, 104u8]
}

pub fn mint_seed_bytes() -> (r: Vec<u8>)
    ensures
        r@ == mint_seed(),
{
    let mut v: Vec<u8> = Vec::new();
    v.push(116);
    v.push(111);
    v.push(107);
    v.push(101);
    v.push(110);
    v.push(95);
    v.push(109);
    v.push(105);
    v.push(110);
    v.push(116);
    assert(v@ =~= mint_seed());
    v
}

pub fn auth_seed_bytes() -> (r: Vec<u8>)
    ensures
        r@ == auth_seed(),
{
    let mut v: Vec<u8> = Vec::new();
    v.push(116);
    v.push(111);
    v.push(107);
    v.push(101);
    v.push(110);
    v.push(95);
    v.push(97);
    v.push(117);
    v.push(116);
    v.push(104);
    assert(v@ =~= auth_seed());
    v
}

/// One reward unit in the token's base denomination (nine decimals).
pub const REWARD_UNIT: u64 = 1000000000;

/// Units minted to a caller that publishes an info record.
pub const INTRO_MINT_AMOUNT: u64 = 10 * REWARD_UNIT;

/// Units minted to a caller that adds a reply.
pub const REPLY_MINT_AMOUNT: u64 = 5 * REWARD_UNIT;

/// The delegated-mint side of a configuration: the identifier of the
/// external token service the bridge addresses.
pub struct BridgeConfig {
    pub token_program: Vec<u8>,
}

/// Engine configuration: the engine's own authority identifier, under
/// which every record address is derived, and the optional mint bridge.
pub struct Config {
    pub program_id: Vec<u8>,
    pub bridge: Option<BridgeConfig>,
}

pub struct ConfigV {
    pub program_id: Seq<u8>,
    pub bridge: Option<Seq<u8>>,
}

impl View for Config {
    type V = ConfigV;

    open spec fn view(&self) -> ConfigV {
        ConfigV {
            program_id: self.program_id@,
            bridge: match self.bridge {
                Some(ref b) => Some(b.token_program@),
                None => None,
            },
        }
    }
}

impl ConfigV {
    pub open spec fn wf(self) -> bool {
        is_addr(self.program_id) && match self.bridge {
            Some(tp) => is_addr(tp),
            None => true,
        }
    }
}

/// The recipient token account the bridge mints to for a given wallet
/// under a given token mint.  The result depends on the wallet and the
/// mint alone.
pub uninterp spec fn ata_of(wallet: Seq<u8>, mint: Seq<u8>) -> Seq<u8>;

/// Relies on `get_associated_token_address` of
/// `spl-associated-token-account`: the associated token account is
/// derived from the wallet and the mint alone (under fixed program
/// identifiers), and is a 32-byte address.
#[verifier::external_body]
pub(crate) fn derive_ata(wallet: &Vec<u8>, mint: &Vec<u8>) -> (r: Vec<u8>)
    requires
        wallet@.len() == 32,
        mint@.len() == 32,
    ensures
        r@ == ata_of(wallet@, mint@),
        r@.len() == 32,
{
    let mut w = [0u8; 32];
    w.copy_from_slice(wallet.as_slice());
    let mut m = [0u8; 32];
    m.copy_from_slice(mint.as_slice());
    let a = spl_associated_token_account::get_associated_token_address(
        &spl_token::solana_program::pubkey::Pubkey::new_from_array(w),
        &spl_token::solana_program::pubkey::Pubkey::new_from_array(m),
    );
    a.to_bytes().to_vec()
}

/// Relies on `spl_token::ID`: the fixed 32-byte address of the external
/// token service.
#[verifier::external_body]
fn spl_token_program_id() -> (r: Vec<u8>)
    ensures
        r@.len() == 32,
{
    spl_token::ID.to_bytes().to_vec()
}

/// The associated token account of a wallet under a mint: the
/// recipient the bridge mints to.
pub fn associated_token_account(wallet: &Vec<u8>, mint: &Vec<u8>) -> (r: Vec<u8>)
    requires
        wallet@.len() == 32,
        mint@.len() == 32,
    ensures
        r@ == ata_of(wallet@, mint@),
        is_addr(r@),
{
    derive_ata(wallet, mint)
}

impl Config {
    /// A configuration without the mint bridge: lifecycle operations
    /// validate and update records but mint nothing.
    pub fn without_bridge(program_id: Vec<u8>) -> (r: Config)
        requires
            is_addr(program_id@),
        ensures
            r@.wf(),
            r@.program_id == program_id@,
            r@.bridge is None,
    {
        Config { program_id, bridge: None }
    }

    /// A configuration whose bridge addresses the external token
    /// service.
    pub fn with_token_bridge(program_id: Vec<u8>) -> (r: Config)
        requires
            is_addr(program_id@),
        ensures
            r@.wf(),
            r@.program_id == program_id@,
            r@.bridge is Some,
    {
        let token_program = spl_token_program_id();
        Config { program_id, bridge: Some(BridgeConfig { token_program }) }
    }
}

} // verus!
