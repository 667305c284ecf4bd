//! Address derivation: the pure map from an ordered list of seed byte
//! strings and an authority identifier to a deterministic derived
//! address and its disambiguation nonce.
//!
//! Derivation searches a nonce such that the candidate address falls
//! outside the space of valid signing-key addresses; the outside
//! implementation performs that search, and the rest of the engine only
//! relies on the result being a function of the seeds and the authority
//! identifier alone.  Every privileged operation re-derives its expected
//! address with this module and rejects callers that supply a different
//! one: address re-derivation is the engine's sole authorization
//! mechanism.

use vstd::prelude::*;

use crate::error::LedgerError;

verus! {

/// An address is a 32-byte identifier.
pub open spec fn is_addr(a: Seq<u8>) -> bool {
    a.len() == 32
}

/// The views of a list of seed byte strings.
pub open spec fn views_of(s: Seq<Vec<u8>>) -> Seq<Seq<u8>> {
    s.map_values(|v: Vec<u8>| v@)
}

/// What derivation returns for given seeds and authority identifier:
/// `None` when no nonce in range yields a usable address (also when the
/// seed list itself is too long or a seed too large for the scheme), and
/// otherwise the unique derived address with the nonce that was chosen.
/// The result depends on the seeds and the authority alone.
pub uninterp spec fn pda_of(seeds: Seq<Seq<u8>>, program: Seq<u8>) -> Option<(Seq<u8>, u8)>;

/// Relies on `Pubkey::try_find_program_address` of `solana-program`: the
/// search over nonces is a pure function of the seeds and the program
/// id, it returns `None` when no nonce works, and a returned address is
/// exactly 32 bytes.
#[verifier::external_body]
fn try_find_pda(seeds: &Vec<Vec<u8>>, program_id: &Vec<u8>) -> (r: Option<(Vec<u8>, u8)>)
    requires
        program_id@.len() == 32,
    ensures
        match r {
            Some((a, bump)) => pda_of(views_of(seeds@), program_id@) == Some((a@, bump))
                && a@.len() == 32,
            None => pda_of(views_of(seeds@), program_id@) is None,
        },
{
    let mut arr = [0u8; 32];
    arr.copy_from_slice(program_id.as_slice());
    let pid = solana_program::pubkey::Pubkey::new_from_array(arr);
    let seed_slices: Vec<&[u8]> = seeds.iter().map(|s| s.as_slice()).collect();
    solana_program::pubkey::Pubkey::try_find_program_address(&seed_slices, &pid)
        .map(|(a, bump)| (a.to_bytes().to_vec(), bump))
}

/// Derive the address and nonce for the given seeds under the given
/// authority.  Succeeds exactly when a nonce in range exists, and the
/// result is determined by the inputs: two calls with identical inputs
/// return identical values.
pub fn derive(seeds: &Vec<Vec<u8>>, program_id: &Vec<u8>) -> (r: Result<(Vec<u8>, u8), LedgerError>)
    requires
        program_id@.len() == 32,
    ensures
        match r {
            Ok((a, bump)) => pda_of(views_of(seeds@), program_id@) == Some((a@, bump))
                && is_addr(a@),
            Err(e) => e == LedgerError::DerivationExhausted
                && pda_of(views_of(seeds@), program_id@) is None,
        },
{
    match try_find_pda(seeds, program_id) {
        Some(ab) => Ok(ab),
        None => Err(LedgerError::DerivationExhausted),
    }
}

/// Byte-for-byte equality of two byte strings, as the engine compares a
/// caller-supplied address against a derived one.
pub fn bytes_eq(a: &Vec<u8>, b: &Vec<u8>) -> (r: bool)
    ensures
        r == (a@ == b@),
{
    if a.len() != b.len() {
        assert(a@ != b@);
        return false;
    }
    let mut i: usize = 0;
    while i < a.len()
        invariant
            i <= a@.len(),
            a@.len() == b@.len(),
            forall|j: int| 0 <= j < i ==> a@[j] == b@[j],
        decreases a@.len() - i,
    {
        if a[i] != b[i] {
            assert(a@ != b@);
            return false;
        }
        i = i + 1;
    }
    assert(a@ =~= b@);
    true
}


/// A one-element seed list.
pub fn seeds1(a: &Vec<u8>) -> (r: Vec<Vec<u8>>)
    ensures
        views_of(r@) == seq![a@],
{
    let mut v: Vec<Vec<u8>> = Vec::new();
    v.push(crate::ledger::copy_bytes(a));
    assert(views_of(v@) =~= seq![a@]);
    v
}

/// A two-element seed list.
pub fn seeds2(a: &Vec<u8>, b: &Vec<u8>) -> (r: Vec<Vec<u8>>)
    ensures
        views_of(r@) == seq![a@, b@],
{
    let mut v: Vec<Vec<u8>> = Vec::new();
    v.push(crate::ledger::copy_bytes(a));
    v.push(crate::ledger::copy_bytes(b));
    assert(views_of(v@) =~= seq![a@, b@]);
    v
}

/// Determinism of derivation: the derived address and nonce are a
/// function of the seed tuple and the authority identifier alone, so
/// any two derivations from identical inputs agree.
pub proof fn lemma_derive_deterministic(
    seeds: Seq<Seq<u8>>,
    program: Seq<u8>,
    r1: Option<(Seq<u8>, u8)>,
    r2: Option<(Seq<u8>, u8)>,
)
    requires
        r1 == pda_of(seeds, program),
        r2 == pda_of(seeds, program),
    ensures
        r1 == r2,
{
}

} // verus!
