//! Typed failures of the lifecycle engine.
//!
//! Every check in the engine is local and immediate: the first failing
//! check decides the error, no error is swallowed, and a failed operation
//! leaves the ledger exactly as it was.

use vstd::prelude::*;

verus! {

/// The engine's error taxonomy.  Each operation's contract states
/// exactly which inputs produce which variant.
#[derive(Clone, Copy, PartialEq, Eq, Structural, Debug)]
pub enum LedgerError {
    /// A caller-supplied address differs from the one the engine derives
    /// from its own seed rule.
    InvalidDerivedAddress,
    /// A record that may only be created once already exists.
    AlreadyInitialized,
    /// A record that an operation needs does not exist or is not
    /// initialized.
    UninitializedRecord,
    /// A redeem or unstake was attempted while the record is not staked.
    NotCurrentlyStaked,
    /// The record's stored owner differs from the caller.
    OwnerMismatch,
    /// The record's stored item differs from the one presented.
    ItemMismatch,
    /// A record is not controlled by the expected authority.
    IllegalOwner,
    /// A record's computed size exceeds the fixed cap.
    SizeLimitExceeded,
    /// The caller did not authenticate (no signature).
    UnauthenticatedCaller,
    /// The instruction tag is not one the dispatcher knows.
    UnknownInstruction,
    /// The instruction payload is structurally malformed.
    InvalidInstructionData,
    /// No disambiguation nonce in range yields a usable address.
    DerivationExhausted,
    /// A delegated call to an external collaborator could not be
    /// performed (insufficient funding, or a credit that cannot be
    /// represented).
    ExternalCallFailed,
}

/// Error codes of the intro-record surface, kept with their stable
/// numeric codes for callers that consume numeric failures.
#[derive(Clone, Copy, PartialEq, Eq, Structural, Debug)]
pub enum StudentIntroError {
    UninitializedAccount,
    InvalidPDA,
    InvalidDataLength,
    IncorrectAccountError,
}

impl StudentIntroError {
    /// The numeric code a caller sees, in declaration order.
    pub fn error_code(self) -> (r: u32)
        ensures
            r == match self {
                StudentIntroError::UninitializedAccount => 0u32,
                StudentIntroError::InvalidPDA => 1u32,
                StudentIntroError::InvalidDataLength => 2u32,
                StudentIntroError::IncorrectAccountError => 3u32,
            },
    {
        match self {
            StudentIntroError::UninitializedAccount => 0,
            StudentIntroError::InvalidPDA => 1,
            StudentIntroError::InvalidDataLength => 2,
            StudentIntroError::IncorrectAccountError => 3,
        }
    }

    /// The engine-level error each intro code stands for.
    pub fn to_ledger_error(self) -> (r: LedgerError)
        ensures
            r == match self {
                StudentIntroError::UninitializedAccount => LedgerError::UninitializedRecord,
                StudentIntroError::InvalidPDA => LedgerError::InvalidDerivedAddress,
                StudentIntroError::InvalidDataLength => LedgerError::SizeLimitExceeded,
                StudentIntroError::IncorrectAccountError => LedgerError::InvalidDerivedAddress,
            },
    {
        match self {
            StudentIntroError::UninitializedAccount => LedgerError::UninitializedRecord,
            StudentIntroError::InvalidPDA => LedgerError::InvalidDerivedAddress,
            StudentIntroError::InvalidDataLength => LedgerError::SizeLimitExceeded,
            StudentIntroError::IncorrectAccountError => LedgerError::InvalidDerivedAddress,
        }
    }
}

} // verus!
