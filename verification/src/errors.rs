use vstd::prelude::*;

verus! {

/// Every way a ledger call can fail. A call that returns one of these has
/// changed nothing: the caller sees the state exactly as it was.
#[derive(Clone, Copy, Debug, PartialEq, Eq, Structural)]
pub enum LedgerError {
    /// A mint asked for a token id that is already present.
    DuplicateTokenId,
    /// The named token is not in the ledger.
    TokenNotFound,
    /// The caller is neither the token's owner nor a holder of a valid
    /// approval, or an owner-only call came from another account.
    NotAuthorized,
    /// A transfer named the current owner as receiver.
    SameOwner,
    /// The attached payment does not cover the storage the call would grow.
    InsufficientDeposit,
    /// A policy change named no known policy.
    InvalidPolicyValue,
    /// Minting is restricted to the whitelist and the caller is not on it.
    NotWhitelisted,
    /// Minting is closed.
    MintingDisabled,
}

impl LedgerError {
    /// A short description of the failure, in place of `Display`.
    pub fn describe(&self) -> (r: &'static str) {
        match self {
            LedgerError::DuplicateTokenId => "token id already exists",
            LedgerError::TokenNotFound => "token not found",
            LedgerError::NotAuthorized => "caller is not authorized",
            LedgerError::SameOwner => "receiver already owns the token",
            LedgerError::InsufficientDeposit => "attached payment does not cover storage growth",
            LedgerError::InvalidPolicyValue => "unknown mint policy value",
            LedgerError::NotWhitelisted => "caller is not whitelisted",
            LedgerError::MintingDisabled => "minting is disabled",
        }
    }
}

} // verus!
