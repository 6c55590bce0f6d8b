use vstd::prelude::*;

verus! {

/// Errors returned by the vault's entry points.
#[derive(Clone, Copy, Debug, PartialEq, Eq, Structural)]
pub enum VaultError {
    /// `initialize` was called on a vault that is already initialized.
    AlreadyInitialized,
    /// A gated entry point was called before `initialize`.
    NotInitialized,
    /// The amount is not positive, or the new balance or total would overflow.
    InvalidAmount,
    /// A withdrawal asks for more than the caller's balance.
    InsufficientBalance,
    /// Reserved for inconsistent reward accounting.
    InvalidRewardState,
}

} // verus!
