//! Calls on a vault as data, so that properties of whole call sequences can
//! be stated: each call's effect on the state and whether it succeeds.

use vstd::prelude::*;
use crate::error::VaultError;
use crate::vault::VaultState;

verus! {

/// A call of one of the vault's entry points, with addresses by their bytes.
pub enum VaultCall {
    Initialize { admin: Seq<u8>, deposit_token: Seq<u8>, reward_token: Seq<u8> },
    Deposit { from: Seq<u8>, amount: i128 },
    Withdraw { to: Seq<u8>, amount: i128 },
    ClaimRewards { user: Seq<u8> },
    SetClaimableReward { user: Seq<u8>, amount: i128 },
    SetRewardBalance { amount: i128 },
    IsInitialized,
    Admin,
    Owner,
    DepositToken,
    RewardToken,
    TotalDeposits,
    UserBalance { user: Seq<u8> },
    PendingRewards { user: Seq<u8> },
}

impl VaultCall {
    /// Entry points that refuse to run on an uninitialized vault: all but
    /// `initialize` and `is_initialized`.
    pub open spec fn is_gated(self) -> bool {
        !(self is Initialize) && !(self is IsInitialized)
    }

    /// A call of `initialize` with these arguments.
    pub open spec fn is_initialize_with(self, settings: crate::vault::VaultSettings) -> bool {
        self matches VaultCall::Initialize { admin, deposit_token, reward_token }
            && admin == settings.admin && deposit_token == settings.deposit_token
            && reward_token == settings.reward_token
    }

    /// Whether `settings` holds what this call initializes with.
    pub open spec fn recorded_in(self, settings: Option<crate::vault::VaultSettings>) -> bool {
        match settings {
            Some(set) => self.is_initialize_with(set),
            None => false,
        }
    }
}

/// Fails with `NotInitialized` on an uninitialized vault, succeeds otherwise.
pub open spec fn query_outcome(s: VaultState) -> Result<(), VaultError> {
    if s.is_initialized() {
        Ok(())
    } else {
        Err(VaultError::NotInitialized)
    }
}

/// Drops the value of a successful call, keeping its error.
pub open spec fn outcome_of<T>(r: Result<T, VaultError>) -> Result<(), VaultError> {
    match r {
        Ok(_) => Ok(()),
        Err(e) => Err(e),
    }
}

/// The state after `call` on `s`, and whether the call succeeded. A failed
/// call leaves the state as it was; queries never change it.
pub open spec fn apply_call(s: VaultState, call: VaultCall) -> (VaultState, Result<(), VaultError>) {
    match call {
        VaultCall::Initialize { admin, deposit_token, reward_token } => match s.initialize(
            admin,
            deposit_token,
            reward_token,
        ) {
            Ok(s1) => (s1, Ok(())),
            Err(e) => (s, Err(e)),
        },
        VaultCall::Deposit { from, amount } => match s.deposit(from, amount) {
            Ok((s1, _)) => (s1, Ok(())),
            Err(e) => (s, Err(e)),
        },
        VaultCall::Withdraw { to, amount } => match s.withdraw(to, amount) {
            Ok((s1, _)) => (s1, Ok(())),
            Err(e) => (s, Err(e)),
        },
        VaultCall::ClaimRewards { user } => match s.claim_rewards(user) {
            Ok((s1, _)) => (s1, Ok(())),
            Err(e) => (s, Err(e)),
        },
        VaultCall::SetClaimableReward { user, amount } => match s.set_claimable_reward(user, amount) {
            Ok(s1) => (s1, Ok(())),
            Err(e) => (s, Err(e)),
        },
        VaultCall::SetRewardBalance { amount } => match s.set_reward_balance(amount) {
            Ok(s1) => (s1, Ok(())),
            Err(e) => (s, Err(e)),
        },
        VaultCall::IsInitialized => (s, Ok(())),
        VaultCall::PendingRewards { user } => (s, outcome_of(s.pending_rewards(user))),
        _ => (s, query_outcome(s)),
    }
}

/// The state after running `calls` in order on `s`.
pub open spec fn run_calls(s: VaultState, calls: Seq<VaultCall>) -> VaultState
    decreases calls.len(),
{
    if calls.len() == 0 {
        s
    } else {
        apply_call(run_calls(s, calls.drop_last()), calls.last()).0
    }
}

/// The state in which the call at position `i` runs.
pub open spec fn state_before(s: VaultState, calls: Seq<VaultCall>, i: int) -> VaultState {
    run_calls(s, calls.take(i))
}

/// Whether the call at position `i` succeeds.
pub open spec fn outcome_at(s: VaultState, calls: Seq<VaultCall>, i: int) -> Result<(), VaultError> {
    apply_call(state_before(s, calls, i), calls[i]).1
}

/// Whether the call at position `i` is an `initialize` that succeeds.
pub open spec fn initializes_at(s: VaultState, calls: Seq<VaultCall>, i: int) -> bool {
    calls[i] is Initialize && outcome_at(s, calls, i) is Ok
}

} // verus!
