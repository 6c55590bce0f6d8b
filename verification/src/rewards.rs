//! The share of the reward pool that a depositor's balance stands for.

use vstd::prelude::*;

verus! {

/// `balance * reward_balance / total_deposits`, rounded down; zero when any of
/// the three is not positive, and zero when the product leaves the range of
/// `i128`.
///
/// The vault's tests fix the share at a zero total, a zero balance, a product
/// that overflows, and the rounded-down quotient. The zero for a negative
/// balance, total or reward pool is a choice of this crate: reachable vaults
/// never hold a negative balance or total, but `set_reward_balance` accepts a
/// negative pool.
pub open spec fn pending_rewards_spec(user_balance: i128, total_deposits: i128, reward_balance: i128) -> i128 {
    if total_deposits <= 0 || user_balance <= 0 || reward_balance <= 0 {
        0
    } else if user_balance * reward_balance > i128::MAX {
        0
    } else {
        ((user_balance * reward_balance) / (total_deposits as int)) as i128
    }
}

/// The rewards a balance of `user_balance` is entitled to out of a pool of
/// `reward_balance`, when the vault holds `total_deposits` in all.
pub fn calculate_pending_rewards(user_balance: i128, total_deposits: i128, reward_balance: i128) -> (p: i128)
    ensures
        p == pending_rewards_spec(user_balance, total_deposits, reward_balance),
{
    if total_deposits <= 0 || user_balance <= 0 || reward_balance <= 0 {
        return 0;
    }
    assert(user_balance * reward_balance > 0) by (nonlinear_arith)
        requires
            user_balance > 0,
            reward_balance > 0,
    ;
    match user_balance.checked_mul(reward_balance) {
        Some(product) => product / total_deposits,
        None => 0,
    }
}

} // verus!
