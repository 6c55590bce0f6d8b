//! Properties that relate several operations of the vault, or hold of all
//! of its reachable states.

use vstd::prelude::*;
use crate::error::VaultError;
use crate::ledger::{
    amount_of, with_amount, lemma_with_amount_reads, lemma_amount_within_sum,
};
use crate::rewards::pending_rewards_spec;
use crate::vault::{VaultState, VaultSettings};
use crate::calls::{VaultCall, apply_call, run_calls, state_before, outcome_at, initializes_at};

verus! {

/// Initialization happens once: after a successful `initialize`, every later
/// `initialize` fails with `AlreadyInitialized`, whatever its arguments, and
/// the recorded admin and tokens are those of the first call.
pub proof fn law_initialize_only_once(
    s: VaultState,
    admin: Seq<u8>,
    deposit_token: Seq<u8>,
    reward_token: Seq<u8>,
    admin2: Seq<u8>,
    deposit_token2: Seq<u8>,
    reward_token2: Seq<u8>,
)
    requires
        s.initialize(admin, deposit_token, reward_token) is Ok,
    ensures
        ({
            let s1 = s.initialize(admin, deposit_token, reward_token)->Ok_0;
            &&& s1.settings matches Some(set) && set.admin == admin && set.deposit_token == deposit_token
                && set.reward_token == reward_token
            &&& s1.initialize(admin2, deposit_token2, reward_token2) == Err::<VaultState, VaultError>(
                VaultError::AlreadyInitialized,
            )
        }),
{
}

/// No successful operation other than the first `initialize` changes the
/// recorded admin and tokens, and none makes an initialized vault
/// uninitialized.
pub proof fn law_settings_are_permanent(s: VaultState, user: Seq<u8>, amount: i128)
    requires
        s.is_initialized(),
    ensures
        s.deposit(user, amount) matches Ok((s1, _)) ==> s1.settings == s.settings,
        s.withdraw(user, amount) matches Ok((s1, _)) ==> s1.settings == s.settings,
        s.claim_rewards(user) matches Ok((s1, _)) ==> s1.settings == s.settings,
        s.set_claimable_reward(user, amount) matches Ok(s1) ==> s1.settings == s.settings,
        s.set_reward_balance(amount) matches Ok(s1) ==> s1.settings == s.settings,
{
}

/// Before initialization every gated operation fails with `NotInitialized`.
pub proof fn law_uninitialized_vault_refuses(s: VaultState, user: Seq<u8>, amount: i128)
    requires
        !s.is_initialized(),
    ensures
        s.deposit(user, amount) == Err::<(VaultState, i128), VaultError>(VaultError::NotInitialized),
        s.withdraw(user, amount) == Err::<(VaultState, i128), VaultError>(VaultError::NotInitialized),
        s.claim_rewards(user) == Err::<(VaultState, i128), VaultError>(VaultError::NotInitialized),
        s.set_claimable_reward(user, amount) == Err::<VaultState, VaultError>(VaultError::NotInitialized),
        s.set_reward_balance(amount) == Err::<VaultState, VaultError>(VaultError::NotInitialized),
        s.pending_rewards(user) == Err::<i128, VaultError>(VaultError::NotInitialized),
{
}

/// In a consistent vault every balance lies between zero and the total of
/// deposits.
pub proof fn law_balance_within_total(s: VaultState, user: Seq<u8>)
    requires
        s.consistent(),
    ensures
        0 <= s.balance_of(user) <= s.total_deposits,
{
    lemma_amount_within_sum(s.balances, user);
}

/// In an initialized, consistent vault a deposit fails exactly when the
/// amount is not positive or the total of deposits would overflow.
pub proof fn law_deposit_refusals(s: VaultState, user: Seq<u8>, amount: i128)
    requires
        s.consistent(),
        s.is_initialized(),
    ensures
        (s.deposit(user, amount) is Err) == (amount <= 0 || s.total_deposits + amount > i128::MAX),
        s.deposit(user, amount) is Err ==> s.deposit(user, amount) == Err::<(VaultState, i128), VaultError>(
            VaultError::InvalidAmount,
        ),
{
    lemma_amount_within_sum(s.balances, user);
}

/// In an initialized, consistent vault a withdrawal fails with
/// `InvalidAmount` exactly when the amount is not positive, and with
/// `InsufficientBalance` exactly when it is positive and above the balance;
/// it never fails otherwise.
pub proof fn law_withdraw_refusals(s: VaultState, user: Seq<u8>, amount: i128)
    requires
        s.consistent(),
        s.is_initialized(),
    ensures
        (s.withdraw(user, amount) == Err::<(VaultState, i128), VaultError>(VaultError::InvalidAmount)) == (
        amount <= 0),
        (s.withdraw(user, amount) == Err::<(VaultState, i128), VaultError>(VaultError::InsufficientBalance))
            == (amount > 0 && amount > s.balance_of(user)),
        (s.withdraw(user, amount) is Ok) == (0 < amount <= s.balance_of(user)),
{
    lemma_amount_within_sum(s.balances, user);
}

/// A deposit followed by a withdrawal of the same amount by the same account
/// succeeds and gives back the balance and the total from before, leaving
/// every account's balance as it was.
pub proof fn law_deposit_then_withdraw_restores(s: VaultState, user: Seq<u8>, amount: i128, other: Seq<u8>)
    requires
        s.consistent(),
        s.deposit(user, amount) is Ok,
    ensures
        ({
            let s1 = s.deposit(user, amount)->Ok_0.0;
            &&& s1.withdraw(user, amount) is Ok
            &&& s1.withdraw(user, amount)->Ok_0.1 == s.balance_of(user)
            &&& s1.withdraw(user, amount)->Ok_0.0.total_deposits == s.total_deposits
            &&& s1.withdraw(user, amount)->Ok_0.0.balance_of(other) == s.balance_of(other)
        }),
{
    let b = s.balance_of(user);
    let s1 = s.deposit(user, amount)->Ok_0.0;
    lemma_with_amount_reads(s.balances, user, (b + amount) as i128, other);
    lemma_with_amount_reads(s1.balances, user, b, other);
}

/// Operations on one account leave every other account's balance and
/// claimable reward as they were.
pub proof fn law_other_accounts_untouched(s: VaultState, user: Seq<u8>, amount: i128, other: Seq<u8>)
    requires
        s.consistent(),
        other != user,
    ensures
        s.deposit(user, amount) matches Ok((s1, _)) ==> s1.balance_of(other) == s.balance_of(other)
            && s1.claimable_of(other) == s.claimable_of(other),
        s.withdraw(user, amount) matches Ok((s1, _)) ==> s1.balance_of(other) == s.balance_of(other)
            && s1.claimable_of(other) == s.claimable_of(other),
        s.claim_rewards(user) matches Ok((s1, _)) ==> s1.balance_of(other) == s.balance_of(other)
            && s1.claimable_of(other) == s.claimable_of(other),
        s.set_claimable_reward(user, amount) matches Ok(s1) ==> s1.balance_of(other) == s.balance_of(other)
            && s1.claimable_of(other) == s.claimable_of(other),
{
    let b = s.balance_of(user);
    lemma_with_amount_reads(s.balances, user, (b + amount) as i128, other);
    lemma_with_amount_reads(s.balances, user, (b - amount) as i128, other);
    lemma_with_amount_reads(s.claimable, user, 0, other);
    lemma_with_amount_reads(s.claimable, user, amount, other);
}

/// Claims and the two reward settings leave every deposited balance and
/// the total of deposits as they were.
pub proof fn law_reward_operations_leave_deposits(s: VaultState, user: Seq<u8>, amount: i128)
    ensures
        s.claim_rewards(user) matches Ok((s1, _)) ==> s1.balances == s.balances
            && s1.total_deposits == s.total_deposits,
        s.set_claimable_reward(user, amount) matches Ok(s1) ==> s1.balances == s.balances
            && s1.total_deposits == s.total_deposits,
        s.set_reward_balance(amount) matches Ok(s1) ==> s1.balances == s.balances
            && s1.total_deposits == s.total_deposits,
{
}

/// A claim pays the stored claimable reward and leaves nothing to claim: a
/// second claim right after pays zero and changes nothing.
pub proof fn law_claim_is_not_repeated(s: VaultState, user: Seq<u8>)
    requires
        s.consistent(),
        s.claim_rewards(user) is Ok,
    ensures
        s.claim_rewards(user)->Ok_0.1 == s.claimable_of(user),
        ({
            let s1 = s.claim_rewards(user)->Ok_0.0;
            s1.claim_rewards(user) == Ok::<(VaultState, i128), VaultError>((s1, 0))
        }),
{
    lemma_with_amount_reads(s.claimable, user, 0, user);
}

/// A balance that is part of the total never earns more than the whole
/// reward pool, and never a negative amount.
pub proof fn law_pending_share_within_pool(balance: i128, total: i128, pool: i128)
    requires
        0 <= balance <= total,
    ensures
        0 <= pending_rewards_spec(balance, total, pool),
        pool > 0 ==> pending_rewards_spec(balance, total, pool) <= pool,
        pool <= 0 ==> pending_rewards_spec(balance, total, pool) == 0,
{
    if total > 0 && balance > 0 && pool > 0 && balance * pool <= i128::MAX {
        assert(0 <= (balance * pool) / (total as int) <= pool) by (nonlinear_arith)
            requires
                0 < balance <= total,
                pool > 0,
        {
            assert(balance * pool <= total * pool);
        }
    }
}

/// Two disjoint parts of the total together never earn more than the reward
/// pool.
pub proof fn law_pending_shares_do_not_exceed_pool(a: i128, b: i128, total: i128, pool: i128)
    requires
        0 <= a,
        0 <= b,
        a + b <= total,
        pool > 0,
    ensures
        pending_rewards_spec(a, total, pool) + pending_rewards_spec(b, total, pool) <= pool,
{
    law_pending_share_within_pool(a, total, pool);
    law_pending_share_within_pool(b, total, pool);
    if total > 0 && a > 0 && b > 0 && a * pool <= i128::MAX && b * pool <= i128::MAX {
        let t = total as int;
        assert((a * pool) / t + (b * pool) / t <= pool) by (nonlinear_arith)
            requires
                a > 0,
                b > 0,
                a + b <= t,
                pool > 0,
        {
            assert((a * pool) / t * t <= a * pool);
            assert((b * pool) / t * t <= b * pool);
            assert(((a * pool) / t + (b * pool) / t) * t <= (a + b) * pool);
            assert((a + b) * pool <= t * pool);
        }
    }
}

/// One call changes the settings only when it is an `initialize` that
/// succeeds, which happens exactly when the vault was uninitialized; every
/// gated call on an uninitialized vault fails with `NotInitialized`.
proof fn lemma_call_settings(s: VaultState, call: VaultCall)
    ensures
        call is Initialize ==> ((apply_call(s, call).1 is Ok) == (s.settings is None)),
        call is Initialize && s.settings is None ==> call.recorded_in(apply_call(s, call).0.settings),
        !(call is Initialize && s.settings is None) ==> apply_call(s, call).0.settings == s.settings,
        call.is_gated() && s.settings is None ==> apply_call(s, call).1 == Err::<(), VaultError>(
            VaultError::NotInitialized,
        ),
{
}

/// Running one more call is one more step.
proof fn lemma_run_step(s: VaultState, calls: Seq<VaultCall>, k: int)
    requires
        0 <= k < calls.len(),
    ensures
        state_before(s, calls, k + 1) == apply_call(state_before(s, calls, k), calls[k]).0,
{
    assert(calls.take(k + 1).drop_last() =~= calls.take(k));
    assert(calls.take(k + 1).last() == calls[k]);
}

/// Up to position `k`, the vault is uninitialized exactly when no
/// `initialize` has succeeded, and once one has, the settings are those it
/// was given.
proof fn lemma_settings_along_calls(calls: Seq<VaultCall>, k: int)
    requires
        0 <= k <= calls.len(),
    ensures
        (state_before(VaultState::initial(), calls, k).settings is None) == (forall|i: int|
            0 <= i < k ==> !initializes_at(VaultState::initial(), calls, i)),
        forall|i: int|
            0 <= i < k && initializes_at(VaultState::initial(), calls, i) ==> calls[i].recorded_in(
                state_before(VaultState::initial(), calls, k).settings,
            ),
    decreases k,
{
    let s0 = VaultState::initial();
    if k == 0 {
        assert(calls.take(0) =~= Seq::<VaultCall>::empty());
    } else {
        lemma_settings_along_calls(calls, k - 1);
        lemma_run_step(s0, calls, k - 1);
        let before = state_before(s0, calls, k - 1);
        lemma_call_settings(before, calls[k - 1]);
        let after = state_before(s0, calls, k);
        assert(outcome_at(s0, calls, k - 1) == apply_call(before, calls[k - 1]).1);
        if before.settings is None {
            assert(forall|i: int| 0 <= i < k - 1 ==> !initializes_at(s0, calls, i));
            if initializes_at(s0, calls, k - 1) {
                assert(after.settings is Some);
                assert(!(forall|i: int| 0 <= i < k ==> !initializes_at(s0, calls, i)));
            } else {
                assert(after.settings is None);
                assert forall|i: int| 0 <= i < k implies !initializes_at(s0, calls, i) by {}
            }
        } else {
            let w = choose|i: int| 0 <= i < k - 1 && initializes_at(s0, calls, i);
            assert(0 <= w < k - 1 && initializes_at(s0, calls, w));
            assert(after.settings == before.settings);
            assert(!(forall|i: int| 0 <= i < k ==> !initializes_at(s0, calls, i)));
        }
        assert forall|i: int| 0 <= i < k && initializes_at(s0, calls, i) implies calls[i].recorded_in(
            state_before(s0, calls, k).settings,
        ) by {
            if i < k - 1 {
            } else {
                assert(before.settings is None);
            }
        }
    }
}

/// Over any sequence of calls on a fresh vault: at most one `initialize`
/// succeeds; from the first that does on, the vault stays initialized with
/// the admin and tokens that call was given; and before it every gated call
/// fails with `NotInitialized`.
pub proof fn law_initialization_over_calls(calls: Seq<VaultCall>)
    ensures
        forall|i: int, j: int|
            0 <= i < j < calls.len() && #[trigger] initializes_at(VaultState::initial(), calls, i)
                ==> !#[trigger] initializes_at(VaultState::initial(), calls, j),
        forall|i: int, k: int|
            0 <= i < k <= calls.len() && #[trigger] initializes_at(VaultState::initial(), calls, i)
                ==> calls[i].recorded_in((#[trigger] state_before(VaultState::initial(), calls, k)).settings),
        forall|k: int|
            0 <= k < calls.len() && (#[trigger] calls[k]).is_gated() && (forall|i: int|
                0 <= i < k ==> !initializes_at(VaultState::initial(), calls, i)) ==> outcome_at(
                VaultState::initial(),
                calls,
                k,
            ) == Err::<(), VaultError>(VaultError::NotInitialized),
{
    let s0 = VaultState::initial();
    assert forall|i: int, j: int|
        0 <= i < j < calls.len() && #[trigger] initializes_at(s0, calls, i) implies !#[trigger] initializes_at(
        s0,
        calls,
        j,
    ) by {
        lemma_settings_along_calls(calls, j);
        lemma_call_settings(state_before(s0, calls, j), calls[j]);
    }
    assert forall|i: int, k: int|
        0 <= i < k <= calls.len() && #[trigger] initializes_at(s0, calls, i) implies calls[i].recorded_in(
        (#[trigger] state_before(s0, calls, k)).settings,
    ) by {
        lemma_settings_along_calls(calls, k);
    }
    assert forall|k: int|
        0 <= k < calls.len() && (#[trigger] calls[k]).is_gated() && (forall|i: int|
            0 <= i < k ==> !initializes_at(s0, calls, i)) implies outcome_at(s0, calls, k) == Err::<
        (),
        VaultError,
    >(VaultError::NotInitialized) by {
        lemma_settings_along_calls(calls, k);
        lemma_call_settings(state_before(s0, calls, k), calls[k]);
    }
}

/// The pending reward is the proportional share of the pool, rounded down:
/// when total, balance and pool are positive and `balance * pool` fits in
/// `i128`, it is the largest `r` with `r * total <= balance * pool`; it is
/// zero when the total, the balance or the pool is zero.
pub proof fn law_pending_reward_is_floor_of_share(balance: i128, total: i128, pool: i128)
    ensures
        total > 0 && balance > 0 && pool > 0 && balance * pool <= i128::MAX ==> {
            let r = pending_rewards_spec(balance, total, pool);
            &&& r * total <= balance * pool
            &&& balance * pool < (r + 1) * total
        },
        total == 0 || balance == 0 || pool == 0 ==> pending_rewards_spec(balance, total, pool) == 0,
{
    if total > 0 && balance > 0 && pool > 0 && balance * pool <= i128::MAX {
        let t = total as int;
        let n = balance * pool;
        let q = n / t;
        assert(n > 0) by (nonlinear_arith)
            requires
                balance > 0,
                pool > 0,
                n == balance * pool,
        ;
        assert(q * t <= n && n < (q + 1) * t) by (nonlinear_arith)
            requires
                t > 0,
                n > 0,
                q == n / t,
        ;
    }
}

/// `pending_rewards` on a vault is the floor of the user's share of the pool
/// held in that vault, out of its total of deposits.
pub proof fn law_vault_pending_reward_is_share(s: VaultState, user: Seq<u8>)
    requires
        s.is_initialized(),
    ensures
        s.pending_rewards(user) is Ok,
        s.total_deposits > 0 && s.balance_of(user) > 0 && s.reward_balance > 0 && s.balance_of(user)
            * s.reward_balance <= i128::MAX ==> {
            let r = s.pending_rewards(user)->Ok_0;
            &&& r * s.total_deposits <= s.balance_of(user) * s.reward_balance
            &&& s.balance_of(user) * s.reward_balance < (r + 1) * s.total_deposits
        },
        s.total_deposits == 0 || s.balance_of(user) == 0 || s.reward_balance == 0 ==> s.pending_rewards(
            user,
        ) == Ok::<i128, VaultError>(0),
{
    law_pending_reward_is_floor_of_share(s.balance_of(user), s.total_deposits, s.reward_balance);
}

/// A successful deposit of `amount` by `user` returns the user's balance
/// after the deposit, which is the balance before plus `amount`; the total
/// grows by `amount`, and the reward pool and every claimable reward stay.
pub proof fn law_deposit_result(s: VaultState, user: Seq<u8>, amount: i128)
    requires
        s.consistent(),
    ensures
        s.deposit(user, amount) matches Ok((s1, r)) ==> {
            &&& r == s1.balance_of(user)
            &&& r == s.balance_of(user) + amount
            &&& s1.total_deposits == s.total_deposits + amount
            &&& s1.reward_balance == s.reward_balance
            &&& s1.claimable == s.claimable
        },
{
    let b = s.balance_of(user);
    lemma_with_amount_reads(s.balances, user, (b + amount) as i128, user);
}

/// A successful withdrawal of `amount` by `user` returns the user's balance
/// after the withdrawal, which is the balance before minus `amount`; the
/// total shrinks by `amount`, and the reward pool and every claimable reward
/// stay.
pub proof fn law_withdraw_result(s: VaultState, user: Seq<u8>, amount: i128)
    requires
        s.consistent(),
    ensures
        s.withdraw(user, amount) matches Ok((s1, r)) ==> {
            &&& r == s1.balance_of(user)
            &&& r == s.balance_of(user) - amount
            &&& s1.total_deposits == s.total_deposits - amount
            &&& s1.reward_balance == s.reward_balance
            &&& s1.claimable == s.claimable
        },
{
    let b = s.balance_of(user);
    lemma_with_amount_reads(s.balances, user, (b - amount) as i128, user);
}

/// Setting the reward pool replaces it: afterwards the pool is exactly the
/// amount given, whatever it was before, and the shares are computed from it.
pub proof fn law_set_reward_balance_replaces_pool(s: VaultState, amount: i128, user: Seq<u8>)
    requires
        s.is_initialized(),
    ensures
        s.set_reward_balance(amount) is Ok,
        ({
            let s1 = s.set_reward_balance(amount)->Ok_0;
            &&& s1.reward_balance == amount
            &&& s1.balances == s.balances
            &&& s1.total_deposits == s.total_deposits
            &&& s1.claimable == s.claimable
            &&& s1.pending_rewards(user) == Ok::<i128, VaultError>(
                pending_rewards_spec(s.balance_of(user), s.total_deposits, amount),
            )
        }),
{
}

/// Setting a claimable reward replaces it: afterwards the user's claimable
/// reward is exactly the amount given, whatever it was before, and a claim
/// right after pays that amount and leaves zero to claim.
pub proof fn law_set_claimable_reward_replaces_amount(s: VaultState, user: Seq<u8>, amount: i128)
    requires
        s.consistent(),
        s.is_initialized(),
    ensures
        s.set_claimable_reward(user, amount) is Ok,
        ({
            let s1 = s.set_claimable_reward(user, amount)->Ok_0;
            &&& s1.claimable_of(user) == amount
            &&& s1.balances == s.balances
            &&& s1.claim_rewards(user) is Ok
            &&& s1.claim_rewards(user)->Ok_0.1 == amount
            &&& s1.claim_rewards(user)->Ok_0.0.claimable_of(user) == 0
        }),
{
    lemma_with_amount_reads(s.claimable, user, amount, user);
    let s1 = s.set_claimable_reward(user, amount)->Ok_0;
    lemma_with_amount_reads(s1.claimable, user, 0, user);
}

} // verus!
