//! Accounting core of a single-asset deposit vault with claimable rewards.
//!
//! `rules` holds the per-call decisions (what a deposit, a withdrawal or a
//! claim does to the stored amounts), `rewards` the proportional reward
//! formula, `ledger` and `address` the storage model, `vault` the whole
//! contract as a verified state machine, and `laws` the properties that hold
//! across its operations.

mod address;
mod calls;
mod error;
mod laws;
mod ledger;
mod rules;
mod rewards;
mod vault;

pub use address::Address;
pub use ledger::{
    has_key, key_index, amount_of, with_amount, unique_keys, all_nonnegative, sum_amounts,
    lemma_entry_is_found, lemma_with_amount_reads, lemma_sum_after_update, lemma_sum_with_amount,
    lemma_with_amount_nonnegative, lemma_entry_within_sum, lemma_sum_nonnegative, lemma_amount_within_sum,
};
pub use calls::{
    VaultCall, query_outcome, outcome_of, apply_call, run_calls, state_before, outcome_at, initializes_at,
};
pub use error::VaultError;
pub use rules::{
    require_initialized, initial_amounts, initial_amounts_spec, deposit_amounts, withdraw_amounts, claim_payout,
    deposit_amounts_spec, withdraw_amounts_spec, claim_payout_spec,
};
pub use vault::{VaultContract, VaultEvent, VaultState, VaultSettings, EventRecord};
pub use rewards::{calculate_pending_rewards, pending_rewards_spec};
pub use laws::{
    law_initialize_only_once, law_settings_are_permanent, law_uninitialized_vault_refuses,
    law_balance_within_total, law_deposit_refusals, law_withdraw_refusals,
    law_deposit_then_withdraw_restores, law_other_accounts_untouched, law_claim_is_not_repeated,
    law_reward_operations_leave_deposits,
    law_initialization_over_calls,
    law_pending_reward_is_floor_of_share, law_vault_pending_reward_is_share, law_deposit_result,
    law_withdraw_result, law_set_reward_balance_replaces_pool, law_set_claimable_reward_replaces_amount,
    law_pending_share_within_pool, law_pending_shares_do_not_exceed_pool,
};
