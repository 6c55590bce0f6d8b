use axionvera_vault_contract::{Address, VaultContract, VaultError, VaultEvent};

fn addr(tag: &str) -> Address {
    Address::from_bytes(tag.as_bytes().to_vec())
}

fn test_admin() -> Address {
    addr("admin")
}

fn test_deposit_token() -> Address {
    addr("deposit-token")
}

fn test_reward_token() -> Address {
    addr("reward-token")
}

/// An initialized vault and its admin.
fn setup() -> (VaultContract, Address) {
    let mut vault = VaultContract::new();
    vault
        .initialize(test_admin(), test_deposit_token(), test_reward_token())
        .unwrap();
    (vault, test_admin())
}

fn setup_uninitialized() -> VaultContract {
    VaultContract::new()
}

/// The events published since `from` events had been published.
fn events_since(vault: &VaultContract, from: usize) -> Vec<VaultEvent> {
    vault.events()[from..].to_vec()
}

// A. REPEATED INITIALIZATION

#[test]
fn rejects_repeated_initialization() {
    let (mut vault, admin) = setup();
    let result = vault.initialize(admin, addr("other-1"), addr("other-2"));
    assert_eq!(result.unwrap_err(), VaultError::AlreadyInitialized);
}

#[test]
fn reinitialize_does_not_overwrite_admin() {
    let (mut vault, original_admin) = setup();
    let attacker = addr("attacker");
    let _ = vault.initialize(attacker, addr("other-1"), addr("other-2"));
    assert_eq!(vault.admin(), Ok(original_admin));
}

#[test]
fn reinitialize_does_not_corrupt_state() {
    let mut vault = VaultContract::new();
    let admin = test_admin();
    let deposit_token = test_deposit_token();
    let reward_token = test_reward_token();
    vault
        .initialize(admin.clone(), deposit_token.clone(), reward_token.clone())
        .unwrap();

    assert!(vault.is_initialized());
    assert_eq!(vault.deposit_token(), Ok(deposit_token.clone()));
    assert_eq!(vault.reward_token(), Ok(reward_token.clone()));
    assert_eq!(vault.total_deposits(), Ok(0));

    let _ = vault.initialize(addr("admin-2"), addr("deposit-token-2"), addr("reward-token-2"));

    assert!(vault.is_initialized());
    assert_eq!(vault.admin(), Ok(admin));
    assert_eq!(vault.deposit_token(), Ok(deposit_token));
    assert_eq!(vault.reward_token(), Ok(reward_token));
    assert_eq!(vault.total_deposits(), Ok(0));
}

// B. UNINITIALIZED PROTECTED METHODS

#[test]
fn persists_admin_after_initialization() {
    let (vault, admin) = setup();
    assert_eq!(vault.admin(), Ok(admin));
}

#[test]
fn repeated_initialization_cannot_overwrite_admin() {
    let (mut vault, admin) = setup();
    let other_admin = addr("other-admin");
    let result = vault.initialize(other_admin, addr("other-1"), addr("other-2"));
    assert_eq!(result.unwrap_err(), VaultError::AlreadyInitialized);
    assert_eq!(vault.admin(), Ok(admin));
}

#[test]
fn rejects_uninitialized_usage() {
    let mut vault = setup_uninitialized();
    let user = addr("user");
    assert_eq!(vault.deposit(user, 0).unwrap_err(), VaultError::NotInitialized);
}

#[test]
fn deposit_rejected_before_initialization() {
    let mut vault = setup_uninitialized();
    assert_eq!(vault.deposit(addr("user"), 100).unwrap_err(), VaultError::NotInitialized);
}

#[test]
fn withdraw_rejected_before_initialization() {
    let mut vault = setup_uninitialized();
    assert_eq!(vault.withdraw(addr("user"), 100).unwrap_err(), VaultError::NotInitialized);
}

#[test]
fn claim_rewards_rejected_before_initialization() {
    let mut vault = setup_uninitialized();
    assert_eq!(vault.claim_rewards(addr("user")).unwrap_err(), VaultError::NotInitialized);
}

#[test]
fn set_claimable_reward_rejected_before_initialization() {
    let mut vault = setup_uninitialized();
    assert_eq!(
        vault.set_claimable_reward(addr("user"), 100).unwrap_err(),
        VaultError::NotInitialized
    );
}

#[test]
fn set_reward_balance_rejected_before_initialization() {
    let mut vault = setup_uninitialized();
    assert_eq!(vault.set_reward_balance(500).unwrap_err(), VaultError::NotInitialized);
}

#[test]
fn deposit_token_query_rejected_before_initialization() {
    let vault = setup_uninitialized();
    assert_eq!(vault.deposit_token().unwrap_err(), VaultError::NotInitialized);
}

#[test]
fn reward_token_query_rejected_before_initialization() {
    let vault = setup_uninitialized();
    assert_eq!(vault.reward_token().unwrap_err(), VaultError::NotInitialized);
}

#[test]
fn total_deposits_query_rejected_before_initialization() {
    let vault = setup_uninitialized();
    assert_eq!(vault.total_deposits().unwrap_err(), VaultError::NotInitialized);
}

#[test]
fn user_balance_query_rejected_before_initialization() {
    let vault = setup_uninitialized();
    assert_eq!(vault.user_balance(addr("user")).unwrap_err(), VaultError::NotInitialized);
}

#[test]
fn pending_rewards_query_rejected_before_initialization() {
    let vault = setup_uninitialized();
    assert_eq!(vault.pending_rewards(addr("user")).unwrap_err(), VaultError::NotInitialized);
}

#[test]
fn failed_protected_call_does_not_initialize_vault() {
    let mut vault = setup_uninitialized();
    let user = addr("user");
    let _ = vault.deposit(user.clone(), 100);
    let _ = vault.withdraw(user.clone(), 100);
    let _ = vault.claim_rewards(user);
    let _ = vault.total_deposits();
    assert!(!vault.is_initialized());
}

// C. OWNER / ADMIN QUERY BEFORE INITIALIZATION

#[test]
fn admin_query_rejected_before_initialization() {
    let vault = setup_uninitialized();
    assert_eq!(vault.admin().unwrap_err(), VaultError::NotInitialized);
}

#[test]
fn owner_query_rejected_before_initialization() {
    let vault = setup_uninitialized();
    assert_eq!(vault.owner().unwrap_err(), VaultError::NotInitialized);
}

#[test]
fn owner_returns_admin_after_initialization() {
    let (vault, admin) = setup();
    assert_eq!(vault.owner(), Ok(admin));
}

#[test]
fn is_initialized_returns_false_before_initialization() {
    let vault = setup_uninitialized();
    assert!(!vault.is_initialized());
}

// D. VALID INITIALIZATION

#[test]
fn initialize_succeeds_with_valid_inputs() {
    let mut vault = VaultContract::new();
    let admin = test_admin();
    let deposit_token = test_deposit_token();
    let reward_token = test_reward_token();

    vault
        .initialize(admin.clone(), deposit_token.clone(), reward_token.clone())
        .unwrap();

    assert!(vault.is_initialized());
    assert_eq!(vault.admin(), Ok(admin));
    assert_eq!(vault.deposit_token(), Ok(deposit_token));
    assert_eq!(vault.reward_token(), Ok(reward_token));
}

#[test]
fn initialize_persists_admin_correctly() {
    let mut vault = VaultContract::new();
    let admin = test_admin();
    vault
        .initialize(admin.clone(), test_deposit_token(), test_reward_token())
        .unwrap();
    assert_eq!(vault.admin(), Ok(admin));
}

#[test]
fn initialize_persists_tokens_correctly() {
    let mut vault = VaultContract::new();
    let deposit_token = test_deposit_token();
    let reward_token = test_reward_token();
    vault
        .initialize(test_admin(), deposit_token.clone(), reward_token.clone())
        .unwrap();
    assert_eq!(vault.deposit_token(), Ok(deposit_token));
    assert_eq!(vault.reward_token(), Ok(reward_token));
}

#[test]
fn initialize_sets_total_deposits_to_zero() {
    let (vault, _) = setup();
    assert_eq!(vault.total_deposits(), Ok(0));
}

#[test]
fn is_initialized_returns_true_after_initialization() {
    let (vault, _) = setup();
    assert!(vault.is_initialized());
}

// G. STATE INTEGRITY AFTER FAILED CALLS

#[test]
fn reinitialize_does_not_reset_total_deposits() {
    let (mut vault, admin) = setup();
    let user = addr("user");
    vault.deposit(user, 42).unwrap();
    assert_eq!(vault.total_deposits(), Ok(42));

    let _ = vault.initialize(admin, addr("other-1"), addr("other-2"));

    assert_eq!(vault.total_deposits(), Ok(42));
}

#[test]
fn reinitialize_does_not_reset_user_balance() {
    let (mut vault, admin) = setup();
    let user = addr("user");
    vault.deposit(user.clone(), 99).unwrap();
    assert_eq!(vault.user_balance(user.clone()), Ok(99));

    let _ = vault.initialize(admin, addr("other-1"), addr("other-2"));

    assert_eq!(vault.user_balance(user), Ok(99));
}

#[test]
fn reinitialize_does_not_reset_claimable_rewards() {
    let (mut vault, admin) = setup();
    let user = addr("user");
    vault.set_claimable_reward(user.clone(), 77).unwrap();

    let _ = vault.initialize(admin, addr("other-1"), addr("other-2"));

    assert_eq!(vault.claim_rewards(user), Ok(77));
}

// Deposits, withdrawals and rewards

#[test]
fn rejects_invalid_amounts_and_insufficient_balance() {
    let (mut vault, _) = setup();
    let user = addr("user");
    assert_eq!(vault.deposit(user.clone(), 0).unwrap_err(), VaultError::InvalidAmount);
    assert_eq!(vault.withdraw(user.clone(), 1).unwrap_err(), VaultError::InsufficientBalance);
    vault.deposit(user.clone(), 10).unwrap();
    assert_eq!(vault.withdraw(user.clone(), 11).unwrap_err(), VaultError::InsufficientBalance);
    assert_eq!(vault.withdraw(user, 0).unwrap_err(), VaultError::InvalidAmount);
}

#[test]
fn tracks_deposits_and_claims_rewards() {
    let (mut vault, _) = setup();
    let user = addr("user");
    assert_eq!(vault.deposit(user.clone(), 10), Ok(10));
    assert_eq!(vault.total_deposits(), Ok(10));
    assert_eq!(vault.withdraw(user.clone(), 4), Ok(6));
    assert_eq!(vault.total_deposits(), Ok(6));

    assert_eq!(vault.claim_rewards(user.clone()), Ok(0));

    vault.set_claimable_reward(user.clone(), 100).unwrap();
    assert_eq!(vault.claim_rewards(user.clone()), Ok(100));

    assert_eq!(vault.claim_rewards(user), Ok(0));
}

#[test]
fn pending_rewards_are_proportional_to_deposit_share() {
    let (mut vault, _) = setup();
    let user_a = addr("user-a");
    let user_b = addr("user-b");

    vault.deposit(user_a.clone(), 500).unwrap();
    vault.deposit(user_b.clone(), 500).unwrap();
    vault.set_reward_balance(200).unwrap();

    assert_eq!(vault.pending_rewards(user_a), Ok(100));
    assert_eq!(vault.pending_rewards(user_b), Ok(100));
}

#[test]
fn pending_rewards_are_zero_when_total_deposits_are_zero() {
    let (mut vault, _) = setup();
    let user = addr("user");
    vault.set_reward_balance(200).unwrap();
    assert_eq!(vault.pending_rewards(user.clone()), Ok(0));
    assert_eq!(vault.claim_rewards(user), Ok(0));
}

#[test]
fn zero_user_balance_returns_zero_reward() {
    let (mut vault, _) = setup();
    let depositor = addr("depositor");
    let user = addr("user");
    vault.deposit(depositor, 1000).unwrap();
    vault.set_reward_balance(200).unwrap();
    assert_eq!(vault.user_balance(user.clone()), Ok(0));
    assert_eq!(vault.pending_rewards(user), Ok(0));
}

#[test]
fn large_values_do_not_overflow() {
    let (mut vault, _) = setup();
    let user = addr("user");
    let large = 10_000_000_000_000_000_000_i128;
    vault.deposit(user.clone(), large).unwrap();
    vault.set_reward_balance(large).unwrap();
    assert_eq!(vault.pending_rewards(user.clone()), Ok(large));
    vault.set_reward_balance(i128::MAX).unwrap();
    assert_eq!(vault.pending_rewards(user), Ok(0));
}

#[test]
fn repeated_claim_does_not_duplicate_rewards() {
    let (mut vault, _) = setup();
    let user = addr("user");
    vault.deposit(user.clone(), 500).unwrap();
    vault.set_claimable_reward(user.clone(), 100).unwrap();
    assert_eq!(vault.claim_rewards(user.clone()), Ok(100));
    assert_eq!(vault.claim_rewards(user.clone()), Ok(0));
    assert_eq!(vault.claim_rewards(user.clone()), Ok(0));
    assert_eq!(vault.user_balance(user), Ok(500));
    assert_eq!(vault.total_deposits(), Ok(500));
}

#[test]
fn user_without_balance_cannot_claim_reward() {
    let (mut vault, _) = setup();
    let depositor = addr("depositor");
    let user = addr("user");
    vault.deposit(depositor, 1000).unwrap();
    vault.set_reward_balance(200).unwrap();
    assert_eq!(vault.user_balance(user.clone()), Ok(0));
    assert_eq!(vault.claim_rewards(user), Ok(0));
}

#[test]
fn valid_user_receives_expected_reward() {
    let (mut vault, _) = setup();
    let user = addr("user");
    vault.deposit(user.clone(), 1000).unwrap();
    vault.set_reward_balance(100).unwrap();
    assert_eq!(vault.pending_rewards(user.clone()), Ok(100));
    vault.set_claimable_reward(user.clone(), 100).unwrap();
    assert_eq!(vault.claim_rewards(user.clone()), Ok(100));
    assert_eq!(vault.claim_rewards(user), Ok(0));
}

// Events

#[test]
fn initialize_emits_stable_init_event() {
    let mut vault = VaultContract::new();
    let admin = addr("admin");
    vault.initialize(admin.clone(), addr("token-1"), addr("token-2")).unwrap();
    assert_eq!(vault.events().to_vec(), vec![VaultEvent::Init { admin }]);
}

#[test]
fn deposit_emits_stable_deposit_event() {
    let (mut vault, _) = setup();
    let user = addr("user");
    let amount = 42_i128;
    let before = vault.events().len();
    vault.deposit(user.clone(), amount).unwrap();
    assert_eq!(
        events_since(&vault, before),
        vec![VaultEvent::Deposit { from: user, amount }]
    );
}

#[test]
fn withdraw_emits_stable_withdraw_event() {
    let (mut vault, _) = setup();
    let user = addr("user");
    let withdraw_amount = 37_i128;
    vault.deposit(user.clone(), 100).unwrap();
    let before = vault.events().len();
    vault.withdraw(user.clone(), withdraw_amount).unwrap();
    assert_eq!(
        events_since(&vault, before),
        vec![VaultEvent::Withdraw { to: user, amount: withdraw_amount }]
    );
}

#[test]
fn claim_rewards_emits_stable_claim_event() {
    let (mut vault, _) = setup();
    let user = addr("user");
    let claimable = 250_i128;
    vault.set_claimable_reward(user.clone(), claimable).unwrap();
    let before = vault.events().len();
    vault.claim_rewards(user.clone()).unwrap();
    assert_eq!(
        events_since(&vault, before),
        vec![VaultEvent::Claim { user, amount: claimable }]
    );
}

#[test]
fn failed_deposit_does_not_emit_event() {
    let (mut vault, _) = setup();
    let before = vault.events().len();
    let _ = vault.deposit(addr("user"), 0);
    assert!(events_since(&vault, before).is_empty());
}

#[test]
fn failed_withdraw_does_not_emit_event() {
    let (mut vault, _) = setup();
    let before = vault.events().len();
    let _ = vault.withdraw(addr("user"), 1);
    assert!(events_since(&vault, before).is_empty());
}

#[test]
fn claim_rewards_with_zero_claimable_does_not_emit_event() {
    let (mut vault, _) = setup();
    let before = vault.events().len();
    vault.claim_rewards(addr("user")).unwrap();
    assert!(events_since(&vault, before).is_empty());
}

#[test]
fn failed_deposit_on_uninitialized_contract_does_not_emit_event() {
    let mut vault = setup_uninitialized();
    let _ = vault.deposit(addr("user"), 10);
    assert!(vault.events().is_empty());
}

#[test]
fn full_lifecycle_emits_expected_events_per_step() {
    let (mut vault, _) = setup();
    let user = addr("user");
    let deposit_amount = 100_i128;
    let withdraw_amount = 25_i128;
    let claimable = 50_i128;

    let before = vault.events().len();
    vault.deposit(user.clone(), deposit_amount).unwrap();
    assert_eq!(
        events_since(&vault, before),
        vec![VaultEvent::Deposit { from: user.clone(), amount: deposit_amount }]
    );

    let before = vault.events().len();
    vault.withdraw(user.clone(), withdraw_amount).unwrap();
    assert_eq!(
        events_since(&vault, before),
        vec![VaultEvent::Withdraw { to: user.clone(), amount: withdraw_amount }]
    );

    let before = vault.events().len();
    vault.set_claimable_reward(user.clone(), claimable).unwrap();
    vault.claim_rewards(user.clone()).unwrap();
    assert_eq!(
        events_since(&vault, before),
        vec![VaultEvent::Claim { user, amount: claimable }]
    );
}

#[test]
fn multi_user_accounting_maintains_consistent_total_deposits() {
    let (mut vault, _) = setup();
    let user_a = addr("user-a");
    let user_b = addr("user-b");

    vault.deposit(user_a.clone(), 100).unwrap();
    assert_eq!(vault.user_balance(user_a.clone()), Ok(100));
    assert_eq!(vault.total_deposits(), Ok(100));

    vault.deposit(user_b.clone(), 200).unwrap();
    assert_eq!(vault.user_balance(user_b.clone()), Ok(200));
    assert_eq!(vault.total_deposits(), Ok(300));

    vault.deposit(user_a.clone(), 50).unwrap();
    assert_eq!(vault.user_balance(user_a.clone()), Ok(150));
    assert_eq!(vault.total_deposits(), Ok(350));

    vault.withdraw(user_b.clone(), 50).unwrap();
    assert_eq!(vault.user_balance(user_b.clone()), Ok(150));
    assert_eq!(vault.total_deposits(), Ok(300));

    vault.withdraw(user_a.clone(), 150).unwrap();
    assert_eq!(vault.user_balance(user_a.clone()), Ok(0));
    assert_eq!(vault.total_deposits(), Ok(150));

    let _ = vault.withdraw(user_b.clone(), 1000);
    assert_eq!(vault.user_balance(user_b.clone()), Ok(150));
    assert_eq!(vault.total_deposits(), Ok(150));

    assert_eq!(vault.user_balance(user_a), Ok(0));
    assert_eq!(vault.user_balance(user_b), Ok(150));
}
