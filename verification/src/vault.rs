//! The vault contract as a state machine over its stored values: the
//! initialization settings, the per-account balances and claimable rewards,
//! the running total of deposits, the reward pool, and the log of published
//! events.

use vstd::prelude::*;
use crate::address::Address;
use crate::error::VaultError;
use crate::ledger::{
    Ledger, amount_of, with_amount, unique_keys, all_nonnegative, sum_amounts,
    lemma_with_amount_reads, lemma_sum_with_amount, lemma_with_amount_nonnegative,
    lemma_amount_within_sum,
};
use crate::rules::{
    require_initialized, initial_amounts, deposit_amounts, withdraw_amounts, claim_payout,
    deposit_amounts_spec, withdraw_amounts_spec, claim_payout_spec,
};
use crate::rewards::{calculate_pending_rewards, pending_rewards_spec};

verus! {

/// The addresses a vault is initialized with.
pub struct VaultSettings {
    pub admin: Seq<u8>,
    pub deposit_token: Seq<u8>,
    pub reward_token: Seq<u8>,
}

/// A published event, with addresses taken by their bytes.
pub enum EventRecord {
    Init { admin: Seq<u8> },
    Deposit { from: Seq<u8>, amount: i128 },
    Withdraw { to: Seq<u8>, amount: i128 },
    Claim { user: Seq<u8>, amount: i128 },
}

/// Everything a vault stores and has published.
#[verifier::ext_equal]
pub struct VaultState {
    /// `Some` once the vault is initialized.
    pub settings: Option<VaultSettings>,
    pub total_deposits: i128,
    pub reward_balance: i128,
    /// Deposited balance per account.
    pub balances: Seq<(Seq<u8>, i128)>,
    /// Claimable reward per account.
    pub claimable: Seq<(Seq<u8>, i128)>,
    /// Events published so far, oldest first.
    pub events: Seq<EventRecord>,
}

impl VaultState {
    /// A vault that nothing has been done to.
    pub open spec fn initial() -> VaultState {
        VaultState {
            settings: None,
            total_deposits: 0,
            reward_balance: 0,
            balances: Seq::empty(),
            claimable: Seq::empty(),
            events: Seq::empty(),
        }
    }

    pub open spec fn is_initialized(self) -> bool {
        self.settings is Some
    }

    /// The deposited balance of `user` (zero when never written).
    pub open spec fn balance_of(self, user: Seq<u8>) -> i128 {
        amount_of(self.balances, user)
    }

    /// The claimable reward of `user` (zero when never written).
    pub open spec fn claimable_of(self, user: Seq<u8>) -> i128 {
        amount_of(self.claimable, user)
    }

    /// The invariant every reachable vault keeps: one entry per account,
    /// no negative balance, a total equal to the sum of the balances, and
    /// nothing stored or published before initialization.
    pub open spec fn consistent(self) -> bool {
        &&& unique_keys(self.balances)
        &&& unique_keys(self.claimable)
        &&& all_nonnegative(self.balances)
        &&& self.total_deposits == sum_amounts(self.balances)
        &&& self.settings is None ==> {
            &&& self.balances.len() == 0
            &&& self.claimable.len() == 0
            &&& self.total_deposits == 0
            &&& self.reward_balance == 0
            &&& self.events.len() == 0
        }
    }

    /// `initialize`: records the three addresses, zeroes the total and the
    /// reward pool and publishes an init event, unless already initialized.
    pub open spec fn initialize(self, admin: Seq<u8>, deposit_token: Seq<u8>, reward_token: Seq<u8>) -> Result<VaultState, VaultError> {
        if self.is_initialized() {
            Err(VaultError::AlreadyInitialized)
        } else {
            Ok(VaultState {
                settings: Some(VaultSettings { admin, deposit_token, reward_token }),
                total_deposits: 0,
                reward_balance: 0,
                events: self.events.push(EventRecord::Init { admin }),
                ..self
            })
        }
    }

    /// `deposit`: the next state and the depositor's new balance.
    pub open spec fn deposit(self, from: Seq<u8>, amount: i128) -> Result<(VaultState, i128), VaultError> {
        if !self.is_initialized() {
            Err(VaultError::NotInitialized)
        } else {
            match deposit_amounts_spec(self.balance_of(from), self.total_deposits, amount) {
                Ok((balance, total)) => Ok((
                    VaultState {
                        balances: with_amount(self.balances, from, balance),
                        total_deposits: total,
                        events: self.events.push(EventRecord::Deposit { from, amount }),
                        ..self
                    },
                    balance,
                )),
                Err(e) => Err(e),
            }
        }
    }

    /// `withdraw`: the next state and the withdrawer's new balance.
    pub open spec fn withdraw(self, to: Seq<u8>, amount: i128) -> Result<(VaultState, i128), VaultError> {
        if !self.is_initialized() {
            Err(VaultError::NotInitialized)
        } else {
            match withdraw_amounts_spec(self.balance_of(to), self.total_deposits, amount) {
                Ok((balance, total)) => Ok((
                    VaultState {
                        balances: with_amount(self.balances, to, balance),
                        total_deposits: total,
                        events: self.events.push(EventRecord::Withdraw { to, amount }),
                        ..self
                    },
                    balance,
                )),
                Err(e) => Err(e),
            }
        }
    }

    /// `claim_rewards`: the next state and the amount paid out.
    pub open spec fn claim_rewards(self, user: Seq<u8>) -> Result<(VaultState, i128), VaultError> {
        if !self.is_initialized() {
            Err(VaultError::NotInitialized)
        } else {
            match claim_payout_spec(self.claimable_of(user)) {
                None => Ok((self, 0)),
                Some((paid, rest)) => Ok((
                    VaultState {
                        claimable: with_amount(self.claimable, user, rest),
                        events: self.events.push(EventRecord::Claim { user, amount: paid }),
                        ..self
                    },
                    paid,
                )),
            }
        }
    }

    /// `set_claimable_reward`: stores `amount` as the user's claimable reward.
    pub open spec fn set_claimable_reward(self, user: Seq<u8>, amount: i128) -> Result<VaultState, VaultError> {
        if !self.is_initialized() {
            Err(VaultError::NotInitialized)
        } else {
            Ok(VaultState { claimable: with_amount(self.claimable, user, amount), ..self })
        }
    }

    /// `set_reward_balance`: replaces the reward pool.
    pub open spec fn set_reward_balance(self, amount: i128) -> Result<VaultState, VaultError> {
        if !self.is_initialized() {
            Err(VaultError::NotInitialized)
        } else {
            Ok(VaultState { reward_balance: amount, ..self })
        }
    }

    /// `pending_rewards`: the user's proportional share of the reward pool.
    pub open spec fn pending_rewards(self, user: Seq<u8>) -> Result<i128, VaultError> {
        if !self.is_initialized() {
            Err(VaultError::NotInitialized)
        } else {
            Ok(pending_rewards_spec(self.balance_of(user), self.total_deposits, self.reward_balance))
        }
    }
}

/// A published event.
#[derive(Clone, Debug, PartialEq, Eq)]
pub enum VaultEvent {
    Init { admin: Address },
    Deposit { from: Address, amount: i128 },
    Withdraw { to: Address, amount: i128 },
    Claim { user: Address, amount: i128 },
}

impl View for VaultEvent {
    type V = EventRecord;

    open spec fn view(&self) -> EventRecord {
        match self {
            VaultEvent::Init { admin } => EventRecord::Init { admin: admin@ },
            VaultEvent::Deposit { from, amount } => EventRecord::Deposit { from: from@, amount: *amount },
            VaultEvent::Withdraw { to, amount } => EventRecord::Withdraw { to: to@, amount: *amount },
            VaultEvent::Claim { user, amount } => EventRecord::Claim { user: user@, amount: *amount },
        }
    }
}

struct Settings {
    admin: Address,
    deposit_token: Address,
    reward_token: Address,
}

/// A deposit vault: accounting of deposits per account, claimable rewards
/// per account and a reward pool, gated by a one-time initialization.
pub struct VaultContract {
    settings: Option<Settings>,
    total_deposits: i128,
    reward_balance: i128,
    balances: Ledger,
    claimable: Ledger,
    events: Vec<VaultEvent>,
}

impl View for VaultContract {
    type V = VaultState;

    closed spec fn view(&self) -> VaultState {
        VaultState {
            settings: match self.settings {
                Some(s) => Some(VaultSettings { admin: s.admin@, deposit_token: s.deposit_token@, reward_token: s.reward_token@ }),
                None => None,
            },
            total_deposits: self.total_deposits,
            reward_balance: self.reward_balance,
            balances: self.balances@,
            claimable: self.claimable@,
            events: Seq::new(self.events@.len(), |i: int| self.events@[i]@),
        }
    }
}

impl VaultContract {
    /// The vault's invariant, on its stored values.
    pub open spec fn wf(&self) -> bool {
        self@.consistent()
    }

    /// A fresh, uninitialized vault.
    pub fn new() -> (v: VaultContract)
        ensures
            v@ == VaultState::initial(),
            v.wf(),
    {
        let v = VaultContract {
            settings: None,
            total_deposits: 0,
            reward_balance: 0,
            balances: Ledger::new(),
            claimable: Ledger::new(),
            events: Vec::new(),
        };
        assert(v@ =~= VaultState::initial());
        v
    }

    fn publish(&mut self, event: VaultEvent)
        ensures
            final(self)@ == (VaultState { events: old(self)@.events.push(event@), ..old(self)@ }),
    {
        let ghost before = self@;
        let ghost e = event@;
        self.events.push(event);
        assert(self@ =~= (VaultState { events: before.events.push(e), ..before }));
    }

    /// Initializes the vault with its admin and its two tokens. Succeeds once;
    /// later calls fail with `AlreadyInitialized` and change nothing.
    pub fn initialize(&mut self, admin: Address, deposit_token: Address, reward_token: Address) -> (r: Result<(), VaultError>)
        requires
            old(self).wf(),
        ensures
            final(self).wf(),
            match old(self)@.initialize(admin@, deposit_token@, reward_token@) {
                Ok(s) => r == Ok::<(), VaultError>(()) && final(self)@ == s,
                Err(e) => r == Err::<(), VaultError>(e) && final(self)@ == old(self)@,
            },
    {
        let (total, pool) = match initial_amounts(self.settings.is_some()) {
            Ok(amounts) => amounts,
            Err(e) => return Err(e),
        };
        let event = VaultEvent::Init { admin: admin.duplicate() };
        self.settings = Some(Settings { admin, deposit_token, reward_token });
        self.total_deposits = total;
        self.reward_balance = pool;
        self.publish(event);
        Ok(())
    }

    /// Credits `amount` to `from` and to the vault's total, and returns the
    /// new balance of `from`.
    pub fn deposit(&mut self, from: Address, amount: i128) -> (r: Result<i128, VaultError>)
        requires
            old(self).wf(),
        ensures
            final(self).wf(),
            match old(self)@.deposit(from@, amount) {
                Ok((s, balance)) => r == Ok::<i128, VaultError>(balance) && final(self)@ == s,
                Err(e) => r == Err::<i128, VaultError>(e) && final(self)@ == old(self)@,
            },
    {
        if let Err(e) = require_initialized(self.settings.is_some()) {
            return Err(e);
        }
        let balance = self.balances.amount(&from);
        match deposit_amounts(balance, self.total_deposits, amount) {
            Err(e) => Err(e),
            Ok((new_balance, new_total)) => {
                proof {
                    lemma_amount_within_sum(self@.balances, from@);
                    lemma_with_amount_reads(self@.balances, from@, new_balance, from@);
                    lemma_sum_with_amount(self@.balances, from@, new_balance);
                    lemma_with_amount_nonnegative(self@.balances, from@, new_balance);
                }
                let event = VaultEvent::Deposit { from: from.duplicate(), amount };
                self.balances.set_amount(from, new_balance);
                self.total_deposits = new_total;
                self.publish(event);
                Ok(new_balance)
            },
        }
    }

    /// Debits `amount` from `to` and from the vault's total, and returns the
    /// new balance of `to`.
    pub fn withdraw(&mut self, to: Address, amount: i128) -> (r: Result<i128, VaultError>)
        requires
            old(self).wf(),
        ensures
            final(self).wf(),
            match old(self)@.withdraw(to@, amount) {
                Ok((s, balance)) => r == Ok::<i128, VaultError>(balance) && final(self)@ == s,
                Err(e) => r == Err::<i128, VaultError>(e) && final(self)@ == old(self)@,
            },
    {
        if let Err(e) = require_initialized(self.settings.is_some()) {
            return Err(e);
        }
        let balance = self.balances.amount(&to);
        match withdraw_amounts(balance, self.total_deposits, amount) {
            Err(e) => Err(e),
            Ok((new_balance, new_total)) => {
                proof {
                    lemma_with_amount_reads(self@.balances, to@, new_balance, to@);
                    lemma_sum_with_amount(self@.balances, to@, new_balance);
                    lemma_with_amount_nonnegative(self@.balances, to@, new_balance);
                }
                let event = VaultEvent::Withdraw { to: to.duplicate(), amount };
                self.balances.set_amount(to, new_balance);
                self.total_deposits = new_total;
                self.publish(event);
                Ok(new_balance)
            },
        }
    }

    /// Pays out the stored claimable reward of `user` and resets it to zero;
    /// pays zero, and changes nothing, when there is nothing to claim.
    pub fn claim_rewards(&mut self, user: Address) -> (r: Result<i128, VaultError>)
        requires
            old(self).wf(),
        ensures
            final(self).wf(),
            match old(self)@.claim_rewards(user@) {
                Ok((s, paid)) => r == Ok::<i128, VaultError>(paid) && final(self)@ == s,
                Err(e) => r == Err::<i128, VaultError>(e) && final(self)@ == old(self)@,
            },
    {
        if let Err(e) = require_initialized(self.settings.is_some()) {
            return Err(e);
        }
        let claimable = self.claimable.amount(&user);
        match claim_payout(claimable) {
            None => Ok(0),
            Some((paid, rest)) => {
                proof {
                    lemma_with_amount_reads(self@.claimable, user@, rest, user@);
                }
                let event = VaultEvent::Claim { user: user.duplicate(), amount: paid };
                self.claimable.set_amount(user, rest);
                self.publish(event);
                Ok(paid)
            },
        }
    }

    /// Stores `amount` as the claimable reward of `user`.
    pub fn set_claimable_reward(&mut self, user: Address, amount: i128) -> (r: Result<(), VaultError>)
        requires
            old(self).wf(),
        ensures
            final(self).wf(),
            match old(self)@.set_claimable_reward(user@, amount) {
                Ok(s) => r == Ok::<(), VaultError>(()) && final(self)@ == s,
                Err(e) => r == Err::<(), VaultError>(e) && final(self)@ == old(self)@,
            },
    {
        if let Err(e) = require_initialized(self.settings.is_some()) {
            return Err(e);
        }
        proof {
            lemma_with_amount_reads(self@.claimable, user@, amount, user@);
        }
        self.claimable.set_amount(user, amount);
        Ok(())
    }

    /// Replaces the vault's reward pool.
    pub fn set_reward_balance(&mut self, amount: i128) -> (r: Result<(), VaultError>)
        requires
            old(self).wf(),
        ensures
            final(self).wf(),
            match old(self)@.set_reward_balance(amount) {
                Ok(s) => r == Ok::<(), VaultError>(()) && final(self)@ == s,
                Err(e) => r == Err::<(), VaultError>(e) && final(self)@ == old(self)@,
            },
    {
        if let Err(e) = require_initialized(self.settings.is_some()) {
            return Err(e);
        }
        self.reward_balance = amount;
        Ok(())
    }

    /// Whether the vault has been initialized.
    pub fn is_initialized(&self) -> (r: bool)
        ensures
            r == self@.is_initialized(),
    {
        self.settings.is_some()
    }

    /// The admin address.
    pub fn admin(&self) -> (r: Result<Address, VaultError>)
        ensures
            match r {
                Ok(a) => self@.settings matches Some(s) && a@ == s.admin,
                Err(e) => e == VaultError::NotInitialized && self@.settings is None,
            },
    {
        match &self.settings {
            Some(s) => Ok(s.admin.duplicate()),
            None => Err(VaultError::NotInitialized),
        }
    }

    /// The owner of the vault, which is its admin.
    pub fn owner(&self) -> (r: Result<Address, VaultError>)
        ensures
            match r {
                Ok(a) => self@.settings matches Some(s) && a@ == s.admin,
                Err(e) => e == VaultError::NotInitialized && self@.settings is None,
            },
    {
        self.admin()
    }

    /// The address of the token accepted for deposits.
    pub fn deposit_token(&self) -> (r: Result<Address, VaultError>)
        ensures
            match r {
                Ok(a) => self@.settings matches Some(s) && a@ == s.deposit_token,
                Err(e) => e == VaultError::NotInitialized && self@.settings is None,
            },
    {
        match &self.settings {
            Some(s) => Ok(s.deposit_token.duplicate()),
            None => Err(VaultError::NotInitialized),
        }
    }

    /// The address of the token rewards are paid in.
    pub fn reward_token(&self) -> (r: Result<Address, VaultError>)
        ensures
            match r {
                Ok(a) => self@.settings matches Some(s) && a@ == s.reward_token,
                Err(e) => e == VaultError::NotInitialized && self@.settings is None,
            },
    {
        match &self.settings {
            Some(s) => Ok(s.reward_token.duplicate()),
            None => Err(VaultError::NotInitialized),
        }
    }

    /// The total amount deposited in the vault.
    pub fn total_deposits(&self) -> (r: Result<i128, VaultError>)
        ensures
            r == (if self@.is_initialized() {
                Ok::<i128, VaultError>(self@.total_deposits)
            } else {
                Err::<i128, VaultError>(VaultError::NotInitialized)
            }),
    {
        require_initialized(self.settings.is_some())?;
        Ok(self.total_deposits)
    }

    /// The deposited balance of `user` (zero for an account that never deposited).
    pub fn user_balance(&self, user: Address) -> (r: Result<i128, VaultError>)
        requires
            self.wf(),
        ensures
            r == (if self@.is_initialized() {
                Ok::<i128, VaultError>(self@.balance_of(user@))
            } else {
                Err::<i128, VaultError>(VaultError::NotInitialized)
            }),
    {
        require_initialized(self.settings.is_some())?;
        Ok(self.balances.amount(&user))
    }

    /// The share of the reward pool that the balance of `user` stands for.
    /// This is a view over the pool, not what `claim_rewards` pays.
    pub fn pending_rewards(&self, user: Address) -> (r: Result<i128, VaultError>)
        requires
            self.wf(),
        ensures
            r == self@.pending_rewards(user@),
    {
        require_initialized(self.settings.is_some())?;
        Ok(calculate_pending_rewards(self.balances.amount(&user), self.total_deposits, self.reward_balance))
    }

    /// The events published so far, oldest first.
    pub fn events(&self) -> (r: &[VaultEvent])
        ensures
            r@.len() == self@.events.len(),
            forall|i: int| 0 <= i < r@.len() ==> (#[trigger] r@[i])@ == self@.events[i],
    {
        self.events.as_slice()
    }
}

} // verus!
