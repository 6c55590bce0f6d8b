//! The decisions each entry point makes on the stored amounts, as functions
//! from plain values to plain values.

use vstd::prelude::*;
use crate::error::VaultError;

verus! {

/// Fails with `NotInitialized` unless the vault has been initialized.
pub fn require_initialized(initialized: bool) -> (r: Result<(), VaultError>)
    ensures
        r == (if initialized { Ok(()) } else { Err::<(), VaultError>(VaultError::NotInitialized) }),
{
    if !initialized {
        return Err(VaultError::NotInitialized);
    }
    Ok(())
}

/// The total of deposits and the reward pool that initialization stores,
/// or `AlreadyInitialized` when the vault has been initialized before.
pub open spec fn initial_amounts_spec(initialized: bool) -> Result<(i128, i128), VaultError> {
    if initialized {
        Err(VaultError::AlreadyInitialized)
    } else {
        Ok((0, 0))
    }
}

/// Decides an initialization: both stored amounts start at zero.
pub fn initial_amounts(initialized: bool) -> (r: Result<(i128, i128), VaultError>)
    ensures
        r == initial_amounts_spec(initialized),
{
    if initialized {
        return Err(VaultError::AlreadyInitialized);
    }
    Ok((0, 0))
}

/// The new balance and the new total after depositing `amount`, or why the
/// deposit is refused: a non-positive amount, or a balance or total that
/// would leave the range of `i128`.
pub open spec fn deposit_amounts_spec(balance: i128, total: i128, amount: i128) -> Result<(i128, i128), VaultError> {
    if amount <= 0 {
        Err(VaultError::InvalidAmount)
    } else if balance + amount > i128::MAX || balance + amount < i128::MIN {
        Err(VaultError::InvalidAmount)
    } else if total + amount > i128::MAX || total + amount < i128::MIN {
        Err(VaultError::InvalidAmount)
    } else {
        Ok(((balance + amount) as i128, (total + amount) as i128))
    }
}

/// Computes a deposit on the caller's balance and on the vault's total.
pub fn deposit_amounts(balance: i128, total: i128, amount: i128) -> (r: Result<(i128, i128), VaultError>)
    ensures
        r == deposit_amounts_spec(balance, total, amount),
{
    if amount <= 0 {
        return Err(VaultError::InvalidAmount);
    }
    let new_balance = match balance.checked_add(amount) {
        Some(v) => v,
        None => return Err(VaultError::InvalidAmount),
    };
    let new_total = match total.checked_add(amount) {
        Some(v) => v,
        None => return Err(VaultError::InvalidAmount),
    };
    Ok((new_balance, new_total))
}

/// The new balance and the new total after withdrawing `amount`, or why the
/// withdrawal is refused: a non-positive amount, an amount above the balance,
/// or a balance or total that would leave the range of `i128`.
pub open spec fn withdraw_amounts_spec(balance: i128, total: i128, amount: i128) -> Result<(i128, i128), VaultError> {
    if amount <= 0 {
        Err(VaultError::InvalidAmount)
    } else if amount > balance {
        Err(VaultError::InsufficientBalance)
    } else if balance - amount > i128::MAX || balance - amount < i128::MIN {
        Err(VaultError::InvalidAmount)
    } else if total - amount > i128::MAX || total - amount < i128::MIN {
        Err(VaultError::InvalidAmount)
    } else {
        Ok(((balance - amount) as i128, (total - amount) as i128))
    }
}

/// Computes a withdrawal from the caller's balance and from the vault's total.
pub fn withdraw_amounts(balance: i128, total: i128, amount: i128) -> (r: Result<(i128, i128), VaultError>)
    ensures
        r == withdraw_amounts_spec(balance, total, amount),
{
    if amount <= 0 {
        return Err(VaultError::InvalidAmount);
    }
    if amount > balance {
        return Err(VaultError::InsufficientBalance);
    }
    let new_balance = match balance.checked_sub(amount) {
        Some(v) => v,
        None => return Err(VaultError::InvalidAmount),
    };
    let new_total = match total.checked_sub(amount) {
        Some(v) => v,
        None => return Err(VaultError::InvalidAmount),
    };
    Ok((new_balance, new_total))
}

/// What a claim does: nothing when the stored claimable amount is zero;
/// otherwise it pays out the whole stored amount, given first, and leaves
/// the claimable amount given second, which is zero.
pub open spec fn claim_payout_spec(claimable: i128) -> Option<(i128, i128)> {
    if claimable == 0 { None } else { Some((claimable, 0)) }
}

/// Decides a claim on a stored claimable amount.
pub fn claim_payout(claimable: i128) -> (r: Option<(i128, i128)>)
    ensures
        r == claim_payout_spec(claimable),
{
    if claimable == 0 {
        None
    } else {
        Some((claimable, 0))
    }
}

} // verus!
