//! Pure balance and allowance transitions of the token ledger.
//!
//! The surrounding contract environment reads state from storage, hands the
//! plain values to these functions, and writes the returned values back.
//! Every rule that decides whether a ledger operation succeeds, and with
//! what new state, lives here; storage access, caller authorization and
//! event publication stay with the host glue.

use vstd::prelude::*;

verus! {

/// The single failure channel of the token operations.
#[derive(Clone, Copy, Debug, PartialEq, Eq, Structural)]
pub enum TokenError {
    AlreadyInitializedError,
    UnauthorizedError,
    NegativeAmountError,
    AllowanceError,
    BalanceError,
    BalanceDeauthorizedError,
    OverflowError,
}

/// A user's balance together with its authorization flag. Deauthorized
/// balances may not spend or receive through the checked entry points.
#[derive(Clone, Copy, Debug, PartialEq, Eq, Structural)]
pub struct Balance {
    pub amount: i128,
    pub authorized: bool,
}

impl Balance {
    /// Succeeds exactly on an authorized balance.
    pub fn verify_authorization(&self) -> (res: Result<(), TokenError>)
        ensures
            res == if self.authorized {
                Ok::<(), TokenError>(())
            } else {
                Err::<(), TokenError>(TokenError::BalanceDeauthorizedError)
            },
    {
        match self.authorized {
            true => Ok(()),
            _ => Err(TokenError::BalanceDeauthorizedError),
        }
    }
}

/// Deduct `amount` from a balance, failing if the result would be
/// negative. The balance's authorization flag is untouched.
pub fn execute_spend_balance(balance: &Balance, amount: i128) -> (res: Result<
    Balance,
    TokenError,
>)
    requires
        i128::MIN <= balance.amount - amount <= i128::MAX,
    ensures
        balance.amount - amount < 0 ==> res == Err::<Balance, TokenError>(TokenError::BalanceError),
        balance.amount - amount >= 0 ==> res == Ok::<Balance, TokenError>(
            Balance { amount: (balance.amount - amount) as i128, authorized: balance.authorized },
        ),
{
    let new_amount = balance.amount - amount;
    if new_amount < 0 {
        return Err(TokenError::BalanceError);
    }
    Ok(Balance { amount: new_amount, authorized: balance.authorized })
}

/// Spend `amount` of tokens from a balance.
///
/// Errors if the balance is deauthorized or there is not enough balance to
/// spend.
pub fn spend_balance(balance: &Balance, amount: i128) -> (res: Result<Balance, TokenError>)
    requires
        i128::MIN <= balance.amount - amount <= i128::MAX,
    ensures
        !balance.authorized ==> res == Err::<Balance, TokenError>(
            TokenError::BalanceDeauthorizedError,
        ),
        balance.authorized && balance.amount - amount < 0 ==> res == Err::<Balance, TokenError>(
            TokenError::BalanceError,
        ),
        balance.authorized && balance.amount - amount >= 0 ==> res == Ok::<Balance, TokenError>(
            Balance { amount: (balance.amount - amount) as i128, authorized: balance.authorized },
        ),
{
    balance.verify_authorization()?;
    execute_spend_balance(balance, amount)
}

/// Spend `amount` of tokens from a balance without checking the state of
/// the balance. This should only be used when an administrator revokes
/// tokens from a user.
///
/// Errors if there is not enough balance to spend.
pub fn spend_balance_no_authorization_check(balance: &Balance, amount: i128) -> (res: Result<
    Balance,
    TokenError,
>)
    requires
        i128::MIN <= balance.amount - amount <= i128::MAX,
    ensures
        balance.amount - amount < 0 ==> res == Err::<Balance, TokenError>(TokenError::BalanceError),
        balance.amount - amount >= 0 ==> res == Ok::<Balance, TokenError>(
            Balance { amount: (balance.amount - amount) as i128, authorized: balance.authorized },
        ),
{
    execute_spend_balance(balance, amount)
}

/// Receive `amount` of tokens into a balance.
///
/// Errors if the balance is deauthorized or the new amount overflows.
pub fn receive_balance(balance: &Balance, amount: i128) -> (res: Result<Balance, TokenError>)
    ensures
        !balance.authorized ==> res == Err::<Balance, TokenError>(
            TokenError::BalanceDeauthorizedError,
        ),
        balance.authorized && !(i128::MIN <= balance.amount + amount <= i128::MAX) ==> res == Err::<
            Balance,
            TokenError,
        >(TokenError::OverflowError),
        balance.authorized && i128::MIN <= balance.amount + amount <= i128::MAX ==> res == Ok::<
            Balance,
            TokenError,
        >(Balance { amount: (balance.amount + amount) as i128, authorized: balance.authorized }),
{
    balance.verify_authorization()?;
    match balance.amount.checked_add(amount) {
        Some(new_amount) => Ok(Balance { amount: new_amount, authorized: balance.authorized }),
        None => Err(TokenError::OverflowError),
    }
}

/// Set the authorization state of a balance, leaving the amount unchanged.
pub fn update_balance_authorization(balance: &Balance, authorized: bool) -> (res: Balance)
    ensures
        res == (Balance { amount: balance.amount, authorized }),
{
    Balance { amount: balance.amount, authorized }
}

/// Succeeds exactly on a nonnegative amount; operations on user-supplied
/// amounts reject negative ones up front.
pub fn verify_nonnegative(amount: i128) -> (res: Result<(), TokenError>)
    ensures
        res == if amount >= 0 {
            Ok::<(), TokenError>(())
        } else {
            Err::<(), TokenError>(TokenError::NegativeAmountError)
        },
{
    if amount >= 0 {
        Ok(())
    } else {
        Err(TokenError::NegativeAmountError)
    }
}

/// Raise an allowance by `amount`, failing on overflow.
pub fn increase_allowance(allowance: i128, amount: i128) -> (res: Result<i128, TokenError>)
    requires
        amount >= 0,
    ensures
        allowance + amount > i128::MAX ==> res == Err::<i128, TokenError>(TokenError::OverflowError),
        allowance + amount <= i128::MAX ==> res == Ok::<i128, TokenError>(
            (allowance + amount) as i128,
        ),
{
    match allowance.checked_add(amount) {
        Some(new_allowance) => Ok(new_allowance),
        None => Err(TokenError::OverflowError),
    }
}

/// Consume `amount` of an allowance, failing if less than `amount` is
/// available.
pub fn spend_allowance(allowance: i128, amount: i128) -> (res: Result<i128, TokenError>)
    requires
        amount >= 0,
    ensures
        amount > allowance ==> res == Err::<i128, TokenError>(TokenError::AllowanceError),
        amount <= allowance ==> res == Ok::<i128, TokenError>((allowance - amount) as i128),
{
    if amount > allowance {
        return Err(TokenError::AllowanceError);
    }
    Ok(allowance - amount)
}

} // verus!
