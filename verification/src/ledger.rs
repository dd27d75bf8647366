//! The holders of funds that a request names, and the primitive that moves a
//! balance from one holder to another.

use vstd::prelude::*;
use crate::pubkey::Pubkey;

verus! {

/// A holder of funds known by its identity and its balance alone: a wallet,
/// or a pooled vault that keeps no record.
#[derive(Clone, Copy, Debug, PartialEq, Eq)]
pub struct SystemAccount {
    pub key: Pubkey,
    pub lamports: u64,
}

/// A wallet whose holder signed the request.
#[derive(Clone, Copy, Debug, PartialEq, Eq)]
pub struct Signer {
    pub key: Pubkey,
    pub lamports: u64,
}

/// A record that the store keeps under an identity, with the funds that rest
/// on it: the storage cost paid for it and, for a vault, the balance it
/// custodies.
#[derive(Clone, Copy, Debug, PartialEq, Eq)]
pub struct Account<T> {
    pub key: Pubkey,
    pub lamports: u64,
    pub data: T,
}

/// Why the host's value-transfer primitive refuses an operation.
#[derive(Clone, Copy, Debug, PartialEq, Eq)]
pub enum SystemError {
    /// An account was to be created where one already holds funds.
    AccountAlreadyInUse,
    /// The paying balance is smaller than the amount to move.
    ResultWithNegativeLamports,
}

/// Why a request failed: by a rule of the program that handled it, or by the
/// host's refusal to move funds.
#[derive(Clone, Copy, Debug, PartialEq, Eq)]
pub enum Failure<E> {
    Program(E),
    System(SystemError),
}

/// Moves `amount` from one balance to another, or moves nothing where the
/// first balance is short. The two balances together must fit the unit of
/// account, as the balances of one ledger do.
pub fn transfer(from: &mut u64, to: &mut u64, amount: u64) -> (moved: bool)
    requires
        *old(from) + *old(to) <= u64::MAX,
    ensures
        moved == (*old(from) >= amount),
        moved ==> *final(from) == *old(from) - amount && *final(to) == *old(to) + amount,
        !moved ==> *final(from) == *old(from) && *final(to) == *old(to),
{
    if *from < amount {
        return false;
    }
    *from = *from - amount;
    *to = *to + amount;
    true
}

/// The lamports with which a vault that keeps no record is opened: what the
/// host asks for an empty account, and never less than one.
pub open spec fn opening_lamports(rent_minimum: u64) -> u64 {
    if rent_minimum >= 1 {
        rent_minimum
    } else {
        1
    }
}

/// Computes the lamports with which a vault is opened.
pub fn opening_balance(rent_minimum: u64) -> (lamports: u64)
    ensures
        lamports == opening_lamports(rent_minimum),
{
    if rent_minimum >= 1 {
        rent_minimum
    } else {
        1
    }
}

} // verus!
