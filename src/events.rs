use vstd::prelude::*;

use crate::account::AccountId;

verus! {

/// A movement of value. `from` is absent for a mint, `to` for a burn.
#[derive(Clone, Copy, Debug, PartialEq, Eq)]
pub struct Transfer {
    pub from: Option<AccountId>,
    pub to: Option<AccountId>,
    pub value: u128,
}

/// An owner set what a spender may move out of its balance.
#[derive(Clone, Copy, Debug, PartialEq, Eq)]
pub struct Approval {
    pub owner: AccountId,
    pub spender: AccountId,
    pub value: u128,
}

/// An audit record, in the order the ledger emitted it.
#[derive(Clone, Copy, Debug, PartialEq, Eq)]
pub enum Event {
    Transfer(Transfer),
    Approval(Approval),
}

/// Why an operation was refused. A refused operation changes nothing.
#[derive(Clone, Copy, Debug, PartialEq, Eq, Structural)]
pub enum Error {
    /// The source account holds less than the amount to move.
    InsufficientBalance,
    /// The spender may move less than the amount asked for.
    InsufficientAllowance,
    /// The result would not fit in a balance.
    Overflow,
}

} // verus!
