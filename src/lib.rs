//! A fungible-token ledger: balances, delegated allowances and a total
//! supply, changed only by value-conserving operations.

mod account;
mod events;
mod ledger;
mod table;

pub use account::AccountId;
pub use events::{Approval, Error, Event, Transfer};
pub use ledger::{lemma_supply_is_sum_of_balances, Balance, Erc20};
pub use table::{has_key, keys_unique, lookup, sum_values};
