use vstd::prelude::*;

use crate::account::AccountId;
use crate::events::{Approval, Error, Event, Transfer};
use crate::table::{
    amount_at, has_key, keys_unique, lemma_lookup_within_sum, lemma_two_lookups_within_sum,
    locates, lookup, store, sum_values,
};

verus! {

/// An amount of the token.
pub type Balance = u128;

/// The ledger of one token: who holds how much, who may spend what on whose
/// behalf, and the audit events emitted so far.
///
/// The identity of the caller is handed to each operation by the host; the
/// events are recorded in order for the host to deliver.
pub struct Erc20 {
    name: String,
    symbol: String,
    total_supply: Balance,
    balances: Vec<(AccountId, Balance)>,
    allowances: Vec<((AccountId, AccountId), Balance)>,
    events: Vec<Event>,
}

/// Finds the entry of `a` in the balance table.
fn find_account(s: &Vec<(AccountId, Balance)>, a: &AccountId) -> (r: Option<usize>)
    ensures
        locates(s@, r, *a),
{
    let mut i: usize = 0;
    while i < s.len()
        invariant
            0 <= i <= s@.len(),
            forall|j: int| 0 <= j < i ==> s@[j].0 != *a,
        decreases s@.len() - i,
    {
        if s[i].0 == *a {
            return Some(i);
        }
        i = i + 1;
    }
    None
}

/// Finds the entry of the pair (`owner`, `spender`) in the allowance table.
fn find_grant(s: &Vec<((AccountId, AccountId), Balance)>, owner: &AccountId, spender: &AccountId) -> (r:
    Option<usize>)
    ensures
        locates(s@, r, (*owner, *spender)),
{
    let mut i: usize = 0;
    while i < s.len()
        invariant
            0 <= i <= s@.len(),
            forall|j: int| 0 <= j < i ==> s@[j].0 != (*owner, *spender),
        decreases s@.len() - i,
    {
        if s[i].0.0 == *owner && s[i].0.1 == *spender {
            return Some(i);
        }
        i = i + 1;
    }
    None
}

impl Erc20 {
    /// The total supply, as a number.
    pub closed spec fn supply(self) -> nat {
        self.total_supply as nat
    }

    /// The balance table: account and amount, one entry per account.
    pub closed spec fn holdings(self) -> Seq<(AccountId, u128)> {
        self.balances@
    }

    /// The allowance table: (owner, spender) and amount, one entry per pair.
    pub closed spec fn grants(self) -> Seq<((AccountId, AccountId), u128)> {
        self.allowances@
    }

    /// The events emitted so far, oldest first.
    pub closed spec fn log(self) -> Seq<Event> {
        self.events@
    }

    /// The token's name.
    pub closed spec fn name_view(self) -> Seq<char> {
        self.name@
    }

    /// The token's ticker symbol.
    pub closed spec fn symbol_view(self) -> Seq<char> {
        self.symbol@
    }

    /// What `a` holds; an account without an entry holds zero.
    pub open spec fn balance(self, a: AccountId) -> nat {
        lookup(self.holdings(), a)
    }

    /// What `spender` may still move out of `owner`'s balance.
    pub open spec fn allowance_of(self, owner: AccountId, spender: AccountId) -> nat {
        lookup(self.grants(), (owner, spender))
    }

    /// The ledger's invariant: one entry per key in each table, and the total
    /// supply equal to the sum of all balances.
    pub open spec fn wf(self) -> bool {
        &&& keys_unique(self.holdings())
        &&& keys_unique(self.grants())
        &&& self.supply() == sum_values(self.holdings())
    }

    /// Name and symbol are those of `other`.
    pub open spec fn same_descriptors(self, other: Erc20) -> bool {
        self.name_view() == other.name_view() && self.symbol_view() == other.symbol_view()
    }

    /// The balance of `a` once `value` has moved from `from` to `to`.
    pub open spec fn moved_balance(self, from: AccountId, to: AccountId, value: u128, a: AccountId) -> int {
        if a == from && a != to {
            self.balance(a) - value
        } else if a == to && a != from {
            self.balance(a) + value
        } else {
            self.balance(a) as int
        }
    }

    /// Creates the ledger with the whole `total_supply` credited to `caller`,
    /// recording the issuance as a transfer from no account.
    pub fn new(caller: AccountId, name: String, symbol: String, total_supply: Balance) -> (r: Self)
        ensures
            r.wf(),
            r.supply() == total_supply,
            forall|a: AccountId| #[trigger] r.balance(a) == if a == caller { total_supply as nat } else { 0 },
            forall|o: AccountId, s: AccountId| #[trigger] r.allowance_of(o, s) == 0,
            r.name_view() == name@,
            r.symbol_view() == symbol@,
            r.log() == seq![Event::Transfer(Transfer { from: None, to: Some(caller), value: total_supply })],
    {
        let mut balances: Vec<(AccountId, Balance)> = Vec::new();
        store(&mut balances, None, caller, total_supply);
        let mut events: Vec<Event> = Vec::new();
        events.push(Event::Transfer(Transfer { from: None, to: Some(caller), value: total_supply }));
        let allowances: Vec<((AccountId, AccountId), Balance)> = Vec::new();
        proof {
            assert(forall|k: (AccountId, AccountId)| !has_key(allowances@, k));
            assert(events@ =~= seq![Event::Transfer(Transfer { from: None, to: Some(caller), value: total_supply })]);
        }
        Erc20 { name, symbol, total_supply, balances, allowances, events }
    }

    /// Moves `value` from `from` to `to`. Fails, changing nothing, when
    /// `from` holds less than `value`.
    pub fn _transfer(&mut self, from: AccountId, to: AccountId, value: Balance) -> (r: Result<(), Error>)
        requires
            old(self).wf(),
        ensures
            final(self).wf(),
            r == if value <= old(self).balance(from) { Ok::<(), Error>(()) } else { Err(Error::InsufficientBalance) },
            r is Err ==> *final(self) == *old(self),
            r is Ok ==> {
                &&& forall|a: AccountId| #[trigger] final(self).balance(a) == old(self).moved_balance(from, to, value, a)
                &&& final(self).grants() == old(self).grants()
                &&& final(self).supply() == old(self).supply()
                &&& final(self).same_descriptors(*old(self))
                &&& final(self).log() == old(self).log().push(Event::Transfer(Transfer { from: Some(from), to: Some(to), value }))
            },
    {
        let ghost s0 = self.balances@;
        let pf = find_account(&self.balances, &from);
        let bf = amount_at(&self.balances, pf, Ghost(from));
        if value > bf {
            return Err(Error::InsufficientBalance);
        }
        proof {
            if from != to {
                lemma_two_lookups_within_sum(s0, from, to);
            }
        }
        store(&mut self.balances, pf, from, bf - value);
        let pt = find_account(&self.balances, &to);
        let bt = amount_at(&self.balances, pt, Ghost(to));
        store(&mut self.balances, pt, to, bt + value);
        self.events.push(Event::Transfer(Transfer { from: Some(from), to: Some(to), value }));
        Ok(())
    }

    /// The total supply.
    pub fn total_supply(&self) -> (r: Balance)
        ensures
            r == self.supply(),
    {
        self.total_supply
    }

    /// What `owner` holds, zero when it has no entry.
    pub fn balance_of(&self, owner: AccountId) -> (r: Balance)
        requires
            self.wf(),
        ensures
            r == self.balance(owner),
    {
        let p = find_account(&self.balances, &owner);
        amount_at(&self.balances, p, Ghost(owner))
    }

    /// The token's name, as set at construction.
    pub fn name(&self) -> (r: String)
        ensures
            r@ == self.name_view(),
    {
        self.name.clone()
    }

    /// The token's symbol, as set at construction.
    pub fn symbol(&self) -> (r: String)
        ensures
            r@ == self.symbol_view(),
    {
        self.symbol.clone()
    }

    /// The events emitted so far, oldest first.
    pub fn events(&self) -> (r: &Vec<Event>)
        ensures
            r@ == self.log(),
    {
        &self.events
    }

    /// Moves `value` from the caller to `to`.
    pub fn transfer(&mut self, caller: AccountId, to: AccountId, value: Balance) -> (r: Result<(), Error>)
        requires
            old(self).wf(),
        ensures
            final(self).wf(),
            r == if value <= old(self).balance(caller) { Ok::<(), Error>(()) } else { Err(Error::InsufficientBalance) },
            r is Err ==> *final(self) == *old(self),
            r is Ok ==> {
                &&& forall|a: AccountId| #[trigger] final(self).balance(a) == old(self).moved_balance(caller, to, value, a)
                &&& final(self).grants() == old(self).grants()
                &&& final(self).supply() == old(self).supply()
                &&& final(self).same_descriptors(*old(self))
                &&& final(self).log() == old(self).log().push(Event::Transfer(Transfer { from: Some(caller), to: Some(to), value }))
            },
    {
        self._transfer(caller, to, value)
    }

    /// The caller, as spender, moves `value` from `from` to `to` and uses up
    /// as much of what `from` allowed it. Both the allowance and the balance
    /// are checked before anything is written.
    pub fn transfer_from(&mut self, caller: AccountId, from: AccountId, to: AccountId, value: Balance) -> (r:
        Result<(), Error>)
        requires
            old(self).wf(),
        ensures
            final(self).wf(),
            r == if old(self).allowance_of(from, caller) < value {
                Err(Error::InsufficientAllowance)
            } else if old(self).balance(from) < value {
                Err(Error::InsufficientBalance)
            } else {
                Ok::<(), Error>(())
            },
            r is Err ==> *final(self) == *old(self),
            r is Ok ==> {
                &&& forall|a: AccountId| #[trigger] final(self).balance(a) == old(self).moved_balance(from, to, value, a)
                &&& forall|o: AccountId, sp: AccountId| #[trigger] final(self).allowance_of(o, sp) == if o == from && sp == caller {
                    old(self).allowance_of(o, sp) - value
                } else {
                    old(self).allowance_of(o, sp) as int
                }
                &&& final(self).supply() == old(self).supply()
                &&& final(self).same_descriptors(*old(self))
                &&& final(self).log() == old(self).log().push(Event::Transfer(Transfer { from: Some(from), to: Some(to), value }))
            },
    {
        let pg = find_grant(&self.allowances, &from, &caller);
        let allowance = amount_at(&self.allowances, pg, Ghost((from, caller)));
        if allowance < value {
            return Err(Error::InsufficientAllowance);
        }
        let pf = find_account(&self.balances, &from);
        let bf = amount_at(&self.balances, pf, Ghost(from));
        if value > bf {
            return Err(Error::InsufficientBalance);
        }
        store(&mut self.allowances, pg, (from, caller), allowance - value);
        self._transfer(from, to, value)
    }

    /// The caller lets `spender` move up to `value` out of its balance,
    /// replacing whatever it allowed before.
    pub fn approve(&mut self, caller: AccountId, spender: AccountId, value: Balance) -> (r: Result<(), Error>)
        requires
            old(self).wf(),
        ensures
            final(self).wf(),
            r == Ok::<(), Error>(()),
            forall|o: AccountId, sp: AccountId| #[trigger] final(self).allowance_of(o, sp) == if o == caller && sp == spender {
                value as nat
            } else {
                old(self).allowance_of(o, sp)
            },
            final(self).holdings() == old(self).holdings(),
            final(self).supply() == old(self).supply(),
            final(self).same_descriptors(*old(self)),
            final(self).log() == old(self).log().push(Event::Approval(Approval { owner: caller, spender, value })),
    {
        let pg = find_grant(&self.allowances, &caller, &spender);
        store(&mut self.allowances, pg, (caller, spender), value);
        self.events.push(Event::Approval(Approval { owner: caller, spender, value }));
        Ok(())
    }

    /// What `spender` may still move out of `owner`'s balance.
    pub fn allowance(&self, owner: AccountId, spender: AccountId) -> (r: Balance)
        requires
            self.wf(),
        ensures
            r == self.allowance_of(owner, spender),
    {
        let pg = find_grant(&self.allowances, &owner, &spender);
        amount_at(&self.allowances, pg, Ghost((owner, spender)))
    }

    /// Adds `value` to what `spender` may move out of the caller's balance.
    /// Fails, changing nothing, when the sum does not fit in a balance.
    pub fn increase_allowance(&mut self, caller: AccountId, spender: AccountId, value: Balance) -> (r: Result<
        (),
        Error,
    >)
        requires
            old(self).wf(),
        ensures
            final(self).wf(),
            r == if old(self).allowance_of(caller, spender) + value <= u128::MAX {
                Ok::<(), Error>(())
            } else {
                Err(Error::Overflow)
            },
            r is Err ==> *final(self) == *old(self),
            r is Ok ==> {
                &&& forall|o: AccountId, sp: AccountId| #[trigger] final(self).allowance_of(o, sp) == if o == caller && sp == spender {
                    old(self).allowance_of(o, sp) + value
                } else {
                    old(self).allowance_of(o, sp) as int
                }
                &&& final(self).holdings() == old(self).holdings()
                &&& final(self).supply() == old(self).supply()
                &&& final(self).same_descriptors(*old(self))
                &&& final(self).log() == old(self).log()
            },
    {
        let pg = find_grant(&self.allowances, &caller, &spender);
        let allowance = amount_at(&self.allowances, pg, Ghost((caller, spender)));
        if value > u128::MAX - allowance {
            return Err(Error::Overflow);
        }
        store(&mut self.allowances, pg, (caller, spender), allowance + value);
        Ok(())
    }

    /// Takes `value` off what `spender` may move out of the caller's balance.
    /// Fails, changing nothing, when less than `value` is allowed.
    pub fn decrease_allowance(&mut self, caller: AccountId, spender: AccountId, value: Balance) -> (r: Result<
        (),
        Error,
    >)
        requires
            old(self).wf(),
        ensures
            final(self).wf(),
            r == if value <= old(self).allowance_of(caller, spender) {
                Ok::<(), Error>(())
            } else {
                Err(Error::InsufficientAllowance)
            },
            r is Err ==> *final(self) == *old(self),
            r is Ok ==> {
                &&& forall|o: AccountId, sp: AccountId| #[trigger] final(self).allowance_of(o, sp) == if o == caller && sp == spender {
                    old(self).allowance_of(o, sp) - value
                } else {
                    old(self).allowance_of(o, sp) as int
                }
                &&& final(self).holdings() == old(self).holdings()
                &&& final(self).supply() == old(self).supply()
                &&& final(self).same_descriptors(*old(self))
                &&& final(self).log() == old(self).log()
            },
    {
        let pg = find_grant(&self.allowances, &caller, &spender);
        let allowance = amount_at(&self.allowances, pg, Ghost((caller, spender)));
        if allowance < value {
            return Err(Error::InsufficientAllowance);
        }
        store(&mut self.allowances, pg, (caller, spender), allowance - value);
        Ok(())
    }

    /// Creates `value` new tokens in `to`'s balance. Fails, changing nothing,
    /// when the total supply would no longer fit in a balance.
    pub fn _mint(&mut self, to: AccountId, value: Balance) -> (r: Result<(), Error>)
        requires
            old(self).wf(),
        ensures
            final(self).wf(),
            r == if old(self).supply() + value <= u128::MAX { Ok::<(), Error>(()) } else { Err(Error::Overflow) },
            r is Err ==> *final(self) == *old(self),
            r is Ok ==> {
                &&& forall|a: AccountId| #[trigger] final(self).balance(a) == if a == to {
                    old(self).balance(a) + value
                } else {
                    old(self).balance(a) as int
                }
                &&& final(self).grants() == old(self).grants()
                &&& final(self).supply() == old(self).supply() + value
                &&& final(self).same_descriptors(*old(self))
                &&& final(self).log() == old(self).log().push(Event::Transfer(Transfer { from: None, to: Some(to), value }))
            },
    {
        if value > u128::MAX - self.total_supply {
            return Err(Error::Overflow);
        }
        let pt = find_account(&self.balances, &to);
        let bt = amount_at(&self.balances, pt, Ghost(to));
        proof {
            lemma_lookup_within_sum(self.balances@, to);
        }
        store(&mut self.balances, pt, to, bt + value);
        self.total_supply = self.total_supply + value;
        self.events.push(Event::Transfer(Transfer { from: None, to: Some(to), value }));
        Ok(())
    }

    /// Destroys `value` tokens of `from`'s balance. Fails, changing nothing,
    /// when `from` holds less than `value`.
    pub fn _burn(&mut self, from: AccountId, value: Balance) -> (r: Result<(), Error>)
        requires
            old(self).wf(),
        ensures
            final(self).wf(),
            r == if value <= old(self).balance(from) { Ok::<(), Error>(()) } else { Err(Error::InsufficientBalance) },
            r is Err ==> *final(self) == *old(self),
            r is Ok ==> {
                &&& forall|a: AccountId| #[trigger] final(self).balance(a) == if a == from {
                    old(self).balance(a) - value
                } else {
                    old(self).balance(a) as int
                }
                &&& final(self).grants() == old(self).grants()
                &&& final(self).supply() == old(self).supply() - value
                &&& final(self).same_descriptors(*old(self))
                &&& final(self).log() == old(self).log().push(Event::Transfer(Transfer { from: Some(from), to: None, value }))
            },
    {
        let pf = find_account(&self.balances, &from);
        let bf = amount_at(&self.balances, pf, Ghost(from));
        if value > bf {
            return Err(Error::InsufficientBalance);
        }
        proof {
            lemma_lookup_within_sum(self.balances@, from);
        }
        store(&mut self.balances, pf, from, bf - value);
        self.total_supply = self.total_supply - value;
        self.events.push(Event::Transfer(Transfer { from: Some(from), to: None, value }));
        Ok(())
    }
}

/// Conservation: in a well-formed ledger, which every operation leaves behind,
/// the total supply is exactly the sum of all balances.
pub proof fn lemma_supply_is_sum_of_balances(l: Erc20)
    requires
        l.wf(),
    ensures
        l.supply() == sum_values(l.holdings()),
{
}

} // verus!
