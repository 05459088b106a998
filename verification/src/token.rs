//! The share ledger: a capped, whitelist-gated fungible balance ledger
//! for one fund's ownership units.
//!
//! The ledger is an explicit state value. The host owns durable storage
//! and authorization: it keeps one `FundToken` per fund, proves that the
//! invoking principal is who it claims to be, and passes that principal
//! in as `caller` where an operation is admin-gated. `transfer` takes the
//! debited holder itself as the authorized principal.

use vstd::prelude::*;

verus! {

use crate::errors::TokenError;
use crate::holdings::{
    amount_sum, elems_unique, entries_nonneg, idset_add, idset_contains, idset_remove,
    keys_unique, lookup, table_get, table_set,
};

/// Display precision of a share balance, fixed for every ledger.
pub const DECIMAL: u32 = 7;

/// One fund's share ledger.
pub struct FundToken {
    /// Whether `initialize` has run; no operation precedes it.
    pub initialized: bool,
    /// Identity with exclusive rights to mint, pause, and manage the
    /// whitelist. Set once at initialization, immutable thereafter.
    pub admin_id: u64,
    /// Display name, non-empty once initialized.
    pub token_name: Vec<u8>,
    /// Display symbol, non-empty once initialized.
    pub token_symbol: Vec<u8>,
    /// Sum of all balances; never above `cap`.
    pub supply: i64,
    /// Positive supply ceiling, fixed at initialization.
    pub cap: i64,
    /// Per-holder balances; absent entries stand for 0.
    pub balances: Vec<(u64, i64)>,
    /// Identities permitted to receive units by mint or transfer.
    pub whitelist: Vec<u64>,
    /// While set, mint and transfer are rejected.
    pub pause_flag: bool,
}

impl FundToken {
    /// The balance of `a`: the recorded amount, or 0 when none is.
    #[verifier::inline]
    pub open spec fn spec_balance(self, a: u64) -> int {
        lookup(self.balances@, a)
    }

    /// Whether `a` may receive units.
    #[verifier::inline]
    pub open spec fn spec_whitelisted(self, a: u64) -> bool {
        self.whitelist@.contains(a)
    }

    /// The ledger invariant, true of every reachable state: the total
    /// supply equals the sum of all balances and lies between 0 and the
    /// cap, no balance is negative, and no holder has two entries.
    pub open spec fn inv(self) -> bool {
        &&& keys_unique(self.balances@)
        &&& entries_nonneg(self.balances@)
        &&& elems_unique(self.whitelist@)
        &&& self.initialized ==> {
            &&& self.cap > 0
            &&& 0 <= self.supply <= self.cap
            &&& amount_sum(self.balances@) == self.supply
            &&& self.token_name@.len() > 0
            &&& self.token_symbol@.len() > 0
        }
        &&& !self.initialized ==> {
            &&& self.balances@.len() == 0
            &&& self.whitelist@.len() == 0
            &&& self.supply == 0
            &&& !self.pause_flag
        }
    }

    /// A fresh, uninitialized ledger.
    pub fn new() -> (t: FundToken)
        ensures
            t.inv(),
            !t.initialized,
    {
        FundToken {
            initialized: false,
            admin_id: 0,
            token_name: Vec::new(),
            token_symbol: Vec::new(),
            supply: 0,
            cap: 0,
            balances: Vec::new(),
            whitelist: Vec::new(),
            pause_flag: false,
        }
    }

    /// Sets the administrator, names, and supply cap of a fresh ledger.
    /// The host must have proved the invoker is `admin`.
    pub fn initialize(
        &mut self,
        admin: u64,
        name: Vec<u8>,
        symbol: Vec<u8>,
        max_supply: i64,
    ) -> (r: Result<(), TokenError>)
        requires
            old(self).inv(),
        ensures
            final(self).inv(),
            r == (if old(self).initialized {
                Err::<(), TokenError>(TokenError::AlreadyInitialized)
            } else if max_supply <= 0 || name@.len() == 0 || symbol@.len() == 0 {
                Err::<(), TokenError>(TokenError::InvalidAmount)
            } else {
                Ok::<(), TokenError>(())
            }),
            r is Err ==> *final(self) == *old(self),
            r is Ok ==> {
                &&& final(self).initialized
                &&& final(self).admin_id == admin
                &&& final(self).token_name@ == name@
                &&& final(self).token_symbol@ == symbol@
                &&& final(self).supply == 0
                &&& final(self).cap == max_supply
                &&& final(self).balances@ == old(self).balances@
                &&& final(self).whitelist@ == old(self).whitelist@
                &&& !final(self).pause_flag
            },
    {
        if self.initialized {
            return Err(TokenError::AlreadyInitialized);
        }
        if max_supply <= 0 || name.len() == 0 || symbol.len() == 0 {
            return Err(TokenError::InvalidAmount);
        }
        self.initialized = true;
        self.admin_id = admin;
        self.token_name = name;
        self.token_symbol = symbol;
        self.supply = 0;
        self.cap = max_supply;
        self.pause_flag = false;
        Ok(())
    }

    /// Admits `address` to the whitelist. Admin-only; adding a member
    /// twice is a no-op success.
    pub fn whitelist_add(&mut self, caller: u64, address: u64) -> (r: Result<(), TokenError>)
        requires
            old(self).inv(),
            old(self).initialized,
        ensures
            final(self).inv(),
            final(self).initialized,
            r == (if caller != old(self).admin_id {
                Err::<(), TokenError>(TokenError::NotAdmin)
            } else {
                Ok::<(), TokenError>(())
            }),
            r is Err ==> *final(self) == *old(self),
            r is Ok ==> {
                &&& forall|y: u64|
                    final(self).spec_whitelisted(y) <==> (old(self).spec_whitelisted(y) || y
                        == address)
                &&& final(self).balances@ == old(self).balances@
                &&& final(self).supply == old(self).supply
                &&& final(self).same_config(*old(self))
            },
    {
        if caller != self.admin_id {
            return Err(TokenError::NotAdmin);
        }
        idset_add(&mut self.whitelist, address);
        Ok(())
    }

    /// Expels `address` from the whitelist. Admin-only; removing an
    /// address already absent succeeds and changes nothing.
    pub fn whitelist_remove(&mut self, caller: u64, address: u64) -> (r: Result<(), TokenError>)
        requires
            old(self).inv(),
            old(self).initialized,
        ensures
            final(self).inv(),
            final(self).initialized,
            r == (if caller != old(self).admin_id {
                Err::<(), TokenError>(TokenError::NotAdmin)
            } else {
                Ok::<(), TokenError>(())
            }),
            r is Err ==> *final(self) == *old(self),
            r is Ok ==> {
                &&& forall|y: u64|
                    final(self).spec_whitelisted(y) <==> (old(self).spec_whitelisted(y) && y
                        != address)
                &&& final(self).balances@ == old(self).balances@
                &&& final(self).supply == old(self).supply
                &&& final(self).same_config(*old(self))
            },
            caller == old(self).admin_id && !old(self).spec_whitelisted(address) ==> r is Ok
                && *final(self) == *old(self),
    {
        if caller != self.admin_id {
            return Err(TokenError::NotAdmin);
        }
        idset_remove(&mut self.whitelist, address);
        Ok(())
    }

    /// Whether `address` may receive units.
    pub fn is_whitelisted(&self, address: u64) -> (r: bool)
        ensures
            r == self.spec_whitelisted(address),
    {
        idset_contains(&self.whitelist, address)
    }

    /// Creates `amount` new units for `to`. Admin-only; rejected while
    /// paused, for a non-positive amount, for a recipient off the
    /// whitelist, and when the cap would be exceeded. All checks precede
    /// all mutation.
    pub fn mint(&mut self, caller: u64, to: u64, amount: i64) -> (r: Result<(), TokenError>)
        requires
            old(self).inv(),
            old(self).initialized,
        ensures
            final(self).inv(),
            final(self).initialized,
            r == (if caller != old(self).admin_id {
                Err::<(), TokenError>(TokenError::NotAdmin)
            } else if amount <= 0 {
                Err::<(), TokenError>(TokenError::InvalidAmount)
            } else if old(self).pause_flag {
                Err::<(), TokenError>(TokenError::Paused)
            } else if !old(self).spec_whitelisted(to) {
                Err::<(), TokenError>(TokenError::NotWhitelisted)
            } else if old(self).supply + amount > old(self).cap {
                Err::<(), TokenError>(TokenError::SupplyOverflow)
            } else {
                Ok::<(), TokenError>(())
            }),
            r is Err ==> *final(self) == *old(self),
            !old(self).spec_whitelisted(to) ==> *final(self) == *old(self),
            r is Ok ==> {
                &&& final(self).supply == old(self).supply + amount
                &&& final(self).spec_balance(to) == old(self).spec_balance(to) + amount
                &&& forall|a: u64|
                    a != to ==> final(self).spec_balance(a) == old(self).spec_balance(a)
                &&& final(self).whitelist@ == old(self).whitelist@
                &&& final(self).same_config(*old(self))
            },
    {
        if caller != self.admin_id {
            return Err(TokenError::NotAdmin);
        }
        if amount <= 0 {
            return Err(TokenError::InvalidAmount);
        }
        if self.pause_flag {
            return Err(TokenError::Paused);
        }
        if !self.is_whitelisted(to) {
            return Err(TokenError::NotWhitelisted);
        }
        if amount > self.cap - self.supply {
            return Err(TokenError::SupplyOverflow);
        }
        let current = table_get(&self.balances, to);
        proof {
            crate::holdings::lemma_lookup_bounds(self.balances@, to);
        }
        table_set(&mut self.balances, to, current + amount);
        self.supply = self.supply + amount;
        Ok(())
    }

    /// Moves `amount` units from `from` to `to`. The host must have
    /// proved the invoker is `from`; the recipient must be whitelisted
    /// (the sender's own membership is not re-checked, by design). The
    /// debit and credit land atomically: on any rejection nothing moves.
    pub fn transfer(&mut self, from: u64, to: u64, amount: i64) -> (r: Result<(), TokenError>)
        requires
            old(self).inv(),
            old(self).initialized,
        ensures
            final(self).inv(),
            final(self).initialized,
            r == (if amount <= 0 {
                Err::<(), TokenError>(TokenError::InvalidAmount)
            } else if old(self).pause_flag {
                Err::<(), TokenError>(TokenError::Paused)
            } else if !old(self).spec_whitelisted(to) {
                Err::<(), TokenError>(TokenError::NotWhitelisted)
            } else if old(self).spec_balance(from) < amount {
                Err::<(), TokenError>(TokenError::InsufficientBalance)
            } else {
                Ok::<(), TokenError>(())
            }),
            r is Err ==> *final(self) == *old(self),
            old(self).spec_balance(from) < amount ==> r is Err && *final(self) == *old(self),
            r is Ok ==> {
                &&& final(self).supply == old(self).supply
                &&& from != to ==> {
                    &&& final(self).spec_balance(from) == old(self).spec_balance(from) - amount
                    &&& final(self).spec_balance(to) == old(self).spec_balance(to) + amount
                }
                &&& from == to ==> forall|a: u64|
                    final(self).spec_balance(a) == old(self).spec_balance(a)
                &&& forall|a: u64|
                    a != from && a != to ==> final(self).spec_balance(a) == old(
                        self,
                    ).spec_balance(a)
                &&& final(self).whitelist@ == old(self).whitelist@
                &&& final(self).same_config(*old(self))
            },
    {
        if amount <= 0 {
            return Err(TokenError::InvalidAmount);
        }
        if self.pause_flag {
            return Err(TokenError::Paused);
        }
        if !self.is_whitelisted(to) {
            return Err(TokenError::NotWhitelisted);
        }
        let from_balance = table_get(&self.balances, from);
        if from_balance < amount {
            return Err(TokenError::InsufficientBalance);
        }
        table_set(&mut self.balances, from, from_balance - amount);
        let to_balance = table_get(&self.balances, to);
        proof {
            crate::holdings::lemma_lookup_bounds(self.balances@, to);
        }
        table_set(&mut self.balances, to, to_balance + amount);
        Ok(())
    }

    /// The balance of `address`, 0 when it never received units.
    pub fn balance(&self, address: u64) -> (r: i64)
        ensures
            r as int == self.spec_balance(address),
    {
        table_get(&self.balances, address)
    }

    /// The total number of units in circulation.
    pub fn total_supply(&self) -> (r: i64)
        ensures
            r == self.supply,
    {
        self.supply
    }

    /// The display name.
    pub fn name(&self) -> (r: &Vec<u8>)
        requires
            self.initialized,
        ensures
            r@ == self.token_name@,
    {
        &self.token_name
    }

    /// The display symbol.
    pub fn symbol(&self) -> (r: &Vec<u8>)
        requires
            self.initialized,
        ensures
            r@ == self.token_symbol@,
    {
        &self.token_symbol
    }

    /// The display precision.
    pub fn decimals(&self) -> (r: u32)
        requires
            self.initialized,
        ensures
            r == DECIMAL,
    {
        DECIMAL
    }

    /// The administrator's identity.
    pub fn admin(&self) -> (r: u64)
        requires
            self.initialized,
        ensures
            r == self.admin_id,
    {
        self.admin_id
    }

    /// Sets or clears the pause flag. Admin-only and unconditional.
    pub fn set_pause(&mut self, caller: u64, paused: bool) -> (r: Result<(), TokenError>)
        requires
            old(self).inv(),
            old(self).initialized,
        ensures
            final(self).inv(),
            final(self).initialized,
            r == (if caller != old(self).admin_id {
                Err::<(), TokenError>(TokenError::NotAdmin)
            } else {
                Ok::<(), TokenError>(())
            }),
            r is Err ==> *final(self) == *old(self),
            r is Ok ==> {
                &&& final(self).pause_flag == paused
                &&& final(self).balances@ == old(self).balances@
                &&& final(self).whitelist@ == old(self).whitelist@
                &&& final(self).supply == old(self).supply
                &&& final(self).admin_id == old(self).admin_id
                &&& final(self).cap == old(self).cap
                &&& final(self).token_name@ == old(self).token_name@
                &&& final(self).token_symbol@ == old(self).token_symbol@
            },
    {
        if caller != self.admin_id {
            return Err(TokenError::NotAdmin);
        }
        self.pause_flag = paused;
        Ok(())
    }

    /// Whether mint and transfer are currently rejected.
    pub fn is_paused(&self) -> (r: bool)
        ensures
            r == self.pause_flag,
    {
        self.pause_flag
    }

    /// The fixed supply ceiling.
    pub fn max_supply(&self) -> (r: i64)
        requires
            self.initialized,
        ensures
            r == self.cap,
    {
        self.cap
    }

    /// Everything a successful balance or whitelist operation leaves
    /// alone: the administrator, names, cap, and pause flag.
    pub open spec fn same_config(self, other: FundToken) -> bool {
        &&& self.admin_id == other.admin_id
        &&& self.cap == other.cap
        &&& self.pause_flag == other.pause_flag
        &&& self.token_name@ == other.token_name@
        &&& self.token_symbol@ == other.token_symbol@
    }
}

} // verus!
