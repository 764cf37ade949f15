//! The native token: free balances of accounts, with the two operations
//! the pallet performs on them, slashing and depositing into an existing
//! account.

use vstd::prelude::*;

use crate::storage::StorageMap;

verus! {

/// Why a deposit into an account was refused.
#[derive(Clone, Copy, Debug, PartialEq, Eq, Structural)]
pub enum CurrencyError {
    /// The account holds nothing, so it does not exist.
    DeadAccount,
    /// The new free balance would not fit.
    Overflow,
}

/// Free balances after slashing up to `value` from `who`: as much as the
/// account holds, and never more.
pub open spec fn slashed(free: Map<u64, u64>, who: u64, value: u64) -> Map<u64, u64> {
    free.insert(who, if free[who] >= value { (free[who] - value) as u64 } else { 0 })
}

/// Outcome of depositing `value` into the account `who`: nothing to do for
/// a zero value, refused for an account with no balance (it does not
/// exist) or where the balance would overflow.
pub open spec fn deposit_outcome(free: Map<u64, u64>, who: u64, value: u64) -> Result<
    (),
    CurrencyError,
> {
    if value == 0 {
        Ok(())
    } else if free[who] == 0 {
        Err(CurrencyError::DeadAccount)
    } else if free[who] + value > u64::MAX {
        Err(CurrencyError::Overflow)
    } else {
        Ok(())
    }
}

/// Free balances after depositing `value` into `who`, where the deposit is
/// accepted.
pub open spec fn deposited(free: Map<u64, u64>, who: u64, value: u64) -> Map<u64, u64> {
    if value != 0 && deposit_outcome(free, who, value) is Ok {
        free.insert(who, (free[who] + value) as u64)
    } else {
        free
    }
}

/// Free balances of the native token by account.
pub struct NativeCurrency {
    free: StorageMap<u64, u64>,
}

impl View for NativeCurrency {
    type V = Map<u64, u64>;

    closed spec fn view(&self) -> Map<u64, u64> {
        self.free@
    }
}

/// Every account has a free balance, zero where nothing was ever credited.
pub broadcast proof fn lemma_every_account_present(c: NativeCurrency, who: u64)
    ensures
        #[trigger] c@.dom().contains(who),
{
    crate::storage::lemma_every_key_present(c.free, who);
}

impl NativeCurrency {
    pub closed spec fn wf(&self) -> bool {
        self.free.wf()
    }

    /// A currency in which no account holds anything.
    pub fn new() -> (c: Self)
        ensures
            c.wf(),
            forall|who: u64| #[trigger] c@[who] == 0,
    {
        NativeCurrency { free: StorageMap::new(0) }
    }

    pub fn free_balance(&self, who: u64) -> (b: u64)
        requires
            self.wf(),
        ensures
            b == self@[who],
    {
        self.free.get(who)
    }

    /// Sets the free balance of `who`.
    pub fn make_free_balance_be(&mut self, who: u64, value: u64)
        requires
            old(self).wf(),
        ensures
            final(self).wf(),
            final(self)@ == old(self)@.insert(who, value),
    {
        self.free.insert(who, value);
    }

    /// Removes up to `value` from the free balance of `who`; returns the
    /// part of `value` that could not be taken.
    pub fn slash(&mut self, who: u64, value: u64) -> (remaining: u64)
        requires
            old(self).wf(),
        ensures
            final(self).wf(),
            final(self)@ == slashed(old(self)@, who, value),
            remaining == if old(self)@[who] >= value { 0 } else { value - old(self)@[who] },
    {
        let free = self.free.get(who);
        if free >= value {
            self.free.insert(who, free - value);
            0
        } else {
            self.free.insert(who, 0);
            value - free
        }
    }

    /// Adds `value` to the free balance of an account that exists.
    pub fn deposit_into_existing(&mut self, who: u64, value: u64) -> (r: Result<(), CurrencyError>)
        requires
            old(self).wf(),
        ensures
            final(self).wf(),
            r == deposit_outcome(old(self)@, who, value),
            final(self)@ == deposited(old(self)@, who, value),
    {
        if value == 0 {
            return Ok(());
        }
        let free = self.free.get(who);
        if free == 0 {
            return Err(CurrencyError::DeadAccount);
        }
        if free > u64::MAX - value {
            return Err(CurrencyError::Overflow);
        }
        self.free.insert(who, free + value);
        Ok(())
    }
}

} // verus!
