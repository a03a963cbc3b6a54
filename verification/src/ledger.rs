//! The balance ledger: the table from registered account to balance, with
//! deposit, withdraw and an atomic transfer. Every failing call leaves the
//! table exactly as it was.

use crate::errors::TokenError;
use crate::idmap::IdMap;
use crate::ids::AccountId;
use vstd::prelude::*;

verus! {

/// The error, if any, with which a transfer of `amount` from `from` to `to`
/// against the balances `m` is rejected. Checks are made in this order:
/// self-transfer, zero amount, registration of both parties, solvency.
pub open spec fn transfer_error(
    m: Map<Seq<u8>, u128>,
    from: Seq<u8>,
    to: Seq<u8>,
    amount: u128,
) -> Option<TokenError> {
    if from == to {
        Some(TokenError::SelfTransferNotAllowed)
    } else if amount == 0 {
        Some(TokenError::ZeroAmount)
    } else if !m.dom().contains(from) || !m.dom().contains(to) {
        Some(TokenError::NotRegistered)
    } else if m[from] < amount {
        Some(TokenError::InsufficientBalance)
    } else {
        None
    }
}

/// The balance table.
pub struct Ledger {
    balances: IdMap,
}

impl View for Ledger {
    type V = Map<Seq<u8>, u128>;

    closed spec fn view(&self) -> Map<Seq<u8>, u128> {
        self.balances@
    }
}

impl Ledger {
    /// Well-formed: one balance per identity.
    pub closed spec fn wf(self) -> bool {
        self.balances.wf()
    }

    /// The sum of all balances.
    pub closed spec fn total(self) -> int {
        self.balances.total()
    }

    /// The sum of balances is never negative.
    pub proof fn lemma_total_nonneg(self)
        ensures
            0 <= self.total(),
    {
        self.balances.lemma_total_nonneg();
    }

    /// No single balance exceeds the sum of all balances.
    pub proof fn lemma_balance_le_total(self, k: Seq<u8>)
        requires
            self.wf(),
            self@.dom().contains(k),
        ensures
            self@[k] <= self.total(),
    {
        self.balances.lemma_value_le_total(k);
    }

    /// Two distinct balances together do not exceed the sum of all balances.
    pub proof fn lemma_pair_le_total(self, k1: Seq<u8>, k2: Seq<u8>)
        requires
            self.wf(),
            self@.dom().contains(k1),
            self@.dom().contains(k2),
            k1 != k2,
        ensures
            self@[k1] + self@[k2] <= self.total(),
    {
        self.balances.lemma_pair_le_total(k1, k2);
    }

    /// An empty ledger.
    pub fn new() -> (r: Ledger)
        ensures
            r.wf(),
            r@ == Map::<Seq<u8>, u128>::empty(),
            r.total() == 0,
    {
        Ledger { balances: IdMap::new() }
    }

    /// Whether `id` holds an entry.
    pub fn contains(&self, id: &AccountId) -> (r: bool)
        requires
            self.wf(),
        ensures
            r == self@.dom().contains(id@),
    {
        self.balances.contains(id)
    }

    /// The balance of `id`; rejected with `NotRegistered` if `id` holds no
    /// entry.
    pub fn balance_of(&self, id: &AccountId) -> (r: Result<u128, TokenError>)
        requires
            self.wf(),
        ensures
            self@.dom().contains(id@) ==> r == Ok::<u128, TokenError>(self@[id@]),
            !self@.dom().contains(id@) ==> r == Err::<u128, TokenError>(TokenError::NotRegistered),
    {
        match self.balances.get(id) {
            Some(v) => Ok(v),
            None => Err(TokenError::NotRegistered),
        }
    }

    /// Creates a zero-balance entry for a fresh identity.
    pub fn create_account(&mut self, id: AccountId)
        requires
            old(self).wf(),
            !old(self)@.dom().contains(id@),
        ensures
            final(self).wf(),
            final(self)@ == old(self)@.insert(id@, 0),
            final(self).total() == old(self).total(),
    {
        self.balances.insert_new(id, 0);
    }

    /// Removes the entry of `id`; returns the balance it still held.
    pub fn drop_account(&mut self, id: &AccountId) -> (r: u128)
        requires
            old(self).wf(),
            old(self)@.dom().contains(id@),
        ensures
            final(self).wf(),
            final(self)@ == old(self)@.remove(id@),
            r == old(self)@[id@],
            final(self).total() == old(self).total() - r,
    {
        self.balances.remove_entry(id)
    }

    /// Adds `amount` to the balance of a registered account whose new balance
    /// is known to fit.
    pub(crate) fn credit(&mut self, id: &AccountId, amount: u128)
        requires
            old(self).wf(),
            old(self)@.dom().contains(id@),
            old(self)@[id@] + amount <= u128::MAX,
        ensures
            final(self).wf(),
            final(self)@ == old(self)@.insert(id@, (old(self)@[id@] + amount) as u128),
            final(self).total() == old(self).total() + amount,
            final(self)@.dom() == old(self)@.dom(),
    {
        let cur = match self.balances.get(id) {
            Some(v) => v,
            None => {
                proof {
                    assert(false);
                }
                0
            },
        };
        self.balances.update_value(id, cur + amount);
        proof {
            assert(final(self)@.dom() =~= old(self)@.dom());
        }
    }

    /// Subtracts `amount` from the balance of a registered account that is
    /// known to cover it.
    pub(crate) fn debit(&mut self, id: &AccountId, amount: u128)
        requires
            old(self).wf(),
            old(self)@.dom().contains(id@),
            amount <= old(self)@[id@],
        ensures
            final(self).wf(),
            final(self)@ == old(self)@.insert(id@, (old(self)@[id@] - amount) as u128),
            final(self).total() == old(self).total() - amount,
            final(self)@.dom() == old(self)@.dom(),
    {
        let cur = match self.balances.get(id) {
            Some(v) => v,
            None => {
                proof {
                    assert(false);
                }
                0
            },
        };
        self.balances.update_value(id, cur - amount);
        proof {
            assert(final(self)@.dom() =~= old(self)@.dom());
        }
    }

    /// Adds `amount` to the balance of `id`. Rejected with `NotRegistered`
    /// if `id` holds no entry, and with `Overflow` if the addition would
    /// exceed the 128-bit range; a rejected call changes nothing.
    pub fn deposit(&mut self, id: &AccountId, amount: u128) -> (r: Result<(), TokenError>)
        requires
            old(self).wf(),
        ensures
            final(self).wf(),
            !old(self)@.dom().contains(id@) ==> r == Err::<(), TokenError>(
                TokenError::NotRegistered,
            ),
            old(self)@.dom().contains(id@) && old(self)@[id@] + amount > u128::MAX ==> r == Err::<
                (),
                TokenError,
            >(TokenError::Overflow),
            old(self)@.dom().contains(id@) && old(self)@[id@] + amount <= u128::MAX ==> r == Ok::<
                (),
                TokenError,
            >(()) && final(self)@ == old(self)@.insert(id@, (old(self)@[id@] + amount) as u128)
                && final(self).total() == old(self).total() + amount,
            r is Err ==> *final(self) == *old(self),
    {
        let cur = match self.balances.get(id) {
            Some(v) => v,
            None => {
                return Err(TokenError::NotRegistered);
            },
        };
        if cur > u128::MAX - amount {
            return Err(TokenError::Overflow);
        }
        self.credit(id, amount);
        Ok(())
    }

    /// Subtracts `amount` from the balance of `id`. Rejected with
    /// `NotRegistered` if `id` holds no entry, and with `InsufficientBalance`
    /// if the balance does not cover it; a rejected call changes nothing.
    pub fn withdraw(&mut self, id: &AccountId, amount: u128) -> (r: Result<(), TokenError>)
        requires
            old(self).wf(),
        ensures
            final(self).wf(),
            !old(self)@.dom().contains(id@) ==> r == Err::<(), TokenError>(
                TokenError::NotRegistered,
            ),
            old(self)@.dom().contains(id@) && old(self)@[id@] < amount ==> r == Err::<
                (),
                TokenError,
            >(TokenError::InsufficientBalance),
            old(self)@.dom().contains(id@) && old(self)@[id@] >= amount ==> r == Ok::<
                (),
                TokenError,
            >(()) && final(self)@ == old(self)@.insert(id@, (old(self)@[id@] - amount) as u128)
                && final(self).total() == old(self).total() - amount,
            r is Err ==> *final(self) == *old(self),
    {
        let cur = match self.balances.get(id) {
            Some(v) => v,
            None => {
                return Err(TokenError::NotRegistered);
            },
        };
        if cur < amount {
            return Err(TokenError::InsufficientBalance);
        }
        self.debit(id, amount);
        Ok(())
    }

    /// Moves `amount` from `from` to `to` in one atomic step: either both
    /// balances change, or the call is rejected exactly as `transfer_error`
    /// says and neither does.
    pub fn transfer(&mut self, from: &AccountId, to: &AccountId, amount: u128) -> (r: Result<
        (),
        TokenError,
    >)
        requires
            old(self).wf(),
            old(self).total() <= u128::MAX,
        ensures
            final(self).wf(),
            transfer_error(old(self)@, from@, to@, amount) matches Some(e) ==> r == Err::<
                (),
                TokenError,
            >(e) && *final(self) == *old(self),
            transfer_error(old(self)@, from@, to@, amount) is None ==> r == Ok::<(), TokenError>(())
                && final(self)@ == old(self)@.insert(
                from@,
                (old(self)@[from@] - amount) as u128,
            ).insert(to@, (old(self)@[to@] + amount) as u128) && final(self).total() == old(
                self,
            ).total(),
            final(self)@.dom() == old(self)@.dom(),
    {
        if from.eq_id(to) {
            return Err(TokenError::SelfTransferNotAllowed);
        }
        if amount == 0 {
            return Err(TokenError::ZeroAmount);
        }
        if !self.contains(from) || !self.contains(to) {
            return Err(TokenError::NotRegistered);
        }
        let from_balance = match self.balances.get(from) {
            Some(v) => v,
            None => {
                proof {
                    assert(false);
                }
                0
            },
        };
        if from_balance < amount {
            return Err(TokenError::InsufficientBalance);
        }
        proof {
            self.lemma_pair_le_total(from@, to@);
        }
        self.debit(from, amount);
        self.credit(to, amount);
        Ok(())
    }
}

} // verus!
