//! The account registry: which identities are registered, and the value bond
//! held against each to cover the storage its ledger entry consumes. The bond
//! is released in full when the account is unregistered.

use crate::idmap::IdMap;
use crate::ids::AccountId;
use vstd::prelude::*;

verus! {

/// The registration and bond table.
pub struct AccountRegistry {
    bonds: IdMap,
}

impl View for AccountRegistry {
    type V = Map<Seq<u8>, u128>;

    closed spec fn view(&self) -> Map<Seq<u8>, u128> {
        self.bonds@
    }
}

impl AccountRegistry {
    /// Well-formed: one bond per identity.
    pub closed spec fn wf(self) -> bool {
        self.bonds.wf()
    }

    /// An empty registry.
    pub fn new() -> (r: AccountRegistry)
        ensures
            r.wf(),
            r@ == Map::<Seq<u8>, u128>::empty(),
    {
        AccountRegistry { bonds: IdMap::new() }
    }

    /// Whether `id` is registered. A pure lookup; never fails.
    pub fn is_registered(&self, id: &AccountId) -> (r: bool)
        requires
            self.wf(),
        ensures
            r == self@.dom().contains(id@),
    {
        self.bonds.contains(id)
    }

    /// The bond held for `id`, if it is registered.
    pub fn bond_of(&self, id: &AccountId) -> (r: Option<u128>)
        requires
            self.wf(),
        ensures
            r is Some <==> self@.dom().contains(id@),
            r matches Some(b) ==> b == self@[id@],
    {
        self.bonds.get(id)
    }

    /// Records a fresh registration holding `bond` value.
    pub fn record(&mut self, id: AccountId, bond: u128)
        requires
            old(self).wf(),
            !old(self)@.dom().contains(id@),
        ensures
            final(self).wf(),
            final(self)@ == old(self)@.insert(id@, bond),
    {
        self.bonds.insert_new(id, bond);
    }

    /// Drops a registration and releases its bond.
    pub fn release(&mut self, id: &AccountId) -> (r: u128)
        requires
            old(self).wf(),
            old(self)@.dom().contains(id@),
        ensures
            final(self).wf(),
            final(self)@ == old(self)@.remove(id@),
            r == old(self)@[id@],
    {
        self.bonds.remove_entry(id)
    }
}

} // verus!
