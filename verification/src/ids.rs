//! Account identities. An identity is an opaque, externally validated byte
//! string; the core never inspects it beyond equality, so it is modelled as a
//! sequence of bytes.

use vstd::prelude::*;

verus! {

/// An opaque account identity.
pub struct AccountId {
    bytes: Vec<u8>,
}

impl View for AccountId {
    type V = Seq<u8>;

    closed spec fn view(&self) -> Seq<u8> {
        self.bytes@
    }
}

impl AccountId {
    /// Wraps an already validated identity string given as bytes.
    pub fn from_bytes(bytes: Vec<u8>) -> (r: AccountId)
        ensures
            r@ == bytes@,
    {
        AccountId { bytes }
    }

    /// An independent copy of the identity.
    pub fn duplicate(&self) -> (r: AccountId)
        ensures
            r@ == self@,
    {
        let mut copy: Vec<u8> = Vec::new();
        let n = self.bytes.len();
        let mut k: usize = 0;
        while k < n
            invariant
                n == self.bytes@.len(),
                k <= n,
                copy@ == self.bytes@.subrange(0, k as int),
            decreases n - k,
        {
            copy.push(self.bytes[k]);
            proof {
                assert(copy@ =~= self.bytes@.subrange(0, k + 1 as int));
            }
            k += 1;
        }
        proof {
            assert(copy@ =~= self.bytes@);
        }
        AccountId { bytes: copy }
    }

    /// Whether two identities name the same account.
    pub fn eq_id(&self, other: &AccountId) -> (r: bool)
        ensures
            r == (self@ == other@),
    {
        if self.bytes.len() != other.bytes.len() {
            return false;
        }
        let n = self.bytes.len();
        let mut k: usize = 0;
        while k < n
            invariant
                n == self.bytes@.len(),
                n == other.bytes@.len(),
                k <= n,
                forall|j: int| 0 <= j < k ==> self.bytes@[j] == other.bytes@[j],
            decreases n - k,
        {
            if self.bytes[k] != other.bytes[k] {
                return false;
            }
            k += 1;
        }
        proof {
            assert(self@ =~= other@);
        }
        true
    }

    /// The identity as bytes, for a host that prints or stores it.
    pub fn as_bytes(&self) -> (r: &Vec<u8>)
        ensures
            r@ == self@,
    {
        &self.bytes
    }
}

} // verus!
