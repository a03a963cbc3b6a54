//! A table from account identity to a 128-bit value, kept as a vector of
//! entries with pairwise distinct identities. Its mathematical model is a
//! `Map<Seq<u8>, u128>`, and it tracks the sum of all stored values, which is
//! what the ledger's conservation invariant is stated over.

use crate::ids::AccountId;
use vstd::prelude::*;

verus! {

/// One identity together with the value the table holds for it.
struct Entry {
    pub id: AccountId,
    pub value: u128,
}

/// Whether some entry of `s` carries the identity `k`.
spec fn has_id(s: Seq<Entry>, k: Seq<u8>) -> bool {
    exists|i: int| 0 <= i < s.len() && (#[trigger] s[i].id@) == k
}

/// No two entries carry the same identity.
spec fn distinct_ids(s: Seq<Entry>) -> bool {
    forall|i: int, j: int| 0 <= i < j < s.len() ==> (#[trigger] s[i].id@) != (#[trigger] s[j].id@)
}

/// The map that a sequence of entries denotes; later entries shadow earlier
/// ones, which never happens under `distinct_ids`.
spec fn map_of(s: Seq<Entry>) -> Map<Seq<u8>, u128>
    decreases s.len(),
{
    if s.len() == 0 {
        Map::empty()
    } else {
        map_of(s.drop_last()).insert(s.last().id@, s.last().value)
    }
}

/// The sum of all stored values.
spec fn sum_of(s: Seq<Entry>) -> int
    decreases s.len(),
{
    if s.len() == 0 {
        0
    } else {
        sum_of(s.drop_last()) + s.last().value
    }
}

/// The denoted map contains exactly the identities of the entries, and under
/// `distinct_ids` maps each to that entry's value.
proof fn lemma_map_props(s: Seq<Entry>)
    requires
        distinct_ids(s),
    ensures
        forall|k: Seq<u8>| #[trigger] map_of(s).dom().contains(k) <==> has_id(s, k),
        forall|i: int| 0 <= i < s.len() ==> map_of(s)[(#[trigger] s[i].id@)] == s[i].value,
    decreases s.len(),
{
    if s.len() > 0 {
        let dl = s.drop_last();
        assert(forall|i: int| 0 <= i < dl.len() ==> dl[i] == s[i]);
        lemma_map_props(dl);
        assert(map_of(s) == map_of(dl).insert(s.last().id@, s.last().value));
        assert forall|k: Seq<u8>| #[trigger] map_of(s).dom().contains(k) <==> has_id(s, k) by {
            if map_of(s).dom().contains(k) {
                if k == s.last().id@ {
                    assert(s[s.len() - 1].id@ == k);
                } else {
                    assert(map_of(dl).dom().contains(k));
                    assert(has_id(dl, k));
                    let i = choose|i: int| 0 <= i < dl.len() && (#[trigger] dl[i].id@) == k;
                    assert(s[i].id@ == k);
                }
            }
            if has_id(s, k) {
                let i = choose|i: int| 0 <= i < s.len() && (#[trigger] s[i].id@) == k;
                if i < s.len() - 1 {
                    assert(dl[i].id@ == k);
                    assert(map_of(dl).dom().contains(k));
                } else {
                    assert(s.last().id@ == k);
                }
            }
        }
        assert forall|i: int| 0 <= i < s.len() implies map_of(s)[(#[trigger] s[i].id@)]
            == s[i].value by {
            if i < s.len() - 1 {
                assert(dl[i].id@ == s[i].id@ && dl[i].value == s[i].value);
                assert(s[i].id@ != s.last().id@);
            }
        }
    }
}

/// Replacing the entry at `i` changes the sum by the difference of the values.
proof fn lemma_sum_update(s: Seq<Entry>, i: int, e: Entry)
    requires
        0 <= i < s.len(),
    ensures
        sum_of(s.update(i, e)) == sum_of(s) - s[i].value + e.value,
    decreases s.len(),
{
    let su = s.update(i, e);
    if i == s.len() - 1 {
        assert(su.drop_last() =~= s.drop_last());
        assert(su.last() == e);
    } else {
        assert(su.drop_last() =~= s.drop_last().update(i, e));
        lemma_sum_update(s.drop_last(), i, e);
        assert(su.last() == s.last());
    }
}

/// Appending an entry adds its value to the sum.
proof fn lemma_sum_push(s: Seq<Entry>, e: Entry)
    ensures
        sum_of(s.push(e)) == sum_of(s) + e.value,
{
    assert(s.push(e).drop_last() =~= s);
    assert(s.push(e).last() == e);
}

/// Removing the entry at `i` subtracts its value from the sum.
proof fn lemma_sum_remove(s: Seq<Entry>, i: int)
    requires
        0 <= i < s.len(),
    ensures
        sum_of(s.remove(i)) == sum_of(s) - s[i].value,
    decreases s.len(),
{
    let sr = s.remove(i);
    if i == s.len() - 1 {
        assert(sr =~= s.drop_last());
    } else {
        assert(sr.drop_last() =~= s.drop_last().remove(i));
        lemma_sum_remove(s.drop_last(), i);
        assert(sr.last() == s.last());
    }
}

/// A sum of unsigned values is never negative.
proof fn lemma_sum_nonneg(s: Seq<Entry>)
    ensures
        0 <= sum_of(s),
    decreases s.len(),
{
    if s.len() > 0 {
        lemma_sum_nonneg(s.drop_last());
    }
}

/// Each stored value is bounded by the sum.
proof fn lemma_sum_one(s: Seq<Entry>, i: int)
    requires
        0 <= i < s.len(),
    ensures
        s[i].value <= sum_of(s),
{
    lemma_sum_remove(s, i);
    lemma_sum_nonneg(s.remove(i));
}

/// Two distinct entries together are bounded by the sum.
proof fn lemma_sum_two(s: Seq<Entry>, i: int, j: int)
    requires
        0 <= i < s.len(),
        0 <= j < s.len(),
        i != j,
    ensures
        s[i].value + s[j].value <= sum_of(s),
{
    lemma_sum_remove(s, i);
    let sr = s.remove(i);
    let j2: int = if j < i {
        j
    } else {
        j - 1
    };
    assert(sr[j2] == s[j]);
    lemma_sum_one(sr, j2);
}

/// The table itself.
pub struct IdMap {
    entries: Vec<Entry>,
}

impl View for IdMap {
    type V = Map<Seq<u8>, u128>;

    closed spec fn view(&self) -> Map<Seq<u8>, u128> {
        map_of(self.entries@)
    }
}

impl IdMap {
    /// Well-formed: identities are pairwise distinct.
    pub closed spec fn wf(self) -> bool {
        distinct_ids(self.entries@)
    }

    /// The sum of all stored values.
    pub closed spec fn total(self) -> int {
        sum_of(self.entries@)
    }

    /// The sum is never negative.
    pub proof fn lemma_total_nonneg(self)
        ensures
            0 <= self.total(),
    {
        lemma_sum_nonneg(self.entries@);
    }

    /// Any stored value is bounded by the sum.
    pub proof fn lemma_value_le_total(self, k: Seq<u8>)
        requires
            self.wf(),
            self@.dom().contains(k),
        ensures
            self@[k] <= self.total(),
    {
        lemma_map_props(self.entries@);
        let i = choose|i: int|
            0 <= i < self.entries@.len() && (#[trigger] self.entries@[i].id@) == k;
        lemma_sum_one(self.entries@, i);
    }

    /// Two distinct stored values together are bounded by the sum.
    pub proof fn lemma_pair_le_total(self, k1: Seq<u8>, k2: Seq<u8>)
        requires
            self.wf(),
            self@.dom().contains(k1),
            self@.dom().contains(k2),
            k1 != k2,
        ensures
            self@[k1] + self@[k2] <= self.total(),
    {
        lemma_map_props(self.entries@);
        let i = choose|i: int|
            0 <= i < self.entries@.len() && (#[trigger] self.entries@[i].id@) == k1;
        let j = choose|j: int|
            0 <= j < self.entries@.len() && (#[trigger] self.entries@[j].id@) == k2;
        lemma_sum_two(self.entries@, i, j);
    }

    /// An empty table.
    pub fn new() -> (r: IdMap)
        ensures
            r.wf(),
            r@ == Map::<Seq<u8>, u128>::empty(),
            r.total() == 0,
    {
        IdMap { entries: Vec::new() }
    }

    /// The index of the entry carrying `id`, if any.
    fn find(&self, id: &AccountId) -> (r: Option<usize>)
        ensures
            match r {
                Some(i) => i < self.entries@.len() && self.entries@[i as int].id@ == id@,
                None => !has_id(self.entries@, id@),
            },
    {
        let n = self.entries.len();
        let mut k: usize = 0;
        while k < n
            invariant
                n == self.entries@.len(),
                k <= n,
                forall|j: int| 0 <= j < k ==> (#[trigger] self.entries@[j].id@) != id@,
            decreases n - k,
        {
            if self.entries[k].id.eq_id(id) {
                return Some(k);
            }
            k += 1;
        }
        None
    }

    /// Whether the table holds an entry for `id`.
    pub fn contains(&self, id: &AccountId) -> (r: bool)
        requires
            self.wf(),
        ensures
            r == self@.dom().contains(id@),
    {
        proof {
            lemma_map_props(self.entries@);
        }
        match self.find(id) {
            Some(_) => true,
            None => false,
        }
    }

    /// The value stored for `id`, if any.
    pub fn get(&self, id: &AccountId) -> (r: Option<u128>)
        requires
            self.wf(),
        ensures
            r is Some <==> self@.dom().contains(id@),
            r matches Some(v) ==> v == self@[id@],
    {
        proof {
            lemma_map_props(self.entries@);
        }
        match self.find(id) {
            Some(i) => Some(self.entries[i].value),
            None => None,
        }
    }

    /// Adds an entry for an identity the table does not hold yet.
    pub fn insert_new(&mut self, id: AccountId, value: u128)
        requires
            old(self).wf(),
            !old(self)@.dom().contains(id@),
        ensures
            final(self).wf(),
            final(self)@ == old(self)@.insert(id@, value),
            final(self).total() == old(self).total() + value,
    {
        proof {
            lemma_map_props(self.entries@);
            lemma_sum_push(self.entries@, Entry { id: id, value });
        }
        let ghost s0 = self.entries@;
        self.entries.push(Entry { id, value });
        proof {
            assert(self.entries@.drop_last() =~= s0);
            assert forall|i: int, j: int| 0 <= i < j < self.entries@.len() implies (
            #[trigger] self.entries@[i].id@) != (#[trigger] self.entries@[j].id@) by {
                if j < self.entries@.len() - 1 {
                    assert(s0[i].id@ != s0[j].id@);
                } else {
                    assert(s0[i].id@ == self.entries@[i].id@);
                }
            }
        }
    }

    /// Replaces the value stored for an identity the table holds.
    pub fn update_value(&mut self, id: &AccountId, value: u128)
        requires
            old(self).wf(),
            old(self)@.dom().contains(id@),
        ensures
            final(self).wf(),
            final(self)@ == old(self)@.insert(id@, value),
            final(self).total() == old(self).total() - old(self)@[id@] + value,
    {
        proof {
            lemma_map_props(self.entries@);
        }
        let i = match self.find(id) {
            Some(i) => i,
            None => {
                proof {
                    assert(false);
                }
                0
            },
        };
        let ghost s0 = self.entries@;
        let ghost e = Entry { id: self.entries@[i as int].id, value };
        proof {
            lemma_sum_update(s0, i as int, e);
        }
        let slot = &mut self.entries[i].value;
        *slot = value;
        proof {
            let s1 = self.entries@;
            assert(s1 =~= s0.update(i as int, e));
            assert(forall|j: int| 0 <= j < s1.len() ==> (#[trigger] s1[j].id@) == s0[j].id@);
            lemma_map_props(s1);
            assert forall|k: Seq<u8>| #[trigger] map_of(s1).dom().contains(k)
                <==> old(self)@.insert(id@, value).dom().contains(k) by {
                if map_of(s1).dom().contains(k) {
                    let w = choose|w: int| 0 <= w < s1.len() && (#[trigger] s1[w].id@) == k;
                    assert(s0[w].id@ == k);
                }
                if old(self)@.insert(id@, value).dom().contains(k) {
                    if k != id@ {
                        let w = choose|w: int| 0 <= w < s0.len() && (#[trigger] s0[w].id@) == k;
                        assert(s1[w].id@ == k);
                    } else {
                        assert(s1[i as int].id@ == k);
                    }
                }
            }
            assert forall|k: Seq<u8>| map_of(s1).dom().contains(k) implies #[trigger] map_of(s1)[k]
                == old(self)@.insert(id@, value)[k] by {
                let w = choose|w: int| 0 <= w < s1.len() && (#[trigger] s1[w].id@) == k;
                assert(map_of(s1)[k] == s1[w].value);
                if k == id@ {
                    assert(w == i as int);
                } else {
                    assert(s0[w].id@ == k);
                    assert(w != i as int);
                    assert(map_of(s0)[k] == s0[w].value);
                }
            }
            assert(map_of(s1) =~= old(self)@.insert(id@, value));
        }
    }

    /// Removes the entry for an identity the table holds; returns its value.
    pub fn remove_entry(&mut self, id: &AccountId) -> (r: u128)
        requires
            old(self).wf(),
            old(self)@.dom().contains(id@),
        ensures
            final(self).wf(),
            final(self)@ == old(self)@.remove(id@),
            r == old(self)@[id@],
            final(self).total() == old(self).total() - r,
    {
        proof {
            lemma_map_props(self.entries@);
        }
        let i = match self.find(id) {
            Some(i) => i,
            None => {
                proof {
                    assert(false);
                }
                0
            },
        };
        let ghost s0 = self.entries@;
        proof {
            lemma_sum_remove(s0, i as int);
        }
        let removed = self.entries.remove(i);
        proof {
            let s1 = self.entries@;
            assert(s1 =~= s0.remove(i as int));
            assert forall|a: int, b: int| 0 <= a < b < s1.len() implies (#[trigger] s1[a].id@) != (
            #[trigger] s1[b].id@) by {
                let a0: int = if a < i as int {
                    a
                } else {
                    a + 1
                };
                let b0: int = if b < i as int {
                    b
                } else {
                    b + 1
                };
                assert(s1[a] == s0[a0] && s1[b] == s0[b0]);
            }
            lemma_map_props(s1);
            assert forall|k: Seq<u8>| #[trigger] map_of(s1).dom().contains(k) <==> old(self)@.remove(
                id@,
            ).dom().contains(k) by {
                if map_of(s1).dom().contains(k) {
                    let w = choose|w: int| 0 <= w < s1.len() && (#[trigger] s1[w].id@) == k;
                    let w0: int = if w < i as int {
                        w
                    } else {
                        w + 1
                    };
                    assert(s0[w0].id@ == k);
                    assert(k != id@);
                }
                if old(self)@.remove(id@).dom().contains(k) {
                    let w = choose|w: int| 0 <= w < s0.len() && (#[trigger] s0[w].id@) == k;
                    assert(w != i as int);
                    let w1: int = if w < i as int {
                        w
                    } else {
                        w - 1
                    };
                    assert(s1[w1].id@ == k);
                }
            }
            assert forall|k: Seq<u8>| map_of(s1).dom().contains(k) implies #[trigger] map_of(s1)[k]
                == old(self)@.remove(id@)[k] by {
                let w = choose|w: int| 0 <= w < s1.len() && (#[trigger] s1[w].id@) == k;
                let w0: int = if w < i as int {
                    w
                } else {
                    w + 1
                };
                assert(s1[w] == s0[w0]);
                assert(map_of(s0)[k] == s0[w0].value);
            }
            assert(map_of(s1) =~= old(self)@.remove(id@));
        }
        removed.value
    }
}

} // verus!
