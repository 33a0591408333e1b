//! An inventory: counts of items, keyed by item id.

use vstd::prelude::*;
use crate::item_id::ItemId;

verus! {

/// How many of each item something carries. Each id appears at most once.
pub struct Inventory {
    items: Vec<(ItemId, u32)>,
}

impl Inventory {
    /// The stored entries, in insertion order.
    pub closed spec fn entries(self) -> Seq<(ItemId, u32)> {
        self.items@
    }

    /// Ids are unique.
    pub open spec fn wf(self) -> bool {
        forall|i: int, j: int|
            0 <= i < self.entries().len() && 0 <= j < self.entries().len() && i != j
                ==> (#[trigger] self.entries()[i]).0 != (#[trigger] self.entries()[j]).0
    }

    /// Whether an entry for `item_id` exists.
    pub open spec fn spec_has(self, item_id: ItemId) -> bool {
        exists|i: int|
            0 <= i < self.entries().len() && (#[trigger] self.entries()[i]).0 == item_id
    }

    /// How many of `item_id` are held: the count of its entry, or zero.
    pub open spec fn spec_count(self, item_id: ItemId) -> u32 {
        if self.spec_has(item_id) {
            self.entries()[choose|i: int|
                0 <= i < self.entries().len() && (#[trigger] self.entries()[i]).0 == item_id].1
        } else {
            0
        }
    }

    /// Whether nothing is held.
    pub fn is_empty(&self) -> (r: bool)
        ensures
            r == (self.entries().len() == 0),
    {
        self.items.len() == 0
    }

    /// Index of the entry for `item_id`, if one exists.
    fn index_of(&self, item_id: &ItemId) -> (r: Option<usize>)
        requires
            self.wf(),
        ensures
            r is Some <==> self.spec_has(*item_id),
            r matches Some(i) ==> i < self.entries().len()
                && self.entries()[i as int].0 == *item_id
                && self.entries()[i as int].1 == self.spec_count(*item_id),
    {
        let n = self.items.len();
        for i in 0..n
            invariant
                n == self.entries().len(),
                self.wf(),
                forall|j: int| 0 <= j < i ==> (#[trigger] self.entries()[j]).0 != *item_id,
        {
            if self.items[i].0 == *item_id {
                proof {
                    let k = choose|k: int|
                        0 <= k < self.entries().len()
                            && (#[trigger] self.entries()[k]).0 == *item_id;
                    if k != i {
                        assert(self.entries()[k].0 != self.entries()[i as int].0);
                    }
                }
                return Some(i);
            }
        }
        None
    }

    /// Adds `amount` of `item_id`, on top of whatever is already held.
    pub fn add_item(&mut self, item_id: &ItemId, amount: u32)
        requires
            old(self).wf(),
            old(self).spec_count(*item_id) + amount <= u32::MAX,
        ensures
            final(self).wf(),
            final(self).spec_count(*item_id)
                == old(self).spec_count(*item_id) + amount,
            forall|other: ItemId| other != *item_id
                ==> #[trigger] final(self).spec_count(other) == old(self).spec_count(other),
    {
        match self.index_of(item_id) {
            Some(i) => {
                let count = self.items[i].1;
                self.items.set(i, (*item_id, count + amount));
                proof {
                    let s = old(self).entries();
                    let s2 = self.entries();
                    assert forall|j: int, k: int|
                        0 <= j < s2.len() && 0 <= k < s2.len() && j != k
                        implies (#[trigger] s2[j]).0 != (#[trigger] s2[k]).0 by {
                        assert(s2[j].0 == s[j].0 && s2[k].0 == s[k].0);
                    }
                    assert(s2[i as int].0 == *item_id);
                    lemma_unique_count(s2, i as int);
                    assert forall|other: ItemId| other != *item_id
                        implies #[trigger] final(self).spec_count(other)
                            == old(self).spec_count(other) by {
                        if final(self).spec_has(other) {
                            let j = choose|j: int|
                                0 <= j < s2.len() && (#[trigger] s2[j]).0 == other;
                            assert(j != i);
                            assert(s[j] == s2[j]);
                            lemma_unique_count(s, j);
                            lemma_unique_count(s2, j);
                        } else {
                            if old(self).spec_has(other) {
                                let j = choose|j: int|
                                    0 <= j < s.len() && (#[trigger] s[j]).0 == other;
                                assert(s2[j].0 == other);
                            }
                        }
                    }
                }
            },
            None => {
                self.items.push((*item_id, amount));
                proof {
                    let s = old(self).entries();
                    let s2 = self.entries();
                    let n = s.len() as int;
                    assert forall|j: int, k: int|
                        0 <= j < s2.len() && 0 <= k < s2.len() && j != k
                        implies (#[trigger] s2[j]).0 != (#[trigger] s2[k]).0 by {
                        if j < n && k < n {
                            assert(s2[j].0 == s[j].0 && s2[k].0 == s[k].0);
                        } else if j == n {
                            assert(s2[k].0 == s[k].0);
                            if s2[j].0 == s2[k].0 {
                                assert(old(self).spec_has(*item_id));
                            }
                        } else {
                            assert(s2[j].0 == s[j].0);
                            if s2[j].0 == s2[k].0 {
                                assert(old(self).spec_has(*item_id));
                            }
                        }
                    }
                    assert(s2[n].0 == *item_id);
                    lemma_unique_count(s2, n);
                    assert forall|other: ItemId| other != *item_id
                        implies #[trigger] final(self).spec_count(other)
                            == old(self).spec_count(other) by {
                        if final(self).spec_has(other) {
                            let j = choose|j: int|
                                0 <= j < s2.len() && (#[trigger] s2[j]).0 == other;
                            assert(j != n);
                            assert(s[j].0 == other);
                            lemma_unique_count(s, j);
                            lemma_unique_count(s2, j);
                        } else {
                            if old(self).spec_has(other) {
                                let j = choose|j: int|
                                    0 <= j < s.len() && (#[trigger] s[j]).0 == other;
                                assert(s2[j].0 == other);
                            }
                        }
                    }
                }
            },
        }
    }


    /// Number of distinct item kinds held.
    pub fn len(&self) -> (r: usize)
        ensures
            r == self.entries().len(),
    {
        self.items.len()
    }

    /// The entry at index `i`, in insertion order; with `len` this stands in
    /// for iteration.
    pub fn entry_at(&self, i: usize) -> (r: (ItemId, u32))
        requires
            i < self.entries().len(),
        ensures
            r == self.entries()[i as int],
    {
        self.items[i]
    }

    /// How many of `item_id` are held.
    pub fn item_count(self, item_id: ItemId) -> (r: u32)
        requires
            self.wf(),
        ensures
            r == self.spec_count(item_id),
    {
        match self.index_of(&item_id) {
            Some(i) => self.items[i].1,
            None => 0,
        }
    }
}

impl Default for Inventory {
    /// An empty inventory.
    fn default() -> (r: Self)
        ensures
            r.wf(),
            r.entries().len() == 0,
            forall|item: ItemId| #[trigger] r.spec_count(item) == 0,
    {
        let inv = Inventory { items: Vec::new() };
        proof {
            assert forall|item: ItemId| #[trigger] inv.spec_count(item) == 0 by {
                assert(!inv.spec_has(item));
            }
        }
        inv
    }
}

/// With unique ids, the count of the id stored at index `i` is the stored
/// count.
proof fn lemma_unique_count(s: Seq<(ItemId, u32)>, i: int)
    requires
        0 <= i < s.len(),
        forall|j: int, k: int|
            0 <= j < s.len() && 0 <= k < s.len() && j != k
                ==> (#[trigger] s[j]).0 != (#[trigger] s[k]).0,
    ensures
        (exists|j: int| 0 <= j < s.len() && (#[trigger] s[j]).0 == s[i].0),
        s[choose|j: int| 0 <= j < s.len() && (#[trigger] s[j]).0 == s[i].0].1 == s[i].1,
{
    assert(s[i].0 == s[i].0);
    let j = choose|j: int| 0 <= j < s.len() && (#[trigger] s[j]).0 == s[i].0;
    if j != i {
        assert(s[j].0 != s[i].0);
    }
}

} // verus!
