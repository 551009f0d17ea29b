//! Finite sets of addresses.
//!
//! Membership, administrator, ballot and organization collections are all
//! sets of addresses. The executable representation is a vector without
//! duplicates; the mathematical view is a `Set<Address>`.

use vstd::prelude::*;
use crate::addr::Address;

verus! {

/// Appending an address and converting to a set commutes with inserting it.
pub proof fn lemma_to_set_push(s: Seq<Address>, a: Address)
    ensures
        s.push(a).to_set() == s.to_set().insert(a),
{
    assert(s.push(a) =~= s + seq![a]);
    Seq::<Address>::lemma_to_set_insert_commutes(s, a);
}

/// A finite set of addresses, held as a duplicate-free vector.
#[derive(Debug)]
pub struct AddressSet {
    pub items: Vec<Address>,
}

impl View for AddressSet {
    type V = Set<Address>;

    open spec fn view(&self) -> Set<Address> {
        self.items@.to_set()
    }
}

impl AddressSet {
    /// The members in insertion order.
    pub open spec fn addrs(&self) -> Seq<Address> {
        self.items@
    }

    /// The vector holds no address twice.
    pub open spec fn wf(&self) -> bool {
        self.items@.no_duplicates()
    }

    /// Creates an empty set.
    pub fn new() -> (r: Self)
        ensures
            r.wf(),
            r@ == Set::<Address>::empty(),
            r.addrs() == Seq::<Address>::empty(),
    {
        let r = AddressSet { items: Vec::new() };
        proof {
            assert(r@ =~= Set::<Address>::empty());
        }
        r
    }

    /// Whether an address is in the set.
    pub fn contains(&self, a: &Address) -> (r: bool)
        ensures
            r == self@.contains(*a),
    {
        let n = self.items.len();
        let mut i: usize = 0;
        while i < n
            invariant
                n == self.items@.len(),
                0 <= i <= n,
                forall|k: int| 0 <= k < i ==> self.items@[k] != *a,
            decreases n - i,
        {
            if self.items[i] == *a {
                proof {
                    assert(self.items@.contains(*a));
                }
                return true;
            }
            i += 1;
        }
        proof {
            assert(!self.items@.contains(*a));
        }
        false
    }

    /// Adds an address; reports whether it was new.
    pub fn insert(&mut self, a: Address) -> (added: bool)
        requires
            old(self).wf(),
        ensures
            final(self).wf(),
            final(self)@ == old(self)@.insert(a),
            added == !old(self)@.contains(a),
            final(self).addrs() == if added {
                old(self).addrs().push(a)
            } else {
                old(self).addrs()
            },
    {
        if self.contains(&a) {
            proof {
                assert(final(self)@ =~= old(self)@.insert(a));
            }
            false
        } else {
            self.items.push(a);
            proof {
                lemma_to_set_push(old(self).items@, a);
                assert(self@ =~= old(self)@.insert(a));
            }
            true
        }
    }

    /// Removes an address if present.
    pub fn remove(&mut self, a: &Address)
        requires
            old(self).wf(),
        ensures
            final(self).wf(),
            final(self)@ == old(self)@.remove(*a),
    {
        let n = self.items.len();
        let mut i: usize = 0;
        while i < n
            invariant
                n == self.items@.len(),
                0 <= i <= n,
                forall|k: int| 0 <= k < i ==> self.items@[k] != *a,
                self.wf(),
                *self == *old(self),
            decreases n - i,
        {
            if self.items[i] == *a {
                let ghost pre = self.items@;
                self.items.remove(i);
                proof {
                    Self::lemma_remove_at(pre, i as int);
                }
                return;
            }
            i += 1;
        }
        proof {
            assert(!self.items@.contains(*a));
            assert(final(self)@ =~= old(self)@.remove(*a));
        }
    }

    /// Removing the entry at an index of a duplicate-free vector removes
    /// exactly that address from the set.
    proof fn lemma_remove_at(s: Seq<Address>, i: int)
        requires
            s.no_duplicates(),
            0 <= i < s.len(),
        ensures
            s.remove(i).no_duplicates(),
            s.remove(i).to_set() == s.to_set().remove(s[i]),
    {
        let t = s.remove(i);
        assert forall|x: Address| t.to_set().contains(x) implies s.to_set().remove(
            s[i],
        ).contains(x) by {
            let j = choose|j: int| 0 <= j < t.len() && t[j] == x;
            if j < i {
                assert(s[j] == x);
            } else {
                assert(s[j + 1] == x);
            }
        }
        assert forall|x: Address| s.to_set().remove(s[i]).contains(x) implies t.to_set().contains(
            x,
        ) by {
            let j = choose|j: int| 0 <= j < s.len() && s[j] == x;
            if j < i {
                assert(t[j] == x);
                assert(t.contains(x));
            } else {
                assert(j != i);
                assert(t[j - 1] == x);
                assert(t.contains(x));
            }
        }
        assert(t.to_set() =~= s.to_set().remove(s[i]));
    }

    /// How many addresses the set holds.
    pub fn len(&self) -> (r: usize)
        requires
            self.wf(),
        ensures
            r == self.addrs().len(),
            r == self@.len(),
    {
        proof {
            self.items@.unique_seq_to_set();
        }
        self.items.len()
    }

    /// The members as a fresh vector, in insertion order.
    pub fn to_vec(&self) -> (r: Vec<Address>)
        ensures
            r@ == self.addrs(),
    {
        let n = self.items.len();
        let mut r: Vec<Address> = Vec::new();
        let mut i: usize = 0;
        while i < n
            invariant
                n == self.items@.len(),
                0 <= i <= n,
                r@ == self.items@.subrange(0, i as int),
            decreases n - i,
        {
            r.push(self.items[i]);
            proof {
                assert(r@ =~= self.items@.subrange(0, i + 1 as int));
            }
            i += 1;
        }
        proof {
            assert(r@ =~= self.items@);
        }
        r
    }

    /// Adds every address of a list.
    pub fn add_all(&mut self, list: &Vec<Address>)
        requires
            old(self).wf(),
        ensures
            final(self).wf(),
            final(self)@ == old(self)@.union(list@.to_set()),
    {
        let n = list.len();
        let mut i: usize = 0;
        while i < n
            invariant
                n == list@.len(),
                0 <= i <= n,
                self.wf(),
                self@ == old(self)@.union(list@.subrange(0, i as int).to_set()),
            decreases n - i,
        {
            self.insert(list[i]);
            proof {
                let pre = list@.subrange(0, i as int);
                let post = list@.subrange(0, i + 1 as int);
                assert(post =~= pre.push(list@[i as int]));
                lemma_to_set_push(pre, list@[i as int]);
                assert(self@ =~= old(self)@.union(post.to_set()));
            }
            i += 1;
        }
        proof {
            assert(list@.subrange(0, n as int) =~= list@);
            assert(final(self)@ =~= old(self)@.union(list@.to_set()));
        }
    }

    /// Removes every address of a list.
    pub fn remove_all(&mut self, list: &Vec<Address>)
        requires
            old(self).wf(),
        ensures
            final(self).wf(),
            final(self)@ == old(self)@.difference(list@.to_set()),
    {
        let n = list.len();
        let mut i: usize = 0;
        while i < n
            invariant
                n == list@.len(),
                0 <= i <= n,
                self.wf(),
                self@ == old(self)@.difference(list@.subrange(0, i as int).to_set()),
            decreases n - i,
        {
            self.remove(&list[i]);
            proof {
                let pre = list@.subrange(0, i as int);
                let post = list@.subrange(0, i + 1 as int);
                assert(post =~= pre.push(list@[i as int]));
                lemma_to_set_push(pre, list@[i as int]);
                assert(self@ =~= old(self)@.difference(post.to_set()));
            }
            i += 1;
        }
        proof {
            assert(list@.subrange(0, n as int) =~= list@);
            assert(final(self)@ =~= old(self)@.difference(list@.to_set()));
        }
    }

    /// Builds a set from a list, dropping duplicates.
    pub fn from_vec(list: &Vec<Address>) -> (r: Self)
        ensures
            r.wf(),
            r@ == list@.to_set(),
    {
        let mut r = AddressSet::new();
        r.add_all(list);
        proof {
            assert(r@ =~= list@.to_set());
        }
        r
    }
}


/// A finite map from an address to a set of addresses, held as a vector of
/// entries with pairwise distinct keys. The factory uses it for each user's
/// organization memberships and for each organization's ballots.
#[derive(Debug)]
pub struct AddressSetMap {
    pub entries: Vec<(Address, AddressSet)>,
}

impl View for AddressSetMap {
    type V = Map<Address, Set<Address>>;

    open spec fn view(&self) -> Map<Address, Set<Address>> {
        AddressSetMap::entries_map(self.entries@)
    }
}

impl AddressSetMap {
    pub open spec fn entries_map(entries: Seq<(Address, AddressSet)>) -> Map<
        Address,
        Set<Address>,
    >
        decreases entries.len(),
    {
        if entries.len() == 0 {
            Map::empty()
        } else {
            Self::entries_map(entries.drop_last()).insert(
                entries.last().0,
                entries.last().1@,
            )
        }
    }

    /// Keys are pairwise distinct and every value is well formed.
    pub open spec fn wf(&self) -> bool {
        &&& forall|i: int, j: int|
            0 <= i < j < self.entries@.len() ==> (#[trigger] self.entries@[i]).0 != (
            #[trigger] self.entries@[j]).0
        &&& forall|i: int| 0 <= i < self.entries@.len() ==> (#[trigger] self.entries@[i]).1.wf()
    }

    /// In a well-formed map, an entry is in the map exactly at its key.
    proof fn lemma_entries_map_index(entries: Seq<(Address, AddressSet)>, p: Address)
        requires
            forall|a: int, b: int|
                0 <= a < b < entries.len() ==> (#[trigger] entries[a]).0 != (
                #[trigger] entries[b]).0,
        ensures
            Self::entries_map(entries).dom().contains(p) <==> (exists|i: int|
                0 <= i < entries.len() && (#[trigger] entries[i]).0 == p),
            forall|i: int|
                0 <= i < entries.len() && (#[trigger] entries[i]).0 == p
                    ==> Self::entries_map(entries)[p] == entries[i].1@,
        decreases entries.len(),
    {
        if entries.len() > 0 {
            Self::lemma_entries_map_index(entries.drop_last(), p);
            assert(forall|i: int|
                0 <= i < entries.len() - 1 ==> #[trigger] entries.drop_last()[i] == entries[i]);
            if entries.last().0 == p {
                assert(entries[entries.len() - 1].0 == p);
            } else {
                if exists|i: int| 0 <= i < entries.len() && (#[trigger] entries[i]).0 == p {
                    let i = choose|i: int|
                        0 <= i < entries.len() && (#[trigger] entries[i]).0 == p;
                    assert(entries.drop_last()[i] == entries[i]);
                }
            }
        }
    }

    /// Removing the entry at an index removes exactly its key from the map.
    proof fn lemma_remove_entry_at(entries: Seq<(Address, AddressSet)>, i: int)
        requires
            forall|a: int, b: int|
                0 <= a < b < entries.len() ==> (#[trigger] entries[a]).0 != (
                #[trigger] entries[b]).0,
            0 <= i < entries.len(),
        ensures
            Self::entries_map(entries.remove(i)) == Self::entries_map(entries).remove(
                entries[i].0,
            ),
        decreases entries.len(),
    {
        if i == entries.len() - 1 {
            assert(entries.remove(i) =~= entries.drop_last());
            Self::lemma_entries_map_index(entries.drop_last(), entries[i].0);
            assert(forall|k: int|
                0 <= k < entries.len() - 1 ==> #[trigger] entries.drop_last()[k] == entries[k]);
            assert(!Self::entries_map(entries.drop_last()).dom().contains(entries[i].0));
            assert(Self::entries_map(entries.remove(i)) =~= Self::entries_map(entries).remove(
                entries[i].0));
        } else {
            assert(entries.remove(i).drop_last() =~= entries.drop_last().remove(i));
            Self::lemma_remove_entry_at(entries.drop_last(), i);
            assert(entries.remove(i).last() == entries.last());
            assert(entries[i].0 != entries[entries.len() - 1].0);
            assert(Self::entries_map(entries.remove(i)) =~= Self::entries_map(entries).remove(
                entries[i].0));
        }
    }

    /// Creates an empty map.
    pub fn new() -> (r: Self)
        ensures
            r.wf(),
            r@ == Map::<Address, Set<Address>>::empty(),
    {
        AddressSetMap { entries: Vec::new() }
    }

    /// Whether the map has an entry for a key.
    pub fn has_key(&self, k: &Address) -> (r: bool)
        requires
            self.wf(),
        ensures
            r == self@.dom().contains(*k),
    {
        let n = self.entries.len();
        let mut i: usize = 0;
        while i < n
            invariant
                n == self.entries@.len(),
                0 <= i <= n,
                forall|t: int| 0 <= t < i ==> (#[trigger] self.entries@[t]).0 != *k,
                self.wf(),
            decreases n - i,
        {
            if self.entries[i].0 == *k {
                proof {
                    Self::lemma_entries_map_index(self.entries@, *k);
                }
                return true;
            }
            i += 1;
        }
        proof {
            Self::lemma_entries_map_index(self.entries@, *k);
        }
        false
    }

    /// Whether the set a key maps to holds an address.
    pub fn contains_in(&self, k: &Address, v: &Address) -> (r: bool)
        requires
            self.wf(),
        ensures
            r == (self@.dom().contains(*k) && self@[*k].contains(*v)),
    {
        let n = self.entries.len();
        let mut i: usize = 0;
        while i < n
            invariant
                n == self.entries@.len(),
                0 <= i <= n,
                forall|t: int| 0 <= t < i ==> (#[trigger] self.entries@[t]).0 != *k,
                self.wf(),
            decreases n - i,
        {
            if self.entries[i].0 == *k {
                proof {
                    Self::lemma_entries_map_index(self.entries@, *k);
                }
                return self.entries[i].1.contains(v);
            }
            i += 1;
        }
        proof {
            Self::lemma_entries_map_index(self.entries@, *k);
        }
        false
    }

    /// Adds an address to the set a key maps to, creating the entry if the
    /// key is new.
    pub fn add_to(&mut self, k: Address, v: Address)
        requires
            old(self).wf(),
        ensures
            final(self).wf(),
            final(self)@ == old(self)@.insert(
                k,
                if old(self)@.dom().contains(k) {
                    old(self)@[k].insert(v)
                } else {
                    Set::<Address>::empty().insert(v)
                },
            ),
    {
        let n = self.entries.len();
        let mut i: usize = 0;
        while i < n
            invariant
                n == self.entries@.len(),
                0 <= i <= n,
                forall|t: int| 0 <= t < i ==> (#[trigger] self.entries@[t]).0 != k,
                self.wf(),
                *self == *old(self),
            decreases n - i,
        {
            if self.entries[i].0 == k {
                proof {
                    Self::lemma_entries_map_index(self.entries@, k);
                    Self::lemma_remove_entry_at(self.entries@, i as int);
                }
                let ghost pre = self.entries@;
                let (k0, mut s0) = self.entries.remove(i);
                s0.insert(v);
                self.entries.push((k0, s0));
                proof {
                    assert(self.entries@.drop_last() =~= pre.remove(i as int));
                    assert(final(self)@ =~= old(self)@.insert(k, old(self)@[k].insert(v)));
                    assert(forall|t: int|
                        0 <= t < pre.remove(i as int).len() ==> #[trigger] pre.remove(
                            i as int,
                        )[t] == if t < i { pre[t] } else { pre[t + 1] });
                }
                return;
            }
            i += 1;
        }
        proof {
            Self::lemma_entries_map_index(self.entries@, k);
        }
        let mut s0 = AddressSet::new();
        s0.insert(v);
        self.entries.push((k, s0));
        proof {
            assert(self.entries@.drop_last() =~= old(self).entries@);
            assert(final(self)@ =~= old(self)@.insert(k, Set::<Address>::empty().insert(v)));
        }
    }

    /// Removes an address from the set a key maps to; a missing key is left
    /// missing.
    pub fn remove_from(&mut self, k: &Address, v: &Address)
        requires
            old(self).wf(),
        ensures
            final(self).wf(),
            final(self)@ == if old(self)@.dom().contains(*k) {
                old(self)@.insert(*k, old(self)@[*k].remove(*v))
            } else {
                old(self)@
            },
    {
        let n = self.entries.len();
        let mut i: usize = 0;
        while i < n
            invariant
                n == self.entries@.len(),
                0 <= i <= n,
                forall|t: int| 0 <= t < i ==> (#[trigger] self.entries@[t]).0 != *k,
                self.wf(),
                *self == *old(self),
            decreases n - i,
        {
            if self.entries[i].0 == *k {
                proof {
                    Self::lemma_entries_map_index(self.entries@, *k);
                    Self::lemma_remove_entry_at(self.entries@, i as int);
                }
                let ghost pre = self.entries@;
                let (k0, mut s0) = self.entries.remove(i);
                s0.remove(v);
                self.entries.push((k0, s0));
                proof {
                    assert(self.entries@.drop_last() =~= pre.remove(i as int));
                    assert(final(self)@ =~= old(self)@.insert(*k, old(self)@[*k].remove(*v)));
                    assert(forall|t: int|
                        0 <= t < pre.remove(i as int).len() ==> #[trigger] pre.remove(
                            i as int,
                        )[t] == if t < i { pre[t] } else { pre[t + 1] });
                }
                return;
            }
            i += 1;
        }
        proof {
            Self::lemma_entries_map_index(self.entries@, *k);
        }
    }

    /// Maps a key to the empty set, replacing any earlier entry.
    pub fn put_empty(&mut self, k: Address)
        requires
            old(self).wf(),
        ensures
            final(self).wf(),
            final(self)@ == old(self)@.insert(k, Set::<Address>::empty()),
    {
        let n = self.entries.len();
        let mut i: usize = 0;
        while i < n
            invariant
                n == self.entries@.len(),
                0 <= i <= n,
                forall|t: int| 0 <= t < i ==> (#[trigger] self.entries@[t]).0 != k,
                self.wf(),
                *self == *old(self),
            decreases n - i,
        {
            if self.entries[i].0 == k {
                proof {
                    Self::lemma_entries_map_index(self.entries@, k);
                    Self::lemma_remove_entry_at(self.entries@, i as int);
                }
                let ghost pre = self.entries@;
                let _ = self.entries.remove(i);
                self.entries.push((k, AddressSet::new()));
                proof {
                    assert(self.entries@.drop_last() =~= pre.remove(i as int));
                    assert(final(self)@ =~= old(self)@.insert(k, Set::<Address>::empty()));
                    assert(forall|t: int|
                        0 <= t < pre.remove(i as int).len() ==> #[trigger] pre.remove(
                            i as int,
                        )[t] == if t < i { pre[t] } else { pre[t + 1] });
                }
                return;
            }
            i += 1;
        }
        self.entries.push((k, AddressSet::new()));
        proof {
            assert(self.entries@.drop_last() =~= old(self).entries@);
            assert(final(self)@ =~= old(self)@.insert(k, Set::<Address>::empty()));
        }
    }
}


} // verus!
