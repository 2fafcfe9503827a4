//! Tables that map keys to values, for keys that can only be compared.
use crate::protocol;
use crate::protocol::{Digest, SocketAddr};
use vstd::prelude::*;

verus! {

/// A key of a table, by what it stands for.
pub trait TableKey: Sized {
    type Id;

    /// What the key stands for.
    spec fn id(&self) -> Self::Id;

    /// Whether two keys stand for the same.
    fn same(&self, other: &Self) -> (r: bool)
        ensures
            r == (self.id() == other.id()),
    ;
}

impl TableKey for String {
    type Id = Seq<char>;

    open spec fn id(&self) -> Seq<char> {
        self@
    }

    fn same(&self, other: &Self) -> (r: bool) {
        *self == *other
    }
}

impl TableKey for Digest {
    type Id = Seq<u8>;

    open spec fn id(&self) -> Seq<u8> {
        self@
    }

    fn same(&self, other: &Self) -> (r: bool) {
        protocol::same_digest(self, other)
    }
}

impl TableKey for SocketAddr {
    type Id = SocketAddr;

    open spec fn id(&self) -> SocketAddr {
        *self
    }

    fn same(&self, other: &Self) -> (r: bool) {
        protocol::same_addr(self, other)
    }
}

/// A table in the order in which its keys were first inserted. No key occurs twice.
pub struct Table<K, V> {
    entries: Vec<(K, V)>,
}

impl<K: TableKey, V> Table<K, V> {
    /// The keys and values, in order.
    pub closed spec fn entries(self) -> Seq<(K, V)> {
        self.entries@
    }

    /// No key occurs twice.
    pub open spec fn wf(self) -> bool {
        forall|i: int, j: int|
            0 <= i < j < self.entries().len() ==> (#[trigger] self.entries()[i]).0.id() != (
            #[trigger] self.entries()[j]).0.id()
    }

    /// Where the key stands.
    pub open spec fn position(self, id: K::Id) -> int {
        choose|i: int| 0 <= i < self.entries().len() && (#[trigger] self.entries()[i]).0.id() == id
    }

    pub open spec fn contains(self, id: K::Id) -> bool {
        exists|i: int| 0 <= i < self.entries().len() && (#[trigger] self.entries()[i]).0.id() == id
    }

    /// The value that the table gives for a key.
    pub open spec fn lookup(self, id: K::Id) -> Option<V> {
        if self.contains(id) {
            Some(self.entries()[self.position(id)].1)
        } else {
            None
        }
    }

    /// The entry at `i` is what the table gives for its key.
    pub proof fn lemma_entry(self, i: int)
        requires
            self.wf(),
            0 <= i < self.entries().len(),
        ensures
            self.position(self.entries()[i].0.id()) == i,
            self.lookup(self.entries()[i].0.id()) == Some(self.entries()[i].1),
    {
        let id = self.entries()[i].0.id();
        assert(self.contains(id));
        let p = self.position(id);
        assert(self.entries()[p].0.id() == id);
    }

    pub fn new() -> (r: Self)
        ensures
            r.wf(),
            r.entries().len() == 0,
    {
        Table { entries: Vec::new() }
    }

    pub fn len(&self) -> (n: usize)
        ensures
            n == self.entries().len(),
    {
        self.entries.len()
    }

    pub fn key_at(&self, i: usize) -> (r: &K)
        requires
            i < self.entries().len(),
        ensures
            *r == self.entries()[i as int].0,
    {
        &self.entries[i].0
    }

    pub fn value_at(&self, i: usize) -> (r: &V)
        requires
            i < self.entries().len(),
        ensures
            *r == self.entries()[i as int].1,
    {
        &self.entries[i].1
    }

    /// The value at `i`, to change in place.
    pub fn value_at_mut(&mut self, i: usize) -> (r: &mut V)
        requires
            i < old(self).entries().len(),
        ensures
            *r == old(self).entries()[i as int].1,
            final(self).entries() == old(self).entries().update(
                i as int,
                (old(self).entries()[i as int].0, *final(r)),
            ),
    {
        &mut self.entries[i].1
    }

    /// Where the key stands, if it is there.
    pub fn find(&self, key: &K) -> (r: Option<usize>)
        requires
            self.wf(),
        ensures
            r is Some <==> self.contains(key.id()),
            r matches Some(i) ==> i < self.entries().len() && i == self.position(key.id())
                && self.entries()[i as int].0.id() == key.id() && self.lookup(key.id()) == Some(
                self.entries()[i as int].1,
            ),
    {
        let mut i: usize = 0;
        while i < self.entries.len()
            invariant
                self.wf(),
                i <= self.entries().len(),
                forall|j: int| 0 <= j < i ==> (#[trigger] self.entries()[j]).0.id() != key.id(),
            decreases self.entries().len() - i,
        {
            if self.entries[i].0.same(key) {
                proof {
                    self.lemma_entry(i as int);
                }
                return Some(i);
            }
            i += 1;
        }
        None
    }

    pub fn get(&self, key: &K) -> (r: Option<&V>)
        requires
            self.wf(),
        ensures
            r == (match self.lookup(key.id()) {
                Some(v) => Some(&v),
                None => None::<&V>,
            }),
    {
        match self.find(key) {
            Some(i) => Some(&self.entries[i].1),
            None => None,
        }
    }

    /// Sets the value of a key and returns the value that it had.
    pub fn insert(&mut self, key: K, value: V) -> (r: Option<V>)
        requires
            old(self).wf(),
        ensures
            final(self).wf(),
            r == old(self).lookup(key.id()),
            final(self).lookup(key.id()) == Some(value),
            forall|id: K::Id| id != key.id() ==> final(self).lookup(id) == old(self).lookup(id),
            old(self).contains(key.id()) ==> final(self).entries() == old(self).entries().update(
                old(self).position(key.id()),
                (old(self).entries()[old(self).position(key.id())].0, value),
            ),
            !old(self).contains(key.id()) ==> final(self).entries() == old(self).entries().push(
                (key, value),
            ),
    {
        let ghost before = *self;
        match self.find(&key) {
            Some(i) => {
                let (old_key, old_value) = self.entries.remove(i);
                self.entries.insert(i, (old_key, value));
                proof {
                    assert(self.entries() =~= before.entries().update(
                        i as int,
                        (before.entries()[i as int].0, value),
                    ));
                    assert forall|j: int| 0 <= j < self.entries().len() implies (
                    #[trigger] self.entries()[j]).0 == before.entries()[j].0 by {}
                    lemma_lookups_after_update(before, *self, i as int, value);
                }
                Some(old_value)
            },
            None => {
                self.entries.push((key, value));
                proof {
                    let n = before.entries().len() as int;
                    assert(self.entries()[n].0.id() == key.id());
                    self.lemma_entry(n);
                    assert forall|id: K::Id| id != key.id() implies self.lookup(id)
                        == before.lookup(id) by {
                        if before.contains(id) {
                            let p = before.position(id);
                            assert(self.entries()[p] == before.entries()[p]);
                            self.lemma_entry(p);
                            before.lemma_entry(p);
                        } else if self.contains(id) {
                            let p = self.position(id);
                            assert(p < n);
                            assert(before.entries()[p].0.id() == id);
                        }
                    }
                }
                None
            },
        }
    }

    /// Removes a key and returns the value that it had.
    pub fn remove(&mut self, key: &K) -> (r: Option<V>)
        requires
            old(self).wf(),
        ensures
            final(self).wf(),
            r == old(self).lookup(key.id()),
            final(self).lookup(key.id()) is None,
            forall|id: K::Id| id != key.id() ==> final(self).lookup(id) == old(self).lookup(id),
            final(self).entries() == (if old(self).contains(key.id()) {
                old(self).entries().remove(old(self).position(key.id()))
            } else {
                old(self).entries()
            }),
    {
        let ghost before = *self;
        match self.find(key) {
            Some(i) => {
                let (_, value) = self.entries.remove(i);
                proof {
                    let k = i as int;
                    assert forall|j: int| 0 <= j < self.entries().len() implies (
                    #[trigger] self.entries()[j]) == before.entries()[if j < k {
                        j
                    } else {
                        j + 1
                    }] by {}
                    assert(self.wf());
                    if self.contains(key.id()) {
                        let p = self.position(key.id());
                        let q = if p < k {
                            p
                        } else {
                            p + 1
                        };
                        assert(before.entries()[q].0.id() == key.id());
                        before.lemma_entry(q);
                    }
                    assert forall|id: K::Id| id != key.id() implies self.lookup(id)
                        == before.lookup(id) by {
                        if before.contains(id) {
                            let p = before.position(id);
                            assert(p != k);
                            let q = if p < k {
                                p
                            } else {
                                p - 1
                            };
                            assert(self.entries()[q] == before.entries()[p]);
                            self.lemma_entry(q);
                            before.lemma_entry(p);
                        } else if self.contains(id) {
                            let p = self.position(id);
                            let q = if p < k {
                                p
                            } else {
                                p + 1
                            };
                            assert(before.entries()[q].0.id() == id);
                        }
                    }
                }
                Some(value)
            },
            None => None,
        }
    }
}

impl<K: TableKey, V> Default for Table<K, V> {
    fn default() -> (r: Self)
        ensures
            r.wf(),
            r.entries().len() == 0,
    {
        Table::new()
    }
}

proof fn lemma_lookups_after_update<K: TableKey, V>(
    before: Table<K, V>,
    after: Table<K, V>,
    i: int,
    value: V,
)
    requires
        before.wf(),
        0 <= i < before.entries().len(),
        after.entries() == before.entries().update(i, (before.entries()[i].0, value)),
    ensures
        after.wf(),
        after.lookup(before.entries()[i].0.id()) == Some(value),
        forall|id: K::Id|
            id != before.entries()[i].0.id() ==> after.lookup(id) == before.lookup(id),
{
    assert forall|j: int| 0 <= j < after.entries().len() implies (#[trigger] after.entries()[j]).0
        == before.entries()[j].0 by {}
    after.lemma_entry(i);
    assert forall|id: K::Id| id != before.entries()[i].0.id() implies after.lookup(id)
        == before.lookup(id) by {
        if before.contains(id) {
            let p = before.position(id);
            assert(after.entries()[p].0.id() == id);
            after.lemma_entry(p);
            before.lemma_entry(p);
        } else if after.contains(id) {
            let p = after.position(id);
            assert(before.entries()[p].0.id() == id);
        }
    }
}

} // verus!
