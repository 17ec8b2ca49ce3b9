//! The registry: an index over entities keyed by UUID, with a secondary
//! uniqueness constraint on the entity name.

use vstd::prelude::*;

use crate::types::PoolUuid;

verus! {

/// An entity with an immutable UUID.
pub trait HasUuid: Sized {
    spec fn spec_uuid(&self) -> u128;

    fn uuid(&self) -> (r: PoolUuid)
        ensures
            r == self.spec_uuid(),
    ;
}

/// An entity with a (possibly mutable) name.
pub trait HasName: Sized {
    spec fn spec_name(&self) -> Seq<char>;

    fn name(&self) -> (r: &str)
        ensures
            r@ == self.spec_name(),
    ;
}

/// Compare two string slices by their characters.
pub fn str_eq(a: &str, b: &str) -> (r: bool)
    ensures
        r == (a@ == b@),
{
    let sa = a.to_owned();
    let sb = b.to_owned();
    sa == sb
}

/// A uniqueness-preserving index of entities: no two current entries ever
/// share a UUID or a name. Entries are owned exclusively by the table;
/// removal transfers ownership back to the caller.
#[derive(Debug)]
pub struct Table<T: HasUuid + HasName> {
    entries: Vec<T>,
}

impl<T: HasUuid + HasName> View for Table<T> {
    type V = Seq<T>;

    closed spec fn view(&self) -> Seq<T> {
        self.entries@
    }
}

/// Some entry of `s` carries this UUID.
pub open spec fn seq_has_uuid<T: HasUuid + HasName>(s: Seq<T>, uuid: u128) -> bool {
    exists|i: int| 0 <= i < s.len() && s[i].spec_uuid() == uuid
}

/// Some entry of `s` carries this name.
pub open spec fn seq_has_name<T: HasUuid + HasName>(s: Seq<T>, name: Seq<char>) -> bool {
    exists|i: int| 0 <= i < s.len() && s[i].spec_name() == name
}

/// What a successful UUID lookup returns: an entry of the table carrying
/// the UUID asked for.
pub open spec fn found_by_uuid<T: HasUuid + HasName>(s: Seq<T>, uuid: u128, p: T) -> bool {
    &&& p.spec_uuid() == uuid
    &&& exists|i: int| 0 <= i < s.len() && s[i] == p
}

/// Two entities collide if they share a UUID or a name.
pub open spec fn conflicts<T: HasUuid + HasName>(a: T, b: T) -> bool {
    a.spec_uuid() == b.spec_uuid() || a.spec_name() == b.spec_name()
}

impl<T: HasUuid + HasName> Table<T> {
    /// The uniqueness invariant: all entries differ pairwise in both UUID
    /// and name.
    pub open spec fn wf(self) -> bool {
        forall|i: int, j: int|
            0 <= i < j < self@.len() ==> !conflicts(#[trigger] self@[i], #[trigger] self@[j])
    }

    /// Under the invariant, an entry's UUID determines its position.
    pub proof fn lemma_uuid_unique(self, i: int, j: int)
        requires
            self.wf(),
            0 <= i < self@.len(),
            0 <= j < self@.len(),
            self@[i].spec_uuid() == self@[j].spec_uuid(),
        ensures
            i == j,
    {
    }

    /// Under the invariant, an entry's name determines its position.
    pub proof fn lemma_name_unique(self, i: int, j: int)
        requires
            self.wf(),
            0 <= i < self@.len(),
            0 <= j < self@.len(),
            self@[i].spec_name() == self@[j].spec_name(),
        ensures
            i == j,
    {
    }

    /// An empty table.
    pub fn new() -> (r: Table<T>)
        ensures
            r@ =~= Seq::<T>::empty(),
            r.wf(),
    {
        Table { entries: Vec::new() }
    }

    /// Whether an entry with this name is present.
    pub fn contains_name(&self, name: &str) -> (r: bool)
        ensures
            r == seq_has_name(self@, name@),
    {
        let n = self.entries.len();
        let mut i: usize = 0;
        while i < n
            invariant
                n == self.entries@.len(),
                i <= n,
                forall|j: int| 0 <= j < i ==> (#[trigger] self.entries@[j].spec_name()) != name@,
            decreases n - i,
        {
            if str_eq(self.entries[i].name(), name) {
                return true;
            }
            i = i + 1;
        }
        false
    }

    /// Look an entry up by its UUID.
    pub fn get_by_uuid(&self, uuid: PoolUuid) -> (r: Option<&T>)
        ensures
            (r is Some) == seq_has_uuid(self@, uuid),
            r matches Some(p) ==> found_by_uuid(self@, uuid, *p),
    {
        let n = self.entries.len();
        let mut i: usize = 0;
        while i < n
            invariant
                n == self.entries@.len(),
                i <= n,
                forall|j: int| 0 <= j < i ==> (#[trigger] self.entries@[j].spec_uuid()) != uuid,
            decreases n - i,
        {
            if self.entries[i].uuid() == uuid {
                let p = &self.entries[i];
                proof {
                    assert(self@[i as int] == *p);
                }
                return Some(p);
            }
            i = i + 1;
        }
        None
    }

    /// Store an entity. Any entries colliding with it by UUID or by name are
    /// removed first and handed back; a non-empty result is a duplicate
    /// identity, which callers must treat as an error condition.
    pub fn insert(&mut self, entity: T) -> (evicted: Vec<T>)
        ensures
            (evicted@.len() == 0) == (forall|i: int|
                0 <= i < old(self)@.len() ==> !conflicts(#[trigger] old(self)@[i], entity)),
            evicted@.len() == 0 ==> final(self)@ == old(self)@.push(entity),
            evicted@.len() == 0 && old(self).wf() ==> final(self).wf(),
            forall|k: int| 0 <= k < evicted@.len()
                ==> conflicts(#[trigger] evicted@[k], entity),
            final(self)@.len() >= 1 && final(self)@.last() == entity,
    {
        let n = self.entries.len();
        let mut found = false;
        let mut i: usize = 0;
        while i < n
            invariant
                n == self.entries@.len(),
                i <= n,
                *self == *old(self),
                !found ==> forall|j: int| 0 <= j < i ==> !conflicts(#[trigger] self.entries@[j], entity),
                found ==> exists|j: int| 0 <= j < self.entries@.len()
                    && conflicts(#[trigger] self.entries@[j], entity),
            decreases n - i,
        {
            if self.entries[i].uuid() == entity.uuid() || str_eq(self.entries[i].name(), entity.name()) {
                found = true;
            }
            i = i + 1;
        }
        if !found {
            self.entries.push(entity);
            let r: Vec<T> = Vec::new();
            return r;
        }
        let ghost orig: Seq<T> = self.entries@;
        let mut evicted: Vec<T> = Vec::new();
        let mut kept: Vec<T> = Vec::new();
        while self.entries.len() > 0
            invariant
                orig.len() >= self.entries@.len(),
                self.entries@ =~= orig.subrange(
                    orig.len() - self.entries@.len(),
                    orig.len() as int,
                ),
                evicted@.len() == 0 ==> forall|j: int|
                    0 <= j < orig.len() - self.entries@.len()
                        ==> !conflicts(#[trigger] orig[j], entity),
                forall|k: int| 0 <= k < evicted@.len()
                    ==> conflicts(#[trigger] evicted@[k], entity),
            decreases self.entries.len(),
        {
            let x = self.entries.remove(0);
            if x.uuid() == entity.uuid() || str_eq(x.name(), entity.name()) {
                evicted.push(x);
            } else {
                kept.push(x);
            }
        }
        proof {
            assert(exists|j: int| 0 <= j < orig.len() && conflicts(#[trigger] orig[j], entity));
            assert(evicted@.len() > 0);
        }
        self.entries = kept;
        self.entries.push(entity);
        evicted
    }

    /// Remove the entry with this UUID, if any, transferring its ownership
    /// to the caller.
    pub fn remove_by_uuid(&mut self, uuid: PoolUuid) -> (r: Option<T>)
        requires
            old(self).wf(),
        ensures
            final(self).wf(),
            match r {
                Some(x) => {
                    &&& x.spec_uuid() == uuid
                    &&& exists|i: int|
                        0 <= i < old(self)@.len() && old(self)@[i] == x
                            && final(self)@ == old(self)@.remove(i)
                },
                None => {
                    &&& final(self)@ == old(self)@
                    &&& !seq_has_uuid(old(self)@, uuid)
                },
            },
            (r is Some) == seq_has_uuid(old(self)@, uuid),
    {
        let n = self.entries.len();
        let mut i: usize = 0;
        while i < n
            invariant
                n == self.entries@.len(),
                i <= n,
                *self == *old(self),
                old(self).wf(),
                forall|j: int| 0 <= j < i ==> (#[trigger] self.entries@[j].spec_uuid()) != uuid,
            decreases n - i,
        {
            if self.entries[i].uuid() == uuid {
                let x = self.entries.remove(i);
                proof {
                    old(self)@.remove_ensures(i as int);
                    assert(0 <= i < old(self)@.len() && old(self)@[i as int] == x);
                    assert(self.entries@ == old(self)@.remove(i as int));
                    assert forall|a: int, b: int|
                        0 <= a < b < self.entries@.len()
                            implies !conflicts(self.entries@[a], self.entries@[b]) by {
                        let oa: int = if a < i { a } else { a + 1 };
                        let ob: int = if b < i { b } else { b + 1 };
                        assert(self.entries@[a] == old(self)@[oa]);
                        assert(self.entries@[b] == old(self)@[ob]);
                        assert(0 <= oa < ob < old(self)@.len());
                        assert(!conflicts(old(self)@[oa], old(self)@[ob]));
                    }
                }
                return Some(x);
            }
            i = i + 1;
        }
        None
    }

    /// Consume the table, yielding every entry; used on teardown paths.
    pub fn empty(self) -> (r: Vec<T>)
        ensures
            r@ == self@,
    {
        self.entries
    }

    /// Borrow every entry, in table order.
    pub fn borrowed(&self) -> (r: Vec<&T>)
        ensures
            r@.len() == self@.len(),
            forall|i: int| 0 <= i < r@.len() ==> *(#[trigger] r@[i]) == self@[i],
    {
        let n = self.entries.len();
        let mut r: Vec<&T> = Vec::new();
        let mut i: usize = 0;
        while i < n
            invariant
                n == self.entries@.len(),
                i <= n,
                r@.len() == i,
                forall|j: int| 0 <= j < i ==> *(#[trigger] r@[j]) == self.entries@[j],
            decreases n - i,
        {
            r.push(&self.entries[i]);
            i = i + 1;
        }
        r
    }

    /// Borrow the entry at a position.
    pub fn get_at(&self, i: usize) -> (r: &T)
        requires
            i < self@.len(),
        ensures
            *r == self@[i as int],
    {
        &self.entries[i]
    }

    /// Mutably borrow the entry at a position. The table's invariant is the
    /// caller's to re-establish: it holds again whenever the entry's UUID
    /// and name are left unchanged.
    pub fn get_at_mut(&mut self, i: usize) -> (r: &mut T)
        requires
            i < old(self)@.len(),
        ensures
            *r == old(self)@[i as int],
            final(self)@ == old(self)@.update(i as int, *final(r)),
    {
        &mut self.entries[i]
    }

    /// The number of entries.
    pub fn len(&self) -> (r: usize)
        ensures
            r == self@.len(),
    {
        self.entries.len()
    }
}

impl<T: HasUuid + HasName> Default for Table<T> {
    /// An empty table.
    fn default() -> (r: Self)
        ensures
            r@ =~= Seq::<T>::empty(),
            r.wf(),
    {
        Table { entries: Vec::new() }
    }
}

} // verus!
