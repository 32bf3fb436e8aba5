//! A sparse table from entity identifiers to component records.
//!
//! Identifiers are handed out densely from zero, so the table is an array
//! of optional records addressed by identifier. Rows are visited in
//! ascending identifier order, which keeps every walk over a table
//! reproducible.

use vstd::prelude::*;

use crate::battle::Id;

verus! {

/// Identifiers at or above this bound are never stored.
pub const ID_LIMIT: i32 = 0x7fff_ffff;

/// Component records of one kind, keyed by entity identifier.
#[derive(Debug, PartialEq)]
pub struct Table<V> {
    slots: Vec<Option<V>>,
}

impl<V> View for Table<V> {
    type V = Map<int, V>;

    closed spec fn view(&self) -> Map<int, V> {
        Map::new(
            |k: int| 0 <= k < self.slots@.len() && self.slots@[k].is_some(),
            |k: int| self.slots@[k].unwrap(),
        )
    }
}

impl<V> Table<V> {
    #[verifier::type_invariant]
    spec fn inv(&self) -> bool {
        self.slots@.len() <= ID_LIMIT
    }

    /// Whether the table has a row for `id`.
    pub open spec fn has(&self, id: Id) -> bool {
        self@.contains_key(id.0 as int)
    }

    /// The row of `id`.
    pub open spec fn at(&self, id: Id) -> V {
        self@[id.0 as int]
    }

    /// An empty table.
    pub fn new() -> (t: Table<V>)
        ensures
            t@ == Map::<int, V>::empty(),
    {
        let t = Table { slots: Vec::new() };
        assert(t@ =~= Map::<int, V>::empty());
        t
    }

    /// One more than the largest identifier that may have a row.
    pub fn bound(&self) -> (n: i32)
        ensures
            0 <= n <= ID_LIMIT,
            forall|k: int| #[trigger] self@.contains_key(k) ==> 0 <= k < n,
    {
        proof {
            use_type_invariant(self);
        }
        self.slots.len() as i32
    }

    /// The row of `id`, if there is one.
    pub fn get(&self, id: Id) -> (r: Option<&V>)
        ensures
            r.is_some() == self.has(id),
            r.is_some() ==> *r.unwrap() == self.at(id),
            r.is_some() ==> Self::storable(id),
    {
        proof {
            use_type_invariant(self);
        }
        if id.0 < 0 {
            return None;
        }
        let i: usize = id.0 as usize;
        if i < self.slots.len() {
            self.slots[i].as_ref()
        } else {
            None
        }
    }

    /// Whether `id` has a row.
    pub fn contains(&self, id: Id) -> (r: bool)
        ensures
            r == self.has(id),
            r ==> Self::storable(id),
    {
        self.get(id).is_some()
    }

    /// Whether `id` can have a row at all.
    pub open spec fn storable(id: Id) -> bool {
        0 <= id.0 < ID_LIMIT
    }

    /// Sets the row of `id`, replacing the one it had. An identifier that
    /// is not storable is left without a row.
    pub fn insert(&mut self, id: Id, value: V)
        ensures
            Self::storable(id) ==> final(self)@ == old(self)@.insert(id.0 as int, value),
            !Self::storable(id) ==> final(self)@ == old(self)@,
    {
        proof {
            use_type_invariant(&*self);
        }
        if id.0 < 0 || id.0 >= ID_LIMIT {
            return ;
        }
        let i: usize = id.0 as usize;
        let mut slots: Vec<Option<V>> = Vec::new();
        std::mem::swap(&mut slots, &mut self.slots);
        while slots.len() <= i
            invariant
                i < ID_LIMIT,
                slots@.len() <= ID_LIMIT,
                slots@.len() >= old(self).slots@.len(),
                forall|k: int| 0 <= k < old(self).slots@.len() ==> slots@[k] == old(self).slots@[k],
                forall|k: int| old(self).slots@.len() <= k < slots@.len() ==> slots@[k].is_none(),
            decreases i + 1 - slots@.len(),
        {
            slots.push(None);
        }
        slots.set(i, Some(value));
        self.slots = slots;
        assert(self@ =~= old(self)@.insert(id.0 as int, value));
    }

    /// Takes the row of `id` out of the table.
    pub fn remove(&mut self, id: Id) -> (r: Option<V>)
        ensures
            final(self)@ == old(self)@.remove(id.0 as int),
            r.is_some() == old(self).has(id),
            r.is_some() ==> r.unwrap() == old(self).at(id),
            r.is_some() ==> Self::storable(id),
    {
        proof {
            use_type_invariant(&*self);
        }
        if id.0 < 0 {
            assert(self@ =~= old(self)@.remove(id.0 as int));
            return None;
        }
        let i: usize = id.0 as usize;
        if i >= self.slots.len() {
            assert(self@ =~= old(self)@.remove(id.0 as int));
            return None;
        }
        let mut slots: Vec<Option<V>> = Vec::new();
        std::mem::swap(&mut slots, &mut self.slots);
        let mut taken: Option<V> = None;
        slots.set_and_swap(i, &mut taken);
        // Drop the empty slots at the end, so that equal tables are stored alike.
        while slots.len() > 0 && slots[slots.len() - 1].is_none()
            invariant
                slots@.len() <= old(self).slots@.len(),
                forall|k: int| 0 <= k < slots@.len() && k != i ==> slots@[k] == old(self).slots@[k],
                forall|k: int|
                    slots@.len() <= k < old(self).slots@.len() && k != i
                        ==> old(self).slots@[k].is_none(),
                i < slots@.len() ==> slots@[i as int].is_none(),
            decreases slots@.len(),
        {
            let _ = slots.pop();
        }
        self.slots = slots;
        assert(self@ =~= old(self)@.remove(id.0 as int));
        taken
    }
}

impl<V: Clone> Clone for Table<V> {
    /// A table with a copy of every row.
    fn clone(&self) -> (copy: Self)
        ensures
            copy@.dom() == self@.dom(),
            forall|k: int| #[trigger] self@.contains_key(k) ==> cloned::<V>(self@[k], copy@[k]),
    {
        proof {
            use_type_invariant(self);
        }
        let mut slots: Vec<Option<V>> = Vec::new();
        let mut i: usize = 0;
        while i < self.slots.len()
            invariant
                i <= self.slots@.len(),
                self.slots@.len() <= ID_LIMIT,
                slots@.len() == i,
                forall|k: int| 0 <= k < i ==> slots@[k].is_some() == self.slots@[k].is_some(),
                forall|k: int|
                    0 <= k < i && self.slots@[k].is_some() ==> cloned::<V>(
                        self.slots@[k].unwrap(),
                        #[trigger] slots@[k].unwrap(),
                    ),
            decreases self.slots@.len() - i,
        {
            let slot: Option<V> = match &self.slots[i] {
                Some(v) => Some(v.clone()),
                None => None,
            };
            slots.push(slot);
            i += 1;
        }
        let copy = Table { slots };
        assert(copy@.dom() =~= self@.dom());
        copy
    }
}

} // verus!
