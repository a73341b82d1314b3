//! Bounded store that evicts its least recently used entry.

use vstd::prelude::*;

verus! {

/// A key that can be compared with another one.
pub trait CacheKey: Sized {
    /// What two equal keys have in common.
    type Id;

    spec fn id(&self) -> Self::Id;

    /// Whether both keys stand for the same thing.
    fn matches(&self, other: &Self) -> (result: bool)
        ensures
            result == (self.id() == other.id()),
    ;
}

/// One stored value with the tick of its last use.
pub struct Slot<K, V> {
    key: K,
    used: u64,
    value: V,
}

/// A least-recently-used store. The tick counts every access.
pub struct Lru<K, V> {
    slots: Vec<Slot<K, V>>,
    tick: u64,
}

/// What one slot holds.
pub struct Entry<I, V> {
    pub id: I,
    pub used: int,
    pub value: V,
}

/// `at` is the position of the entry for `id`.
pub open spec fn stored_at<I, V>(entries: Seq<Entry<I, V>>, id: I, at: int) -> bool {
    0 <= at < entries.len() && entries[at].id == id
}

/// Some entry is stored for `id`.
pub open spec fn holds_id<I, V>(entries: Seq<Entry<I, V>>, id: I) -> bool {
    exists|at: int| stored_at(entries, id, at)
}

/// `at` is the position of the least recently used entry.
pub open spec fn oldest<I, V>(entries: Seq<Entry<I, V>>, at: int) -> bool {
    &&& 0 <= at < entries.len()
    &&& forall|k: int| 0 <= k < entries.len() ==> entries[at].used <= (#[trigger] entries[k]).used
}

/// `left` is what remains of `entries` once there is room for `id`: everything,
/// unless `id` is new and the store is full, when the oldest entry is gone.
pub open spec fn makes_room<I, V>(
    entries: Seq<Entry<I, V>>,
    id: I,
    capacity: int,
    left: Seq<Entry<I, V>>,
) -> bool {
    if holds_id(entries, id) || entries.len() < capacity || entries.len() == 0 {
        left == entries
    } else {
        exists|at: int| oldest(entries, at) && left == #[trigger] entries.remove(at)
    }
}

/// Reading `id` found `value` and marked it as used at `tick`.
pub open spec fn touched<I, V>(
    before: Seq<Entry<I, V>>,
    id: I,
    tick: int,
    value: V,
    after: Seq<Entry<I, V>>,
) -> bool {
    exists|at: int|
        {
            &&& #[trigger] stored_at(before, id, at)
            &&& value == before[at].value
            &&& after == before.update(at, Entry { id, used: tick, value })
        }
}

/// Storing `value` replaced the one that `id` had.
pub open spec fn replaced<I, V>(
    before: Seq<Entry<I, V>>,
    id: I,
    tick: int,
    value: V,
    after: Seq<Entry<I, V>>,
) -> bool {
    exists|at: int|
        {
            &&& #[trigger] stored_at(before, id, at)
            &&& after == before.update(at, Entry { id, used: tick, value })
        }
}

/// Storing `value` for the new `id` added it behind what was left.
pub open spec fn added<I, V>(
    before: Seq<Entry<I, V>>,
    id: I,
    capacity: int,
    tick: int,
    value: V,
    after: Seq<Entry<I, V>>,
) -> bool {
    exists|left: Seq<Entry<I, V>>|
        {
            &&& #[trigger] makes_room(before, id, capacity, left)
            &&& after == left.push(Entry { id, used: tick, value })
        }
}

impl<K: CacheKey, V> Lru<K, V> {
    /// The entries in storage order.
    pub closed spec fn entries(self) -> Seq<Entry<K::Id, V>> {
        Seq::new(
            self.slots@.len(),
            |i: int|
                Entry {
                    id: self.slots@[i].key.id(),
                    used: self.slots@[i].used as int,
                    value: self.slots@[i].value,
                },
        )
    }

    /// Accesses counted so far.
    pub closed spec fn ticks(self) -> int {
        self.tick as int
    }

    /// An entry is stored at most once for a key, and was used at a tick that
    /// no other entry was used at and that has passed.
    pub open spec fn wf(self) -> bool {
        &&& self.ticks() >= 0
        &&& forall|i: int, j: int|
            0 <= i < j < self.entries().len() ==> (#[trigger] self.entries()[i]).id != (
            #[trigger] self.entries()[j]).id
        &&& forall|i: int, j: int|
            0 <= i < j < self.entries().len() ==> (#[trigger] self.entries()[i]).used != (
            #[trigger] self.entries()[j]).used
        &&& forall|i: int|
            0 <= i < self.entries().len() ==> 0 <= (#[trigger] self.entries()[i]).used <= self.ticks()
    }

    /// An empty store.
    pub fn new() -> (result: Self)
        ensures
            result.wf(),
            result.entries() == Seq::<Entry<K::Id, V>>::empty(),
            result.ticks() == 0,
    {
        let made = Lru { slots: Vec::new(), tick: 0 };
        assert(made.entries() =~= Seq::<Entry<K::Id, V>>::empty());
        made
    }

    /// Number of entries.
    pub fn len(&self) -> (result: usize)
        ensures
            result == self.entries().len(),
    {
        self.slots.len()
    }

    fn find(&self, key: &K) -> (result: Option<usize>)
        ensures
            match result {
                Some(at) => stored_at(self.entries(), key.id(), at as int),
                None => !holds_id(self.entries(), key.id()),
            },
    {
        let mut i: usize = 0;
        while i < self.slots.len()
            invariant
                i <= self.slots@.len(),
                forall|k: int| 0 <= k < i ==> (#[trigger] self.entries()[k]).id != key.id(),
            decreases self.slots@.len() - i,
        {
            if self.slots[i].key.matches(key) {
                assert(self.entries()[i as int].id == key.id());
                return Some(i);
            }
            assert(self.entries()[i as int].id != key.id());
            i = i + 1;
        }
        None
    }

    /// Reads the entry of `key` and marks it as the most recently used one.
    pub fn get(&mut self, key: &K) -> (result: Option<&V>)
        requires
            old(self).wf(),
            old(self).ticks() < u64::MAX,
        ensures
            final(self).wf(),
            final(self).ticks() == old(self).ticks() + 1,
            match result {
                None => !holds_id(old(self).entries(), key.id()) && final(self).entries() == old(
                    self,
                ).entries(),
                Some(value) => touched(
                    old(self).entries(),
                    key.id(),
                    final(self).ticks(),
                    *value,
                    final(self).entries(),
                ),
            },
    {
        let ghost before = self.entries();
        self.tick = self.tick + 1;
        assert(self.entries() =~= before);
        match self.find(key) {
            None => None,
            Some(at) => {
                let now: u64 = self.tick;
                self.slots[at].used = now;
                assert(self.entries() =~= before.update(
                    at as int,
                    Entry { id: key.id(), used: now as int, value: before[at as int].value },
                ));
                assert(stored_at(before, key.id(), at as int));
                Some(&self.slots[at].value)
            },
        }
    }

    fn make_room(&mut self, key: &K, capacity: usize)
        requires
            old(self).wf(),
        ensures
            final(self).wf(),
            final(self).ticks() == old(self).ticks(),
            makes_room(old(self).entries(), key.id(), capacity as int, final(self).entries()),
            holds_id(final(self).entries(), key.id()) == holds_id(old(self).entries(), key.id()),
    {
        if self.find(key).is_some() {
            return ;
        }
        if self.slots.len() < capacity || self.slots.len() == 0 {
            return ;
        }
        let ghost before = self.entries();
        let mut best: usize = 0;
        let mut i: usize = 1;
        while i < self.slots.len()
            invariant
                self.entries() == before,
                best < i <= self.slots@.len(),
                forall|k: int| 0 <= k < i ==> before[best as int].used <= (#[trigger] before[k]).used,
            decreases self.slots@.len() - i,
        {
            assert(before[i as int].used == self.slots@[i as int].used);
            assert(before[best as int].used == self.slots@[best as int].used);
            if self.slots[i].used < self.slots[best].used {
                best = i;
            }
            i = i + 1;
        }
        assert(oldest(before, best as int));
        let _ = self.slots.remove(best);
        assert(self.entries() =~= before.remove(best as int));
        let ghost after = self.entries();
        assert forall|a: int, b: int| 0 <= a < b < after.len() implies (#[trigger] after[a]).id != (
        #[trigger] after[b]).id && after[a].used != after[b].used by {
            let x = if a < best {
                a
            } else {
                a + 1
            };
            let y = if b < best {
                b
            } else {
                b + 1
            };
            assert(after[a] == before[x]);
            assert(after[b] == before[y]);
        }
        assert forall|a: int| 0 <= a < after.len() implies 0 <= (#[trigger] after[a]).used
            <= self.ticks() by {
            let x = if a < best {
                a
            } else {
                a + 1
            };
            assert(after[a] == before[x]);
        }
        assert(!holds_id(after, key.id())) by {
            if holds_id(after, key.id()) {
                let a = choose|a: int| stored_at(after, key.id(), a);
                let x = if a < best {
                    a
                } else {
                    a + 1
                };
                assert(after[a] == before[x]);
                assert(stored_at(before, key.id(), x));
            }
        }
    }

    /// Stores a value for a key that has none; a stored value stays.
    pub fn insert_if_absent(&mut self, key: K, value: V, capacity: usize)
        requires
            old(self).wf(),
            old(self).ticks() < u64::MAX,
        ensures
            final(self).wf(),
            final(self).ticks() == old(self).ticks() + 1,
            holds_id(old(self).entries(), key.id()) ==> final(self).entries() == old(self).entries(),
            !holds_id(old(self).entries(), key.id()) ==> added(
                old(self).entries(),
                key.id(),
                capacity as int,
                final(self).ticks(),
                value,
                final(self).entries(),
            ),
    {
        let ghost before = self.entries();
        self.make_room(&key, capacity);
        let ghost left = self.entries();
        self.tick = self.tick + 1;
        assert(self.entries() =~= left);
        if self.find(&key).is_some() {
            return ;
        }
        let now: u64 = self.tick;
        let ghost id = key.id();
        self.slots.push(Slot { key, used: now, value });
        assert(self.entries() =~= left.push(Entry { id, used: now as int, value }));
        assert forall|a: int| 0 <= a < left.len() implies (#[trigger] left[a]).id != id by {
            if left[a].id == id {
                assert(stored_at(left, id, a));
            }
        }
    }

    /// Stores a value for a key in place of the one it has.
    pub fn insert(&mut self, key: K, value: V, capacity: usize)
        requires
            old(self).wf(),
            old(self).ticks() < u64::MAX,
        ensures
            final(self).wf(),
            final(self).ticks() == old(self).ticks() + 1,
            holds_id(old(self).entries(), key.id()) ==> replaced(
                old(self).entries(),
                key.id(),
                final(self).ticks(),
                value,
                final(self).entries(),
            ),
            !holds_id(old(self).entries(), key.id()) ==> added(
                old(self).entries(),
                key.id(),
                capacity as int,
                final(self).ticks(),
                value,
                final(self).entries(),
            ),
    {
        let ghost before = self.entries();
        self.make_room(&key, capacity);
        let ghost left = self.entries();
        self.tick = self.tick + 1;
        assert(self.entries() =~= left);
        let now: u64 = self.tick;
        let ghost id = key.id();
        match self.find(&key) {
            Some(at) => {
                self.slots[at] = Slot { key, used: now, value };
                assert(self.entries() =~= left.update(
                    at as int,
                    Entry { id, used: now as int, value },
                ));
                assert(stored_at(before, id, at as int));
            },
            None => {
                self.slots.push(Slot { key, used: now, value });
                assert(self.entries() =~= left.push(Entry { id, used: now as int, value }));
                assert forall|a: int| 0 <= a < left.len() implies (#[trigger] left[a]).id != id by {
                    if left[a].id == id {
                        assert(stored_at(left, id, a));
                    }
                }
            },
        }
    }
}

/// A value just stored is the one read next, whatever room had to be made.
pub proof fn stored_value_is_read_back<I, V>(
    before: Seq<Entry<I, V>>,
    id: I,
    capacity: int,
    tick: int,
    value: V,
    middle: Seq<Entry<I, V>>,
    later: int,
    seen: V,
    after: Seq<Entry<I, V>>,
)
    requires
        !holds_id(before, id),
        added(before, id, capacity, tick, value, middle),
        touched(middle, id, later, seen, after),
    ensures
        holds_id(middle, id),
        seen == value,
{
    let left = choose|left: Seq<Entry<I, V>>|
        {
            &&& #[trigger] makes_room(before, id, capacity, left)
            &&& middle == left.push(Entry { id, used: tick, value })
        };
    let at = choose|at: int|
        {
            &&& #[trigger] stored_at(middle, id, at)
            &&& seen == middle[at].value
            &&& after == middle.update(at, Entry { id, used: later, value: seen })
        };
    if at < left.len() {
        assert(left[at].id == id);
        if left == before {
            assert(stored_at(before, id, at));
        } else {
            let gone = choose|gone: int| oldest(before, gone) && left == #[trigger] before.remove(gone);
            let x = if at < gone {
                at
            } else {
                at + 1
            };
            assert(left[at] == before[x]);
            assert(stored_at(before, id, x));
        }
    }
}

/// A store within its capacity stays within it when a value is added.
pub proof fn capacity_is_kept<I, V>(
    entries: Seq<Entry<I, V>>,
    id: I,
    capacity: int,
    left: Seq<Entry<I, V>>,
    added: Entry<I, V>,
)
    requires
        capacity > 0,
        entries.len() <= capacity,
        !holds_id(entries, id),
        makes_room(entries, id, capacity, left),
    ensures
        left.push(added).len() <= capacity,
{
}

/// Making room drops an entry only for the sake of a new one, and then the one
/// that was used before all that stay.
pub proof fn only_the_oldest_leaves<I, V>(
    entries: Seq<Entry<I, V>>,
    id: I,
    capacity: int,
    left: Seq<Entry<I, V>>,
    gone: int,
    kept: int,
)
    requires
        makes_room(entries, id, capacity, left),
        forall|i: int, j: int|
            0 <= i < j < entries.len() ==> (#[trigger] entries[i]).used != (#[trigger] entries[j]).used,
        0 <= gone < entries.len(),
        !left.contains(entries[gone]),
        0 <= kept < entries.len(),
        kept != gone,
    ensures
        left.contains(entries[kept]),
        entries[gone].used < entries[kept].used,
{
    if left == entries {
        assert(left[gone] == entries[gone]);
    } else {
        let at = choose|at: int| oldest(entries, at) && left == #[trigger] entries.remove(at);
        if at != gone {
            let x = if gone < at {
                gone
            } else {
                gone - 1
            };
            assert(left[x] == entries[gone]);
        }
        let y = if kept < at {
            kept
        } else {
            kept - 1
        };
        assert(left[y] == entries[kept]);
        if gone < kept {
            assert(entries[gone].used != entries[kept].used);
        } else {
            assert(entries[kept].used != entries[gone].used);
        }
    }
}

} // verus!
