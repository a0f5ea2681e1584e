use vstd::prelude::*;

use crate::key_index::{index_contents, KeyIndex};
use crate::model::{after_get_or_init, after_init, init_stores, stored};
use crate::outcome::GetOrInitData;

verus! {

/// The created table of a map: a key table and the arena of values it
/// points into. Values are only ever appended to the arena.
struct Table<V> {
    index: KeyIndex,
    values: Vec<V>,
}

impl<V> Table<V> {
    spec fn wf(&self) -> bool {
        forall|k: u64| #[trigger] index_contents(self.index).contains_key(k)
            ==> index_contents(self.index)[k] < self.values.len()
    }

    spec fn entries(&self) -> Map<u64, V> {
        Map::new(
            |k: u64| index_contents(self.index).contains_key(k),
            |k: u64| self.values@[index_contents(self.index)[k] as int],
        )
    }

    fn empty() -> (r: Table<V>)
        ensures
            r.wf(),
            r.entries() == Map::<u64, V>::empty(),
    {
        let r = Table { index: KeyIndex::empty(), values: Vec::new() };
        assert(r.entries() =~= Map::<u64, V>::empty());
        r
    }

    /// Appends `v` to the arena and records it under `key`, which has no
    /// value yet. Returns the position of `v`.
    fn push_new(&mut self, key: u64, v: V) -> (pos: usize)
        requires
            old(self).wf(),
            !old(self).entries().contains_key(key),
        ensures
            final(self).wf(),
            final(self).entries() == old(self).entries().insert(key, v),
            pos < final(self).values.len(),
            final(self).values@[pos as int] == v,
    {
        let pos = self.values.len();
        self.values.push(v);
        self.index.insert(key, pos);
        assert(self.entries() =~= old(self).entries().insert(key, v));
        pos
    }
}

/// A map whose entries are written once. Its table is created on the first
/// `get_or_init`; until then the map holds nothing and has allocated nothing.
pub struct OnceMap<V> {
    slot: Option<Table<V>>,
}

impl<V> View for OnceMap<V> {
    type V = Option<Map<u64, V>>;

    /// `None` while the table has not been created; else its entries.
    closed spec fn view(&self) -> Option<Map<u64, V>> {
        match self.slot {
            Some(t) => Some(t.entries()),
            None => None,
        }
    }
}

impl<V> Default for OnceMap<V> {
    /// A map with no table yet, as `new` makes it.
    fn default() -> (r: OnceMap<V>)
        ensures
            r.wf(),
            r@ is None,
    {
        OnceMap::new()
    }
}

impl<V> OnceMap<V> {
    /// The map's internal consistency: each key points into the arena.
    pub closed spec fn wf(&self) -> bool {
        match self.slot {
            Some(t) => t.wf(),
            None => true,
        }
    }

    /// Creates a map with no table yet.
    pub fn new() -> (r: OnceMap<V>)
        ensures
            r.wf(),
            r@ is None,
    {
        OnceMap { slot: None }
    }

    /// The value stored under `key`, if any.
    pub fn get(&self, key: &u64) -> (r: Option<&V>)
        requires
            self.wf(),
        ensures
            r.is_some() == stored(self@).contains_key(*key),
            r.is_some() ==> *r.unwrap() == stored(self@)[*key],
    {
        match &self.slot {
            None => None,
            Some(t) => match t.index.lookup(*key) {
                None => None,
                Some(i) => Some(&t.values[i]),
            },
        }
    }

    /// The value stored under `key`; when there is none, creates the table
    /// if needed, runs `f` once and stores its result. Whether this call
    /// stored the value is told by the outcome. `f` runs only when the key
    /// has no value: its precondition is asked for only then, so a caller
    /// may pass one that must not run on a key that has a value.
    pub fn get_or_init<F: FnOnce() -> V>(&mut self, key: u64, f: F) -> (r: GetOrInitData<&V>)
        requires
            old(self).wf(),
            !stored(old(self)@).contains_key(key) ==> f.requires(()),
        ensures
            final(self).wf(),
            r.is_init() == !stored(old(self)@).contains_key(key),
            r.is_init() ==> f.ensures((), *r.data()),
            !r.is_init() ==> *r.data() == stored(old(self)@)[key],
            final(self)@ == after_get_or_init(old(self)@, key, *r.data()),
    {
        if self.slot.is_none() {
            self.slot = Some(Table::empty());
        }
        let t = self.slot.as_mut().unwrap();
        match t.index.lookup(key) {
            Some(i) => GetOrInitData::Get(&t.values[i]),
            None => {
                let v = f();
                let pos = t.push_new(key, v);
                GetOrInitData::Init(&t.values[pos])
            },
        }
    }

    /// Stores the result of `f` under `key` when the table exists and has no
    /// value for `key`; returns whether it did. On a map whose table has not
    /// been created this returns `false` and creates nothing. `f` runs only
    /// when the value is stored: its precondition is asked for only then.
    pub fn init<F: FnOnce() -> V>(&mut self, key: u64, f: F) -> (r: bool)
        requires
            old(self).wf(),
            init_stores(old(self)@, key) ==> f.requires(()),
        ensures
            final(self).wf(),
            r == init_stores(old(self)@, key),
            r ==> f.ensures((), stored(final(self)@)[key]),
            final(self)@ == after_init(old(self)@, key, stored(final(self)@)[key]),
    {
        match self.slot.as_mut() {
            None => false,
            Some(t) => match t.index.lookup(key) {
                Some(_) => false,
                None => {
                    let v = f();
                    t.push_new(key, v);
                    true
                },
            },
        }
    }
}

} // verus!
