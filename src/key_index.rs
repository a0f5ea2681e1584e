use vstd::prelude::*;

verus! {

/// The key table of a map: for each key, the position of its value in the
/// map's value arena. It is a `hashbrown::HashMap` held out of Verus's sight;
/// what it holds is `index_contents`.
#[verifier::external_body]
pub struct KeyIndex {
    map: hashbrown::HashMap<u64, usize>,
}

/// The key to position entries of a key table.
pub uninterp spec fn index_contents(m: KeyIndex) -> Map<u64, usize>;

impl KeyIndex {
    /// Relies on hashbrown::HashMap::new: the new map holds no entry.
    #[verifier::external_body]
    pub(crate) fn empty() -> (r: KeyIndex)
        ensures
            index_contents(r).dom() == Set::<u64>::empty(),
    {
        KeyIndex { map: hashbrown::HashMap::new() }
    }

    /// Relies on hashbrown::HashMap::get: the position stored under `key`,
    /// if there is one.
    #[verifier::external_body]
    pub(crate) fn lookup(&self, key: u64) -> (r: Option<usize>)
        ensures
            r.is_some() == index_contents(*self).contains_key(key),
            r.is_some() ==> r.unwrap() == index_contents(*self)[key],
    {
        self.map.get(&key).copied()
    }

    /// Relies on hashbrown::HashMap::insert: afterwards `key` maps to `pos`
    /// and every other entry is as it was; the result is the position that
    /// `key` had before, if any.
    #[verifier::external_body]
    pub(crate) fn insert(&mut self, key: u64, pos: usize) -> (r: Option<usize>)
        ensures
            index_contents(*final(self)) == index_contents(*old(self)).insert(key, pos),
            r.is_some() == index_contents(*old(self)).contains_key(key),
            r.is_some() ==> r.unwrap() == index_contents(*old(self))[key],
    {
        self.map.insert(key, pos)
    }
}

} // verus!
