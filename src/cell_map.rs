use vstd::prelude::*;

verus! {

/// A map from grid coordinates to alive flags, held in a bevy `HashMap`
/// (hashbrown's map with aHash). Its contents are `cell_map_contents`.
#[verifier::external_body]
pub struct CellMap {
    map: bevy::utils::HashMap<(i32, i32), bool>,
}

/// The coordinates a `CellMap` holds, with their alive flags.
pub uninterp spec fn cell_map_contents(m: CellMap) -> Map<(i32, i32), bool>;

impl CellMap {
    /// Relies on hashbrown's `HashMap::default`: the new map holds no key.
    #[verifier::external_body]
    pub(crate) fn new() -> (r: CellMap)
        ensures
            cell_map_contents(r).dom().is_empty(),
    {
        CellMap { map: bevy::utils::HashMap::default() }
    }

    /// Relies on hashbrown's `HashMap::insert`: afterwards `key` maps to
    /// `value`, and every other key keeps its entry.
    #[verifier::external_body]
    pub(crate) fn insert(&mut self, key: (i32, i32), value: bool)
        ensures
            cell_map_contents(*final(self)) == cell_map_contents(*old(self)).insert(key, value),
    {
        self.map.insert(key, value);
    }

    /// Relies on hashbrown's `HashMap::get`: the value stored under `key`, if
    /// there is one.
    #[verifier::external_body]
    pub(crate) fn get(&self, key: (i32, i32)) -> (r: Option<bool>)
        ensures
            r == (if cell_map_contents(*self).contains_key(key) {
                Some(cell_map_contents(*self)[key])
            } else {
                None::<bool>
            }),
    {
        self.map.get(&key).copied()
    }
}

} // verus!
