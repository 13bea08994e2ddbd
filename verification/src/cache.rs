//! The render cache: for each plottable equation, the geometry of its last
//! sampling pass, or the mark that a new pass is due.

use std::collections::HashMap;
use vstd::prelude::*;

verus! {

/// A stable handle to one equation.
#[derive(Debug, Clone, Copy, PartialEq, Eq, Hash, Structural)]
pub struct ExpressionId(pub u32);

/// What the cache holds for one equation.
#[derive(Debug)]
pub enum CacheState<T> {
    /// Nothing usable is stored: the next draw computes anew.
    Dirty,
    /// The result of the last pass, valid until the entry is cleared.
    Clean(T),
}

/// One entry per plottable equation, found by the equation's id.
pub struct RenderCache<T> {
    entries: HashMap<u32, CacheState<T>>,
}

impl<T> View for RenderCache<T> {
    type V = Map<ExpressionId, CacheState<T>>;

    closed spec fn view(&self) -> Map<ExpressionId, CacheState<T>> {
        Map::new(
            |id: ExpressionId| self.entries@.contains_key(id.0),
            |id: ExpressionId| self.entries@[id.0],
        )
    }
}

impl<T> RenderCache<T> {
    /// A cache without entries.
    pub fn new() -> (cache: Self)
        ensures
            cache@ == Map::<ExpressionId, CacheState<T>>::empty(),
    {
        let cache = RenderCache { entries: HashMap::new() };
        assert(cache@ =~= Map::<ExpressionId, CacheState<T>>::empty());
        cache
    }

    /// Whether `id` has an entry.
    pub fn contains(&self, id: ExpressionId) -> (found: bool)
        ensures
            found == self@.contains_key(id),
    {
        broadcast use vstd::std_specs::hash::group_hash_axioms;

        self.entries.contains_key(&id.0)
    }

    /// Creates a fresh dirty entry for `id`, in place of any entry it had.
    pub fn insert(&mut self, id: ExpressionId)
        ensures
            final(self)@ == old(self)@.insert(id, CacheState::Dirty),
    {
        broadcast use vstd::std_specs::hash::group_hash_axioms;

        self.entries.insert(id.0, CacheState::Dirty);
        assert(self@ =~= old(self)@.insert(id, CacheState::Dirty));
    }

    /// Marks the entry of `id` dirty. Without an entry nothing changes.
    pub fn clear(&mut self, id: ExpressionId)
        ensures
            final(self)@ == if old(self)@.contains_key(id) {
                old(self)@.insert(id, CacheState::Dirty)
            } else {
                old(self)@
            },
    {
        broadcast use vstd::std_specs::hash::group_hash_axioms;

        if self.entries.contains_key(&id.0) {
            self.entries.insert(id.0, CacheState::Dirty);
            assert(self@ =~= old(self)@.insert(id, CacheState::Dirty));
        }
    }

    /// Deletes the entry of `id`, if there is one.
    pub fn remove(&mut self, id: ExpressionId)
        ensures
            final(self)@ == old(self)@.remove(id),
    {
        broadcast use vstd::std_specs::hash::group_hash_axioms;

        self.entries.remove(&id.0);
        assert(self@ =~= old(self)@.remove(id));
    }

    /// Whether a draw would compute the entry of `id` anew.
    pub fn is_dirty(&self, id: ExpressionId) -> (dirty: bool)
        ensures
            dirty == (self@.contains_key(id) && self@[id] is Dirty),
    {
        broadcast use vstd::std_specs::hash::group_hash_axioms;

        match self.entries.get(&id.0) {
            Some(CacheState::Dirty) => true,
            _ => false,
        }
    }

    /// The stored result of `id`, where its entry is clean.
    pub fn get(&self, id: ExpressionId) -> (stored: Option<&T>)
        ensures
            stored == match self@.get(id) {
                Some(CacheState::Clean(value)) => Some(&value),
                _ => None,
            },
    {
        broadcast use vstd::std_specs::hash::group_hash_axioms;

        match self.entries.get(&id.0) {
            Some(CacheState::Clean(value)) => Some(value),
            _ => None,
        }
    }

    /// Hands out the stored result of `id`, after computing it where the entry is
    /// dirty.
    ///
    /// A clean entry is returned as it is and `compute` is not called. A dirty
    /// entry takes what `compute` returns on the viewport and the canvas size,
    /// and is clean afterwards. Without an entry there is nothing to hand out,
    /// and `compute` is not called either.
    pub fn get_or_compute<V, S, F>(
        &mut self,
        id: ExpressionId,
        viewport: &V,
        canvas_size: &S,
        compute: F,
    ) -> (stored: Option<&T>) where F: FnOnce(&V, &S) -> T
        requires
            old(self)@.contains_key(id) && old(self)@[id] is Dirty ==> compute.requires(
                (viewport, canvas_size),
            ),
        ensures
            match old(self)@.get(id) {
                None => stored is None && final(self)@ == old(self)@,
                Some(CacheState::Clean(value)) => stored == Some(&value) && final(self)@ == old(
                    self,
                )@,
                Some(CacheState::Dirty) => stored is Some && compute.ensures(
                    (viewport, canvas_size),
                    *stored->0,
                ) && final(self)@ == old(self)@.insert(id, CacheState::Clean(*stored->0)),
            },
    {
        broadcast use vstd::std_specs::hash::group_hash_axioms;

        if self.is_dirty(id) {
            let value = compute(viewport, canvas_size);
            self.entries.insert(id.0, CacheState::Clean(value));
            assert(self@ =~= old(self)@.insert(id, CacheState::Clean(value)));
        }
        self.get(id)
    }
}

} // verus!
