//! Memoized lookup of the children of one fixed base location.
//!
//! `with_memo` turns a location into the base of a cache. Every wrapper
//! that `get_nth` returns shares that cache and looks children up in the
//! same base, so a child is resolved at most once however often, and through
//! whichever wrapper, it is asked for.

use crate::location::{lemma_faithful_location_copy, Location, LocationModel};
use crate::tree::{clone_is_faithful, lemma_faithful_tree_copy, lemma_tree_copied_to_itself};
use std::collections::HashMap;
use std::hash::Hash;
use std::rc::Rc;
use vstd::cell::invcell::InvCell;
use vstd::predicate::Predicate;
use vstd::prelude::*;

verus! {

/// What a cache promises of its table at all times: under index `n` it
/// holds a copy of child `n` of `base`, and it holds nothing under an index
/// at which `base` has no child.
pub ghost struct ChildrenOf<T> {
    pub base: LocationModel<T>,
}

impl<T: Clone> Predicate<HashMap<usize, Rc<Location<T>>>> for ChildrenOf<T> {
    open spec fn predicate(&self, table: HashMap<usize, Rc<Location<T>>>) -> bool {
        forall|n: usize| #[trigger]
            table@.contains_key(n) ==> (self.base.get_nth(n as nat) matches Some(child)
                && child.copied_to(table@[n]@))
    }
}

/// The side table shared by all wrappers that stem from one `with_memo`:
/// the base location it was made for, and the children resolved so far.
struct NthCache<T: Clone> {
    base: Rc<Location<T>>,
    table: InvCell<HashMap<usize, Rc<Location<T>>>, ChildrenOf<T>>,
}

impl<T: Clone> NthCache<T> {
    #[verifier::type_invariant]
    spec fn well_formed(self) -> bool {
        self.table.predicate() == (ChildrenOf { base: self.base@ })
    }
}

/// One lookup against a table: an index that the table holds is answered
/// from it, with no walk and no change to the table; any other index is
/// resolved in `base`, and the child, where there is one, is entered under
/// that index.
fn lookup_or_resolve<T: Clone>(
    table: &mut HashMap<usize, Rc<Location<T>>>,
    base: &Location<T>,
    n: usize,
) -> (found: Option<Rc<Location<T>>>)
    requires
        (ChildrenOf { base: base@ }).predicate(*old(table)),
    ensures
        (ChildrenOf { base: base@ }).predicate(*final(table)),
        old(table)@.contains_key(n) ==> found == Some(old(table)@[n]) && final(table)@ == old(
            table,
        )@,
        !old(table)@.contains_key(n) ==> match base@.get_nth(n as nat) {
            Some(child) => found matches Some(location) && child.copied_to(location@)
                && final(table)@ == old(table)@.insert(n, location),
            None => found is None && final(table)@ == old(table)@,
        },
{
    broadcast use vstd::std_specs::hash::group_hash_axioms;

    let cached = match table.get(&n) {
        Some(location) => Some(location.clone()),
        None => None,
    };
    if cached.is_some() {
        return cached;
    }
    match base.clone().get_nth(n) {
        Some(child) => {
            let location = Rc::new(child);
            table.insert(n, location.clone());
            Some(location)
        },
        None => None,
    }
}

/// A location together with a cache of indexed child lookups. The cache
/// belongs to the location that `with_memo` was called on, and every
/// wrapper returned by `get_nth` shares it.
pub struct MemoLocation<T: Clone + Eq + Hash> {
    location: Rc<Location<T>>,
    cache: Rc<NthCache<T>>,
}

/// The mathematical value of a [`MemoLocation`].
pub ghost struct MemoModel<T> {
    /// The base location that the cache was made for.
    pub origin: LocationModel<T>,
    /// The location that the wrapper holds.
    pub focus: LocationModel<T>,
}

impl<T> MemoModel<T> {
    /// The wrapper over `location` as the base of a cache of its own.
    pub open spec fn with_memo(location: LocationModel<T>) -> Self {
        MemoModel { origin: location, focus: location }
    }

    /// The wrapper over child `n` of the origin. `None` where the origin
    /// has no such child.
    pub open spec fn get_nth(self, n: nat) -> Option<Self> {
        match self.origin.get_nth(n) {
            Some(child) => Some(MemoModel { origin: self.origin, focus: child }),
            None => None,
        }
    }

    /// The location that the wrapper holds.
    pub open spec fn into_inner(self) -> LocationModel<T> {
        self.focus
    }
}

impl<T: Clone + Eq + Hash> View for MemoLocation<T> {
    type V = MemoModel<T>;

    closed spec fn view(&self) -> MemoModel<T> {
        MemoModel { origin: self.cache.base@, focus: self.location@ }
    }
}

/// The model of an optional wrapper.
pub open spec fn memo_model_of<T: Clone + Eq + Hash>(memo: Option<MemoLocation<T>>) -> Option<
    MemoModel<T>,
> {
    match memo {
        Some(m) => Some(m@),
        None => None,
    }
}

impl<T: Clone + Eq + Hash> Clone for MemoLocation<T> {
    /// Another wrapper over the same location, sharing the cache.
    fn clone(&self) -> (copy: Self)
        ensures
            copy@ == self@,
            copy.shares_cache_with(self),
    {
        MemoLocation { location: self.location.clone(), cache: self.cache.clone() }
    }
}

impl<T: Clone + Eq + Hash> Location<T> {
    /// Wraps the location as the base of a new, empty cache.
    pub fn with_memo(self) -> (memo: MemoLocation<T>)
        ensures
            memo@ == MemoModel::with_memo(self@),
    {
        let base = Rc::new(self);
        let table = InvCell::new(HashMap::new(), Ghost(ChildrenOf { base: base@ }));
        MemoLocation { location: base.clone(), cache: Rc::new(NthCache { base, table }) }
    }
}

impl<T: Clone + Eq + Hash> MemoLocation<T> {
    /// Whether two wrappers look children up in the same cache.
    pub closed spec fn shares_cache_with(&self, other: &Self) -> bool {
        self.cache == other.cache
    }

    /// The wrapper over child `n` of the base location that the cache was
    /// made for. The child is resolved once: later lookups of the same index
    /// through any wrapper that shares the cache are answered from it.
    pub fn get_nth(self, n: usize) -> (result: Option<Self>)
        ensures
            match self@.get_nth(n as nat) {
                Some(expected) => result matches Some(memo) && memo.shares_cache_with(&self)
                    && memo@.origin == expected.origin && expected.focus.copied_to(memo@.focus),
                None => result is None,
            },
            clone_is_faithful::<T>() ==> memo_model_of(result) == self@.get_nth(n as nat),
    {
        proof {
            use_type_invariant(&*self.cache);
        }
        let mut table = self.cache.table.replace(HashMap::new());
        let found = lookup_or_resolve(&mut table, &*self.cache.base, n);
        self.cache.table.set(table);
        match found {
            Some(location) => {
                proof {
                    lemma_faithful_location_copy(
                        self@.origin.get_nth(n as nat).unwrap(),
                        location@,
                    );
                }
                Some(MemoLocation { location, cache: self.cache })
            },
            None => None,
        }
    }

    /// Gives the location that the wrapper holds, copying it only where it
    /// is still shared.
    pub fn into_inner(self) -> (location: Location<T>)
        ensures
            self@.into_inner().cursor.copied_to(location@.cursor),
            location@.path == self@.into_inner().path,
            clone_is_faithful::<T>() ==> location@ == self@.into_inner(),
    {
        let location = match Rc::try_unwrap(self.location) {
            Ok(location) => location,
            Err(shared) => (*shared).clone(),
        };
        proof {
            lemma_tree_copied_to_itself(self@.focus.cursor);
            if clone_is_faithful::<T>() {
                lemma_faithful_tree_copy(self@.focus.cursor, location@.cursor);
            }
        }
        location
    }
}

} // verus!
