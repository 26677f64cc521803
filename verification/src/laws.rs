//! Laws that relate the operations on locations to each other.
//!
//! Each law is stated over the model functions that the contracts of the
//! executable operations are stated over.

use crate::location::LocationModel;
use crate::memo::MemoModel;
use crate::path::PathModel;
use crate::tree::TreeModel;
use vstd::prelude::*;

verus! {

/// Going down into a section with at least one child and straight back up
/// gives the location back: the rebuilt section has the same children in
/// the same order, under the same path.
pub proof fn lemma_down_then_up<T>(location: LocationModel<T>)
    requires
        location.cursor matches TreeModel::Section(children) && children.len() > 0,
    ensures
        location.go_down() matches Some(below) && below.go_up() == Some(location),
{
    lemma_get_nth_by_steps(location, 0);
    lemma_nth_then_up(location, 0);
}

/// Going to any child of a section and straight back up gives the location
/// back.
pub proof fn lemma_nth_then_up<T>(location: LocationModel<T>, n: nat)
    requires
        location.cursor matches TreeModel::Section(children) && n < children.len(),
    ensures
        location.get_nth(n) matches Some(below) && below.go_up() == Some(location),
{
    let children = location.cursor->Section_0;
    let below = location.get_nth(n).unwrap();
    assert(below.siblings() =~= children);
}

/// A step to the right followed by a step to the left gives the location
/// back.
pub proof fn lemma_right_then_left<T>(location: LocationModel<T>)
    requires
        location.go_right() is Some,
    ensures
        location.go_right().unwrap().go_left() == Some(location),
{
    let there = location.go_right().unwrap();
    let back = there.go_left().unwrap();
    assert(back.path->left =~= location.path->left);
    assert(back.path->right =~= location.path->right);
}

/// A step to the left followed by a step to the right gives the location
/// back.
pub proof fn lemma_left_then_right<T>(location: LocationModel<T>)
    requires
        location.go_left() is Some,
    ensures
        location.go_left().unwrap().go_right() == Some(location),
{
    let there = location.go_left().unwrap();
    let back = there.go_right().unwrap();
    assert(back.path->left =~= location.path->left);
    assert(back.path->right =~= location.path->right);
}

/// A step to the left or to the right drops, repeats and reorders nothing:
/// going up afterwards rebuilds the same section as going up before.
pub proof fn lemma_lateral_moves_keep_siblings<T>(location: LocationModel<T>)
    ensures
        location.go_left() matches Some(there) ==> there.go_up() == location.go_up(),
        location.go_right() matches Some(there) ==> there.go_up() == location.go_up(),
{
    if location.go_left() is Some {
        let there = location.go_left().unwrap();
        assert(there.siblings() =~= location.siblings());
    }
    if location.go_right() is Some {
        let there = location.go_right().unwrap();
        assert(there.siblings() =~= location.siblings());
    }
}

/// On a section with children `c0, .., ck`, `get_nth(i)` focuses `ci` for
/// every `i` up to `k` and fails for every larger `i`.
pub proof fn lemma_index_correspondence<T>(
    location: LocationModel<T>,
    children: Seq<TreeModel<T>>,
    i: nat,
)
    requires
        location.cursor == TreeModel::Section(children),
    ensures
        i < children.len() ==> (location.get_nth(i) matches Some(child) && child.cursor
            == children[i as int]),
        i >= children.len() ==> location.get_nth(i) is None,
{
}

/// `get_nth` fails on an item, whatever the index.
pub proof fn lemma_item_has_no_children<T>(location: LocationModel<T>, n: nat)
    requires
        location.cursor is Item,
    ensures
        location.get_nth(n) is None,
{
}

/// `get_nth(0)` is `go_down`, and `get_nth(n + 1)` is `get_nth(n)` followed
/// by `go_right`.
pub proof fn lemma_get_nth_by_steps<T>(location: LocationModel<T>, n: nat)
    ensures
        location.get_nth(0) == location.go_down(),
        location.get_nth(n + 1) == match location.get_nth(n) {
            Some(child) => child.go_right(),
            None => None,
        },
{
    match location.get_nth(n) {
        Some(child) => {
            let children = location.cursor->Section_0;
            if n + 1 < children.len() {
                let next = location.get_nth(n + 1).unwrap();
                let stepped = child.go_right().unwrap();
                assert(stepped.path->left =~= next.path->left);
                assert(stepped.path->right =~= next.path->right);
            }
        },
        None => {},
    }
}

/// Going up from the location that `new` gives, before any other move,
/// does not give the tree back: the root context already lists the tree as
/// a right sibling of the cursor, so the section rebuilt there holds the
/// tree twice.
pub proof fn lemma_up_from_new<T>(tree: TreeModel<T>)
    ensures
        LocationModel::new(tree).go_up() == Some(
            LocationModel { cursor: TreeModel::Section(seq![tree, tree]), path: PathModel::Top },
        ),
{
    assert(LocationModel::new(tree).siblings() =~= seq![tree, tree]);
}

/// Memoization does not change what a lookup gives: wrapping a base
/// location, looking a child up through the wrapper and unwrapping the
/// result gives what looking the child up in the base gives, and fails
/// where that fails.
pub proof fn lemma_memo_equivalence<T>(base: LocationModel<T>, i: nat)
    ensures
        base.get_nth(i) == match MemoModel::with_memo(base).get_nth(i) {
            Some(memo) => Some(memo.into_inner()),
            None => None,
        },
{
}

/// Wrappers that share an origin give the same location for the same
/// index, whatever they hold themselves; in particular the wrapper that a
/// lookup gave gives itself when the lookup is made again through it.
pub proof fn lemma_memo_idempotence<T>(first: MemoModel<T>, second: MemoModel<T>, i: nat)
    requires
        first.origin == second.origin,
    ensures
        first.get_nth(i) == second.get_nth(i),
        first.get_nth(i) matches Some(memo) ==> memo.get_nth(i) == Some(memo),
{
}

} // verus!
