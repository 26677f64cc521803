//! Locations: a cursor with its path, and the moves and edits on them.

use crate::path::{lemma_faithful_path_copy, lemma_path_copied_to_itself, Path, PathModel};
use crate::tree::{
    append_copies, append_copies_reversed, clone_is_faithful, copies_from,
    lemma_faithful_tree_copy, lemma_section_model, lemma_tree_copied_to_itself, models,
    prepend_to_copies, Tree, TreeModel,
};
use std::rc::Rc;
use vstd::prelude::*;

verus! {

/// A position in a tree: the focused subtree and the context around it.
#[derive(Debug, PartialEq)]
pub struct Location<T: Clone> {
    /// The focused subtree.
    pub cursor: Tree<T>,
    /// Everything outside the cursor.
    pub path: Rc<Path<T>>,
}

/// The mathematical value of a [`Location`].
pub ghost struct LocationModel<T> {
    pub cursor: TreeModel<T>,
    pub path: PathModel<T>,
}

impl<T: Clone> View for Location<T> {
    type V = LocationModel<T>;

    open spec fn view(&self) -> LocationModel<T> {
        LocationModel { cursor: self.cursor@, path: self.path@ }
    }
}

/// The model of an optional location.
pub open spec fn model_of<T: Clone>(location: Option<Location<T>>) -> Option<LocationModel<T>> {
    match location {
        Some(l) => Some(l@),
        None => None,
    }
}

impl<T> LocationModel<T> {
    /// The location that a bare tree starts from: the tree is the cursor,
    /// and the root context lists the same tree as its only right sibling.
    pub open spec fn new(tree: TreeModel<T>) -> Self {
        LocationModel {
            cursor: tree,
            path: PathModel::Node {
                left: Seq::empty(),
                right: seq![tree],
                parent: Box::new(PathModel::Top),
            },
        }
    }

    /// The nearest left sibling becomes the cursor; the old cursor becomes
    /// the nearest right sibling. `None` at the top or with no left sibling.
    pub open spec fn go_left(self) -> Option<Self> {
        match self.path {
            PathModel::Node { left, right, parent } if left.len() > 0 => Some(
                LocationModel {
                    cursor: left[0],
                    path: PathModel::Node {
                        left: left.skip(1),
                        right: seq![self.cursor] + right,
                        parent,
                    },
                },
            ),
            _ => None,
        }
    }

    /// The nearest right sibling becomes the cursor; the old cursor becomes
    /// the nearest left sibling. `None` at the top or with no right sibling.
    pub open spec fn go_right(self) -> Option<Self> {
        match self.path {
            PathModel::Node { left, right, parent } if right.len() > 0 => Some(
                LocationModel {
                    cursor: right[0],
                    path: PathModel::Node {
                        left: seq![self.cursor] + left,
                        right: right.skip(1),
                        parent,
                    },
                },
            ),
            _ => None,
        }
    }

    /// The children of the section that encloses the cursor, rebuilt in
    /// their order: the left siblings farthest first, the cursor, the right
    /// siblings nearest first.
    pub open spec fn siblings(self) -> Seq<TreeModel<T>> {
        match self.path {
            PathModel::Node { left, right, parent } => left.reverse() + seq![self.cursor] + right,
            PathModel::Top => seq![self.cursor],
        }
    }

    /// The enclosing section, rebuilt from the siblings and the cursor,
    /// becomes the cursor. `None` at the top.
    pub open spec fn go_up(self) -> Option<Self> {
        match self.path {
            PathModel::Node { left, right, parent } => Some(
                LocationModel { cursor: TreeModel::Section(self.siblings()), path: *parent },
            ),
            PathModel::Top => None,
        }
    }

    /// The first child becomes the cursor, the other children its right
    /// siblings. `None` on an item or an empty section.
    pub open spec fn go_down(self) -> Option<Self> {
        match self.cursor {
            TreeModel::Section(children) if children.len() > 0 => Some(
                LocationModel {
                    cursor: children[0],
                    path: PathModel::Node {
                        left: Seq::empty(),
                        right: children.skip(1),
                        parent: Box::new(self.path),
                    },
                },
            ),
            _ => None,
        }
    }

    /// Child `n` of the cursor becomes the cursor, with the children before
    /// it to its left and those after it to its right. `None` unless the
    /// cursor is a section with more than `n` children.
    pub open spec fn get_nth(self, n: nat) -> Option<Self> {
        match self.cursor {
            TreeModel::Section(children) if n < children.len() => Some(
                LocationModel {
                    cursor: children[n as int],
                    path: PathModel::Node {
                        left: children.take(n as int).reverse(),
                        right: children.skip(n + 1 as int),
                        parent: Box::new(self.path),
                    },
                },
            ),
            _ => None,
        }
    }

    /// `tree` takes the place of the cursor.
    pub open spec fn change(self, tree: TreeModel<T>) -> Self {
        LocationModel { cursor: tree, path: self.path }
    }

    /// `tree` becomes the nearest left sibling. `None` at the top.
    pub open spec fn insert_left(self, tree: TreeModel<T>) -> Option<Self> {
        match self.path {
            PathModel::Node { left, right, parent } => Some(
                LocationModel {
                    cursor: self.cursor,
                    path: PathModel::Node { left: seq![tree] + left, right, parent },
                },
            ),
            PathModel::Top => None,
        }
    }

    /// `tree` becomes the nearest right sibling. `None` at the top.
    pub open spec fn insert_right(self, tree: TreeModel<T>) -> Option<Self> {
        match self.path {
            PathModel::Node { left, right, parent } => Some(
                LocationModel {
                    cursor: self.cursor,
                    path: PathModel::Node { left, right: seq![tree] + right, parent },
                },
            ),
            PathModel::Top => None,
        }
    }

    /// `tree` becomes the cursor, one level down, as the new first child:
    /// the children of the old cursor are its right siblings. `None` on an
    /// item.
    pub open spec fn insert_down(self, tree: TreeModel<T>) -> Option<Self> {
        match self.cursor {
            TreeModel::Section(children) => Some(
                LocationModel {
                    cursor: tree,
                    path: PathModel::Node {
                        left: Seq::empty(),
                        right: children,
                        parent: Box::new(self.path),
                    },
                },
            ),
            TreeModel::Item(_) => None,
        }
    }

    /// The cursor leaves the tree. The nearest right sibling takes its
    /// place; without one, the nearest left sibling; without either, the
    /// enclosing section is left empty and becomes the cursor. `None` at the
    /// top.
    pub open spec fn delete(self) -> Option<Self> {
        match self.path {
            PathModel::Node { left, right, parent } => Some(
                if right.len() > 0 {
                    LocationModel {
                        cursor: right[0],
                        path: PathModel::Node { left, right: right.skip(1), parent },
                    }
                } else if left.len() > 0 {
                    LocationModel {
                        cursor: left[0],
                        path: PathModel::Node { left: left.skip(1), right: Seq::empty(), parent },
                    }
                } else {
                    LocationModel { cursor: TreeModel::Section(Seq::empty()), path: *parent }
                },
            ),
            PathModel::Top => None,
        }
    }
}

impl<T: Clone> LocationModel<T> {
    /// `other` is `self` with elements cloned: the cursor and the sibling
    /// lists of the path are copied tree by tree, while the context above
    /// them is the same one.
    pub open spec fn copied_to(self, other: LocationModel<T>) -> bool {
        self.cursor.copied_to(other.cursor) && self.path.copied_to(other.path)
    }
}

/// `result` is what the model expects, up to cloned elements: absent where
/// `expected` is absent, and else a copy of it.
pub open spec fn is_copy<T: Clone>(
    expected: Option<LocationModel<T>>,
    result: Option<Location<T>>,
) -> bool {
    match expected {
        Some(e) => result matches Some(r) && e.copied_to(r@),
        None => result is None,
    }
}

/// Every location is a copy of itself.
pub proof fn lemma_location_copied_to_itself<T: Clone>(location: LocationModel<T>)
    ensures
        location.copied_to(location),
{
    lemma_tree_copied_to_itself(location.cursor);
    lemma_path_copied_to_itself(location.path);
}

/// Where cloning elements is faithful, a copy of a location equals it.
pub proof fn lemma_faithful_location_copy<T: Clone>(
    location: LocationModel<T>,
    copy: LocationModel<T>,
)
    requires
        location.copied_to(copy),
    ensures
        clone_is_faithful::<T>() ==> location == copy,
{
    if clone_is_faithful::<T>() {
        lemma_faithful_tree_copy(location.cursor, copy.cursor);
        lemma_faithful_path_copy(location.path, copy.path);
    }
}

impl<T: Clone> Clone for Location<T> {
    /// Copies the cursor and shares the path.
    fn clone(&self) -> (copy: Self)
        ensures
            self@.cursor.copied_to(copy@.cursor),
            copy@.path == self@.path,
            clone_is_faithful::<T>() ==> copy@ == self@,
    {
        Location { cursor: self.cursor.clone(), path: self.path.clone() }
    }
}

impl<T: Clone> Location<T> {
    /// Starts navigation at `tree`. The root context that the location gets
    /// already lists `tree` as the right sibling of the cursor, so going up
    /// before any other move rebuilds a section that holds the tree twice;
    /// go down first, and going up again gives `tree` back.
    pub fn new(tree: Tree<T>) -> (location: Self)
        ensures
            LocationModel::new(tree@).copied_to(location@),
            clone_is_faithful::<T>() ==> location@ == LocationModel::new(tree@),
    {
        let cursor = tree.clone();
        let mut right: Vec<Tree<T>> = Vec::new();
        right.push(tree);
        let location = Location {
            cursor,
            path: Rc::new(Path::Node { left: Vec::new(), right, path: Rc::new(Path::Top) }),
        };
        proof {
            let expected = LocationModel::new(tree@);
            assert(Path::<T>::Top@ == PathModel::<T>::Top);
            lemma_path_copied_to_itself(expected.path);
            lemma_faithful_location_copy(expected, location@);
        }
        location
    }

    /// Moves to the nearest left sibling.
    pub fn go_left(self) -> (result: Option<Self>)
        ensures
            is_copy(self@.go_left(), result),
            clone_is_faithful::<T>() ==> model_of(result) == self@.go_left(),
    {
        match &*self.path {
            Path::Top => None,
            Path::Node { left, right, path } => {
                if left.len() == 0 {
                    return None;
                }
                let location = Location {
                    cursor: left[0].clone(),
                    path: Rc::new(
                        Path::Node {
                            left: copies_from(left, 1),
                            right: prepend_to_copies(self.cursor, right),
                            path: path.clone(),
                        },
                    ),
                };
                proof {
                    lemma_faithful_location_copy(self@.go_left().unwrap(), location@);
                }
                Some(location)
            },
        }
    }

    /// Moves to the nearest right sibling.
    pub fn go_right(self) -> (result: Option<Self>)
        ensures
            is_copy(self@.go_right(), result),
            clone_is_faithful::<T>() ==> model_of(result) == self@.go_right(),
    {
        match &*self.path {
            Path::Top => None,
            Path::Node { left, right, path } => {
                if right.len() == 0 {
                    return None;
                }
                let location = Location {
                    cursor: right[0].clone(),
                    path: Rc::new(
                        Path::Node {
                            left: prepend_to_copies(self.cursor, left),
                            right: copies_from(right, 1),
                            path: path.clone(),
                        },
                    ),
                };
                proof {
                    lemma_faithful_location_copy(self@.go_right().unwrap(), location@);
                }
                Some(location)
            },
        }
    }

    /// Moves to the enclosing section, rebuilding it from the siblings and
    /// the cursor.
    pub fn go_up(self) -> (result: Option<Self>)
        ensures
            is_copy(self@.go_up(), result),
            clone_is_faithful::<T>() ==> model_of(result) == self@.go_up(),
    {
        match &*self.path {
            Path::Top => None,
            Path::Node { left, right, path } => {
                let mut children: Vec<Tree<T>> = Vec::new();
                append_copies_reversed(&mut children, left);
                children.push(self.cursor);
                let ghost kept = models(children@);
                append_copies(&mut children, right, 0);
                let location = Location { cursor: Tree::Section(children), path: path.clone() };
                proof {
                    let expected = self@.go_up().unwrap();
                    lemma_section_model(children);
                    assert(models(right@).skip(0) =~= models(right@));
                    let rebuilt = models(children@);
                    let siblings = self@.siblings();
                    assert forall|i: int| 0 <= i < rebuilt.len() implies (#[trigger] siblings[i])
                        .copied_to(rebuilt[i]) by {
                        if i <= left@.len() {
                            assert(rebuilt.take(kept.len() as int)[i] == rebuilt[i]);
                            lemma_tree_copied_to_itself(self@.cursor);
                        }
                    }
                    lemma_path_copied_to_itself(expected.path);
                    lemma_faithful_location_copy(expected, location@);
                }
                Some(location)
            },
        }
    }

    /// Moves to the first child of the cursor.
    pub fn go_down(self) -> (result: Option<Self>)
        ensures
            model_of(result) == self@.go_down(),
    {
        match self.cursor {
            Tree::Item(_) => None,
            Tree::Section(children) => {
                let mut right = children;
                if right.len() == 0 {
                    proof {
                        lemma_section_model(children);
                    }
                    None
                } else {
                    let first = right.remove(0);
                    let location = Location {
                        cursor: first,
                        path: Rc::new(
                            Path::Node { left: Vec::new(), right, path: self.path },
                        ),
                    };
                    proof {
                        lemma_section_model(children);
                        let expected = self@.go_down().unwrap();
                        assert(location@.path->left =~= expected.path->left);
                        assert(location@.path->right =~= expected.path->right);
                    }
                    Some(location)
                }
            },
        }
    }

    /// Moves to child `n` of the cursor, as `go_down` followed by `n` times
    /// `go_right` would.
    pub fn get_nth(self, n: usize) -> (result: Option<Self>)
        ensures
            model_of(result) == self@.get_nth(n as nat),
    {
        match self.cursor {
            Tree::Item(_) => None,
            Tree::Section(children) => {
                proof {
                    lemma_section_model(children);
                }
                if n >= children.len() {
                    return None;
                }
                let mut before = children;
                let right = before.split_off(n + 1);
                let cursor = before.pop().unwrap();
                let mut left: Vec<Tree<T>> = Vec::new();
                while before.len() > 0
                    invariant
                        n < children@.len(),
                        before@.len() + left@.len() == n,
                        before@ == children@.take(before@.len() as int),
                        left@ == children@.subrange(before@.len() as int, n as int).reverse(),
                    decreases before@.len(),
                {
                    left.push(before.pop().unwrap());
                }
                let location = Location {
                    cursor,
                    path: Rc::new(Path::Node { left, right, path: self.path }),
                };
                proof {
                    let expected = self@.get_nth(n as nat).unwrap();
                    assert(location@.path->left =~= expected.path->left);
                    assert(location@.path->right =~= expected.path->right);
                }
                Some(location)
            },
        }
    }

    /// Replaces the cursor with `tree`; the path stays.
    pub fn change(self, tree: Tree<T>) -> (location: Self)
        ensures
            location@ == self@.change(tree@),
    {
        Location { cursor: tree, path: self.path }
    }

    /// Puts `tree` next to the cursor as its nearest left sibling.
    pub fn insert_left(self, tree: Tree<T>) -> (result: Option<Self>)
        ensures
            is_copy(self@.insert_left(tree@), result),
            clone_is_faithful::<T>() ==> model_of(result) == self@.insert_left(tree@),
    {
        match &*self.path {
            Path::Top => None,
            Path::Node { left, right, path } => {
                let location = Location {
                    cursor: self.cursor,
                    path: Rc::new(
                        Path::Node {
                            left: prepend_to_copies(tree, left),
                            right: copies_from(right, 0),
                            path: path.clone(),
                        },
                    ),
                };
                proof {
                    assert(models(right@).skip(0) =~= models(right@));
                    lemma_tree_copied_to_itself(self@.cursor);
                    lemma_faithful_location_copy(self@.insert_left(tree@).unwrap(), location@);
                }
                Some(location)
            },
        }
    }

    /// Puts `tree` next to the cursor as its nearest right sibling.
    pub fn insert_right(self, tree: Tree<T>) -> (result: Option<Self>)
        ensures
            is_copy(self@.insert_right(tree@), result),
            clone_is_faithful::<T>() ==> model_of(result) == self@.insert_right(tree@),
    {
        match &*self.path {
            Path::Top => None,
            Path::Node { left, right, path } => {
                let location = Location {
                    cursor: self.cursor,
                    path: Rc::new(
                        Path::Node {
                            left: copies_from(left, 0),
                            right: prepend_to_copies(tree, right),
                            path: path.clone(),
                        },
                    ),
                };
                proof {
                    assert(models(left@).skip(0) =~= models(left@));
                    lemma_tree_copied_to_itself(self@.cursor);
                    lemma_faithful_location_copy(self@.insert_right(tree@).unwrap(), location@);
                }
                Some(location)
            },
        }
    }

    /// Puts `tree` below the cursor as its new first child and moves to it.
    pub fn insert_down(self, tree: Tree<T>) -> (result: Option<Self>)
        ensures
            model_of(result) == self@.insert_down(tree@),
    {
        match self.cursor {
            Tree::Item(_) => None,
            Tree::Section(children) => {
                let location = Location {
                    cursor: tree,
                    path: Rc::new(
                        Path::Node { left: Vec::new(), right: children, path: self.path },
                    ),
                };
                proof {
                    lemma_section_model(children);
                    let expected = self@.insert_down(tree@).unwrap();
                    assert(location@.path->left =~= expected.path->left);
                }
                Some(location)
            },
        }
    }

    /// Removes the cursor and moves to the sibling that takes its place, or
    /// to the emptied enclosing section.
    pub fn delete(self) -> (result: Option<Self>)
        ensures
            is_copy(self@.delete(), result),
            clone_is_faithful::<T>() ==> model_of(result) == self@.delete(),
    {
        match &*self.path {
            Path::Top => None,
            Path::Node { left, right, path } => {
                let location = if right.len() > 0 {
                    Location {
                        cursor: right[0].clone(),
                        path: Rc::new(
                            Path::Node {
                                left: copies_from(left, 0),
                                right: copies_from(right, 1),
                                path: path.clone(),
                            },
                        ),
                    }
                } else if left.len() > 0 {
                    Location {
                        cursor: left[0].clone(),
                        path: Rc::new(
                            Path::Node {
                                left: copies_from(left, 1),
                                right: Vec::new(),
                                path: path.clone(),
                            },
                        ),
                    }
                } else {
                    Location { cursor: Tree::Section(Vec::new()), path: path.clone() }
                };
                proof {
                    let expected = self@.delete().unwrap();
                    assert(models(left@).skip(0) =~= models(left@));
                    if right.len() == 0 && left.len() == 0 {
                        lemma_section_model(location.cursor->Section_0);
                        lemma_location_copied_to_itself(expected);
                    }
                    lemma_faithful_location_copy(expected, location@);
                }
                Some(location)
            },
        }
    }
}

} // verus!
