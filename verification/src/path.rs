//! The context of a focused subtree: its siblings and the context above.

use crate::tree::{
    all_copied_to, clone_is_faithful, copies_from, lemma_faithful_tree_copies,
    lemma_trees_copied_to_themselves, models, Tree, TreeModel,
};
use std::rc::Rc;
use vstd::prelude::*;

verus! {

/// Everything around a focused subtree, from which the tree above it can
/// be rebuilt.
#[derive(Debug, PartialEq)]
pub enum Path<T: Clone> {
    /// Nothing encloses the focus.
    Top,
    /// The focus sits among siblings.
    Node {
        /// The siblings to the left of the focus, nearest first.
        left: Vec<Tree<T>>,
        /// The siblings to the right of the focus, nearest first.
        right: Vec<Tree<T>>,
        /// The context of the enclosing section, shared with every
        /// location derived from the same ancestors.
        path: Rc<Path<T>>,
    },
}

/// The mathematical value of a [`Path`].
pub ghost enum PathModel<T> {
    Top,
    Node {
        /// Left siblings, nearest first.
        left: Seq<TreeModel<T>>,
        /// Right siblings, nearest first.
        right: Seq<TreeModel<T>>,
        /// The context of the enclosing section.
        parent: Box<PathModel<T>>,
    },
}

/// The model of a path: sibling lists become sequences of tree models, and
/// the shared parent becomes the parent's model.
pub open spec fn path_model<T: Clone>(path: Path<T>) -> PathModel<T>
    decreases path,
{
    match path {
        Path::Top => PathModel::Top,
        Path::Node { left, right, path: parent } => PathModel::Node {
            left: models(left@),
            right: models(right@),
            parent: Box::new(path_model(*parent)),
        },
    }
}

impl<T: Clone> View for Path<T> {
    type V = PathModel<T>;

    open spec fn view(&self) -> PathModel<T> {
        path_model(*self)
    }
}

impl<T: Clone> PathModel<T> {
    /// `other` is `self` with the sibling lists copied tree by tree; the
    /// parent context is the same one, not a copy.
    pub open spec fn copied_to(self, other: PathModel<T>) -> bool {
        match (self, other) {
            (PathModel::Top, PathModel::Top) => true,
            (
                PathModel::Node { left, right, parent },
                PathModel::Node { left: other_left, right: other_right, parent: other_parent },
            ) => {
                &&& all_copied_to(left, other_left)
                &&& all_copied_to(right, other_right)
                &&& parent == other_parent
            },
            _ => false,
        }
    }
}

/// Every path is a copy of itself.
pub proof fn lemma_path_copied_to_itself<T: Clone>(path: PathModel<T>)
    ensures
        path.copied_to(path),
{
    match path {
        PathModel::Top => {},
        PathModel::Node { left, right, parent } => {
            lemma_trees_copied_to_themselves(left);
            lemma_trees_copied_to_themselves(right);
        },
    }
}

/// Where cloning elements is faithful, a copy of a path equals the path.
pub proof fn lemma_faithful_path_copy<T: Clone>(path: PathModel<T>, copy: PathModel<T>)
    requires
        clone_is_faithful::<T>(),
        path.copied_to(copy),
    ensures
        path == copy,
{
    match (path, copy) {
        (
            PathModel::Node { left, right, parent },
            PathModel::Node { left: other_left, right: other_right, parent: other_parent },
        ) => {
            lemma_faithful_tree_copies(left, other_left);
            lemma_faithful_tree_copies(right, other_right);
        },
        _ => {},
    }
}

impl<T: Clone> Clone for Path<T> {
    /// Copies the sibling lists and shares the parent context.
    fn clone(&self) -> (copy: Self)
        ensures
            self@.copied_to(copy@),
            clone_is_faithful::<T>() ==> copy@ == self@,
    {
        let copy = match self {
            Path::Top => Path::Top,
            Path::Node { left, right, path } => {
                proof {
                    assert(models(left@).skip(0) =~= models(left@));
                    assert(models(right@).skip(0) =~= models(right@));
                }
                Path::Node {
                    left: copies_from(left, 0),
                    right: copies_from(right, 0),
                    path: path.clone(),
                }
            },
        };
        proof {
            if clone_is_faithful::<T>() {
                lemma_faithful_path_copy(self@, copy@);
            }
        }
        copy
    }
}

} // verus!
