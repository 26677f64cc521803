//! Trees, their mathematical model, and what copying a tree yields.

use vstd::prelude::*;

verus! {

/// An ordered tree over an opaque, cloneable element type.
#[derive(Debug, PartialEq)]
pub enum Tree<T: Clone> {
    /// A leaf holding one value.
    Item(T),
    /// An internal node; the order of the children is the sibling order.
    Section(Vec<Tree<T>>),
}

/// The mathematical value of a [`Tree`]: the same shape, with sequences in
/// place of vectors.
pub ghost enum TreeModel<T> {
    Item(T),
    Section(Seq<TreeModel<T>>),
}

/// The model of a tree: elements stay as they are, each list of children
/// becomes the sequence of the children's models.
pub open spec fn tree_model<T: Clone>(tree: Tree<T>) -> TreeModel<T>
    decreases tree,
{
    match tree {
        Tree::Item(value) => TreeModel::Item(value),
        Tree::Section(children) => TreeModel::Section(
            Seq::new(
                children.len() as nat,
                |i: int|
                    if 0 <= i < children.len() {
                        tree_model(children[i])
                    } else {
                        arbitrary()
                    },
            ),
        ),
    }
}

impl<T: Clone> View for Tree<T> {
    type V = TreeModel<T>;

    open spec fn view(&self) -> TreeModel<T> {
        tree_model(*self)
    }
}

/// The models of a list of sibling trees, in the same order.
pub open spec fn models<T: Clone>(trees: Seq<Tree<T>>) -> Seq<TreeModel<T>> {
    Seq::new(trees.len(), |i: int| trees[i]@)
}

/// The model of a section is the section of its children's models.
pub proof fn lemma_section_model<T: Clone>(children: Vec<Tree<T>>)
    ensures
        Tree::Section(children)@ == TreeModel::Section(models(children@)),
{
    assert(Tree::Section(children)@->Section_0 =~= models(children@));
}

/// Whether cloning an element of type `T` always yields an equal element.
///
/// The library never looks into an element: it only moves and clones them.
/// Where cloning is faithful, a result that holds cloned elements equals
/// what the model says.
pub open spec fn clone_is_faithful<T: Clone>() -> bool {
    forall|a: T, b: T| #[trigger] cloned(a, b) ==> a == b
}

impl<T: Clone> TreeModel<T> {
    /// `other` has the shape of `self`, and each of its elements is the
    /// element at the same place in `self`, or a clone of it.
    pub open spec fn copied_to(self, other: TreeModel<T>) -> bool
        decreases self,
    {
        match (self, other) {
            (TreeModel::Item(a), TreeModel::Item(b)) => cloned(a, b),
            (TreeModel::Section(s), TreeModel::Section(r)) => {
                &&& s.len() == r.len()
                &&& forall|i: int| 0 <= i < s.len() ==> (#[trigger] s[i]).copied_to(r[i])
            },
            _ => false,
        }
    }
}

/// `to` lists a copy of each tree of `from`, in the same order.
pub open spec fn all_copied_to<T: Clone>(from: Seq<TreeModel<T>>, to: Seq<TreeModel<T>>) -> bool {
    &&& from.len() == to.len()
    &&& forall|i: int| 0 <= i < from.len() ==> (#[trigger] from[i]).copied_to(to[i])
}

/// Every tree is a copy of itself.
pub proof fn lemma_tree_copied_to_itself<T: Clone>(tree: TreeModel<T>)
    ensures
        tree.copied_to(tree),
    decreases tree,
{
    match tree {
        TreeModel::Item(_) => {},
        TreeModel::Section(s) => {
            assert forall|i: int| 0 <= i < s.len() implies (#[trigger] s[i]).copied_to(s[i]) by {
                lemma_tree_copied_to_itself(s[i]);
            }
        },
    }
}

/// Every list of trees lists copies of itself.
pub proof fn lemma_trees_copied_to_themselves<T: Clone>(trees: Seq<TreeModel<T>>)
    ensures
        all_copied_to(trees, trees),
{
    assert forall|i: int| 0 <= i < trees.len() implies (#[trigger] trees[i]).copied_to(
        trees[i],
    ) by {
        lemma_tree_copied_to_itself(trees[i]);
    }
}

/// Where cloning elements is faithful, a copy of a tree equals the tree.
pub proof fn lemma_faithful_tree_copy<T: Clone>(tree: TreeModel<T>, copy: TreeModel<T>)
    requires
        clone_is_faithful::<T>(),
        tree.copied_to(copy),
    ensures
        tree == copy,
    decreases tree,
{
    match (tree, copy) {
        (TreeModel::Section(s), TreeModel::Section(r)) => {
            assert forall|i: int| 0 <= i < s.len() implies s[i] == r[i] by {
                lemma_faithful_tree_copy(s[i], r[i]);
            }
            assert(s =~= r);
        },
        _ => {},
    }
}

/// Where cloning elements is faithful, a list of copies equals the list.
pub proof fn lemma_faithful_tree_copies<T: Clone>(from: Seq<TreeModel<T>>, to: Seq<TreeModel<T>>)
    requires
        clone_is_faithful::<T>(),
        all_copied_to(from, to),
    ensures
        from == to,
{
    assert forall|i: int| 0 <= i < from.len() implies from[i] == to[i] by {
        lemma_faithful_tree_copy(from[i], to[i]);
    }
}

/// A list that keeps `kept` in front, tree for tree, and goes on with copies
/// of `from`, lists copies of `kept + from`.
pub proof fn lemma_copies_after_kept<T: Clone>(
    kept: Seq<TreeModel<T>>,
    from: Seq<TreeModel<T>>,
    to: Seq<TreeModel<T>>,
)
    requires
        kept.len() <= to.len(),
        to.take(kept.len() as int) == kept,
        all_copied_to(from, to.skip(kept.len() as int)),
    ensures
        all_copied_to(kept + from, to),
{
    let joined = kept + from;
    assert forall|i: int| 0 <= i < joined.len() implies (#[trigger] joined[i]).copied_to(to[i]) by {
        if i < kept.len() {
            lemma_tree_copied_to_itself(to[i]);
        }
    }
}

impl<T: Clone> Clone for Tree<T> {
    /// Copies the tree, cloning each element once.
    fn clone(&self) -> (copy: Self)
        ensures
            self@.copied_to(copy@),
            clone_is_faithful::<T>() ==> copy@ == self@,
        decreases self,
    {
        let copy = match self {
            Tree::Item(value) => Tree::Item(value.clone()),
            Tree::Section(children) => {
                let mut copies: Vec<Tree<T>> = Vec::new();
                append_copies(&mut copies, children, 0);
                proof {
                    assert(models(children@).skip(0) =~= models(children@));
                    lemma_section_model(*children);
                    lemma_section_model(copies);
                }
                Tree::Section(copies)
            },
        };
        proof {
            if clone_is_faithful::<T>() {
                lemma_faithful_tree_copy(self@, copy@);
            }
        }
        copy
    }
}

/// Pushes a copy of each of `src[from..]` onto `dst`, in order. What `dst`
/// held stays in front, untouched.
pub(crate) fn append_copies<T: Clone>(dst: &mut Vec<Tree<T>>, src: &Vec<Tree<T>>, from: usize)
    requires
        from <= src.len(),
    ensures
        final(dst)@.len() == old(dst)@.len() + src@.len() - from,
        models(final(dst)@).take(old(dst)@.len() as int) == models(old(dst)@),
        all_copied_to(
            models(src@).skip(from as int),
            models(final(dst)@).skip(old(dst)@.len() as int),
        ),
    decreases src,
{
    let ghost start = dst@.len();
    let mut i: usize = from;
    while i < src.len()
        invariant
            from <= i <= src.len(),
            dst@.len() == start + i - from,
            dst@.take(start as int) == old(dst)@,
            forall|k: int| from <= k < i ==> (#[trigger] src[k])@.copied_to(dst[start + k - from]@),
        decreases src.len() - i,
    {
        proof {
            vstd::std_specs::vec::axiom_vec_index_decreases(*src, i as int);
        }
        dst.push(src[i].clone());
        i += 1;
    }
}

/// A list of copies of `src[from..]`, in order.
pub(crate) fn copies_from<T: Clone>(src: &Vec<Tree<T>>, from: usize) -> (copies: Vec<Tree<T>>)
    requires
        from <= src.len(),
    ensures
        all_copied_to(models(src@).skip(from as int), models(copies@)),
{
    let mut copies: Vec<Tree<T>> = Vec::new();
    append_copies(&mut copies, src, from);
    copies
}

/// The list that starts with `first` and goes on with copies of `rest`.
pub(crate) fn prepend_to_copies<T: Clone>(first: Tree<T>, rest: &Vec<Tree<T>>) -> (list: Vec<
    Tree<T>,
>)
    ensures
        all_copied_to(seq![first@] + models(rest@), models(list@)),
{
    let mut list: Vec<Tree<T>> = Vec::new();
    list.push(first);
    assert(models(list@) =~= seq![first@]);
    append_copies(&mut list, rest, 0);
    proof {
        assert(models(rest@).skip(0) =~= models(rest@));
        lemma_copies_after_kept(seq![first@], models(rest@), models(list@));
    }
    list
}

/// Pushes a copy of each tree of `src` onto `dst`, last tree first. What
/// `dst` held stays in front, untouched.
pub(crate) fn append_copies_reversed<T: Clone>(dst: &mut Vec<Tree<T>>, src: &Vec<Tree<T>>)
    ensures
        final(dst)@.len() == old(dst)@.len() + src@.len(),
        models(final(dst)@).take(old(dst)@.len() as int) == models(old(dst)@),
        all_copied_to(models(src@).reverse(), models(final(dst)@).skip(old(dst)@.len() as int)),
{
    let ghost start = dst@.len();
    let mut i: usize = src.len();
    while i > 0
        invariant
            i <= src.len(),
            dst@.len() == start + src.len() - i,
            dst@.take(start as int) == old(dst)@,
            forall|k: int|
                i <= k < src.len() ==> (#[trigger] src[k])@.copied_to(
                    dst[start + src.len() - 1 - k]@,
                ),
        decreases i,
    {
        i -= 1;
        dst.push(src[i].clone());
    }
}

} // verus!
