//! Huet's zipper over ordered trees.
//!
//! A [`Location`] is a focused subtree (the cursor) together with a [`Path`]
//! that records everything around it, so that the whole tree can be rebuilt
//! by walking back up. Movement and edits take a location by value and give
//! a new one; nothing is changed in place. [`MemoLocation`] caches indexed
//! child lookups made from one fixed base location.
//!
//! Every operation is specified against a mathematical model of the data
//! ([`TreeModel`], [`PathModel`], [`LocationModel`], [`MemoModel`]): the
//! model's functions say what each operation returns, and the laws in
//! [`laws`] relate them. Elements are opaque: the library moves and clones
//! them and never looks inside. A result that holds cloned elements is
//! stated as a copy of what the model gives, and as equal to it wherever
//! [`clone_is_faithful`] holds of the element type.

pub mod laws;
pub mod location;
pub mod memo;
pub mod path;
pub mod tree;

pub use crate::location::{Location, LocationModel};
pub use crate::memo::{MemoLocation, MemoModel};
pub use crate::path::{Path, PathModel};
pub use crate::tree::{clone_is_faithful, Tree, TreeModel};
