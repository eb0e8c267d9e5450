//! A point quadtree over a fixed rectangle of the integer plane.
//!
//! Each position holds at most one payload. A node is empty, holds one point,
//! or has four children that own the quadrants of its rectangle; the second
//! point that reaches a leaf splits it. Queries walk the tree depth first and
//! let a [`Visitor`] prune whole subtrees whose rectangle cannot hold what it
//! looks for.
use vstd::prelude::*;

pub mod geometry;
pub mod laws;
pub mod node;
pub mod query;
pub mod shape;
pub mod tree;
pub mod visitor;

pub use geometry::{Position, Rectangle};
pub use node::InsertError;
pub use query::{LeafCounter, RangeQuery};
pub use tree::QuadTree;
pub use visitor::Visitor;

verus! {

} // verus!
