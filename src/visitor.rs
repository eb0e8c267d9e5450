//! The depth-first walk and the visitors that steer it.
use vstd::prelude::*;

use crate::geometry::{Position, Rectangle};
use crate::node::{QuadTreeNode, QuadTreeNodeKind, Subtrees};

verus! {

/// What a walk over the tree calls at every node that is not empty.
///
/// At a leaf the visitor gets the node's rectangle with the point and its
/// payload; what it returns there is ignored. At an interior node it gets the
/// rectangle alone, and returning `false` skips the node's whole subtree.
/// `State` is what the visitor has gathered, as far as its contract goes, and
/// the spec functions below say how each call changes it. A visitor that keeps
/// their defaults describes nothing, and nothing is proved of a walk with it.
pub trait Visitor<T> {
    type State;

    open spec fn state(&self) -> Self::State {
        arbitrary()
    }

    /// Whether the walk goes below an interior node with this rectangle.
    open spec fn descends(s: Self::State, area: Rectangle) -> bool {
        arbitrary()
    }

    /// The state after the visitor has seen an interior node with this rectangle.
    open spec fn entered(s: Self::State, area: Rectangle) -> Self::State {
        arbitrary()
    }

    /// The state after the visitor has seen a leaf with this rectangle and point.
    open spec fn seen(s: Self::State, area: Rectangle, pos: Position, data: T) -> Self::State {
        arbitrary()
    }

    fn visit(&mut self, area: &Rectangle, contents: Option<(Position, &T)>) -> (descend: bool)
        ensures
            contents is None ==> descend == Self::descends(old(self).state(), *area),
            contents is None ==> final(self).state() == Self::entered(old(self).state(), *area),
            contents is Some ==> final(self).state() == Self::seen(
                old(self).state(),
                *area,
                (contents->0).0,
                *(contents->0).1,
            ),
    ;
}

/// The state of visitor `V` after a walk over `node` that started in state `s`:
/// children go in the order top-left, top-right, bottom-left, bottom-right, and
/// an empty node is passed over without a call.
pub open spec fn walk<T, V: Visitor<T>>(node: QuadTreeNode<T>, s: V::State) -> V::State
    decreases node,
{
    match node.kind {
        QuadTreeNodeKind::Empty => s,
        QuadTreeNodeKind::Leaf(p, d) => V::seen(s, node.area, p, d),
        QuadTreeNodeKind::Interior(sub) => {
            let s0 = V::entered(s, node.area);
            if V::descends(s, node.area) {
                walk::<T, V>(
                    sub.bot_right,
                    walk::<T, V>(sub.bot_left, walk::<T, V>(sub.top_right, walk::<T, V>(sub.top_left, s0))),
                )
            } else {
                s0
            }
        },
    }
}

impl<T> QuadTreeNode<T> {
    /// Walks this node and everything below it with `v`.
    pub fn visit<V: Visitor<T>>(&self, v: &mut V)
        ensures
            final(v).state() == walk::<T, V>(*self, old(v).state()),
        decreases self,
    {
        match &self.kind {
            QuadTreeNodeKind::Empty => {},
            QuadTreeNodeKind::Leaf(pos, data) => {
                v.visit(&self.area, Some((*pos, data)));
            },
            QuadTreeNodeKind::Interior(subs) => {
                if v.visit(&self.area, None) {
                    subs.visit(v);
                }
            },
        }
    }
}

impl<T> Subtrees<T> {
    /// Walks the four children in order: top-left, top-right, bottom-left,
    /// bottom-right.
    pub fn visit<V: Visitor<T>>(&self, v: &mut V)
        ensures
            final(v).state() == walk::<T, V>(
                self.bot_right,
                walk::<T, V>(
                    self.bot_left,
                    walk::<T, V>(self.top_right, walk::<T, V>(self.top_left, old(v).state())),
                ),
            ),
        decreases self,
    {
        self.top_left.visit(v);
        self.top_right.visit(v);
        self.bot_left.visit(v);
        self.bot_right.visit(v);
    }
}

} // verus!
