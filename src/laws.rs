//! Facts about every node of a well-formed tree: where leaves keep their
//! points, how quadrants tile their parent, and where the midlines go.
use vstd::prelude::*;

use crate::geometry::{Position, Rectangle};
use crate::node::{
    bot_left_of, bot_right_of, split_x, split_y, splittable, top_left_of, top_right_of,
    QuadTreeNode, QuadTreeNodeKind,
};

verus! {

/// Whether `sub` is `node` or lies somewhere below it.
pub open spec fn reaches<T>(node: QuadTreeNode<T>, sub: QuadTreeNode<T>) -> bool
    decreases node,
{
    node == sub || match node.kind {
        QuadTreeNodeKind::Interior(s) => reaches(s.top_left, sub) || reaches(s.top_right, sub)
            || reaches(s.bot_left, sub) || reaches(s.bot_right, sub),
        _ => false,
    }
}

/// Every node below a well-formed node is well-formed.
pub proof fn lemma_reaches_wf<T>(node: QuadTreeNode<T>, sub: QuadTreeNode<T>)
    requires
        node.wf(),
        reaches(node, sub),
    ensures
        sub.wf(),
    decreases node,
{
    if node != sub {
        match node.kind {
            QuadTreeNodeKind::Interior(s) => {
                if reaches(s.top_left, sub) {
                    lemma_reaches_wf(s.top_left, sub);
                } else if reaches(s.top_right, sub) {
                    lemma_reaches_wf(s.top_right, sub);
                } else if reaches(s.bot_left, sub) {
                    lemma_reaches_wf(s.bot_left, sub);
                } else {
                    lemma_reaches_wf(s.bot_right, sub);
                }
            },
            _ => {},
        }
    }
}

/// Every leaf below a well-formed node keeps its point inside its own closed
/// rectangle.
pub proof fn lemma_leaf_holds_its_point<T>(node: QuadTreeNode<T>, sub: QuadTreeNode<T>)
    requires
        node.wf(),
        reaches(node, sub),
        sub.kind is Leaf,
    ensures
        sub.area.holds_pos(sub.kind->Leaf_0),
{
    lemma_reaches_wf(node, sub);
}

/// The quadrants of a splittable rectangle tile it: a point of the plane lies
/// in the rectangle exactly when it lies in one of the four, and it never lies
/// in two.
pub proof fn lemma_quadrants_tile(a: Rectangle, x: int, y: int)
    requires
        splittable(a),
    ensures
        a.holds(x, y) == (top_left_of(a).holds(x, y) || top_right_of(a).holds(x, y)
            || bot_left_of(a).holds(x, y) || bot_right_of(a).holds(x, y)),
        (top_left_of(a).holds(x, y) as int) + (top_right_of(a).holds(x, y) as int) + (bot_left_of(
            a,
        ).holds(x, y) as int) + (bot_right_of(a).holds(x, y) as int) <= 1,
{
}

/// The four children of every interior node below a well-formed node tile
/// its rectangle, with no gap and no overlap.
pub proof fn lemma_children_tile<T>(node: QuadTreeNode<T>, sub: QuadTreeNode<T>, x: int, y: int)
    requires
        node.wf(),
        reaches(node, sub),
        sub.kind is Interior,
    ensures
        ({
            let s = sub.kind->Interior_0;
            &&& sub.area.holds(x, y) == (s.top_left.area.holds(x, y) || s.top_right.area.holds(
                x,
                y,
            ) || s.bot_left.area.holds(x, y) || s.bot_right.area.holds(x, y))
            &&& (s.top_left.area.holds(x, y) as int) + (s.top_right.area.holds(x, y) as int) + (
            s.bot_left.area.holds(x, y) as int) + (s.bot_right.area.holds(x, y) as int) <= 1
        }),
{
    lemma_reaches_wf(node, sub);
    lemma_quadrants_tile(sub.area, x, y);
}

/// A point on a vertical midline belongs to a right quadrant, and one on a
/// horizontal midline to a top quadrant.
pub proof fn lemma_midline_goes_up_right(a: Rectangle, pos: Position)
    requires
        splittable(a),
        a.holds_pos(pos),
    ensures
        pos.x == split_x(a) ==> !top_left_of(a).holds_pos(pos) && !bot_left_of(a).holds_pos(pos)
            && (top_right_of(a).holds_pos(pos) || bot_right_of(a).holds_pos(pos)),
        pos.y == split_y(a) ==> !bot_left_of(a).holds_pos(pos) && !bot_right_of(a).holds_pos(pos)
            && (top_left_of(a).holds_pos(pos) || top_right_of(a).holds_pos(pos)),
{
}

} // verus!
