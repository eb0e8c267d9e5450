//! The shape of a well-formed tree follows from its rectangle and the points
//! it holds: where each node is empty, a leaf or split is never a matter of the
//! order of insertion.
use vstd::prelude::*;

use crate::geometry::Position;
use crate::laws::lemma_quadrants_tile;
use crate::node::{lemma_items_inside, QuadTreeNode, QuadTreeNodeKind};

verus! {

/// A sequence holds an item of the concatenation exactly when one of its two
/// parts does.
pub proof fn lemma_contains_append<A>(x: Seq<A>, y: Seq<A>, e: A)
    ensures
        (x + y).contains(e) <==> (x.contains(e) || y.contains(e)),
{
    let s = x + y;
    if s.contains(e) {
        let i = choose|i: int| 0 <= i < s.len() && s[i] == e;
        if i < x.len() {
            assert(x[i] == e);
        } else {
            assert(y[i - x.len()] == e);
        }
    }
    if x.contains(e) {
        let i = choose|i: int| 0 <= i < x.len() && x[i] == e;
        assert(s[i] == e);
    }
    if y.contains(e) {
        let i = choose|i: int| 0 <= i < y.len() && y[i] == e;
        assert(s[x.len() + i] == e);
    }
}

/// A point held below a well-formed node lies in the node's rectangle.
pub proof fn lemma_contains_inside<T>(node: QuadTreeNode<T>, e: (Position, T))
    requires
        node.wf(),
        node.items().contains(e),
    ensures
        node.area.holds_pos(e.0),
{
    lemma_items_inside(node);
    let i = choose|i: int| 0 <= i < node.items().len() && node.items()[i] == e;
    assert(node.items()[i].0 == e.0);
}

/// A child of a well-formed interior node holds exactly those of the node's
/// points that lie in the child's quadrant.
pub proof fn lemma_child_contains<T>(node: QuadTreeNode<T>, e: (Position, T))
    requires
        node.wf(),
        node.kind is Interior,
    ensures
        ({
            let s = node.kind->Interior_0;
            &&& s.top_left.items().contains(e) <==> (node.items().contains(e)
                && s.top_left.area.holds_pos(e.0))
            &&& s.top_right.items().contains(e) <==> (node.items().contains(e)
                && s.top_right.area.holds_pos(e.0))
            &&& s.bot_left.items().contains(e) <==> (node.items().contains(e)
                && s.bot_left.area.holds_pos(e.0))
            &&& s.bot_right.items().contains(e) <==> (node.items().contains(e)
                && s.bot_right.area.holds_pos(e.0))
        }),
{
    let s = node.kind->Interior_0;
    let a = s.top_left.items();
    let b = s.top_right.items();
    let c = s.bot_left.items();
    let d = s.bot_right.items();
    assert(node.items() == a + b + c + d);
    lemma_contains_append(a, b, e);
    lemma_contains_append(a + b, c, e);
    lemma_contains_append(a + b + c, d, e);
    lemma_quadrants_tile(node.area, e.0.x as int, e.0.y as int);
    if a.contains(e) {
        lemma_contains_inside(s.top_left, e);
    }
    if b.contains(e) {
        lemma_contains_inside(s.top_right, e);
    }
    if c.contains(e) {
        lemma_contains_inside(s.bot_left, e);
    }
    if d.contains(e) {
        lemma_contains_inside(s.bot_right, e);
    }
}

/// A well-formed node whose points all sit at one position holds at most one.
pub proof fn lemma_one_position<T>(node: QuadTreeNode<T>, p: Position)
    requires
        node.wf(),
        forall|i: int| 0 <= i < node.items().len() ==> (#[trigger] node.items()[i]).0 == p,
    ensures
        node.items().len() <= 1,
    decreases node,
{
    if let QuadTreeNodeKind::Interior(s) = node.kind {
        let a = s.top_left.items();
        let b = s.top_right.items();
        let c = s.bot_left.items();
        let d = s.bot_right.items();
        assert(node.items() == a + b + c + d);
        assert forall|i: int| 0 <= i < a.len() implies (#[trigger] a[i]).0 == p by {
            assert(node.items()[i] == a[i]);
        }
        assert forall|i: int| 0 <= i < b.len() implies (#[trigger] b[i]).0 == p by {
            assert(node.items()[a.len() + i] == b[i]);
        }
        assert forall|i: int| 0 <= i < c.len() implies (#[trigger] c[i]).0 == p by {
            assert(node.items()[a.len() + b.len() + i] == c[i]);
        }
        assert forall|i: int| 0 <= i < d.len() implies (#[trigger] d[i]).0 == p by {
            assert(node.items()[a.len() + b.len() + c.len() + i] == d[i]);
        }
        lemma_one_position(s.top_left, p);
        lemma_one_position(s.top_right, p);
        lemma_one_position(s.bot_left, p);
        lemma_one_position(s.bot_right, p);
        lemma_quadrants_tile(node.area, p.x as int, p.y as int);
        if a.len() > 0 {
            lemma_contains_inside(s.top_left, a[0]);
        }
        if b.len() > 0 {
            lemma_contains_inside(s.top_right, b[0]);
        }
        if c.len() > 0 {
            lemma_contains_inside(s.bot_left, c[0]);
        }
        if d.len() > 0 {
            lemma_contains_inside(s.bot_right, d[0]);
        }
    }
}

/// A leaf's points against another well-formed node holding the same points:
/// the other node is that same leaf.
proof fn lemma_leaf_determined<T>(n1: QuadTreeNode<T>, n2: QuadTreeNode<T>)
    requires
        n1.wf(),
        n2.wf(),
        n1.area == n2.area,
        n1.kind is Leaf,
        forall|e: (Position, T)| n1.items().contains(e) <==> n2.items().contains(e),
    ensures
        n1 == n2,
{
    let e = (n1.kind->Leaf_0, n1.kind->Leaf_1);
    assert(n1.items() == seq![e]);
    assert(n1.items()[0] == e);
    assert(n1.items().contains(e));
    assert forall|x: (Position, T)| n1.items().contains(x) implies x == e by {
        let i = choose|i: int| 0 <= i < n1.items().len() && n1.items()[i] == x;
        assert(i == 0);
    }
    assert forall|i: int| 0 <= i < n2.items().len() implies (#[trigger] n2.items()[i]).0 == e.0 by {
        assert(n2.items().contains(n2.items()[i]));
    }
    lemma_one_position(n2, e.0);
    assert(n2.items().contains(e));
    if let QuadTreeNodeKind::Leaf(p2, d2) = n2.kind {
        assert(n2.items()[0] == (p2, d2));
        assert(n2.items().contains((p2, d2)));
    }
}

/// Two well-formed nodes over the same rectangle that hold the same points are
/// equal: the shape of a tree follows from its rectangle and its points.
pub proof fn lemma_shape_determined<T>(n1: QuadTreeNode<T>, n2: QuadTreeNode<T>)
    requires
        n1.wf(),
        n2.wf(),
        n1.area == n2.area,
        forall|e: (Position, T)| n1.items().contains(e) <==> n2.items().contains(e),
    ensures
        n1 == n2,
    decreases n1,
{
    if n1.kind is Leaf {
        lemma_leaf_determined(n1, n2);
    } else if n2.kind is Leaf {
        lemma_leaf_determined(n2, n1);
    } else if n1.kind is Empty {
        if n2.items().len() > 0 {
            assert(n2.items().contains(n2.items()[0]));
        }
    } else if n2.kind is Empty {
        assert(n1.items().contains(n1.items()[0]));
    } else {
        let s1 = n1.kind->Interior_0;
        let s2 = n2.kind->Interior_0;
        assert forall|e: (Position, T)| s1.top_left.items().contains(e)
            <==> s2.top_left.items().contains(e) by {
            lemma_child_contains(n1, e);
            lemma_child_contains(n2, e);
        }
        assert forall|e: (Position, T)| s1.top_right.items().contains(e)
            <==> s2.top_right.items().contains(e) by {
            lemma_child_contains(n1, e);
            lemma_child_contains(n2, e);
        }
        assert forall|e: (Position, T)| s1.bot_left.items().contains(e)
            <==> s2.bot_left.items().contains(e) by {
            lemma_child_contains(n1, e);
            lemma_child_contains(n2, e);
        }
        assert forall|e: (Position, T)| s1.bot_right.items().contains(e)
            <==> s2.bot_right.items().contains(e) by {
            lemma_child_contains(n1, e);
            lemma_child_contains(n2, e);
        }
        lemma_shape_determined(s1.top_left, s2.top_left);
        lemma_shape_determined(s1.top_right, s2.top_right);
        lemma_shape_determined(s1.bot_left, s2.bot_left);
        lemma_shape_determined(s1.bot_right, s2.bot_right);
        assert(s1 == s2);
    }
}

} // verus!
