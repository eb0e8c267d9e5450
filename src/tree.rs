//! The quadtree: a root node over a rectangle fixed when the tree is made.
use vstd::prelude::*;

use crate::geometry::{Position, Rectangle};
use crate::shape::lemma_shape_determined;
use crate::node::{holds_at, InsertError, QuadTreeNode, QuadTreeNodeKind};
use crate::query::{
    inside, lemma_inside_contains, lemma_leaf_count, lemma_range_query, LeafCounter, RangeQuery,
};
use crate::visitor::{walk, Visitor};

verus! {

/// A point quadtree over a fixed rectangle. Each position holds at most one
/// payload.
#[derive(Debug)]
pub struct QuadTree<T> {
    root: QuadTreeNode<T>,
}

impl<T> QuadTree<T> {
    pub closed spec fn root_node(self) -> QuadTreeNode<T> {
        self.root
    }

    pub open spec fn wf(self) -> bool {
        self.root_node().wf()
    }

    /// The stored points with their payloads, in visiting order.
    pub open spec fn items(self) -> Seq<(Position, T)> {
        self.root_node().items()
    }

    /// The rectangle the tree was made with.
    pub open spec fn bounds(self) -> Rectangle {
        self.root_node().area
    }

    /// An empty tree over `area`. Lower bounds of `i32::MIN` are refused: an
    /// empty lower quadrant is written with an upper bound one below its lower
    /// bound.
    pub fn new(area: Rectangle) -> (t: QuadTree<T>)
        requires
            area.left > i32::MIN,
            area.bot > i32::MIN,
        ensures
            t.wf(),
            t.bounds() == area,
            t.items() == Seq::<(Position, T)>::empty(),
            t.root_node() == (QuadTreeNode::<T> { area, kind: QuadTreeNodeKind::Empty }),
    {
        let t = QuadTree { root: QuadTreeNode::new(area) };
        assert(t.items() =~= Seq::<(Position, T)>::empty());
        t
    }

    /// Stores `data` at `pos`. A position outside the tree's rectangle is
    /// refused with `OutOfBounds`, one that already holds a point with
    /// `Occupied`; either way the tree is left as it was. Otherwise the point
    /// joins the others, whose order is kept.
    pub fn add(&mut self, pos: Position, data: T) -> (r: Result<(), InsertError>)
        requires
            old(self).wf(),
        ensures
            final(self).wf(),
            final(self).bounds() == old(self).bounds(),
            r == (if !old(self).bounds().holds_pos(pos) {
                Err(InsertError::OutOfBounds)
            } else if holds_at(old(self).items(), pos) {
                Err(InsertError::Occupied)
            } else {
                Ok(())
            }),
            r is Err ==> *final(self) == *old(self),
            r is Ok ==> final(self).items().len() == old(self).items().len() + 1,
            old(self).root_node().kind is Empty && r is Ok ==> final(self).root_node().kind
                == QuadTreeNodeKind::Leaf(pos, data),
            old(self).root_node().kind is Leaf && r is Ok ==> final(self).root_node().kind is Interior,
            old(self).root_node().kind is Interior ==> final(self).root_node().kind is Interior,
            r is Ok ==> forall|e: (Position, T)|
                final(self).items().contains(e) <==> (old(self).items().contains(e) || e == (pos, data)),
            r is Ok ==> forall|p: Position|
                holds_at(final(self).items(), p) <==> (holds_at(old(self).items(), p) || p == pos),
            r is Ok ==> exists|i: int|
                0 <= i <= old(self).items().len() && final(self).items() == old(
                    self,
                ).items().insert(i, (pos, data)),
    {
        let ghost t0 = *self;
        let ghost before = self.root.items();
        assert(t0.items() == before);
        let r = self.root.add(pos, data);
        proof {
            if r is Ok {
                let i = choose|i: int|
                    0 <= i <= before.len() && self.root.items() == before.insert(i, (pos, data));
                assert(self.items() == t0.items().insert(i, (pos, data)));
                assert forall|p: Position|
                    holds_at(self.items(), p) <==> (holds_at(t0.items(), p) || p == pos) by {
                    lemma_holds_at_insert(t0.items(), i, (pos, data), p);
                }
                assert forall|e: (Position, T)|
                    self.items().contains(e) <==> (t0.items().contains(e) || e == (pos, data)) by {
                    lemma_contains_insert(t0.items(), i, (pos, data), e);
                }
            }
        }
        r
    }

    /// Walks the tree depth first with `v`; see [`Visitor`].
    pub fn visit<V: Visitor<T>>(&self, v: &mut V)
        ensures
            final(v).state() == walk::<T, V>(self.root_node(), old(v).state()),
    {
        self.root.visit(v);
    }

    /// The rectangle the tree was made with.
    pub fn area(&self) -> (r: Rectangle)
        ensures
            r == self.bounds(),
    {
        self.root.area
    }
}

impl<T: Clone> Clone for QuadTree<T> {
    fn clone(&self) -> Self {
        QuadTree { root: self.root.copy() }
    }
}

/// After an item goes in at index `i`, a position is taken exactly when it was
/// taken before or is the new item's.
proof fn lemma_holds_at_insert<T>(s: Seq<(Position, T)>, i: int, e: (Position, T), p: Position)
    requires
        0 <= i <= s.len(),
    ensures
        holds_at(s.insert(i, e), p) <==> (holds_at(s, p) || e.0 == p),
{
    let t = s.insert(i, e);
    if holds_at(t, p) {
        let j = choose|j: int| 0 <= j < t.len() && (#[trigger] t[j]).0 == p;
        if j < i {
            assert(s[j] == t[j]);
        } else if j > i {
            assert(s[j - 1] == t[j]);
        }
    }
    if holds_at(s, p) {
        let j = choose|j: int| 0 <= j < s.len() && (#[trigger] s[j]).0 == p;
        if j < i {
            assert(t[j] == s[j]);
        } else {
            assert(t[j + 1] == s[j]);
        }
    }
    if e.0 == p {
        assert(t[i] == e);
    }
}

/// After an item goes in at index `i`, the sequence holds exactly what it held
/// before and the new item.
pub proof fn lemma_contains_insert<A>(s: Seq<A>, i: int, e: A, x: A)
    requires
        0 <= i <= s.len(),
    ensures
        s.insert(i, e).contains(x) <==> (s.contains(x) || x == e),
{
    let t = s.insert(i, e);
    if t.contains(x) {
        let j = choose|j: int| 0 <= j < t.len() && t[j] == x;
        if j < i {
            assert(s[j] == t[j]);
        } else if j > i {
            assert(s[j - 1] == t[j]);
        }
    }
    if s.contains(x) {
        let j = choose|j: int| 0 <= j < s.len() && s[j] == x;
        if j < i {
            assert(t[j] == s[j]);
        } else {
            assert(t[j + 1] == s[j]);
        }
    }
    if x == e {
        assert(t[i] == e);
    }
}

/// Two well-formed trees with the same rectangle that hold the same points are
/// equal, nodes and shape included. So inserting the same point into equal
/// trees gives equal trees, and inserting the same points in another order
/// gives the same tree, since each successful [`QuadTree::add`] states the
/// points held afterwards.
pub proof fn lemma_tree_determined<T>(t1: QuadTree<T>, t2: QuadTree<T>)
    requires
        t1.wf(),
        t2.wf(),
        t1.bounds() == t2.bounds(),
        forall|e: (Position, T)| t1.items().contains(e) <==> t2.items().contains(e),
    ensures
        t1 == t2,
{
    assert(t1.items() == t1.root_node().items());
    assert(t2.items() == t2.root_node().items());
    assert forall|e: (Position, T)| t1.root_node().items().contains(e) <==> t2.root_node().items().contains(e) by {
        assert(t1.items().contains(e) <==> t2.items().contains(e));
    }
    lemma_shape_determined(t1.root_node(), t2.root_node());
}

/// Counting the leaves of a tree, with a counter that always descends, gives
/// the number of points stored (capped at `usize::MAX`); each successful
/// [`QuadTree::add`] raises that number by one.
pub proof fn lemma_count_is_size<T>(t: QuadTree<T>)
    requires
        t.wf(),
    ensures
        t.items().len() <= usize::MAX ==> walk::<T, LeafCounter>(t.root_node(), 0)
            == t.items().len(),
{
    lemma_leaf_count(t.root_node(), 0);
}

/// A range search over a tree, which prunes every subtree whose rectangle
/// misses the query, finds exactly the stored positions inside the query.
pub proof fn lemma_query_is_exact<T>(t: QuadTree<T>, q: Rectangle)
    requires
        t.wf(),
    ensures
        walk::<T, RangeQuery>(t.root_node(), (q, Seq::empty())).1 == inside(t.items(), q),
        forall|p: Position|
            walk::<T, RangeQuery>(t.root_node(), (q, Seq::empty())).1.contains(p) <==> (
            q.holds_pos(p) && holds_at(t.items(), p)),
{
    lemma_range_query(t.root_node(), q, Seq::empty());
    assert(Seq::<Position>::empty() + inside(t.items(), q) =~= inside(t.items(), q));
    let found = walk::<T, RangeQuery>(t.root_node(), (q, Seq::empty())).1;
    assert(found == inside(t.items(), q));
    assert forall|p: Position| found.contains(p) <==> (q.holds_pos(p)
        && holds_at(t.items(), p)) by {
        lemma_inside_contains(t.items(), q, p);
    }
}

} // verus!
