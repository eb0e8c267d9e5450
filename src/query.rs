//! Two visitors: a range search that prunes by rectangle overlap, and a leaf
//! counter that always descends.
use vstd::prelude::*;

use crate::geometry::{Position, Rectangle};
use crate::node::{holds_at, lemma_items_inside, QuadTreeNode, QuadTreeNodeKind};
use crate::visitor::{walk, Visitor};

verus! {

/// The positions among `items` that lie in `q`, in their order.
pub open spec fn inside<T>(items: Seq<(Position, T)>, q: Rectangle) -> Seq<Position>
    decreases items.len(),
{
    if items.len() == 0 {
        seq![]
    } else {
        let rest = inside(items.drop_last(), q);
        let p = items.last().0;
        if q.holds_pos(p) {
            rest.push(p)
        } else {
            rest
        }
    }
}

/// Collects the positions that lie in `query`. It descends only into nodes
/// whose rectangle meets `query`.
#[derive(Clone, Debug)]
pub struct RangeQuery {
    pub query: Rectangle,
    pub hits: Vec<Position>,
}

impl RangeQuery {
    pub fn new(query: Rectangle) -> (r: RangeQuery)
        ensures
            r.query == query,
            r.hits@ == Seq::<Position>::empty(),
    {
        RangeQuery { query, hits: Vec::new() }
    }
}

impl<T> Visitor<T> for RangeQuery {
    type State = (Rectangle, Seq<Position>);

    open spec fn state(&self) -> (Rectangle, Seq<Position>) {
        (self.query, self.hits@)
    }

    open spec fn descends(s: (Rectangle, Seq<Position>), area: Rectangle) -> bool {
        area.overlaps(s.0)
    }

    open spec fn entered(s: (Rectangle, Seq<Position>), area: Rectangle) -> (Rectangle, Seq<Position>) {
        s
    }

    open spec fn seen(s: (Rectangle, Seq<Position>), area: Rectangle, pos: Position, data: T) -> (
        Rectangle,
        Seq<Position>,
    ) {
        if s.0.holds_pos(pos) {
            (s.0, s.1.push(pos))
        } else {
            s
        }
    }

    fn visit(&mut self, area: &Rectangle, contents: Option<(Position, &T)>) -> (descend: bool) {
        match contents {
            None => area.intersects(&self.query),
            Some((pos, _)) => {
                if self.query.is_inside(pos) {
                    self.hits.push(pos);
                }
                false
            },
        }
    }
}

/// Counts the leaves it sees, up to `usize::MAX`. It descends everywhere.
#[derive(Clone, Debug)]
pub struct LeafCounter {
    pub count: usize,
}

impl LeafCounter {
    pub fn new() -> (r: LeafCounter)
        ensures
            r.count == 0,
    {
        LeafCounter { count: 0 }
    }
}

impl<T> Visitor<T> for LeafCounter {
    type State = int;

    open spec fn state(&self) -> int {
        self.count as int
    }

    open spec fn descends(s: int, area: Rectangle) -> bool {
        true
    }

    open spec fn entered(s: int, area: Rectangle) -> int {
        s
    }

    open spec fn seen(s: int, area: Rectangle, pos: Position, data: T) -> int {
        if s < usize::MAX {
            s + 1
        } else {
            s
        }
    }

    fn visit(&mut self, area: &Rectangle, contents: Option<(Position, &T)>) -> (descend: bool) {
        if contents.is_some() {
            self.count = self.count.saturating_add(1);
        }
        true
    }
}

/// The positions in `q` among the concatenation of two sequences are those of
/// the first followed by those of the second.
pub proof fn lemma_inside_append<T>(a: Seq<(Position, T)>, b: Seq<(Position, T)>, q: Rectangle)
    ensures
        inside(a + b, q) == inside(a, q) + inside(b, q),
    decreases b.len(),
{
    if b.len() == 0 {
        assert(a + b =~= a);
        assert(inside(a, q) + inside(b, q) =~= inside(a, q));
    } else {
        assert((a + b).drop_last() =~= a + b.drop_last());
        lemma_inside_append(a, b.drop_last(), q);
        assert(inside(a, q) + inside(b.drop_last(), q).push(b.last().0) =~= (inside(a, q)
            + inside(b.drop_last(), q)).push(b.last().0));
    }
}

/// A position is among those in `q` exactly when it lies in `q` and one of the
/// items is at it.
pub proof fn lemma_inside_contains<T>(items: Seq<(Position, T)>, q: Rectangle, p: Position)
    ensures
        inside(items, q).contains(p) <==> (q.holds_pos(p) && holds_at(items, p)),
    decreases items.len(),
{
    if items.len() > 0 {
        let rest = items.drop_last();
        let e = items.last();
        let found = inside(rest, q);
        lemma_inside_contains(rest, q, p);
        assert(holds_at(items, p) <==> (holds_at(rest, p) || e.0 == p)) by {
            if holds_at(items, p) {
                let i = choose|i: int| 0 <= i < items.len() && (#[trigger] items[i]).0 == p;
                if i < rest.len() {
                    assert(rest[i] == items[i]);
                }
            }
            if holds_at(rest, p) {
                let i = choose|i: int| 0 <= i < rest.len() && (#[trigger] rest[i]).0 == p;
                assert(items[i] == rest[i]);
            }
            if e.0 == p {
                assert(items[items.len() - 1] == e);
            }
        }
        if q.holds_pos(e.0) {
            let more = found.push(e.0);
            assert(more.contains(p) <==> (found.contains(p) || e.0 == p)) by {
                if more.contains(p) {
                    let j = choose|j: int| 0 <= j < more.len() && more[j] == p;
                    if j < found.len() {
                        assert(found[j] == p);
                    }
                }
                if found.contains(p) {
                    let j = choose|j: int| 0 <= j < found.len() && found[j] == p;
                    assert(more[j] == p);
                }
                if e.0 == p {
                    assert(more[found.len() as int] == p);
                }
            }
        }
    }
}

/// No position in `q` among items that all lie outside it.
pub proof fn lemma_inside_none<T>(items: Seq<(Position, T)>, q: Rectangle)
    requires
        forall|i: int| 0 <= i < items.len() ==> !q.holds_pos(#[trigger] items[i].0),
    ensures
        inside(items, q) == Seq::<Position>::empty(),
    decreases items.len(),
{
    if items.len() > 0 {
        lemma_inside_none(items.drop_last(), q);
    }
}

/// Pruning loses nothing: a range search over a well-formed node, which skips
/// every subtree whose rectangle misses the query, adds to its hits exactly the
/// stored positions that lie in the query, in visiting order.
pub proof fn lemma_range_query<T>(node: QuadTreeNode<T>, q: Rectangle, hits: Seq<Position>)
    requires
        node.wf(),
    ensures
        walk::<T, RangeQuery>(node, (q, hits)) == (q, hits + inside(node.items(), q)),
    decreases node,
{
    match node.kind {
        QuadTreeNodeKind::Empty => {
            assert(hits + inside(node.items(), q) =~= hits);
        },
        QuadTreeNodeKind::Leaf(p, d) => {
            let e = (p, d);
            assert(node.items() == seq![e]);
            assert(node.items().drop_last() =~= Seq::<(Position, T)>::empty());
            assert(node.items().last() == e);
            assert(inside(node.items().drop_last(), q) =~= Seq::<Position>::empty());
            if q.holds_pos(e.0) {
                assert(hits + inside(node.items(), q) =~= hits.push(e.0));
            } else {
                assert(hits + inside(node.items(), q) =~= hits);
            }
        },
        QuadTreeNodeKind::Interior(sub) => {
            let a = sub.top_left.items();
            let b = sub.top_right.items();
            let c = sub.bot_left.items();
            let d = sub.bot_right.items();
            if node.area.overlaps(q) {
                lemma_range_query(sub.top_left, q, hits);
                lemma_range_query(sub.top_right, q, hits + inside(a, q));
                lemma_range_query(sub.bot_left, q, hits + inside(a, q) + inside(b, q));
                lemma_range_query(
                    sub.bot_right,
                    q,
                    hits + inside(a, q) + inside(b, q) + inside(c, q),
                );
                lemma_inside_append(a, b, q);
                lemma_inside_append(a + b, c, q);
                lemma_inside_append(a + b + c, d, q);
                assert(hits + inside(a, q) + inside(b, q) + inside(c, q) + inside(d, q) =~= hits
                    + inside(node.items(), q));
            } else {
                lemma_items_inside(node);
                lemma_inside_none(node.items(), q);
                assert(hits + inside(node.items(), q) =~= hits);
            }
        },
    }
}

/// A counter that always descends sees every stored point once: starting from
/// `n`, it ends at `n` plus the number of points, capped at `usize::MAX`.
pub proof fn lemma_leaf_count<T>(node: QuadTreeNode<T>, n: int)
    requires
        0 <= n <= usize::MAX,
    ensures
        walk::<T, LeafCounter>(node, n) == if n + node.items().len() <= usize::MAX {
            n + node.items().len()
        } else {
            usize::MAX as int
        },
    decreases node,
{
    match node.kind {
        QuadTreeNodeKind::Empty => {},
        QuadTreeNodeKind::Leaf(..) => {},
        QuadTreeNodeKind::Interior(sub) => {
            let n1 = walk::<T, LeafCounter>(sub.top_left, n);
            lemma_leaf_count(sub.top_left, n);
            let n2 = walk::<T, LeafCounter>(sub.top_right, n1);
            lemma_leaf_count(sub.top_right, n1);
            let n3 = walk::<T, LeafCounter>(sub.bot_left, n2);
            lemma_leaf_count(sub.bot_left, n2);
            lemma_leaf_count(sub.bot_right, n3);
        },
    }
}

} // verus!
