//! The nodes of a quadtree: their three states, how a point is routed to a
//! quadrant, and insertion with subdivision of an occupied leaf.
use vstd::prelude::*;

use crate::geometry::{Position, Rectangle};

verus! {

/// The split coordinate of the closed range `[lo, hi]`: the real midpoint
/// `(lo + hi) / 2` rounded up. An integer `v` lies below the real midpoint
/// exactly when `v < split(lo, hi)`, so a coordinate on the midpoint itself
/// belongs to the upper (right or top) half.
pub open spec fn split(lo: int, hi: int) -> int {
    lo + (hi - lo + 1) / 2
}

/// The sum of a rectangle's width and height; it shrinks with every subdivision
/// that a pair of distinct points forces.
pub open spec fn extent(a: Rectangle) -> int {
    (a.right - a.left) + (a.top - a.bot)
}

pub open spec fn split_x(a: Rectangle) -> int {
    split(a.left as int, a.right as int)
}

pub open spec fn split_y(a: Rectangle) -> int {
    split(a.bot as int, a.top as int)
}

pub open spec fn top_left_of(a: Rectangle) -> Rectangle {
    Rectangle { left: a.left, bot: split_y(a) as i32, right: (split_x(a) - 1) as i32, top: a.top }
}

pub open spec fn top_right_of(a: Rectangle) -> Rectangle {
    Rectangle { left: split_x(a) as i32, bot: split_y(a) as i32, right: a.right, top: a.top }
}

pub open spec fn bot_left_of(a: Rectangle) -> Rectangle {
    Rectangle {
        left: a.left,
        bot: a.bot,
        right: (split_x(a) - 1) as i32,
        top: (split_y(a) - 1) as i32,
    }
}

pub open spec fn bot_right_of(a: Rectangle) -> Rectangle {
    Rectangle { left: split_x(a) as i32, bot: a.bot, right: a.right, top: (split_y(a) - 1) as i32 }
}

/// A rectangle that can be split: not empty, and with room below its lower
/// bounds for the upper bound of an empty lower half.
pub open spec fn splittable(a: Rectangle) -> bool {
    a.left <= a.right && a.bot <= a.top && a.left > i32::MIN && a.bot > i32::MIN
}

/// Whether one of the items is at `pos`.
pub open spec fn holds_at<T>(items: Seq<(Position, T)>, pos: Position) -> bool {
    exists|i: int| 0 <= i < items.len() && (#[trigger] items[i]).0 == pos
}

/// Why an insertion was refused; the tree is left as it was.
#[derive(Clone, Copy, Debug, PartialEq, Eq, Structural)]
pub enum InsertError {
    /// The position lies outside the rectangle of the tree.
    OutOfBounds,
    /// The tree already holds a point at this position.
    Occupied,
}

/// A node owns a rectangle and is empty, holds one point, or has four children.
#[derive(Debug)]
pub struct QuadTreeNode<T> {
    pub area: Rectangle,
    pub kind: QuadTreeNodeKind<T>,
}

#[derive(Debug)]
pub enum QuadTreeNodeKind<T> {
    Empty,
    Leaf(Position, T),
    Interior(Box<Subtrees<T>>),
}

/// The four children of an interior node, one per quadrant of its rectangle.
#[derive(Debug)]
pub struct Subtrees<T> {
    pub top_left: QuadTreeNode<T>,
    pub top_right: QuadTreeNode<T>,
    pub bot_left: QuadTreeNode<T>,
    pub bot_right: QuadTreeNode<T>,
}

impl<T> QuadTreeNode<T> {
    /// The points below this node with their payloads, in visiting order:
    /// top-left, top-right, bottom-left, bottom-right.
    pub open spec fn items(self) -> Seq<(Position, T)>
        decreases self,
    {
        match self.kind {
            QuadTreeNodeKind::Empty => seq![],
            QuadTreeNodeKind::Leaf(p, d) => seq![(p, d)],
            QuadTreeNodeKind::Interior(s) => s.top_left.items() + s.top_right.items()
                + s.bot_left.items() + s.bot_right.items(),
        }
    }

    /// Whether some point below this node is at `pos`.
    pub open spec fn occupies(self, pos: Position) -> bool {
        holds_at(self.items(), pos)
    }

    /// What inserting a point at `pos` answers.
    pub open spec fn add_result(self, pos: Position) -> Result<(), InsertError> {
        if !self.area.holds_pos(pos) {
            Err(InsertError::OutOfBounds)
        } else if self.occupies(pos) {
            Err(InsertError::Occupied)
        } else {
            Ok(())
        }
    }

    /// Well-formed: a leaf's point lies in its rectangle, and an interior
    /// node holds at least two points below it, its rectangle can be split and
    /// is not a single point, and its children are well-formed and own exactly
    /// its four quadrants.
    pub open spec fn wf(self) -> bool
        decreases self,
    {
        self.area.left > i32::MIN && self.area.bot > i32::MIN && match self.kind {
            QuadTreeNodeKind::Empty => true,
            QuadTreeNodeKind::Leaf(p, _) => self.area.holds_pos(p),
            QuadTreeNodeKind::Interior(s) => {
                &&& splittable(self.area)
                &&& extent(self.area) > 0
                &&& self.items().len() >= 2
                &&& s.top_left.area == top_left_of(self.area)
                &&& s.top_right.area == top_right_of(self.area)
                &&& s.bot_left.area == bot_left_of(self.area)
                &&& s.bot_right.area == bot_right_of(self.area)
                &&& s.top_left.wf()
                &&& s.top_right.wf()
                &&& s.bot_left.wf()
                &&& s.bot_right.wf()
            },
        }
    }
}

impl<T> Subtrees<T> {
    /// The rectangle that the four quadrants make up.
    pub open spec fn outer(self) -> Rectangle {
        Rectangle {
            left: self.bot_left.area.left,
            bot: self.bot_left.area.bot,
            right: self.top_right.area.right,
            top: self.top_right.area.top,
        }
    }

    pub open spec fn items(self) -> Seq<(Position, T)> {
        self.top_left.items() + self.top_right.items() + self.bot_left.items()
            + self.bot_right.items()
    }

    /// The children own the quadrants of `outer()` and are well-formed.
    pub open spec fn wf(self) -> bool {
        let a = self.outer();
        &&& splittable(a)
        &&& extent(a) > 0
        &&& self.top_left.area == top_left_of(a)
        &&& self.top_right.area == top_right_of(a)
        &&& self.bot_left.area == bot_left_of(a)
        &&& self.bot_right.area == bot_right_of(a)
        &&& self.top_left.wf()
        &&& self.top_right.wf()
        &&& self.bot_left.wf()
        &&& self.bot_right.wf()
    }
}

impl<T> QuadTreeNode<T> {
    /// An empty node that owns `area`.
    pub fn new(area: Rectangle) -> (n: QuadTreeNode<T>)
        ensures
            n.area == area,
            n.kind is Empty,
    {
        QuadTreeNode { area, kind: QuadTreeNodeKind::Empty }
    }
}

impl<T> Subtrees<T> {
    /// Four empty children that own the quadrants of `area`.
    pub fn new(area: Rectangle) -> (s: Subtrees<T>)
        requires
            splittable(area),
        ensures
            s.outer() == area,
            s.top_left.area == top_left_of(area),
            s.top_right.area == top_right_of(area),
            s.bot_left.area == bot_left_of(area),
            s.bot_right.area == bot_right_of(area),
            s.top_left.kind is Empty,
            s.top_right.kind is Empty,
            s.bot_left.kind is Empty,
            s.bot_right.kind is Empty,
    {
        let left = area.left as i64;
        let bot = area.bot as i64;
        let mid_x = (left + (area.right as i64 - left + 1) / 2) as i32;
        let mid_y = (bot + (area.top as i64 - bot + 1) / 2) as i32;
        Subtrees {
            top_left: QuadTreeNode::new(Rectangle::new(area.left, mid_y, mid_x - 1, area.top)),
            top_right: QuadTreeNode::new(Rectangle::new(mid_x, mid_y, area.right, area.top)),
            bot_left: QuadTreeNode::new(Rectangle::new(area.left, area.bot, mid_x - 1, mid_y - 1)),
            bot_right: QuadTreeNode::new(Rectangle::new(mid_x, area.bot, area.right, mid_y - 1)),
        }
    }
}

impl<T> QuadTreeNode<T> {
    /// Inserts `data` at `pos`. An empty node becomes a leaf; an occupied leaf
    /// splits into four quadrants and both points move down into them; an
    /// interior node hands the point to the quadrant that holds it. A position
    /// outside the node's rectangle, or one already taken, is refused and the
    /// node is left as it was.
    pub fn add(&mut self, pos: Position, data: T) -> (r: Result<(), InsertError>)
        requires
            old(self).wf(),
        ensures
            final(self).wf(),
            final(self).area == old(self).area,
            r == old(self).add_result(pos),
            r is Err ==> *final(self) == *old(self),
            r is Ok ==> exists|i: int|
                0 <= i <= old(self).items().len() && final(self).items() == old(
                    self,
                ).items().insert(i, (pos, data)),
            old(self).kind is Empty && r is Ok ==> final(self).kind == QuadTreeNodeKind::Leaf(
                pos,
                data,
            ),
            old(self).kind is Leaf && r is Ok ==> final(self).kind is Interior,
            old(self).kind is Interior ==> final(self).kind is Interior,
        decreases extent(old(self).area), 1int,
    {
        if !self.area.is_inside(pos) {
            return Err(InsertError::OutOfBounds);
        }
        let ghost before = *self;
        let mut kind = QuadTreeNodeKind::Empty;
        std::mem::swap(&mut self.kind, &mut kind);
        match kind {
            QuadTreeNodeKind::Empty => {
                self.kind = QuadTreeNodeKind::Leaf(pos, data);
                assert(self.items() =~= seq![].insert(0, (pos, data)));
                Ok(())
            },
            QuadTreeNodeKind::Leaf(p0, d0) => {
                if p0 == pos {
                    self.kind = QuadTreeNodeKind::Leaf(p0, d0);
                    assert(self.items()[0].0 == pos);
                    return Err(InsertError::Occupied);
                }
                let ghost e0 = (p0, d0);
                assert(before.items() =~= seq![e0]);
                assert(!holds_at(seq![e0], pos));
                let mut subs = Subtrees::new(self.area);
                assert(subs.items() =~= seq![]);
                let first = subs.add(p0, d0);
                assert(first is Ok);
                proof {
                    let i = choose|i: int|
                        0 <= i <= 0 && subs.items() == seq![].insert(i, e0);
                    assert(subs.items() =~= seq![e0]);
                }
                let r = subs.add(pos, data);
                self.kind = QuadTreeNodeKind::Interior(Box::new(subs));
                assert(self.items() == subs.items());
                r
            },
            QuadTreeNodeKind::Interior(mut subs) => {
                let r = subs.add(pos, data);
                self.kind = QuadTreeNodeKind::Interior(subs);
                assert(self.items() == subs.items());
                r
            },
        }
    }
}

impl<T> Subtrees<T> {
    /// Hands the point to the quadrant that holds it. A coordinate below the
    /// split goes left (or down); one on it or above goes right (or up).
    pub fn add(&mut self, pos: Position, data: T) -> (r: Result<(), InsertError>)
        requires
            old(self).wf(),
            old(self).outer().holds_pos(pos),
        ensures
            final(self).wf(),
            final(self).outer() == old(self).outer(),
            pos.x < split_x(old(self).outer()) ==> final(self).top_right == old(self).top_right
                && final(self).bot_right == old(self).bot_right,
            pos.x >= split_x(old(self).outer()) ==> final(self).top_left == old(self).top_left
                && final(self).bot_left == old(self).bot_left,
            pos.y < split_y(old(self).outer()) ==> final(self).top_left == old(self).top_left
                && final(self).top_right == old(self).top_right,
            pos.y >= split_y(old(self).outer()) ==> final(self).bot_left == old(self).bot_left
                && final(self).bot_right == old(self).bot_right,
            r is Ok && pos.x < split_x(old(self).outer()) && pos.y < split_y(old(self).outer())
                && old(self).bot_left.kind is Empty ==> final(self).bot_left.kind
                == QuadTreeNodeKind::Leaf(pos, data),
            r is Ok && pos.x >= split_x(old(self).outer()) && pos.y < split_y(old(self).outer())
                && old(self).bot_right.kind is Empty ==> final(self).bot_right.kind
                == QuadTreeNodeKind::Leaf(pos, data),
            r is Ok && pos.x < split_x(old(self).outer()) && pos.y >= split_y(old(self).outer())
                && old(self).top_left.kind is Empty ==> final(self).top_left.kind
                == QuadTreeNodeKind::Leaf(pos, data),
            r is Ok && pos.x >= split_x(old(self).outer()) && pos.y >= split_y(old(self).outer())
                && old(self).top_right.kind is Empty ==> final(self).top_right.kind
                == QuadTreeNodeKind::Leaf(pos, data),
            r == (if holds_at(old(self).items(), pos) {
                Err(InsertError::Occupied)
            } else {
                Ok(())
            }),
            r is Err ==> *final(self) == *old(self),
            r is Ok ==> exists|i: int|
                0 <= i <= old(self).items().len() && final(self).items() == old(
                    self,
                ).items().insert(i, (pos, data)),
        decreases extent(old(self).outer()), 0int,
    {
        let ghost a = self.top_left.items();
        let ghost b = self.top_right.items();
        let ghost c = self.bot_left.items();
        let ghost d = self.bot_right.items();
        let ghost before = *self;
        assert(before.items() == a + b + c + d);
        proof {
            lemma_items_inside(self.top_left);
            lemma_items_inside(self.top_right);
            lemma_items_inside(self.bot_left);
            lemma_items_inside(self.bot_right);
        }
        let left = pos.x < self.top_right.area.left;
        let bot = pos.y < self.top_right.area.bot;
        if bot && left {
            let r = self.bot_left.add(pos, data);
            proof {
                lemma_route(a, b, c, d, 2, pos);
                if r is Ok {
                    let j = choose|j: int|
                        0 <= j <= c.len() && self.bot_left.items() == c.insert(j, (pos, data));
                    assert(self.items() =~= before.items().insert(a.len() + b.len() + j, (pos, data)));
                }
            }
            r
        } else if bot {
            let r = self.bot_right.add(pos, data);
            proof {
                lemma_route(a, b, c, d, 3, pos);
                if r is Ok {
                    let j = choose|j: int|
                        0 <= j <= d.len() && self.bot_right.items() == d.insert(j, (pos, data));
                    assert(self.items() =~= before.items().insert(a.len() + b.len() + c.len() + j, (pos, data)));
                }
            }
            r
        } else if left {
            let r = self.top_left.add(pos, data);
            proof {
                lemma_route(a, b, c, d, 0, pos);
                if r is Ok {
                    let j = choose|j: int|
                        0 <= j <= a.len() && self.top_left.items() == a.insert(j, (pos, data));
                    assert(self.items() =~= before.items().insert(j, (pos, data)));
                }
            }
            r
        } else {
            let r = self.top_right.add(pos, data);
            proof {
                lemma_route(a, b, c, d, 1, pos);
                if r is Ok {
                    let j = choose|j: int|
                        0 <= j <= b.len() && self.top_right.items() == b.insert(j, (pos, data));
                    assert(self.items() =~= before.items().insert(a.len() + j, (pos, data)));
                }
            }
            r
        }
    }
}

/// When the position can only be in the part at index `k` of four, it is among
/// all of them exactly when it is in that part.
proof fn lemma_route<T>(
    a: Seq<(Position, T)>,
    b: Seq<(Position, T)>,
    c: Seq<(Position, T)>,
    d: Seq<(Position, T)>,
    k: int,
    pos: Position,
)
    requires
        0 <= k < 4,
        k != 0 ==> !holds_at(a, pos),
        k != 1 ==> !holds_at(b, pos),
        k != 2 ==> !holds_at(c, pos),
        k != 3 ==> !holds_at(d, pos),
    ensures
        holds_at(a + b + c + d, pos) == holds_at(seq![a, b, c, d][k], pos),
{
    let s = a + b + c + d;
    let part = seq![a, b, c, d][k];
    let off: int = if k == 0 {
        0
    } else if k == 1 {
        a.len() as int
    } else if k == 2 {
        (a.len() + b.len()) as int
    } else {
        (a.len() + b.len() + c.len()) as int
    };
    if holds_at(s, pos) {
        let i = choose|i: int| 0 <= i < s.len() && (#[trigger] s[i]).0 == pos;
        if i < a.len() {
            assert(a[i] == s[i]);
        } else if i < a.len() + b.len() {
            assert(b[i - a.len()] == s[i]);
        } else if i < a.len() + b.len() + c.len() {
            assert(c[i - a.len() - b.len()] == s[i]);
        } else {
            assert(d[i - a.len() - b.len() - c.len()] == s[i]);
        }
    }
    if holds_at(part, pos) {
        let j = choose|j: int| 0 <= j < part.len() && (#[trigger] part[j]).0 == pos;
        assert(s[off + j] == part[j]);
    }
}

impl<T: Clone> QuadTreeNode<T> {
    /// A copy of this node and everything below it; payloads are cloned.
    pub fn copy(&self) -> (r: QuadTreeNode<T>)
        ensures
            r.area == self.area,
        decreases self,
    {
        let kind = match &self.kind {
            QuadTreeNodeKind::Empty => QuadTreeNodeKind::Empty,
            QuadTreeNodeKind::Leaf(pos, data) => QuadTreeNodeKind::Leaf(*pos, data.clone()),
            QuadTreeNodeKind::Interior(subs) => QuadTreeNodeKind::Interior(
                Box::new(
                    Subtrees {
                        top_left: subs.top_left.copy(),
                        top_right: subs.top_right.copy(),
                        bot_left: subs.bot_left.copy(),
                        bot_right: subs.bot_right.copy(),
                    },
                ),
            ),
        };
        QuadTreeNode { area: self.area, kind }
    }
}

impl<T: Clone> Clone for QuadTreeNode<T> {
    fn clone(&self) -> Self {
        self.copy()
    }
}

impl<T: Clone> Clone for Subtrees<T> {
    fn clone(&self) -> Self {
        Subtrees {
            top_left: self.top_left.copy(),
            top_right: self.top_right.copy(),
            bot_left: self.bot_left.copy(),
            bot_right: self.bot_right.copy(),
        }
    }
}

/// Every point below a well-formed node lies in the node's rectangle.
pub proof fn lemma_items_inside<T>(node: QuadTreeNode<T>)
    requires
        node.wf(),
    ensures
        forall|i: int|
            0 <= i < node.items().len() ==> node.area.holds_pos(#[trigger] node.items()[i].0),
    decreases node,
{
    match node.kind {
        QuadTreeNodeKind::Empty => {},
        QuadTreeNodeKind::Leaf(..) => {},
        QuadTreeNodeKind::Interior(s) => {
            lemma_items_inside(s.top_left);
            lemma_items_inside(s.top_right);
            lemma_items_inside(s.bot_left);
            lemma_items_inside(s.bot_right);
            let a = s.top_left.items();
            let b = s.top_right.items();
            let c = s.bot_left.items();
            let d = s.bot_right.items();
            assert forall|i: int| 0 <= i < node.items().len() implies node.area.holds_pos(
                #[trigger] node.items()[i].0,
            ) by {
                if i < a.len() {
                    assert(node.items()[i] == a[i]);
                } else if i < a.len() + b.len() {
                    assert(node.items()[i] == b[i - a.len()]);
                } else if i < a.len() + b.len() + c.len() {
                    assert(node.items()[i] == c[i - a.len() - b.len()]);
                } else {
                    assert(node.items()[i] == d[i - a.len() - b.len() - c.len()]);
                }
            }
        },
    }
}

} // verus!
