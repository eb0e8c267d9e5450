use quad_tree::{InsertError, LeafCounter, Position, QuadTree, RangeQuery, Rectangle, Visitor};

/// Records every call of a walk: the rectangle, and the point with its payload
/// at a leaf. It descends where its query rectangle meets the node.
struct Recorder {
    query: Rectangle,
    leaves: Vec<(Rectangle, Position, usize)>,
    interiors: Vec<Rectangle>,
    calls: Vec<(Rectangle, Option<(Position, usize)>)>,
}

impl Recorder {
    fn new(query: Rectangle) -> Recorder {
        Recorder { query, leaves: Vec::new(), interiors: Vec::new(), calls: Vec::new() }
    }
}

impl Visitor<usize> for Recorder {
    type State = ();

    fn visit(&mut self, area: &Rectangle, contents: Option<(Position, &usize)>) -> bool {
        self.calls.push((*area, contents.map(|(pos, id)| (pos, *id))));
        match contents {
            Some((pos, id)) => {
                self.leaves.push((*area, pos, *id));
                true
            }
            None => {
                self.interiors.push(*area);
                area.intersects(&self.query)
            }
        }
    }
}

fn everything() -> Rectangle {
    Rectangle::new(-10, -10, 10, 10)
}

fn count<T>(tree: &QuadTree<T>) -> usize {
    let mut counter = LeafCounter::new();
    tree.visit(&mut counter);
    counter.count
}

fn scenario_tree() -> QuadTree<usize> {
    let mut tree = QuadTree::new(everything());
    let points = [(1, -1), (1, 1), (-1, 1), (-1, -1)];
    for (id, (x, y)) in points.iter().enumerate() {
        assert_eq!(tree.add(Position::new(*x, *y), id), Ok(()));
    }
    tree
}

#[test]
fn intersects_closed_rectangles() {
    let a = Rectangle::new(0, 0, 2, 2);
    assert!(a.intersects(&Rectangle::new(1, 1, 3, 3)));
    assert!(a.intersects(&Rectangle::new(2, 2, 4, 4)));
    assert!(a.intersects(&Rectangle::new(-5, -5, 5, 5)));
    assert!(!a.intersects(&Rectangle::new(3, 0, 4, 2)));
    assert!(!a.intersects(&Rectangle::new(0, -3, 2, -1)));
}

#[test]
fn intersects_loosened_grows_other() {
    let a = Rectangle::new(0, 0, 2, 2);
    let b = Rectangle::new(5, 0, 6, 2);
    assert!(!a.intersects_loosened(&b, 2));
    assert!(a.intersects_loosened(&b, 3));
    assert!(a.intersects_loosened(&Rectangle::new(2, 0, 4, 2), 0));
    assert!(!a.intersects_loosened(&Rectangle::new(2, 0, 4, 2), -1));
    assert!(a.intersects_loosened(&Rectangle::new(i32::MAX, i32::MAX, i32::MAX, i32::MAX), i32::MAX));
}

#[test]
fn is_inside_closed_bounds() {
    let a = Rectangle::new(-2, -2, 0, 0);
    assert!(a.is_inside(Position::new(-1, -1)));
    assert!(a.is_inside(Position::new(0, -2)));
    assert!(!a.is_inside(Position::new(1, -1)));
    assert!(!a.is_inside(Position::new(-1, 1)));
}

#[test]
fn contains_subrectangle() {
    let a = Rectangle::new(0, 0, 10, 10);
    assert!(a.contains(Rectangle::new(0, 0, 10, 10)));
    assert!(a.contains(Rectangle::new(2, 3, 4, 5)));
    assert!(!a.contains(Rectangle::new(-1, 3, 4, 5)));
    assert!(!a.contains(Rectangle::new(2, 3, 4, 11)));
}

#[test]
fn area_is_construction_rectangle() {
    let tree: QuadTree<u8> = QuadTree::new(Rectangle::new(-3, 4, 7, 9));
    assert_eq!(tree.area(), Rectangle::new(-3, 4, 7, 9));
}

#[test]
fn query_reports_only_lower_left_point() {
    let tree = scenario_tree();
    let query = Rectangle::new(-2, -2, 0, 0);
    let mut rec = Recorder::new(query);
    tree.visit(&mut rec);
    let matched: Vec<usize> = rec
        .leaves
        .iter()
        .filter(|(_, pos, _)| query.is_inside(*pos))
        .map(|(_, _, id)| *id)
        .collect();
    assert_eq!(matched, vec![3]);
    let mut range = RangeQuery::new(query);
    tree.visit(&mut range);
    assert_eq!(range.hits, vec![Position::new(-1, -1)]);
}

#[test]
fn scenario_visits_in_quadrant_order() {
    let tree = scenario_tree();
    let mut rec = Recorder::new(everything());
    tree.visit(&mut rec);
    let ids: Vec<usize> = rec.leaves.iter().map(|(_, _, id)| *id).collect();
    assert_eq!(ids, vec![2, 1, 3, 0]);
    assert_eq!(rec.interiors, vec![everything()]);
    assert_eq!(rec.leaves[0].0, Rectangle::new(-10, 0, -1, 10));
    assert_eq!(rec.leaves[1].0, Rectangle::new(0, 0, 10, 10));
    assert_eq!(rec.leaves[2].0, Rectangle::new(-10, -10, -1, -1));
    assert_eq!(rec.leaves[3].0, Rectangle::new(0, -10, 10, -1));
}

#[test]
fn empty_tree_makes_no_calls() {
    let tree: QuadTree<usize> = QuadTree::new(everything());
    let mut rec = Recorder::new(everything());
    tree.visit(&mut rec);
    assert!(rec.leaves.is_empty());
    assert!(rec.interiors.is_empty());
    assert_eq!(count(&tree), 0);
}

#[test]
fn count_equals_insertions() {
    let mut tree = QuadTree::new(Rectangle::new(0, 0, 1000, 1000));
    let mut n = 0;
    for i in 0..25 {
        let pos = Position::new((i * 37) % 1000, (i * 91) % 1000);
        assert_eq!(tree.add(pos, i), Ok(()));
        n += 1;
        assert_eq!(count(&tree), n);
    }
    assert_eq!(count(&tree), 25);
}

#[test]
fn pruned_query_finds_exactly_points_inside() {
    let mut tree = QuadTree::new(Rectangle::new(-50, -50, 50, 50));
    let mut points = Vec::new();
    for i in 0..60 {
        let pos = Position::new((i * 17) % 101 - 50, (i * 29) % 101 - 50);
        assert_eq!(tree.add(pos, i as usize), Ok(()));
        points.push(pos);
    }
    let query = Rectangle::new(-20, -5, 15, 30);
    let mut range = RangeQuery::new(query);
    tree.visit(&mut range);
    let mut found = range.hits.clone();
    let mut expected: Vec<Position> = points.into_iter().filter(|p| query.is_inside(*p)).collect();
    found.sort_by_key(|p| (p.x, p.y));
    expected.sort_by_key(|p| (p.x, p.y));
    assert!(!expected.is_empty());
    assert_eq!(found, expected);
}

#[test]
fn pruning_skips_subtrees_away_from_query() {
    let tree = scenario_tree();
    let mut rec = Recorder::new(Rectangle::new(20, 20, 30, 30));
    tree.visit(&mut rec);
    assert!(rec.leaves.is_empty());
    assert_eq!(rec.interiors, vec![everything()]);
}

#[test]
fn midline_point_goes_right_and_top() {
    let mut tree = QuadTree::new(everything());
    assert_eq!(tree.add(Position::new(-5, -5), 0), Ok(()));
    assert_eq!(tree.add(Position::new(0, 0), 1), Ok(()));
    let mut rec = Recorder::new(everything());
    tree.visit(&mut rec);
    assert_eq!(rec.leaves.len(), 2);
    assert_eq!(rec.leaves[0], (Rectangle::new(0, 0, 10, 10), Position::new(0, 0), 1));
    assert_eq!(rec.leaves[1], (Rectangle::new(-10, -10, -1, -1), Position::new(-5, -5), 0));
}

#[test]
fn odd_width_split_rounds_up() {
    let mut tree = QuadTree::new(Rectangle::new(0, 0, 1, 1));
    assert_eq!(tree.add(Position::new(1, 1), 0), Ok(()));
    assert_eq!(tree.add(Position::new(0, 0), 1), Ok(()));
    let mut rec = Recorder::new(Rectangle::new(0, 0, 1, 1));
    tree.visit(&mut rec);
    assert_eq!(rec.leaves[0], (Rectangle::new(1, 1, 1, 1), Position::new(1, 1), 0));
    assert_eq!(rec.leaves[1], (Rectangle::new(0, 0, 0, 0), Position::new(0, 0), 1));
}

#[test]
fn repeated_position_is_refused() {
    let mut tree = scenario_tree();
    assert_eq!(tree.add(Position::new(1, 1), 9), Err(InsertError::Occupied));
    assert_eq!(tree.add(Position::new(1, 1), 9), Err(InsertError::Occupied));
    assert_eq!(count(&tree), 4);
    let mut rec = Recorder::new(everything());
    tree.visit(&mut rec);
    assert!(rec.leaves.iter().all(|(_, _, id)| *id != 9));
}

#[test]
fn out_of_bounds_is_refused_and_tree_kept() {
    let mut tree = scenario_tree();
    let mut before = Recorder::new(everything());
    tree.visit(&mut before);
    assert_eq!(tree.add(Position::new(11, 0), 7), Err(InsertError::OutOfBounds));
    assert_eq!(tree.add(Position::new(0, -11), 7), Err(InsertError::OutOfBounds));
    let mut after = Recorder::new(everything());
    tree.visit(&mut after);
    assert_eq!(before.leaves, after.leaves);
    assert_eq!(before.interiors, after.interiors);
}

#[test]
fn close_points_split_deeply_and_stay_in_their_leaves() {
    let mut tree = QuadTree::new(Rectangle::new(0, 0, 1023, 1023));
    let points = [(512, 512), (513, 512), (512, 513), (1023, 0), (0, 1023), (511, 511)];
    for (id, (x, y)) in points.iter().enumerate() {
        assert_eq!(tree.add(Position::new(*x, *y), id), Ok(()));
    }
    let mut rec = Recorder::new(Rectangle::new(0, 0, 1023, 1023));
    tree.visit(&mut rec);
    assert_eq!(rec.leaves.len(), points.len());
    for (area, pos, _) in &rec.leaves {
        assert!(area.is_inside(*pos));
    }
    assert_eq!(count(&tree), points.len());
}

#[test]
fn single_point_rectangle_holds_one_point() {
    let mut tree = QuadTree::new(Rectangle::new(3, 3, 3, 3));
    assert_eq!(tree.add(Position::new(3, 3), 'a'), Ok(()));
    assert_eq!(tree.add(Position::new(3, 3), 'b'), Err(InsertError::Occupied));
    assert_eq!(tree.add(Position::new(3, 4), 'c'), Err(InsertError::OutOfBounds));
    assert_eq!(count(&tree), 1);
}

#[test]
fn extreme_coordinates() {
    let big = Rectangle::new(i32::MIN + 1, i32::MIN + 1, i32::MAX, i32::MAX);
    let mut tree = QuadTree::new(big);
    let corners = [
        (i32::MIN + 1, i32::MIN + 1),
        (i32::MAX, i32::MAX),
        (i32::MAX, i32::MIN + 1),
        (i32::MIN + 1, i32::MAX),
        (0, 0),
        (-1, -1),
    ];
    for (id, (x, y)) in corners.iter().enumerate() {
        assert_eq!(tree.add(Position::new(*x, *y), id), Ok(()));
    }
    assert_eq!(count(&tree), corners.len());
    let mut range = RangeQuery::new(Rectangle::new(-1, -1, 0, 0));
    tree.visit(&mut range);
    assert_eq!(range.hits.len(), 2);
}

fn rect(l: i32, b: i32, r: i32, t: i32) -> Rectangle {
    Rectangle::new(l, b, r, t)
}

fn pos(x: i32, y: i32) -> Position {
    Position::new(x, y)
}

fn build(points: &[(i32, i32)]) -> QuadTree<usize> {
    let mut tree = QuadTree::new(everything());
    for (id, (x, y)) in points.iter().enumerate() {
        assert_eq!(tree.add(pos(*x, *y), id), Ok(()));
    }
    tree
}

fn calls_of(tree: &QuadTree<usize>, query: Rectangle) -> Vec<(Rectangle, Option<(Position, usize)>)> {
    let mut rec = Recorder::new(query);
    tree.visit(&mut rec);
    rec.calls
}

#[test]
fn five_points_visit_order() {
    let tree = build(&[(-10, -10), (10, 10), (0, 0), (-5, 5), (5, -5)]);
    let calls = calls_of(&tree, everything());
    assert_eq!(
        calls,
        vec![
            (everything(), None),
            (rect(-10, 0, -1, 10), Some((pos(-5, 5), 3))),
            (rect(0, 0, 10, 10), None),
            (rect(5, 5, 10, 10), Some((pos(10, 10), 1))),
            (rect(0, 0, 4, 4), Some((pos(0, 0), 2))),
            (rect(-10, -10, -1, -1), Some((pos(-10, -10), 0))),
            (rect(0, -10, 10, -1), Some((pos(5, -5), 4))),
        ]
    );
}

#[test]
fn pruned_query_makes_three_calls() {
    let tree = build(&[(-5, -5), (2, 2), (8, 8)]);
    let calls = calls_of(&tree, rect(-8, -8, -2, -2));
    assert_eq!(
        calls,
        vec![
            (everything(), None),
            (rect(0, 0, 10, 10), None),
            (rect(-10, -10, -1, -1), Some((pos(-5, -5), 0))),
        ]
    );
}

#[test]
fn split_line_points_go_top_right_at_each_level() {
    let tree = build(&[(5, 5), (0, 0)]);
    let calls = calls_of(&tree, everything());
    assert_eq!(
        calls,
        vec![
            (everything(), None),
            (rect(0, 0, 10, 10), None),
            (rect(5, 5, 10, 10), Some((pos(5, 5), 0))),
            (rect(0, 0, 4, 4), Some((pos(0, 0), 1))),
        ]
    );
}

#[test]
fn one_point_tree_is_one_leaf_call() {
    let tree = build(&[(10, 10)]);
    assert_eq!(calls_of(&tree, everything()), vec![(everything(), Some((pos(10, 10), 0)))]);
}

#[test]
fn scenario_query_makes_five_calls() {
    let tree = scenario_tree();
    assert_eq!(calls_of(&tree, rect(-2, -2, 0, 0)).len(), 5);
}

#[test]
fn insertion_order_does_not_change_shape() {
    let mut a = QuadTree::new(everything());
    let mut b = QuadTree::new(everything());
    let points = [(3, 3), (-7, 2), (4, 4), (9, -9), (0, 0)];
    for (id, (x, y)) in points.iter().enumerate() {
        assert_eq!(a.add(pos(*x, *y), id), Ok(()));
    }
    for (id, (x, y)) in points.iter().enumerate().rev() {
        assert_eq!(b.add(pos(*x, *y), id), Ok(()));
    }
    assert_eq!(calls_of(&a, everything()), calls_of(&b, everything()));
}

#[test]
fn clone_gives_same_walk() {
    let tree = build(&[(-10, -10), (10, 10), (0, 0)]);
    let copy = tree.clone();
    assert_eq!(calls_of(&tree, everything()), calls_of(&copy, everything()));
}
