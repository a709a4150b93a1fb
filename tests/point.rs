use csolib::cso::CSO;
use csolib::point::Point;
use csolib::random::Random;

#[test]
fn at_holds_coordinates() {
    let p = Point::at(3, 7);
    assert_eq!(p.x, 3);
    assert_eq!(p.y, 7);
}

#[test]
fn neighbours_inside() {
    let sim = CSO::new(3, 3, Random { seed: 5 });
    let p = Point::at(1, 1);
    assert_eq!(p.above(), Some(Point::at(1, 0)));
    assert_eq!(p.left(), Some(Point::at(0, 1)));
    assert_eq!(p.right_in(&sim), Some(Point::at(2, 1)));
    assert_eq!(p.below_in(&sim), Some(Point::at(1, 2)));
}

#[test]
fn neighbours_at_every_edge_and_corner() {
    let sim = CSO::new(4, 3, Random { seed: 5 });
    for y in 0..3u32 {
        for x in 0..4u32 {
            let p = Point::at(x, y);
            assert_eq!(p.above().is_none(), y == 0);
            assert_eq!(p.left().is_none(), x == 0);
            assert_eq!(p.right_in(&sim).is_none(), x == 3);
            assert_eq!(p.below_in(&sim).is_none(), y == 2);
            for q in [p.above(), p.left(), p.right_in(&sim), p.below_in(&sim)].iter().flatten() {
                assert!(q.x < 4 && q.y < 3);
            }
        }
    }
}

#[test]
fn single_cell_grid_has_no_neighbours() {
    let sim = CSO::new(1, 1, Random { seed: 5 });
    let p = Point::at(0, 0);
    assert_eq!(p.above(), None);
    assert_eq!(p.left(), None);
    assert_eq!(p.right_in(&sim), None);
    assert_eq!(p.below_in(&sim), None);
}
