use circle_mosaic::point::Point;
use circle_mosaic::vertices::{
    first_step, heading_from_comparisons, heading_from_keys, neighbour, neighbours, Heading, Vertex,
};

fn heading(middle: Vertex, second: Vertex) -> Option<Heading> {
    Some(Heading { middle, second })
}

#[test]
fn six_consistent_comparisons_give_six_headings() {
    assert_eq!(heading_from_comparisons(true, true, true), heading(Vertex::A, Vertex::B));
    assert_eq!(heading_from_comparisons(false, true, true), heading(Vertex::A, Vertex::C));
    assert_eq!(heading_from_comparisons(true, true, false), heading(Vertex::B, Vertex::A));
    assert_eq!(heading_from_comparisons(true, false, false), heading(Vertex::B, Vertex::C));
    assert_eq!(heading_from_comparisons(false, false, true), heading(Vertex::C, Vertex::A));
    assert_eq!(heading_from_comparisons(false, false, false), heading(Vertex::C, Vertex::B));
}

#[test]
fn contradictory_comparisons_give_no_heading() {
    assert_eq!(heading_from_comparisons(true, false, true), None);
    assert_eq!(heading_from_comparisons(false, true, false), None);
}

#[test]
fn keys_in_every_order_give_the_middle_vertex() {
    // ab, ac, bc
    assert_eq!(heading_from_keys(1, 2, 3), Heading { middle: Vertex::A, second: Vertex::B });
    assert_eq!(heading_from_keys(2, 1, 3), Heading { middle: Vertex::A, second: Vertex::C });
    assert_eq!(heading_from_keys(1, 3, 2), Heading { middle: Vertex::B, second: Vertex::A });
    assert_eq!(heading_from_keys(2, 3, 1), Heading { middle: Vertex::B, second: Vertex::C });
    assert_eq!(heading_from_keys(3, 1, 2), Heading { middle: Vertex::C, second: Vertex::A });
    assert_eq!(heading_from_keys(3, 2, 1), Heading { middle: Vertex::C, second: Vertex::B });
}

#[test]
fn equal_keys_give_the_first_heading() {
    assert_eq!(heading_from_keys(4, 4, 4), Heading { middle: Vertex::A, second: Vertex::B });
    assert_eq!(heading_from_keys(0, 0, 7), Heading { middle: Vertex::A, second: Vertex::B });
    assert_eq!(heading_from_keys(5, 9, 5), Heading { middle: Vertex::B, second: Vertex::A });
}

#[test]
fn neighbours_come_in_walking_order() {
    let around = neighbours(Point { x: 5, y: -5 });
    let expected = [
        Point { x: 6, y: -4 },
        Point { x: 6, y: -5 },
        Point { x: 6, y: -6 },
        Point { x: 5, y: -4 },
        Point { x: 5, y: -6 },
        Point { x: 4, y: -4 },
        Point { x: 4, y: -5 },
        Point { x: 4, y: -6 },
    ];
    assert_eq!(around, expected);
    for k in 0..8 {
        assert_eq!(neighbour(Point { x: 5, y: -5 }, k), expected[k]);
    }
}

#[test]
fn first_step_takes_the_smallest_key() {
    let middle = Point { x: 5, y: 5 };
    let second = Point { x: 9, y: 9 };
    let keys: [u64; 8] = [8, 7, 6, 5, 1, 5, 6, 7];
    assert_eq!(first_step(middle, second, &keys), (4, Point { x: 5, y: 4 }));
}

#[test]
fn first_step_leaves_out_the_second_vertex() {
    let middle = Point { x: 5, y: 5 };
    let second = Point { x: 6, y: 6 };
    let keys: [u64; 8] = [0, 3, 2, 2, 9, 9, 9, 9];
    assert_eq!(first_step(middle, second, &keys), (2, Point { x: 6, y: 4 }));
}

#[test]
fn first_step_takes_the_earliest_of_equal_keys() {
    let middle = Point { x: 0, y: 0 };
    let second = Point { x: 3, y: 0 };
    let keys: [u64; 8] = [4, 4, 4, 4, 4, 4, 4, 4];
    assert_eq!(first_step(middle, second, &keys), (0, Point { x: 1, y: 1 }));
    let second = Point { x: 1, y: 1 };
    assert_eq!(first_step(middle, second, &keys), (1, Point { x: 1, y: 0 }));
}

#[test]
fn first_step_may_be_the_last_neighbour() {
    let middle = Point { x: 0, y: 0 };
    let second = Point { x: 1, y: 0 };
    let keys: [u64; 8] = [9, 0, 9, 9, 9, 9, 9, 8];
    assert_eq!(first_step(middle, second, &keys), (7, Point { x: -1, y: -1 }));
}
