use conveyor::coordinates::GridCoordinate;
use conveyor::helpers::grid_traversal::{traverse, GridTraversal};

#[test]
fn zero_traversal() {
    let mut traverser = GridTraversal::new(GridCoordinate { x: 0, y: 0 }, GridCoordinate { x: 0, y: 0 });
    assert_eq!(traverser.next(), Some(GridCoordinate { x: 0, y: 0 }));
    assert_eq!(traverser.next(), None);
}

#[test]
fn zero_extend_one_traversal() {
    let mut traverser = GridTraversal::new(GridCoordinate { x: 0, y: 0 }, GridCoordinate { x: 0, y: 0 }).extend(1);
    assert_eq!(traverser.next(), Some(GridCoordinate { x: 0, y: 0 }));
    assert_eq!(traverser.next(), Some(GridCoordinate { x: 0, y: 0 }));
    assert_eq!(traverser.next(), None);
}

#[test]
fn zero_extend_many_traversal() {
    let mut traverser = GridTraversal::new(GridCoordinate { x: 0, y: 0 }, GridCoordinate { x: 0, y: 0 }).extend(5);
    assert_eq!(traverser.next(), Some(GridCoordinate { x: 0, y: 0 }));
    assert_eq!(traverser.next(), Some(GridCoordinate { x: 0, y: 0 }));
    assert_eq!(traverser.next(), Some(GridCoordinate { x: 0, y: 0 }));
    assert_eq!(traverser.next(), Some(GridCoordinate { x: 0, y: 0 }));
    assert_eq!(traverser.next(), Some(GridCoordinate { x: 0, y: 0 }));
    assert_eq!(traverser.next(), Some(GridCoordinate { x: 0, y: 0 }));
    assert_eq!(traverser.next(), None);
}

#[test]
fn horizontal_traversal() {
    let mut traverser = GridTraversal::new(GridCoordinate { x: 0, y: 0 }, GridCoordinate { x: 5, y: 0 });
    assert_eq!(traverser.next(), Some(GridCoordinate { x: 1, y: 0 }));
    assert_eq!(traverser.next(), Some(GridCoordinate { x: 2, y: 0 }));
    assert_eq!(traverser.next(), Some(GridCoordinate { x: 3, y: 0 }));
    assert_eq!(traverser.next(), Some(GridCoordinate { x: 4, y: 0 }));
    assert_eq!(traverser.next(), Some(GridCoordinate { x: 5, y: 0 }));
    assert_eq!(traverser.next(), None);
}

#[test]
fn vertical_traversal() {
    let mut traverser = GridTraversal::new(GridCoordinate { x: 0, y: 0 }, GridCoordinate { x: 0, y: 5 });
    assert_eq!(traverser.next(), Some(GridCoordinate { x: 0, y: 1 }));
    assert_eq!(traverser.next(), Some(GridCoordinate { x: 0, y: 2 }));
    assert_eq!(traverser.next(), Some(GridCoordinate { x: 0, y: 3 }));
    assert_eq!(traverser.next(), Some(GridCoordinate { x: 0, y: 4 }));
    assert_eq!(traverser.next(), Some(GridCoordinate { x: 0, y: 5 }));
    assert_eq!(traverser.next(), None);
}

#[test]
fn diagonal_traversal() {
    let mut traverser = GridTraversal::new(GridCoordinate { x: 0, y: 0 }, GridCoordinate { x: 5, y: 5 });
    assert_eq!(traverser.next(), Some(GridCoordinate { x: 1, y: 0 }));
    assert_eq!(traverser.next(), Some(GridCoordinate { x: 1, y: 1 }));
    assert_eq!(traverser.next(), Some(GridCoordinate { x: 2, y: 1 }));
    assert_eq!(traverser.next(), Some(GridCoordinate { x: 2, y: 2 }));
    assert_eq!(traverser.next(), Some(GridCoordinate { x: 3, y: 2 }));
    assert_eq!(traverser.next(), Some(GridCoordinate { x: 3, y: 3 }));
    assert_eq!(traverser.next(), Some(GridCoordinate { x: 4, y: 3 }));
    assert_eq!(traverser.next(), Some(GridCoordinate { x: 4, y: 4 }));
    assert_eq!(traverser.next(), Some(GridCoordinate { x: 5, y: 4 }));
    assert_eq!(traverser.next(), Some(GridCoordinate { x: 5, y: 5 }));
    assert_eq!(traverser.next(), None);
}

#[test]
fn horizontal_traversal_reverse() {
    let mut traverser = GridTraversal::new(GridCoordinate { x: 5, y: 0 }, GridCoordinate { x: 0, y: 0 });
    assert_eq!(traverser.next(), Some(GridCoordinate { x: 4, y: 0 }));
    assert_eq!(traverser.next(), Some(GridCoordinate { x: 3, y: 0 }));
    assert_eq!(traverser.next(), Some(GridCoordinate { x: 2, y: 0 }));
    assert_eq!(traverser.next(), Some(GridCoordinate { x: 1, y: 0 }));
    assert_eq!(traverser.next(), Some(GridCoordinate { x: 0, y: 0 }));
    assert_eq!(traverser.next(), None);
}

#[test]
fn vertical_traversal_reverse() {
    let mut traverser = GridTraversal::new(GridCoordinate { x: 0, y: 5 }, GridCoordinate { x: 0, y: 0 });
    assert_eq!(traverser.next(), Some(GridCoordinate { x: 0, y: 4 }));
    assert_eq!(traverser.next(), Some(GridCoordinate { x: 0, y: 3 }));
    assert_eq!(traverser.next(), Some(GridCoordinate { x: 0, y: 2 }));
    assert_eq!(traverser.next(), Some(GridCoordinate { x: 0, y: 1 }));
    assert_eq!(traverser.next(), Some(GridCoordinate { x: 0, y: 0 }));
    assert_eq!(traverser.next(), None);
}

#[test]
fn diagonal_traversal_reverse() {
    let mut traverser = GridTraversal::new(GridCoordinate { x: 5, y: 5 }, GridCoordinate { x: 0, y: 0 });
    assert_eq!(traverser.next(), Some(GridCoordinate { x: 4, y: 5 }));
    assert_eq!(traverser.next(), Some(GridCoordinate { x: 4, y: 4 }));
    assert_eq!(traverser.next(), Some(GridCoordinate { x: 3, y: 4 }));
    assert_eq!(traverser.next(), Some(GridCoordinate { x: 3, y: 3 }));
    assert_eq!(traverser.next(), Some(GridCoordinate { x: 2, y: 3 }));
    assert_eq!(traverser.next(), Some(GridCoordinate { x: 2, y: 2 }));
    assert_eq!(traverser.next(), Some(GridCoordinate { x: 1, y: 2 }));
    assert_eq!(traverser.next(), Some(GridCoordinate { x: 1, y: 1 }));
    assert_eq!(traverser.next(), Some(GridCoordinate { x: 0, y: 1 }));
    assert_eq!(traverser.next(), Some(GridCoordinate { x: 0, y: 0 }));
    assert_eq!(traverser.next(), None);
}

#[test]
fn horizontal_traversal_negative() {
    let mut traverser = GridTraversal::new(GridCoordinate { x: 0, y: 0 }, GridCoordinate { x: -5, y: 0 });
    assert_eq!(traverser.next(), Some(GridCoordinate { x: -1, y: 0 }));
    assert_eq!(traverser.next(), Some(GridCoordinate { x: -2, y: 0 }));
    assert_eq!(traverser.next(), Some(GridCoordinate { x: -3, y: 0 }));
    assert_eq!(traverser.next(), Some(GridCoordinate { x: -4, y: 0 }));
    assert_eq!(traverser.next(), Some(GridCoordinate { x: -5, y: 0 }));
    assert_eq!(traverser.next(), None);
}

#[test]
fn vertical_traversal_negative() {
    let mut traverser = GridTraversal::new(GridCoordinate { x: 0, y: 0 }, GridCoordinate { x: 0, y: -5 });
    assert_eq!(traverser.next(), Some(GridCoordinate { x: 0, y: -1 }));
    assert_eq!(traverser.next(), Some(GridCoordinate { x: 0, y: -2 }));
    assert_eq!(traverser.next(), Some(GridCoordinate { x: 0, y: -3 }));
    assert_eq!(traverser.next(), Some(GridCoordinate { x: 0, y: -4 }));
    assert_eq!(traverser.next(), Some(GridCoordinate { x: 0, y: -5 }));
    assert_eq!(traverser.next(), None);
}

#[test]
fn diagonal_traversal_negative() {
    let mut traverser = GridTraversal::new(GridCoordinate { x: 0, y: 0 }, GridCoordinate { x: -5, y: -5 });
    assert_eq!(traverser.next(), Some(GridCoordinate { x: -1, y: 0 }));
    assert_eq!(traverser.next(), Some(GridCoordinate { x: -1, y: -1 }));
    assert_eq!(traverser.next(), Some(GridCoordinate { x: -2, y: -1 }));
    assert_eq!(traverser.next(), Some(GridCoordinate { x: -2, y: -2 }));
    assert_eq!(traverser.next(), Some(GridCoordinate { x: -3, y: -2 }));
    assert_eq!(traverser.next(), Some(GridCoordinate { x: -3, y: -3 }));
    assert_eq!(traverser.next(), Some(GridCoordinate { x: -4, y: -3 }));
    assert_eq!(traverser.next(), Some(GridCoordinate { x: -4, y: -4 }));
    assert_eq!(traverser.next(), Some(GridCoordinate { x: -5, y: -4 }));
    assert_eq!(traverser.next(), Some(GridCoordinate { x: -5, y: -5 }));
    assert_eq!(traverser.next(), None);
}

#[test]
fn horizontal_extend_one_traversal() {
    let mut traverser = GridTraversal::new(GridCoordinate { x: 0, y: 0 }, GridCoordinate { x: 5, y: 0 }).extend(1);
    assert_eq!(traverser.next(), Some(GridCoordinate { x: 1, y: 0 }));
    assert_eq!(traverser.next(), Some(GridCoordinate { x: 2, y: 0 }));
    assert_eq!(traverser.next(), Some(GridCoordinate { x: 3, y: 0 }));
    assert_eq!(traverser.next(), Some(GridCoordinate { x: 4, y: 0 }));
    assert_eq!(traverser.next(), Some(GridCoordinate { x: 5, y: 0 }));
    assert_eq!(traverser.next(), Some(GridCoordinate { x: 5, y: 0 }));
    assert_eq!(traverser.next(), None);
}

#[test]
fn vertical_extend_one_traversal() {
    let mut traverser = GridTraversal::new(GridCoordinate { x: 0, y: 0 }, GridCoordinate { x: 0, y: 5 }).extend(1);
    assert_eq!(traverser.next(), Some(GridCoordinate { x: 0, y: 1 }));
    assert_eq!(traverser.next(), Some(GridCoordinate { x: 0, y: 2 }));
    assert_eq!(traverser.next(), Some(GridCoordinate { x: 0, y: 3 }));
    assert_eq!(traverser.next(), Some(GridCoordinate { x: 0, y: 4 }));
    assert_eq!(traverser.next(), Some(GridCoordinate { x: 0, y: 5 }));
    assert_eq!(traverser.next(), Some(GridCoordinate { x: 0, y: 5 }));
    assert_eq!(traverser.next(), None);
}

#[test]
fn diagonal_extend_one_traversal() {
    let mut traverser = GridTraversal::new(GridCoordinate { x: 0, y: 0 }, GridCoordinate { x: 5, y: 5 }).extend(1);
    assert_eq!(traverser.next(), Some(GridCoordinate { x: 1, y: 0 }));
    assert_eq!(traverser.next(), Some(GridCoordinate { x: 1, y: 1 }));
    assert_eq!(traverser.next(), Some(GridCoordinate { x: 2, y: 1 }));
    assert_eq!(traverser.next(), Some(GridCoordinate { x: 2, y: 2 }));
    assert_eq!(traverser.next(), Some(GridCoordinate { x: 3, y: 2 }));
    assert_eq!(traverser.next(), Some(GridCoordinate { x: 3, y: 3 }));
    assert_eq!(traverser.next(), Some(GridCoordinate { x: 4, y: 3 }));
    assert_eq!(traverser.next(), Some(GridCoordinate { x: 4, y: 4 }));
    assert_eq!(traverser.next(), Some(GridCoordinate { x: 5, y: 4 }));
    assert_eq!(traverser.next(), Some(GridCoordinate { x: 5, y: 5 }));
    assert_eq!(traverser.next(), Some(GridCoordinate { x: 5, y: 5 }));
    assert_eq!(traverser.next(), None);
}

#[test]
fn horizontal_extend_many_traversal() {
    let mut traverser = GridTraversal::new(GridCoordinate { x: 0, y: 0 }, GridCoordinate { x: 1, y: 0 }).extend(5);
    assert_eq!(traverser.next(), Some(GridCoordinate { x: 1, y: 0 }));
    assert_eq!(traverser.next(), Some(GridCoordinate { x: 1, y: 0 }));
    assert_eq!(traverser.next(), Some(GridCoordinate { x: 1, y: 0 }));
    assert_eq!(traverser.next(), Some(GridCoordinate { x: 1, y: 0 }));
    assert_eq!(traverser.next(), Some(GridCoordinate { x: 1, y: 0 }));
    assert_eq!(traverser.next(), Some(GridCoordinate { x: 1, y: 0 }));
    assert_eq!(traverser.next(), None);
}

#[test]
fn vertical_extend_many_traversal() {
    let mut traverser = GridTraversal::new(GridCoordinate { x: 0, y: 0 }, GridCoordinate { x: 0, y: 1 }).extend(5);
    assert_eq!(traverser.next(), Some(GridCoordinate { x: 0, y: 1 }));
    assert_eq!(traverser.next(), Some(GridCoordinate { x: 0, y: 1 }));
    assert_eq!(traverser.next(), Some(GridCoordinate { x: 0, y: 1 }));
    assert_eq!(traverser.next(), Some(GridCoordinate { x: 0, y: 1 }));
    assert_eq!(traverser.next(), Some(GridCoordinate { x: 0, y: 1 }));
    assert_eq!(traverser.next(), Some(GridCoordinate { x: 0, y: 1 }));
    assert_eq!(traverser.next(), None);
}

#[test]
fn diagonal_extend_many_traversal() {
    let mut traverser = GridTraversal::new(GridCoordinate { x: 0, y: 0 }, GridCoordinate { x: 1, y: 1 }).extend(9);
    assert_eq!(traverser.next(), Some(GridCoordinate { x: 1, y: 0 }));
    assert_eq!(traverser.next(), Some(GridCoordinate { x: 1, y: 1 }));
    assert_eq!(traverser.next(), Some(GridCoordinate { x: 1, y: 1 }));
    assert_eq!(traverser.next(), Some(GridCoordinate { x: 1, y: 1 }));
    assert_eq!(traverser.next(), Some(GridCoordinate { x: 1, y: 1 }));
    assert_eq!(traverser.next(), Some(GridCoordinate { x: 1, y: 1 }));
    assert_eq!(traverser.next(), Some(GridCoordinate { x: 1, y: 1 }));
    assert_eq!(traverser.next(), Some(GridCoordinate { x: 1, y: 1 }));
    assert_eq!(traverser.next(), Some(GridCoordinate { x: 1, y: 1 }));
    assert_eq!(traverser.next(), Some(GridCoordinate { x: 1, y: 1 }));
    assert_eq!(traverser.next(), Some(GridCoordinate { x: 1, y: 1 }));
    assert_eq!(traverser.next(), None);
}

fn at(x: i32, y: i32) -> GridCoordinate {
    GridCoordinate { x, y }
}

fn collect(mut traverser: GridTraversal) -> Vec<GridCoordinate> {
    let mut cells = Vec::new();
    while let Some(cell) = traverser.next() {
        cells.push(cell);
    }
    cells
}

#[test]
fn traverse_of_one_cell_is_that_cell() {
    assert_eq!(traverse(at(3, -2), at(3, -2)), vec![at(3, -2)]);
    assert_eq!(collect(GridTraversal::new(at(3, -2), at(3, -2))), vec![at(3, -2)]);
}

#[test]
fn traverse_leaves_out_the_start_and_reaches_the_end() {
    assert_eq!(traverse(at(0, 0), at(3, 0)), vec![at(1, 0), at(2, 0), at(3, 0)]);
    assert_eq!(traverse(at(1, 1), at(1, 6)), vec![at(1, 2), at(1, 3), at(1, 4), at(1, 5), at(1, 6)]);
    assert_eq!(traverse(at(2, 0), at(-1, 0)), vec![at(1, 0), at(0, 0), at(-1, 0)]);
}

#[test]
fn traverse_is_the_walk() {
    for (start, end) in [(at(0, 0), at(7, 3)), (at(4, -4), at(-3, 9)), (at(2, 2), at(2, 2)), (at(1, 5), at(0, 0))] {
        assert_eq!(traverse(start, end), collect(GridTraversal::new(start, end)));
    }
}

#[test]
fn traverse_along_an_axis_mirrors_the_way_back() {
    let mut forth = vec![at(-2, 4)];
    forth.extend(traverse(at(-2, 4), at(-2, -1)));
    let mut back = vec![at(-2, -1)];
    back.extend(traverse(at(-2, -1), at(-2, 4)));
    back.reverse();
    assert_eq!(forth, back);
}

#[test]
fn traverse_of_a_diagonal_is_not_the_way_back_in_reverse() {
    let mut forth = vec![at(0, 0)];
    forth.extend(traverse(at(0, 0), at(5, 5)));
    let mut back = vec![at(5, 5)];
    back.extend(traverse(at(5, 5), at(0, 0)));
    back.reverse();
    assert_eq!(forth.len(), back.len());
    assert_eq!(forth[1], at(1, 0));
    assert_eq!(back[1], at(0, 1));
}

#[test]
fn a_tie_steps_along_x() {
    assert_eq!(traverse(at(0, 0), at(1, 1)), vec![at(1, 0), at(1, 1)]);
    assert_eq!(traverse(at(0, 0), at(-1, 1)), vec![at(-1, 0), at(-1, 1)]);
    assert_eq!(traverse(at(0, 0), at(2, -2)), vec![at(1, 0), at(1, -1), at(2, -1), at(2, -2)]);
}

#[test]
fn traverse_takes_one_unit_step_at_a_time() {
    for (start, end) in [
        (at(0, 0), at(7, 3)),
        (at(4, -4), at(-3, 9)),
        (at(-5, -5), at(-6, 8)),
        (at(2, 2), at(9, 2)),
        (at(1, 5), at(0, 0)),
    ] {
        let cells = traverse(start, end);
        let steps = (end.x - start.x).abs() + (end.y - start.y).abs();
        assert_eq!(cells.len() as i32, steps);
        let mut previous = start;
        for cell in cells {
            assert_eq!((cell.x - previous.x).abs() + (cell.y - previous.y).abs(), 1);
            previous = cell;
        }
    }
}

#[test]
fn steep_line() {
    assert_eq!(collect(GridTraversal::new(at(0, 0), at(1, 5))), vec![at(1, 0), at(1, 1), at(2, 1), at(2, 2), at(2, 3), at(2, 4)]);
}

#[test]
fn line_across_both_signs() {
    assert_eq!(collect(GridTraversal::new(at(0, 0), at(3, -2)).extend(2)), vec![at(1, 0), at(1, -1), at(2, -1), at(3, -1), at(3, -2), at(3, -2), at(3, -2)]);
}

#[test]
fn extension_repeats_the_last_cell() {
    assert_eq!(
        collect(GridTraversal::new(at(0, 0), at(0, -2)).extend(3)),
        vec![at(0, -1), at(0, -2), at(0, -2), at(0, -2), at(0, -2)]
    );
    let mut walk = GridTraversal::new(at(4, 4), at(6, 4));
    assert_eq!(walk.next(), Some(at(5, 4)));
    let walk = walk.extend(1).extend(1);
    assert_eq!(collect(walk), vec![at(6, 4), at(6, 4), at(6, 4)]);
    let mut done = GridTraversal::new(at(0, 0), at(1, 0));
    assert_eq!(done.next(), Some(at(1, 0)));
    assert_eq!(done.next(), None);
    assert_eq!(collect(done.extend(2)), vec![at(1, 0), at(1, 0)]);
}

#[test]
fn fits_asks_for_room_in_the_direction_of_the_line() {
    assert!(GridTraversal::fits(at(i32::MAX, 0), at(i32::MAX - 3, 0)));
    assert!(GridTraversal::fits(at(0, i32::MIN), at(0, i32::MAX)));
    assert!(GridTraversal::fits(at(0, 0), at(1000, -1000)));
    assert!(GridTraversal::fits(at(i32::MIN + 1, 0), at(i32::MIN + 3, 1)));
    assert!(GridTraversal::fits(at(i32::MIN, i32::MAX), at(i32::MIN + 9, i32::MAX - 9)));
    assert!(!GridTraversal::fits(at(i32::MAX - 1, 0), at(i32::MAX, 5)));
    assert!(!GridTraversal::fits(at(0, i32::MIN + 2), at(-4, i32::MIN)));
}

#[test]
fn walk_at_the_edge_of_the_grid() {
    assert_eq!(
        traverse(at(i32::MAX - 2, 7), at(i32::MAX, 7)),
        vec![at(i32::MAX - 1, 7), at(i32::MAX, 7)]
    );
    assert_eq!(
        traverse(at(i32::MIN + 1, 0), at(i32::MIN + 3, 1)),
        vec![at(i32::MIN + 1, 1), at(i32::MIN + 2, 1), at(i32::MIN + 2, 2)]
    );
}

#[test]
fn steps_left_and_current_follow_the_walk() {
    let mut walk = GridTraversal::new(at(0, 0), at(0, -2));
    assert_eq!(walk.steps_left_now(), 2);
    assert_eq!(walk.current(), at(0, 0));
    walk.next();
    assert_eq!(walk.steps_left_now(), 1);
    assert_eq!(walk.current(), at(0, -1));
    walk.next();
    assert_eq!(walk.steps_left_now(), 0);
    assert_eq!(walk.next(), None);
    assert_eq!(walk.current(), at(0, -2));
    assert_eq!(walk.extend(4).steps_left_now(), 4);
    assert_eq!(GridTraversal::new(at(3, 3), at(3, 3)).steps_left_now(), 1);
}
