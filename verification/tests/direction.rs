use conveyor::coordinates::GridCoordinate;
use conveyor::input::chained_tile::ChainedTilePlaceDirection;
use conveyor::tile::background::background_texture_index;
use conveyor::tile::ConveyorDirection;

const ALL: [ConveyorDirection; 4] = [
    ConveyorDirection::North,
    ConveyorDirection::East,
    ConveyorDirection::South,
    ConveyorDirection::West,
];

fn at(x: i32, y: i32) -> GridCoordinate {
    GridCoordinate { x, y }
}

#[test]
fn opposite_twice_is_the_same_direction() {
    for d in ALL {
        assert_eq!(d.opposite().opposite(), d);
        assert_ne!(d.opposite(), d);
    }
    assert_eq!(ConveyorDirection::North.opposite(), ConveyorDirection::South);
    assert_eq!(ConveyorDirection::East.opposite(), ConveyorDirection::West);
}

#[test]
fn four_quarter_turns_are_a_full_turn() {
    for d in ALL {
        assert_eq!(d.rotate_clockwise().rotate_clockwise().rotate_clockwise().rotate_clockwise(), d);
        assert_eq!(
            d.rotate_counterclockwise()
                .rotate_counterclockwise()
                .rotate_counterclockwise()
                .rotate_counterclockwise(),
            d
        );
        assert_eq!(d.rotate_clockwise().rotate_counterclockwise(), d);
        assert_eq!(d.rotate_counterclockwise().rotate_clockwise(), d);
        assert_eq!(d.rotate_clockwise().rotate_clockwise(), d.opposite());
    }
    assert_eq!(ConveyorDirection::North.rotate_clockwise(), ConveyorDirection::East);
    assert_eq!(ConveyorDirection::North.rotate_counterclockwise(), ConveyorDirection::West);
}

#[test]
fn default_direction_is_north() {
    assert_eq!(ConveyorDirection::default(), ConveyorDirection::North);
}

#[test]
fn texture_indices_count_clockwise_from_north() {
    assert_eq!(ConveyorDirection::North.texture_index(), 1);
    assert_eq!(ConveyorDirection::East.texture_index(), 2);
    assert_eq!(ConveyorDirection::South.texture_index(), 3);
    assert_eq!(ConveyorDirection::West.texture_index(), 4);
}

#[test]
fn names() {
    assert_eq!(ConveyorDirection::North.name(), "North");
    assert_eq!(ConveyorDirection::East.name(), "East");
    assert_eq!(ConveyorDirection::South.name(), "South");
    assert_eq!(ConveyorDirection::West.name(), "West");
}

#[test]
fn offsets_are_distinct_unit_steps() {
    assert_eq!(ConveyorDirection::North.offset(), at(0, 1));
    assert_eq!(ConveyorDirection::East.offset(), at(1, 0));
    assert_eq!(ConveyorDirection::South.offset(), at(0, -1));
    assert_eq!(ConveyorDirection::West.offset(), at(-1, 0));
    assert_eq!(ConveyorDirection::direction_values(), [at(0, 1), at(1, 0), at(0, -1), at(-1, 0)]);
    for d in ALL {
        let o = d.offset();
        assert_eq!(o.x.abs() + o.y.abs(), 1);
        assert_eq!(d.opposite().offset(), at(-o.x, -o.y));
        assert_eq!(ConveyorDirection::from_x_y(o.x, o.y), Some(d));
    }
}

#[test]
fn sides_to_check_go_clockwise_and_leave_out_the_front() {
    assert_eq!(
        ConveyorDirection::North.neighbors_to_check_for_connections(),
        [ConveyorDirection::East, ConveyorDirection::South, ConveyorDirection::West]
    );
    assert_eq!(
        ConveyorDirection::East.neighbors_to_check_for_connections(),
        [ConveyorDirection::South, ConveyorDirection::West, ConveyorDirection::North]
    );
    assert_eq!(
        ConveyorDirection::South.neighbors_to_check_for_connections(),
        [ConveyorDirection::West, ConveyorDirection::North, ConveyorDirection::East]
    );
    assert_eq!(
        ConveyorDirection::West.neighbors_to_check_for_connections(),
        [ConveyorDirection::North, ConveyorDirection::East, ConveyorDirection::South]
    );
    for d in ALL {
        let sides = d.neighbors_to_check_for_connections();
        let offsets = d.neighbor_offsets();
        for i in 0..3 {
            assert_ne!(sides[i], d);
            assert_eq!(sides[i].offset(), offsets[i]);
        }
    }
    assert_eq!(ConveyorDirection::North.neighbor_offsets(), [at(1, 0), at(0, -1), at(-1, 0)]);
}

#[test]
fn reverse_and_place_direction() {
    for d in ALL {
        assert_eq!(d.reverse(false), d);
        assert_eq!(d.reverse(true), d.opposite());
        assert_eq!(d.apply_place_direction(ChainedTilePlaceDirection::Normal), d);
        assert_eq!(d.apply_place_direction(ChainedTilePlaceDirection::Reversed), d.opposite());
    }
}

#[test]
fn direction_from_steps_and_vectors() {
    assert_eq!(ConveyorDirection::from_x_y(0, 0), None);
    assert_eq!(ConveyorDirection::from_x_y(1, 1), None);
    assert_eq!(ConveyorDirection::from_x_y(2, 0), None);
    assert_eq!(ConveyorDirection::from_x_y(0, -2), None);
    assert_eq!(ConveyorDirection::from_x_y(-1, 0), Some(ConveyorDirection::West));
    assert_eq!(ConveyorDirection::from_ivec2(at(0, 7)), Some(ConveyorDirection::North));
    assert_eq!(ConveyorDirection::from_ivec2(at(i32::MAX, 0)), Some(ConveyorDirection::East));
    assert_eq!(ConveyorDirection::from_ivec2(at(0, i32::MIN)), Some(ConveyorDirection::South));
    assert_eq!(ConveyorDirection::from_ivec2(at(-3, 0)), Some(ConveyorDirection::West));
    assert_eq!(ConveyorDirection::from_ivec2(at(0, 0)), None);
    assert_eq!(ConveyorDirection::from_ivec2(at(4, -4)), None);
}

#[test]
fn background_pictures() {
    // corners
    assert_eq!(background_texture_index(0, 3, 5, 4), 13);
    assert_eq!(background_texture_index(0, 0, 5, 4), 12);
    assert_eq!(background_texture_index(4, 0, 5, 4), 11);
    assert_eq!(background_texture_index(4, 3, 5, 4), 10);
    // edges
    assert_eq!(background_texture_index(4, 2, 5, 4), 9);
    assert_eq!(background_texture_index(2, 3, 5, 4), 8);
    assert_eq!(background_texture_index(0, 1, 5, 4), 7);
    assert_eq!(background_texture_index(3, 0, 5, 4), 6);
    // inside
    assert_eq!(background_texture_index(1, 1, 5, 4), 1);
    assert_eq!(background_texture_index(3, 2, 5, 4), 1);
    // a single cell is every corner at once
    assert_eq!(background_texture_index(0, 0, 1, 1), 13);
    assert_eq!(background_texture_index(0, 0, 1, 3), 12);
    assert_eq!(background_texture_index(0, 1, 1, 3), 9);
}
