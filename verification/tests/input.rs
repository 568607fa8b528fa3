use conveyor::coordinates::{GridCoordinate, PlayfieldSize, TilePosition};
use conveyor::input::chained_tile::{
    catch_chained_tile_input, ChainedTileChangeEvent, ChainedTileChangePosition,
    ChainedTileChangeType, ChainedTilePlaceDirection, ChainedTileResource, TileType,
};
use conveyor::input::egui_check::{
    check_egui_captured_resources, EguiCapturedResources, EguiContextState,
};
use conveyor::input::tile_rotation::{change_selected_tile_direction, SelectedTileDirection};
use conveyor::tile::ConveyorDirection;

fn at(x: i32, y: i32) -> GridCoordinate {
    GridCoordinate { x, y }
}

fn put(position: ChainedTileChangePosition, chain: bool, direction: ChainedTilePlaceDirection) -> ChainedTileChangeEvent {
    ChainedTileChangeEvent {
        position,
        change_type: ChainedTileChangeType::Put { tile_type: TileType::Conveyor, chain, direction },
    }
}

#[test]
fn captured_resources_report_their_fields() {
    let none = EguiCapturedResources::default();
    assert!(!none.mouse_captured());
    assert!(!none.keyboard_captured());
    let mouse = EguiCapturedResources { mouse: true, keyboard: false };
    assert!(mouse.mouse_captured());
    assert!(!mouse.keyboard_captured());
    let keyboard = EguiCapturedResources { mouse: false, keyboard: true };
    assert!(!keyboard.mouse_captured());
    assert!(keyboard.keyboard_captured());
}

#[test]
fn any_context_captures_a_device() {
    let idle = EguiContextState {
        wants_pointer_input: false,
        is_pointer_over_area: false,
        wants_keyboard_input: false,
    };
    assert_eq!(check_egui_captured_resources(&vec![]), EguiCapturedResources { mouse: false, keyboard: false });
    assert_eq!(
        check_egui_captured_resources(&vec![idle, idle]),
        EguiCapturedResources { mouse: false, keyboard: false }
    );
    assert_eq!(
        check_egui_captured_resources(&vec![idle, EguiContextState { wants_pointer_input: true, ..idle }]),
        EguiCapturedResources { mouse: true, keyboard: false }
    );
    assert_eq!(
        check_egui_captured_resources(&vec![EguiContextState { is_pointer_over_area: true, ..idle }, idle]),
        EguiCapturedResources { mouse: true, keyboard: false }
    );
    assert_eq!(
        check_egui_captured_resources(&vec![idle, EguiContextState { wants_keyboard_input: true, ..idle }, idle]),
        EguiCapturedResources { mouse: false, keyboard: true }
    );
}

#[test]
fn rotate_key_turns_the_selection() {
    let mut selected = SelectedTileDirection::default();
    assert_eq!(selected.direction, ConveyorDirection::North);
    change_selected_tile_direction(&mut selected, false, false);
    assert_eq!(selected.direction, ConveyorDirection::North);
    change_selected_tile_direction(&mut selected, false, true);
    assert_eq!(selected.direction, ConveyorDirection::North);
    change_selected_tile_direction(&mut selected, true, false);
    assert_eq!(selected.direction, ConveyorDirection::East);
    change_selected_tile_direction(&mut selected, true, false);
    assert_eq!(selected.direction, ConveyorDirection::South);
    change_selected_tile_direction(&mut selected, true, true);
    change_selected_tile_direction(&mut selected, true, true);
    change_selected_tile_direction(&mut selected, true, true);
    assert_eq!(selected.direction, ConveyorDirection::West);
}

#[test]
fn place_direction_from_the_modifier() {
    assert_eq!(ChainedTilePlaceDirection::new(false), ChainedTilePlaceDirection::Normal);
    assert_eq!(ChainedTilePlaceDirection::new(true), ChainedTilePlaceDirection::Reversed);
    assert_eq!(
        ChainedTileChangeType::put(TileType::Conveyor, true, ChainedTilePlaceDirection::Reversed),
        ChainedTileChangeType::Put {
            tile_type: TileType::Conveyor,
            chain: true,
            direction: ChainedTilePlaceDirection::Reversed
        }
    );
    let event = ChainedTileChangeEvent::new(
        ChainedTileChangePosition::Single(at(1, 2)),
        ChainedTileChangeType::Delete,
    );
    assert_eq!(event.position, ChainedTileChangePosition::Single(at(1, 2)));
    assert_eq!(event.change_type, ChainedTileChangeType::Delete);
}

#[test]
fn a_gesture_becomes_changes() {
    let mut state = ChainedTileResource::default();
    assert_eq!(state.mouse_state, (false, false));
    assert_eq!(state.cursor_tile_position, at(0, 0));

    // nothing held, cursor moves: no change, but the cell is remembered
    assert_eq!(catch_chained_tile_input(&mut state, at(2, 2), (false, false), false), None);
    assert_eq!(state.cursor_tile_position, at(2, 2));

    // press: one cell, not chained
    assert_eq!(
        catch_chained_tile_input(&mut state, at(2, 2), (true, false), false),
        Some(put(ChainedTileChangePosition::Single(at(2, 2)), false, ChainedTilePlaceDirection::Normal))
    );
    assert_eq!(state.mouse_state, (true, false));

    // hold still: nothing
    assert_eq!(catch_chained_tile_input(&mut state, at(2, 2), (true, false), false), None);

    // drag: a line, chained
    assert_eq!(
        catch_chained_tile_input(&mut state, at(5, 3), (true, false), true),
        Some(put(
            ChainedTileChangePosition::StraightLine { start: at(2, 2), end: at(5, 3) },
            true,
            ChainedTilePlaceDirection::Reversed
        ))
    );
    assert_eq!(state.cursor_tile_position, at(5, 3));

    // both buttons: nothing
    assert_eq!(catch_chained_tile_input(&mut state, at(5, 4), (true, true), false), None);
    assert_eq!(state.mouse_state, (true, true));

    // remove button alone after a move
    assert_eq!(
        catch_chained_tile_input(&mut state, at(6, 4), (false, true), false),
        Some(ChainedTileChangeEvent {
            position: ChainedTileChangePosition::StraightLine { start: at(5, 4), end: at(6, 4) },
            change_type: ChainedTileChangeType::Delete,
        })
    );

    // release
    assert_eq!(catch_chained_tile_input(&mut state, at(6, 4), (false, false), false), None);

    // press and move in the same tick: a line that does not chain
    assert_eq!(
        catch_chained_tile_input(&mut state, at(6, 5), (true, false), false),
        Some(put(
            ChainedTileChangePosition::StraightLine { start: at(6, 4), end: at(6, 5) },
            false,
            ChainedTilePlaceDirection::Normal
        ))
    );
}

#[test]
fn coordinates_on_and_off_the_playfield() {
    let size = PlayfieldSize::new(8, 4);
    assert_eq!(at(0, 0).to_tile_pos(&size), Ok(TilePosition { x: 0, y: 0 }));
    assert_eq!(at(7, 3).to_tile_pos(&size), Ok(TilePosition { x: 7, y: 3 }));
    assert_eq!(at(8, 3).to_tile_pos(&size), Err(()));
    assert_eq!(at(7, 4).to_tile_pos(&size), Err(()));
    assert_eq!(at(-1, 0).to_tile_pos(&size), Err(()));
    assert_eq!(at(0, -1).to_tile_pos(&size), Err(()));
    assert_eq!(at(i32::MIN, i32::MAX).to_tile_pos(&size), Err(()));
    assert_eq!(at(0, 0).to_tile_pos(&PlayfieldSize::new(0, 0)), Err(()));
    assert_eq!(GridCoordinate::new(3, -4), at(3, -4));
}

#[test]
fn components_by_distance_from_zero() {
    assert_eq!(at(3, -4).closest_to_zero(), 3);
    assert_eq!(at(3, -4).farthest_from_zero(), -4);
    assert_eq!(at(-5, 2).closest_to_zero(), 2);
    assert_eq!(at(-5, 2).farthest_from_zero(), -5);
    assert_eq!(at(-2, 2).closest_to_zero(), -2);
    assert_eq!(at(-2, 2).farthest_from_zero(), -2);
    assert_eq!(at(i32::MIN, i32::MAX).closest_to_zero(), i32::MAX);
    assert_eq!(at(i32::MIN, i32::MAX).farthest_from_zero(), i32::MIN);
}

#[test]
fn tile_positions_as_signed_cells() {
    assert_eq!(TilePosition::new(3, 9).as_ivec2(), at(3, 9));
    assert_eq!(TilePosition::new(u32::MAX, 0x8000_0000).as_ivec2(), at(-1, i32::MIN));
    let mut p = TilePosition::new(1, 1);
    p.set(4, 5);
    assert_eq!(p, TilePosition { x: 4, y: 5 });
    p.set_reverse(4, 5);
    assert_eq!(p, TilePosition { x: 5, y: 4 });
    p.add(-2, 3);
    assert_eq!(p, TilePosition { x: 3, y: 7 });
    p.add_reverse(-2, 3);
    assert_eq!(p, TilePosition { x: 6, y: 5 });
    p.add(-7, 0);
    assert_eq!(p, TilePosition { x: u32::MAX, y: 5 });
    p.add(1, -5);
    assert_eq!(p, TilePosition { x: 0, y: 0 });
}
