use vstd::prelude::*;
use crate::coordinates::GridCoordinate;

verus! {

/// The kinds of tile a player can paint.
#[derive(Debug, Clone, Copy, PartialEq, Eq, Structural)]
pub enum TileType {
    Conveyor,
}

/// The cells a change covers: one cell, or the line the cursor moved along
/// since the last tick.
#[derive(Debug, Clone, Copy, PartialEq, Eq, Structural)]
pub enum ChainedTileChangePosition {
    Single(GridCoordinate),
    StraightLine { start: GridCoordinate, end: GridCoordinate },
}

/// Whether painted belts point along the drag or against it.
#[derive(Debug, Clone, Copy, PartialEq, Eq, Structural)]
pub enum ChainedTilePlaceDirection {
    Normal,
    Reversed,
}

impl ChainedTilePlaceDirection {
    pub fn new(reversed: bool) -> (direction: ChainedTilePlaceDirection)
        ensures
            direction == if reversed {
                ChainedTilePlaceDirection::Reversed
            } else {
                ChainedTilePlaceDirection::Normal
            },
    {
        match reversed {
            true => ChainedTilePlaceDirection::Reversed,
            false => ChainedTilePlaceDirection::Normal,
        }
    }
}

/// What a change does to the cells it covers.
#[derive(Debug, Clone, Copy, PartialEq, Eq, Structural)]
pub enum ChainedTileChangeType {
    Put { tile_type: TileType, chain: bool, direction: ChainedTilePlaceDirection },
    Delete,
}

impl ChainedTileChangeType {
    pub fn put(tile_type: TileType, chain: bool, direction: ChainedTilePlaceDirection) -> (change:
        ChainedTileChangeType)
        ensures
            change == (ChainedTileChangeType::Put { tile_type, chain, direction }),
    {
        ChainedTileChangeType::Put { tile_type, chain, direction }
    }
}

/// One gesture step, as the input stage hands it to the placement stage.
#[derive(Debug, Clone, Copy, PartialEq, Eq, Structural)]
pub struct ChainedTileChangeEvent {
    pub position: ChainedTileChangePosition,
    pub change_type: ChainedTileChangeType,
}

impl ChainedTileChangeEvent {
    pub fn new(position: ChainedTileChangePosition, change_type: ChainedTileChangeType) -> (event:
        ChainedTileChangeEvent)
        ensures
            event.position == position,
            event.change_type == change_type,
    {
        ChainedTileChangeEvent { position, change_type }
    }
}

/// What the input stage saw on the previous tick: the state of the place and
/// remove buttons, in that order, and the cell under the cursor.
#[derive(Debug, Clone, Copy)]
pub struct ChainedTileResource {
    pub mouse_state: (bool, bool),
    pub cursor_tile_position: GridCoordinate,
}

impl Default for ChainedTileResource {
    fn default() -> (resource: ChainedTileResource)
        ensures
            resource.mouse_state == (false, false),
            resource.cursor_tile_position == (GridCoordinate { x: 0, y: 0 }),
    {
        ChainedTileResource {
            mouse_state: (false, false),
            cursor_tile_position: GridCoordinate { x: 0, y: 0 },
        }
    }
}

/// The change that one tick of input asks for.
///
/// Nothing is asked for while neither the cursor cell nor the buttons
/// changed, nor while both buttons or no button is held. With the place
/// button alone the change is a `Put` that chains exactly when the place
/// button was already held on the previous tick; with the remove button alone
/// it is a `Delete`. The change covers the cursor cell alone when the cursor
/// stayed in its cell, and otherwise the line from the previous cell to the
/// current one.
pub open spec fn chained_tile_change(
    previous: ChainedTileResource,
    cursor_tile_position: GridCoordinate,
    mouse_state: (bool, bool),
    reversed: bool,
) -> Option<ChainedTileChangeEvent> {
    let moved = cursor_tile_position != previous.cursor_tile_position;
    let position = if moved {
        ChainedTileChangePosition::StraightLine {
            start: previous.cursor_tile_position,
            end: cursor_tile_position,
        }
    } else {
        ChainedTileChangePosition::Single(cursor_tile_position)
    };
    if !moved && mouse_state == previous.mouse_state {
        None
    } else if mouse_state.0 && !mouse_state.1 {
        Some(
            ChainedTileChangeEvent {
                position,
                change_type: ChainedTileChangeType::Put {
                    tile_type: TileType::Conveyor,
                    chain: previous.mouse_state.0,
                    direction: if reversed {
                        ChainedTilePlaceDirection::Reversed
                    } else {
                        ChainedTilePlaceDirection::Normal
                    },
                },
            },
        )
    } else if !mouse_state.0 && mouse_state.1 {
        Some(ChainedTileChangeEvent { position, change_type: ChainedTileChangeType::Delete })
    } else {
        None
    }
}

/// Turns one tick of input into the change it asks for, and remembers the
/// tick for the next call.
pub fn catch_chained_tile_input(
    previous_frame_data: &mut ChainedTileResource,
    cursor_tile_position: GridCoordinate,
    mouse_state: (bool, bool),
    reversed: bool,
) -> (event: Option<ChainedTileChangeEvent>)
    ensures
        event == chained_tile_change(
            *old(previous_frame_data),
            cursor_tile_position,
            mouse_state,
            reversed,
        ),
        final(previous_frame_data).mouse_state == mouse_state,
        final(previous_frame_data).cursor_tile_position == cursor_tile_position,
{
    let previous = *previous_frame_data;
    let moved = cursor_tile_position.x != previous.cursor_tile_position.x || cursor_tile_position.y
        != previous.cursor_tile_position.y;
    let buttons_changed = mouse_state.0 != previous.mouse_state.0 || mouse_state.1
        != previous.mouse_state.1;
    let mut event: Option<ChainedTileChangeEvent> = None;
    if moved || buttons_changed {
        let change_type = match mouse_state {
            (true, false) => Some(
                ChainedTileChangeType::put(
                    TileType::Conveyor,
                    previous.mouse_state.0,
                    ChainedTilePlaceDirection::new(reversed),
                ),
            ),
            (false, true) => Some(ChainedTileChangeType::Delete),
            _ => None,
        };
        if let Some(change_type) = change_type {
            let position = if moved {
                ChainedTileChangePosition::StraightLine {
                    start: previous.cursor_tile_position,
                    end: cursor_tile_position,
                }
            } else {
                ChainedTileChangePosition::Single(cursor_tile_position)
            };
            event = Some(ChainedTileChangeEvent::new(position, change_type));
        }
    }
    *previous_frame_data = ChainedTileResource { mouse_state, cursor_tile_position };
    event
}

} // verus!
