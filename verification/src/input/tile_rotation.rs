use vstd::prelude::*;
use crate::tile::ConveyorDirection;

verus! {

/// The direction that standalone tiles are placed with.
#[derive(Debug, Clone, Copy, PartialEq, Eq, Structural)]
pub struct SelectedTileDirection {
    pub direction: ConveyorDirection,
}

impl Default for SelectedTileDirection {
    fn default() -> (selected: SelectedTileDirection)
        ensures
            selected.direction == ConveyorDirection::North,
    {
        SelectedTileDirection { direction: ConveyorDirection::North }
    }
}

/// Turns the selected direction by a quarter when the rotate key was just
/// pressed: counterclockwise while the modifier is held, else clockwise.
pub fn change_selected_tile_direction(
    selected_tile_rotation: &mut SelectedTileDirection,
    rotate_just_pressed: bool,
    modifier_pressed: bool,
)
    ensures
        final(selected_tile_rotation).direction == if !rotate_just_pressed {
            old(selected_tile_rotation).direction
        } else if modifier_pressed {
            old(selected_tile_rotation).direction.counterclockwise()
        } else {
            old(selected_tile_rotation).direction.clockwise()
        },
{
    if rotate_just_pressed {
        selected_tile_rotation.direction = match modifier_pressed {
            true => selected_tile_rotation.direction.rotate_counterclockwise(),
            false => selected_tile_rotation.direction.rotate_clockwise(),
        }
    }
}

} // verus!
