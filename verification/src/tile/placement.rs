use vstd::prelude::*;
use crate::coordinates::{magnitude, sign, GridCoordinate, PlayfieldSize, TilePosition};
use crate::helpers::grid_traversal::{
    lemma_path_along_axis, lemma_path_is_stepwise, line, line_fits, path, traverse,
};
use crate::input::chained_tile::ChainedTilePlaceDirection;
use crate::tile::playfield::{ConveyorTile, Playfield};
use crate::tile::{ConveyorDirection, UpdatedTile};

verus! {

/// The last cell on which a gesture placed a tile, and the direction that
/// tile was given.
#[derive(Debug, Clone, Copy, PartialEq, Eq, Structural)]
pub struct PreviousPlaceAttempt {
    pub position: GridCoordinate,
    pub direction: ConveyorDirection,
}

/// What placing and removing tiles acts on: the tiles of the playfield by
/// their cells, the last placement of the gesture in progress, if there is
/// one, and the notices sent so far.
pub struct Field {
    pub tiles: Map<TilePosition, ConveyorTile>,
    pub previous: Option<PreviousPlaceAttempt>,
    pub updates: Seq<UpdatedTile>,
}

/// The cell `(x, y)` as a playfield addresses it.
pub open spec fn tile_position(position: GridCoordinate) -> TilePosition {
    TilePosition { x: position.x as u32, y: position.y as u32 }
}

/// The direction in which a gesture moved to reach `position`: known when
/// the placement chains with a previous one that lies exactly one step
/// away.
pub open spec fn implied_direction(
    previous: Option<PreviousPlaceAttempt>,
    position: GridCoordinate,
    chain: bool,
) -> Option<ConveyorDirection> {
    if chain && previous is Some {
        ConveyorDirection::of_offset(
            position.x - previous->Some_0.position.x,
            position.y - previous->Some_0.position.y,
        )
    } else {
        None
    }
}

/// Whether a chained placement turns the tile placed before it. In normal
/// placement the previous tile is turned when the gesture moved in another
/// direction than that tile was given; in reversed placement, when it moved
/// in the very direction that tile was given.
pub open spec fn corrects_previous(
    implied: ConveyorDirection,
    previous: ConveyorDirection,
    place_direction: ChainedTilePlaceDirection,
) -> bool {
    ||| implied != previous && place_direction == ChainedTilePlaceDirection::Normal
    ||| implied == previous && place_direction == ChainedTilePlaceDirection::Reversed
}

/// The direction a new tile is given: the direction of the gesture where it
/// is known, else the selected direction; either flipped in reversed
/// placement.
pub open spec fn assigned_direction(
    implied: Option<ConveyorDirection>,
    selected: ConveyorDirection,
    place_direction: ChainedTilePlaceDirection,
) -> ConveyorDirection {
    match implied {
        Some(direction) => direction.placed(place_direction),
        None => selected.placed(place_direction),
    }
}

/// A tile as it is placed: facing `direction`, drawn as a tile that no belt
/// runs into.
pub open spec fn fresh_tile(direction: ConveyorDirection) -> ConveyorTile {
    ConveyorTile { direction, texture_index: (1 + direction.quarter_turns()) as u32 }
}

impl Field {
    /// The field after the tile on `position` was turned to `direction`.
    /// Nothing happens where the cell lies off the playfield or holds no
    /// tile.
    pub open spec fn turned(
        self,
        size: PlayfieldSize,
        position: GridCoordinate,
        direction: ConveyorDirection,
    ) -> Field {
        let cell = tile_position(position);
        if size.contains(position.x as int, position.y as int) && self.tiles.dom().contains(cell) {
            Field {
                tiles: self.tiles.insert(
                    cell,
                    ConveyorTile { direction, texture_index: self.tiles[cell].texture_index },
                ),
                previous: self.previous,
                updates: self.updates.push(UpdatedTile { pos: cell }),
            }
        } else {
            self
        }
    }

    /// The field after a tile was placed on `position`.
    ///
    /// A cell off the playfield is passed over: nothing changes. Else the
    /// previous tile of the gesture is turned where the placement chains
    /// and `corrects_previous` says so, the cell is given a fresh tile with
    /// its `assigned_direction`, and the placement becomes the previous one.
    pub open spec fn placed(
        self,
        size: PlayfieldSize,
        position: GridCoordinate,
        place_direction: ChainedTilePlaceDirection,
        selected: ConveyorDirection,
        chain: bool,
    ) -> Field {
        let implied = implied_direction(self.previous, position, chain);
        let direction = assigned_direction(implied, selected, place_direction);
        let corrected = if implied is Some && corrects_previous(
            implied->Some_0,
            self.previous->Some_0.direction,
            place_direction,
        ) {
            self.turned(size, self.previous->Some_0.position, direction)
        } else {
            self
        };
        if size.contains(position.x as int, position.y as int) {
            Field {
                tiles: corrected.tiles.insert(tile_position(position), fresh_tile(direction)),
                previous: Some(PreviousPlaceAttempt { position, direction }),
                updates: corrected.updates.push(UpdatedTile { pos: tile_position(position) }),
            }
        } else {
            self
        }
    }

    /// The field after a tile was placed on each of `cells` in turn. The
    /// first placement chains with what came before the cells where `chain`
    /// says so; each later one chains once a cell before it lay on the
    /// playfield.
    pub open spec fn placed_along(
        self,
        size: PlayfieldSize,
        cells: Seq<GridCoordinate>,
        place_direction: ChainedTilePlaceDirection,
        selected: ConveyorDirection,
        chain: bool,
    ) -> Field
        decreases cells.len(),
    {
        if cells.len() == 0 {
            self
        } else {
            self.placed(size, cells[0], place_direction, selected, chain).placed_along(
                size,
                cells.drop_first(),
                place_direction,
                selected,
                chain || size.contains(cells[0].x as int, cells[0].y as int),
            )
        }
    }
}

/// The field that a playfield, the last placement and the notices make up.
pub open spec fn field_of(
    playfield: Playfield,
    previous: Option<PreviousPlaceAttempt>,
    updates: Seq<UpdatedTile>,
) -> Field {
    Field { tiles: playfield@, previous, updates }
}

/// Puts a fresh tile that faces `direction` on a cell of the playfield, and
/// sends notice of it.
pub fn spawn_tile(
    position: TilePosition,
    playfield: &mut Playfield,
    direction: ConveyorDirection,
    placed_tiles: &mut Vec<UpdatedTile>,
)
    requires
        old(playfield).wf(),
        old(playfield).extent().contains(position.x as int, position.y as int),
    ensures
        final(playfield).wf(),
        final(playfield).extent() == old(playfield).extent(),
        final(playfield)@ == old(playfield)@.insert(position, fresh_tile(direction)),
        final(placed_tiles)@ == old(placed_tiles)@.push(UpdatedTile { pos: position }),
{
    playfield.set(position, ConveyorTile { direction, texture_index: direction.texture_index() });
    placed_tiles.push(UpdatedTile { pos: position });
}

/// Turns the tile on a cell to face `direction` and sends notice of it. A
/// cell without a tile is left alone, and no notice is sent.
pub fn update_tile_direction(
    position: TilePosition,
    playfield: &mut Playfield,
    tile_direction: ConveyorDirection,
    placed_tiles: &mut Vec<UpdatedTile>,
)
    requires
        old(playfield).wf(),
    ensures
        final(playfield).wf(),
        final(playfield).extent() == old(playfield).extent(),
        old(playfield)@.dom().contains(position) ==> final(playfield)@ == old(playfield)@.insert(
            position,
            ConveyorTile {
                direction: tile_direction,
                texture_index: old(playfield)@[position].texture_index,
            },
        ) && final(placed_tiles)@ == old(placed_tiles)@.push(UpdatedTile { pos: position }),
        !old(playfield)@.dom().contains(position) ==> final(playfield)@ == old(playfield)@
            && final(placed_tiles)@ == old(placed_tiles)@,
{
    let Some(tile) = playfield.get(position) else {
        return ;
    };
    proof {
        playfield.lemma_tiles_lie_on_the_field();
    }
    playfield.set(
        position,
        ConveyorTile { direction: tile_direction, texture_index: tile.texture_index },
    );
    placed_tiles.push(UpdatedTile { pos: position });
}

/// Places a tile on one cell of a gesture.
///
/// A cell off the playfield is passed over without a trace. Else the tile
/// faces the way the gesture moved, where the placement chains with a
/// previous one exactly one step away, and otherwise the selected way,
/// flipped in either case when the placement is reversed; a chained
/// placement may first turn the tile placed before it.
pub fn place_tile(
    new_tile_position: GridCoordinate,
    playfield: &mut Playfield,
    previous_place_attempt: &mut Option<PreviousPlaceAttempt>,
    placed_tiles: &mut Vec<UpdatedTile>,
    place_direction: ChainedTilePlaceDirection,
    selected_tile_direction: ConveyorDirection,
    chain_with_previous_tile: bool,
)
    requires
        old(playfield).wf(),
    ensures
        final(playfield).wf(),
        final(playfield).extent() == old(playfield).extent(),
        field_of(*final(playfield), *final(previous_place_attempt), final(placed_tiles)@)
            == field_of(*old(playfield), *old(previous_place_attempt), old(placed_tiles)@).placed(
            old(playfield).extent(),
            new_tile_position,
            place_direction,
            selected_tile_direction,
            chain_with_previous_tile,
        ),
{
    let size = playfield.size();
    let Ok(position) = new_tile_position.to_tile_pos(&size) else {
        return ;
    };
    let mut direction = selected_tile_direction.apply_place_direction(place_direction);
    if chain_with_previous_tile {
        if let Some(previous) = *previous_place_attempt {
            let offset_x: i64 = new_tile_position.x as i64 - previous.position.x as i64;
            let offset_y: i64 = new_tile_position.y as i64 - previous.position.y as i64;
            if -1 <= offset_x && offset_x <= 1 && -1 <= offset_y && offset_y <= 1 {
                if let Some(direction_moved) = ConveyorDirection::from_x_y(
                    offset_x as i32,
                    offset_y as i32,
                ) {
                    direction = direction_moved.apply_place_direction(place_direction);
                    let reversed = place_direction == ChainedTilePlaceDirection::Reversed;
                    let same_direction = direction_moved == previous.direction;
                    if (!same_direction && !reversed) || (same_direction && reversed) {
                        if let Ok(previous_position) = previous.position.to_tile_pos(&size) {
                            update_tile_direction(
                                previous_position,
                                playfield,
                                direction,
                                placed_tiles,
                            );
                        } else {
                            proof {
                                playfield.lemma_tiles_lie_on_the_field();
                            }
                        }
                    }
                }
            }
        }
    }
    spawn_tile(position, playfield, direction, placed_tiles);
    *previous_place_attempt = Some(PreviousPlaceAttempt { position: new_tile_position, direction });
}

/// Places a tile on each cell that a gesture from `from` to `to` passes
/// through, in the order of the gesture.
pub fn place_tile_line(
    from: GridCoordinate,
    to: GridCoordinate,
    playfield: &mut Playfield,
    previous_place_attempt: &mut Option<PreviousPlaceAttempt>,
    placed_tiles: &mut Vec<UpdatedTile>,
    place_direction: ChainedTilePlaceDirection,
    selected_tile_direction: ConveyorDirection,
    chain_with_previous_tile: bool,
)
    requires
        old(playfield).wf(),
        line_fits(from, to),
    ensures
        final(playfield).wf(),
        final(playfield).extent() == old(playfield).extent(),
        field_of(*final(playfield), *final(previous_place_attempt), final(placed_tiles)@)
            == field_of(
            *old(playfield),
            *old(previous_place_attempt),
            old(placed_tiles)@,
        ).placed_along(
            old(playfield).extent(),
            path(from, to),
            place_direction,
            selected_tile_direction,
            chain_with_previous_tile,
        ),
{
    let cells = traverse(from, to);
    let size = playfield.size();
    let ghost goal = field_of(*playfield, *previous_place_attempt, placed_tiles@).placed_along(
        size,
        cells@,
        place_direction,
        selected_tile_direction,
        chain_with_previous_tile,
    );
    let mut chain = chain_with_previous_tile;
    let mut i: usize = 0;
    assert(cells@.skip(0) =~= cells@);
    while i < cells.len()
        invariant
            i <= cells.len(),
            playfield.wf(),
            playfield.extent() == size,
            field_of(*playfield, *previous_place_attempt, placed_tiles@).placed_along(
                size,
                cells@.skip(i as int),
                place_direction,
                selected_tile_direction,
                chain,
            ) == goal,
        decreases cells.len() - i,
    {
        let cell = cells[i];
        proof {
            assert(cells@.skip(i as int)[0] == cell);
            assert(cells@.skip(i as int).drop_first() =~= cells@.skip(i + 1));
        }
        place_tile(
            cell,
            playfield,
            previous_place_attempt,
            placed_tiles,
            place_direction,
            selected_tile_direction,
            chain,
        );
        if cell.to_tile_pos(&size).is_ok() {
            chain = true;
        }
        i += 1;
    }
}

/// A standalone placement on a cell of the playfield gives the cell a tile
/// that faces the selected way, or the opposite way in reversed placement,
/// drawn as a tile that no belt runs into. No other cell changes, one notice
/// is sent, and the placement becomes the previous one.
pub proof fn lemma_standalone_placement(
    field: Field,
    size: PlayfieldSize,
    position: GridCoordinate,
    place_direction: ChainedTilePlaceDirection,
    selected: ConveyorDirection,
)
    requires
        size.contains(position.x as int, position.y as int),
    ensures
        ({
            let after = field.placed(size, position, place_direction, selected, false);
            let direction = selected.placed(place_direction);
            let cell = tile_position(position);
            &&& after.tiles == field.tiles.insert(
                cell,
                ConveyorTile {
                    direction,
                    texture_index: (1 + direction.quarter_turns()) as u32,
                },
            )
            &&& after.updates == field.updates.push(UpdatedTile { pos: cell })
            &&& after.previous == Some(PreviousPlaceAttempt { position, direction })
        }),
{
}

/// Whether none of `cells` is the cell `p`.
pub open spec fn off_the_run(cells: Seq<GridCoordinate>, p: TilePosition) -> bool {
    forall|i: int| 0 <= i < cells.len() ==> !is_cell(#[trigger] cells[i], p)
}

/// Whether `position` and `p` name the same cell.
pub open spec fn is_cell(position: GridCoordinate, p: TilePosition) -> bool {
    position.x == p.x && position.y == p.y
}

/// Whether the cell `p` holds the same in both maps: no tile, or the same
/// tile.
pub open spec fn same_tile(
    before: Map<TilePosition, ConveyorTile>,
    after: Map<TilePosition, ConveyorTile>,
    p: TilePosition,
) -> bool {
    &&& before.dom().contains(p) == after.dom().contains(p)
    &&& before.dom().contains(p) ==> before[p] == after[p]
}

/// A chained run of normal placements, each one step further in the same
/// direction, leaves every tile of the run facing that direction, the tile
/// it started from included, and touches no other tile.
pub proof fn lemma_chained_run_faces_travel(
    field: Field,
    size: PlayfieldSize,
    cells: Seq<GridCoordinate>,
    travel: ConveyorDirection,
    selected: ConveyorDirection,
)
    requires
        cells.len() > 0,
        field.previous is Some,
        size.contains(
            field.previous->Some_0.position.x as int,
            field.previous->Some_0.position.y as int,
        ),
        field.tiles.dom().contains(tile_position(field.previous->Some_0.position)),
        field.tiles[tile_position(field.previous->Some_0.position)].direction
            == field.previous->Some_0.direction,
        forall|i: int|
            0 <= i < cells.len() ==> {
                &&& (#[trigger] cells[i]).x == field.previous->Some_0.position.x + (i + 1)
                    * travel.unit().x
                &&& cells[i].y == field.previous->Some_0.position.y + (i + 1) * travel.unit().y
                &&& size.contains(cells[i].x as int, cells[i].y as int)
            },
    ensures
        ({
            let after = field.placed_along(
                size,
                cells,
                ChainedTilePlaceDirection::Normal,
                selected,
                true,
            );
            let start = tile_position(field.previous->Some_0.position);
            &&& after.previous == Some(
                PreviousPlaceAttempt { position: cells.last(), direction: travel },
            )
            &&& after.tiles.dom().contains(start) && after.tiles[start].direction == travel
            &&& forall|i: int|
                0 <= i < cells.len() ==> after.tiles.dom().contains(
                    tile_position(#[trigger] cells[i]),
                ) && after.tiles[tile_position(cells[i])].direction == travel
            &&& forall|p: TilePosition|
                p != start && #[trigger] off_the_run(cells, p) ==> same_tile(
                    field.tiles,
                    after.tiles,
                    p,
                )
        }),
    decreases cells.len(),
{
    let normal = ChainedTilePlaceDirection::Normal;
    let previous = field.previous->Some_0;
    let start = tile_position(previous.position);
    let first = cells[0];
    let next = field.placed(size, first, normal, selected, true);
    let rest = cells.drop_first();
    let after = field.placed_along(size, cells, normal, selected, true);
    assert(cells[0].x == previous.position.x + 1 * travel.unit().x);
    assert(implied_direction(field.previous, first, true) == Some(travel));
    assert(next.previous == Some(PreviousPlaceAttempt { position: first, direction: travel }));
    assert(next.tiles[tile_position(first)] == fresh_tile(travel));
    assert(tile_position(first) != start);
    assert(next.tiles.dom().contains(start) && next.tiles[start].direction == travel);
    assert(after == next.placed_along(size, rest, normal, selected, true));
    if rest.len() > 0 {
        assert forall|i: int| 0 <= i < rest.len() implies {
            &&& (#[trigger] rest[i]).x == first.x + (i + 1) * travel.unit().x
            &&& rest[i].y == first.y + (i + 1) * travel.unit().y
            &&& size.contains(rest[i].x as int, rest[i].y as int)
        } by {
            assert(rest[i] == cells[i + 1]);
            assert((i + 2) * travel.unit().x == (i + 1) * travel.unit().x + travel.unit().x)
                by (nonlinear_arith);
            assert((i + 2) * travel.unit().y == (i + 1) * travel.unit().y + travel.unit().y)
                by (nonlinear_arith);
        }
        lemma_chained_run_faces_travel(next, size, rest, travel, selected);
        assert(cells.last() == rest.last());
        assert forall|i: int| 0 <= i < cells.len() implies tile_position(#[trigger] cells[i])
            != start by {
            lemma_step_leaves_the_cell(travel, i + 1);
        }
        assert forall|i: int| 0 < i < cells.len() implies tile_position(#[trigger] cells[i])
            != tile_position(first) by {
            lemma_step_leaves_the_cell(travel, i);
            assert((i + 1) * travel.unit().x == i * travel.unit().x + travel.unit().x)
                by (nonlinear_arith);
            assert((i + 1) * travel.unit().y == i * travel.unit().y + travel.unit().y)
                by (nonlinear_arith);
        }
        assert(after.tiles.dom().contains(start) && after.tiles[start].direction == travel) by {
            assert forall|i: int| 0 <= i < rest.len() implies tile_position(#[trigger] rest[i])
                != start by {
                assert(rest[i] == cells[i + 1]);
            }
            assert(off_the_run(rest, start));
            assert(same_tile(next.tiles, after.tiles, start));
        }
        assert forall|i: int| 0 <= i < cells.len() implies after.tiles.dom().contains(
            tile_position(#[trigger] cells[i]),
        ) && after.tiles[tile_position(cells[i])].direction == travel by {
            if i > 0 {
                assert(cells[i] == rest[i - 1]);
            }
        }
        assert forall|p: TilePosition| p != start && #[trigger] off_the_run(cells, p) implies same_tile(
            field.tiles,
            after.tiles,
            p,
        ) by {
            assert(tile_position(cells[0]) != p);
            assert(off_the_run(rest, p)) by {
                assert forall|i: int| 0 <= i < rest.len() implies tile_position(
                    #[trigger] rest[i],
                ) != p by {
                    assert(rest[i] == cells[i + 1]);
                }
            }
            assert(same_tile(next.tiles, after.tiles, p));
            assert(same_tile(field.tiles, next.tiles, p));
        }
    } else {
        assert(cells.last() == first);
        assert forall|i: int| 0 <= i < cells.len() implies after.tiles.dom().contains(
            tile_position(#[trigger] cells[i]),
        ) && after.tiles[tile_position(cells[i])].direction == travel by {
            assert(cells[i] == first);
        }
        assert forall|p: TilePosition| p != start && #[trigger] off_the_run(cells, p) implies same_tile(
            field.tiles,
            after.tiles,
            p,
        ) by {
            assert(tile_position(cells[0]) != p);
        }
    }
}

/// One or more steps in a direction lead away from where they began.
proof fn lemma_step_leaves_the_cell(travel: ConveyorDirection, steps: int)
    requires
        steps > 0,
    ensures
        steps * travel.unit().x != 0 || steps * travel.unit().y != 0,
{
    assert(steps * 1 == steps && steps * (-1) == -steps && steps * 0 == 0);
}

/// A drag along an axis, in normal placement, leaves every tile on its way
/// facing the way of travel.
///
/// The drag starts with a standalone placement on `from`, and goes on with
/// a chained placement on each cell of the path to `to`. Both ends lie on
/// the playfield. Whatever direction was selected, every cell from `from`
/// to `to` then holds a tile that faces from `from` towards `to`, and the
/// last placement is the one on `to`.
pub proof fn lemma_drag_faces_travel(
    field: Field,
    size: PlayfieldSize,
    from: GridCoordinate,
    to: GridCoordinate,
    selected: ConveyorDirection,
)
    requires
        from != to,
        from.x == to.x || from.y == to.y,
        size.contains(from.x as int, from.y as int),
        size.contains(to.x as int, to.y as int),
    ensures
        ({
            let travel = ConveyorDirection::of_offset(sign(to.x - from.x), sign(to.y - from.y));
            let after = field.placed(
                size,
                from,
                ChainedTilePlaceDirection::Normal,
                selected,
                false,
            ).placed_along(size, path(from, to), ChainedTilePlaceDirection::Normal, selected, true);
            &&& travel is Some
            &&& after.previous == Some(
                PreviousPlaceAttempt { position: to, direction: travel->Some_0 },
            )
            &&& forall|i: int|
                0 <= i < line(from, to).len() ==> after.tiles.dom().contains(
                    tile_position(#[trigger] line(from, to)[i]),
                ) && after.tiles[tile_position(line(from, to)[i])].direction == travel->Some_0
        }),
{
    let normal = ChainedTilePlaceDirection::Normal;
    let travel = ConveyorDirection::of_offset(sign(to.x - from.x), sign(to.y - from.y))->Some_0;
    let started = field.placed(size, from, normal, selected, false);
    let cells = path(from, to);
    lemma_path_along_axis(from, to);
    lemma_path_is_stepwise(from, to);
    assert(started.tiles[tile_position(from)] == fresh_tile(selected));
    assert forall|i: int| 0 <= i < cells.len() implies {
        &&& (#[trigger] cells[i]).x == from.x + (i + 1) * travel.unit().x
        &&& cells[i].y == from.y + (i + 1) * travel.unit().y
        &&& size.contains(cells[i].x as int, cells[i].y as int)
    } by {
        let n = cells.len() as int;
        let k = i + 1;
        assert(0 < k <= n);
        assert(n == magnitude(to.x - from.x) + magnitude(to.y - from.y));
        assert(k * 1 == k && k * (-1) == -k && k * 0 == 0);
    }
    lemma_chained_run_faces_travel(started, size, cells, travel, selected);
    let after = started.placed_along(size, cells, normal, selected, true);
    assert(cells.last() == to);
    assert forall|i: int| 0 <= i < line(from, to).len() implies after.tiles.dom().contains(
        tile_position(#[trigger] line(from, to)[i]),
    ) && after.tiles[tile_position(line(from, to)[i])].direction == travel by {
        if i > 0 {
            assert(line(from, to)[i] == cells[i - 1]);
        } else {
            assert(line(from, to)[0] == from);
        }
    }
}

} // verus!
