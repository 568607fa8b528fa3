use vstd::prelude::*;
use crate::coordinates::{GridCoordinate, PlayfieldSize, TilePosition};
use crate::input::chained_tile::{
    ChainedTileChangeEvent, ChainedTileChangeType, ChainedTilePlaceDirection,
};
use crate::tile::placement::{
    assigned_direction, corrects_previous, implied_direction, same_tile, tile_position, Field,
};
use crate::tile::playfield::ConveyorTile;
use crate::tile::update_graphics::{
    direction_at, lemma_texture_follows_directions, needs_update, resolved_texture, touches,
};
use crate::tile::{ConveyorDirection, UpdatedTile};

verus! {

/// Whether every tile is drawn with the picture that the directions of the
/// tile and of its neighbours call for.
pub open spec fn is_resolved(tiles: Map<TilePosition, ConveyorTile>, size: PlayfieldSize) -> bool {
    forall|p: TilePosition| #[trigger]
        tiles.dom().contains(p) ==> tiles[p].texture_index == resolved_texture(tiles, size, p)
}

/// Whether every tile lies on a playfield of the given size.
pub open spec fn on_the_field(tiles: Map<TilePosition, ConveyorTile>, size: PlayfieldSize) -> bool {
    forall|p: TilePosition| #[trigger]
        tiles.dom().contains(p) ==> size.contains(p.x as int, p.y as int)
}

/// Whether one of the notices from the `from`-th on is about the cell `p`.
pub open spec fn noticed(updates: Seq<UpdatedTile>, from: int, p: TilePosition) -> bool {
    exists|i: int| from <= i < updates.len() && (#[trigger] updates[i]).pos == p
}

/// Whether `after` came from `before` by changes that sent notice of every
/// cell they touched: the notices of `before` are still there, and every
/// cell that none of the notices behind them is about holds what it held.
pub open spec fn noticed_changes(before: Field, after: Field) -> bool {
    &&& before.updates.len() <= after.updates.len()
    &&& forall|i: int|
        0 <= i < before.updates.len() ==> #[trigger] after.updates[i] == before.updates[i]
    &&& forall|p: TilePosition|
        !#[trigger] noticed(after.updates, before.updates.len() as int, p) ==> same_tile(
            before.tiles,
            after.tiles,
            p,
        )
}

/// Changes that send notice of every cell they touch, followed by more such
/// changes, send notice of every cell they touch.
pub proof fn lemma_noticed_changes_chain(first: Field, second: Field, third: Field)
    requires
        noticed_changes(first, second),
        noticed_changes(second, third),
    ensures
        noticed_changes(first, third),
{
    let a = first.updates.len() as int;
    let b = second.updates.len() as int;
    assert forall|p: TilePosition| !#[trigger] noticed(third.updates, a, p) implies same_tile(
        first.tiles,
        third.tiles,
        p,
    ) by {
        if noticed(second.updates, a, p) {
            let i = choose|i: int| a <= i < second.updates.len() && (#[trigger] second.updates[i]).pos == p;
            assert(third.updates[i] == second.updates[i]);
        }
        if noticed(third.updates, b, p) {
            let i = choose|i: int| b <= i < third.updates.len() && (#[trigger] third.updates[i]).pos == p;
            assert(third.updates[i].pos == p);
        }
    }
    assert forall|i: int| 0 <= i < a implies #[trigger] third.updates[i] == first.updates[i] by {
        assert(second.updates[i] == first.updates[i]);
    }
}

/// Turning a tile sends notice of its cell, and touches no other cell.
pub proof fn lemma_turned_is_noticed(
    field: Field,
    size: PlayfieldSize,
    position: GridCoordinate,
    direction: ConveyorDirection,
)
    ensures
        noticed_changes(field, field.turned(size, position, direction)),
        on_the_field(field.tiles, size) ==> on_the_field(
            field.turned(size, position, direction).tiles,
            size,
        ),
{
    let after = field.turned(size, position, direction);
    let n = field.updates.len() as int;
    if after != field {
        assert(after.updates[n].pos == tile_position(position));
    }
}

/// Placing a tile sends notice of every cell it touches: the cell of the
/// new tile and, where it is turned, the cell of the tile placed before.
pub proof fn lemma_placed_is_noticed(
    field: Field,
    size: PlayfieldSize,
    position: GridCoordinate,
    place_direction: ChainedTilePlaceDirection,
    selected: ConveyorDirection,
    chain: bool,
)
    ensures
        noticed_changes(field, field.placed(size, position, place_direction, selected, chain)),
        on_the_field(field.tiles, size) ==> on_the_field(
            field.placed(size, position, place_direction, selected, chain).tiles,
            size,
        ),
{
    let after = field.placed(size, position, place_direction, selected, chain);
    if size.contains(position.x as int, position.y as int) {
        let implied = implied_direction(field.previous, position, chain);
        let direction = assigned_direction(implied, selected, place_direction);
        let corrected = if implied is Some && corrects_previous(
            implied->Some_0,
            field.previous->Some_0.direction,
            place_direction,
        ) {
            field.turned(size, field.previous->Some_0.position, direction)
        } else {
            field
        };
        if corrected != field {
            lemma_turned_is_noticed(field, size, field.previous->Some_0.position, direction);
        }
        let m = corrected.updates.len() as int;
        let spawned = Field {
            tiles: after.tiles,
            previous: corrected.previous,
            updates: after.updates,
        };
        assert(noticed_changes(corrected, spawned)) by {
            assert(spawned.updates[m].pos == tile_position(position));
        }
        lemma_noticed_changes_chain(field, corrected, spawned);
        assert(noticed_changes(field, after));
    }
}

/// Placing tiles along a path sends notice of every cell it touches.
pub proof fn lemma_placed_along_is_noticed(
    field: Field,
    size: PlayfieldSize,
    cells: Seq<GridCoordinate>,
    place_direction: ChainedTilePlaceDirection,
    selected: ConveyorDirection,
    chain: bool,
)
    ensures
        noticed_changes(
            field,
            field.placed_along(size, cells, place_direction, selected, chain),
        ),
        on_the_field(field.tiles, size) ==> on_the_field(
            field.placed_along(size, cells, place_direction, selected, chain).tiles,
            size,
        ),
    decreases cells.len(),
{
    if cells.len() > 0 {
        let next = field.placed(size, cells[0], place_direction, selected, chain);
        let chained = chain || size.contains(cells[0].x as int, cells[0].y as int);
        lemma_placed_is_noticed(field, size, cells[0], place_direction, selected, chain);
        lemma_placed_along_is_noticed(
            next,
            size,
            cells.drop_first(),
            place_direction,
            selected,
            chained,
        );
        lemma_noticed_changes_chain(
            field,
            next,
            next.placed_along(size, cells.drop_first(), place_direction, selected, chained),
        );
    }
}

/// Removing a tile sends notice of its cell, and touches no other cell.
pub proof fn lemma_removed_is_noticed(field: Field, size: PlayfieldSize, position: GridCoordinate)
    ensures
        noticed_changes(field, field.removed(size, position)),
        on_the_field(field.tiles, size) ==> on_the_field(field.removed(size, position).tiles, size),
{
    let after = field.removed(size, position);
    let n = field.updates.len() as int;
    if after != field {
        assert(after.updates[n].pos == tile_position(position));
    }
}

/// Removing tiles along a path sends notice of every cell it touches.
pub proof fn lemma_removed_along_is_noticed(
    field: Field,
    size: PlayfieldSize,
    cells: Seq<GridCoordinate>,
)
    ensures
        noticed_changes(field, field.removed_along(size, cells)),
        on_the_field(field.tiles, size) ==> on_the_field(
            field.removed_along(size, cells).tiles,
            size,
        ),
    decreases cells.len(),
{
    if cells.len() > 0 {
        let next = field.removed(size, cells[0]);
        lemma_removed_is_noticed(field, size, cells[0]);
        lemma_removed_along_is_noticed(next, size, cells.drop_first());
        lemma_noticed_changes_chain(field, next, next.removed_along(size, cells.drop_first()));
    }
}

/// The changes of a tick send notice of every cell they touch.
pub proof fn lemma_changes_are_noticed(
    field: Field,
    size: PlayfieldSize,
    events: Seq<ChainedTileChangeEvent>,
    selected: ConveyorDirection,
)
    ensures
        noticed_changes(field, field.changed_by(size, events, selected)),
        on_the_field(field.tiles, size) ==> on_the_field(
            field.changed_by(size, events, selected).tiles,
            size,
        ),
    decreases events.len(),
{
    if events.len() > 0 {
        let next = field.changed(size, events[0], selected);
        if events[0].position.fits() {
            match events[0].change_type {
            ChainedTileChangeType::Put { chain, direction, .. } => {
                lemma_placed_along_is_noticed(
                    field.begun(chain),
                    size,
                    events[0].position.cells(),
                    direction,
                    selected,
                    chain,
                );
            },
            ChainedTileChangeType::Delete => {
                lemma_removed_along_is_noticed(field, size, events[0].position.cells());
            },
            }
        }
        lemma_changes_are_noticed(next, size, events.drop_first(), selected);
        lemma_noticed_changes_chain(
            field,
            next,
            next.changed_by(size, events.drop_first(), selected),
        );
    }
}

/// Where a cell and the four cells next to it hold what they held, the
/// picture that the tile on the cell calls for is what it was.
pub proof fn lemma_picture_is_local(
    before: Map<TilePosition, ConveyorTile>,
    after: Map<TilePosition, ConveyorTile>,
    size: PlayfieldSize,
    position: TilePosition,
)
    requires
        before.dom().contains(position),
        forall|p: TilePosition| touches(position, p) ==> same_tile(before, after, p),
    ensures
        resolved_texture(after, size, position) == resolved_texture(before, size, position),
{
    assert(touches(position, position));
    assert forall|side: ConveyorDirection|
        direction_at(
            after,
            size,
            position.x + side.unit().x,
            position.y + side.unit().y,
        ) == direction_at(before, size, position.x + side.unit().x, position.y + side.unit().y) by {
        let x = position.x + side.unit().x;
        let y = position.y + side.unit().y;
        if size.contains(x, y) {
            let cell = TilePosition { x: x as u32, y: y as u32 };
            assert(touches(position, cell));
        }
    }
}

/// The pictures stay right from tick to tick.
///
/// Let every tile of `before` be drawn with the picture its surroundings
/// call for. Let changes that send notice of every cell they touch lead to
/// `changed`, and let `after` hold the same tiles facing the same ways,
/// where each tile on a cell of a notice or next to one is drawn with the
/// picture that `changed` calls for, and every other tile with the picture
/// it had. Then every tile of `after` is drawn with the picture its
/// surroundings call for.
pub proof fn lemma_pictures_stay_resolved(
    before: Field,
    changed: Field,
    after: Map<TilePosition, ConveyorTile>,
    size: PlayfieldSize,
)
    requires
        is_resolved(before.tiles, size),
        before.updates.len() == 0,
        noticed_changes(before, changed),
        on_the_field(changed.tiles, size),
        after.dom() == changed.tiles.dom(),
        forall|p: TilePosition| #[trigger]
            after.dom().contains(p) ==> {
                &&& after[p].direction == changed.tiles[p].direction
                &&& after[p].texture_index == if needs_update(changed.updates, size, p) {
                    resolved_texture(changed.tiles, size, p)
                } else {
                    changed.tiles[p].texture_index as int
                }
            },
    ensures
        is_resolved(after, size),
{
    assert forall|p: TilePosition| #[trigger] after.dom().contains(p) implies after[p].texture_index
        == resolved_texture(after, size, p) by {
        assert(changed.tiles.dom().contains(p));
        lemma_texture_follows_directions(after, changed.tiles, size, p);
        if !needs_update(changed.updates, size, p) {
            assert forall|q: TilePosition| touches(p, q) implies same_tile(
                before.tiles,
                changed.tiles,
                q,
            ) by {
                if noticed(changed.updates, 0, q) {
                    let i = choose|i: int|
                        0 <= i < changed.updates.len() && (#[trigger] changed.updates[i]).pos == q;
                    assert(touches(changed.updates[i].pos, p));
                }
            }
            assert(touches(p, p));
            assert(same_tile(before.tiles, changed.tiles, p));
            lemma_picture_is_local(before.tiles, changed.tiles, size, p);
        }
    }
}

} // verus!
