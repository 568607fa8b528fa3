use vstd::prelude::*;
use crate::coordinates::{GridCoordinate, PlayfieldSize, TilePosition};
use crate::helpers::grid_traversal::{line_fits, path, traverse};
use crate::tile::placement::{
    field_of, is_cell, off_the_run, same_tile, tile_position, Field, PreviousPlaceAttempt,
};
use crate::tile::playfield::Playfield;
use crate::tile::UpdatedTile;

verus! {

impl Field {
    /// The field after the tile on `position` was removed. Nothing happens
    /// where the cell lies off the playfield or holds no tile.
    pub open spec fn removed(self, size: PlayfieldSize, position: GridCoordinate) -> Field {
        let cell = tile_position(position);
        if size.contains(position.x as int, position.y as int) && self.tiles.dom().contains(cell) {
            Field {
                tiles: self.tiles.remove(cell),
                previous: self.previous,
                updates: self.updates.push(UpdatedTile { pos: cell }),
            }
        } else {
            self
        }
    }

    /// The field after the tiles on `cells` were removed, one cell after the
    /// other.
    pub open spec fn removed_along(self, size: PlayfieldSize, cells: Seq<GridCoordinate>) -> Field
        decreases cells.len(),
    {
        if cells.len() == 0 {
            self
        } else {
            self.removed(size, cells[0]).removed_along(size, cells.drop_first())
        }
    }
}

/// Removes the tile on a cell and sends notice of it. A cell without a tile
/// is left alone, and no notice is sent.
pub fn despawn_conveyor(
    position: TilePosition,
    playfield: &mut Playfield,
    removed_tiles: &mut Vec<UpdatedTile>,
)
    requires
        old(playfield).wf(),
    ensures
        final(playfield).wf(),
        final(playfield).extent() == old(playfield).extent(),
        final(playfield)@ == old(playfield)@.remove(position),
        final(removed_tiles)@ == if old(playfield)@.dom().contains(position) {
            old(removed_tiles)@.push(UpdatedTile { pos: position })
        } else {
            old(removed_tiles)@
        },
{
    if playfield.remove(position).is_some() {
        removed_tiles.push(UpdatedTile { pos: position });
    }
}

/// Removes the tiles on the cells that a gesture from `from` to `to` passes
/// through, in the order of the gesture. Cells off the playfield and cells
/// without a tile are passed over.
pub fn despawn_conveyor_line(
    from: GridCoordinate,
    to: GridCoordinate,
    playfield: &mut Playfield,
    removed_tiles: &mut Vec<UpdatedTile>,
)
    requires
        old(playfield).wf(),
        line_fits(from, to),
    ensures
        final(playfield).wf(),
        final(playfield).extent() == old(playfield).extent(),
        field_of(*final(playfield), None, final(removed_tiles)@) == field_of(
            *old(playfield),
            None,
            old(removed_tiles)@,
        ).removed_along(old(playfield).extent(), path(from, to)),
{
    let cells = traverse(from, to);
    let size = playfield.size();
    let ghost start = field_of(*playfield, None, removed_tiles@);
    let mut i: usize = 0;
    assert(cells@.skip(0) =~= cells@);
    while i < cells.len()
        invariant
            i <= cells.len(),
            playfield.wf(),
            playfield.extent() == size,
            field_of(*playfield, None, removed_tiles@).removed_along(size, cells@.skip(i as int))
                == start.removed_along(size, cells@),
        decreases cells.len() - i,
    {
        let cell = cells[i];
        let ghost before = field_of(*playfield, None, removed_tiles@);
        proof {
            assert(cells@.skip(i as int)[0] == cell);
            assert(cells@.skip(i as int).drop_first() =~= cells@.skip(i + 1));
            playfield.lemma_tiles_lie_on_the_field();
        }
        if let Ok(position) = cell.to_tile_pos(&size) {
            assert(position == tile_position(cell));
            despawn_conveyor(position, playfield, removed_tiles);
            assert(!before.tiles.dom().contains(position) ==> playfield@ =~= before.tiles);
        }
        assert(field_of(*playfield, None, removed_tiles@) == before.removed(size, cell));
        i += 1;
    }
}

/// Removing tiles neither reads nor changes the last placement of a gesture.
pub proof fn lemma_removal_keeps_previous(
    field: Field,
    previous: Option<PreviousPlaceAttempt>,
    size: PlayfieldSize,
    cells: Seq<GridCoordinate>,
)
    ensures
        (Field { previous, ..field }).removed_along(size, cells) == (Field {
            previous,
            ..field.removed_along(size, cells)
        }),
    decreases cells.len(),
{
    if cells.len() > 0 {
        lemma_removal_keeps_previous(field.removed(size, cells[0]), previous, size, cells.drop_first());
    }
}

/// After the tiles along a path were removed, no cell of the path holds a
/// tile, and every other cell holds what it held.
pub proof fn lemma_removed_along_clears(
    field: Field,
    size: PlayfieldSize,
    cells: Seq<GridCoordinate>,
)
    ensures
        forall|i: int|
            0 <= i < cells.len() && size.contains(
                (#[trigger] cells[i]).x as int,
                cells[i].y as int,
            ) ==> !field.removed_along(size, cells).tiles.dom().contains(tile_position(cells[i])),
        forall|p: TilePosition| #[trigger]
            off_the_run(cells, p) ==> same_tile(
                field.tiles,
                field.removed_along(size, cells).tiles,
                p,
            ),
        forall|p: TilePosition| #[trigger]
            field.removed_along(size, cells).tiles.dom().contains(p) ==> field.tiles.dom().contains(
                p,
            ),
    decreases cells.len(),
{
    if cells.len() > 0 {
        let next = field.removed(size, cells[0]);
        let rest = cells.drop_first();
        let after = field.removed_along(size, cells);
        lemma_removed_along_clears(next, size, rest);
        assert forall|i: int|
            0 <= i < cells.len() && size.contains(
                (#[trigger] cells[i]).x as int,
                cells[i].y as int,
            ) implies !after.tiles.dom().contains(tile_position(cells[i])) by {
            if i > 0 {
                assert(cells[i] == rest[i - 1]);
            } else {
                assert(!next.tiles.dom().contains(tile_position(cells[0])));
            }
        }
        assert forall|p: TilePosition| #[trigger] off_the_run(cells, p) implies same_tile(
            field.tiles,
            after.tiles,
            p,
        ) by {
            assert(!is_cell(cells[0], p));
            assert(same_tile(field.tiles, next.tiles, p));
            assert(off_the_run(rest, p)) by {
                assert forall|i: int| 0 <= i < rest.len() implies !is_cell(
                    #[trigger] rest[i],
                    p,
                ) by {
                    assert(rest[i] == cells[i + 1]);
                }
            }
            assert(same_tile(next.tiles, after.tiles, p));
        }
    }
}

} // verus!
