use vstd::prelude::*;
use bevy::utils::HashSet;
use crate::coordinates::{magnitude, PlayfieldSize, TilePosition};
use crate::tile::placement::fresh_tile;
use crate::tile::playfield::{ConveyorTile, Playfield};
use crate::tile::{ConveyorDirection, UpdatedTile};

verus! {

/// What one side of a tile is to the belt: the side the belt leaves by, a
/// side by which a neighbouring belt runs in, or neither.
#[derive(Debug, Clone, Copy, PartialEq, Eq, Structural)]
pub enum ConveyorNeighbor {
    Output,
    Input,
    Unconnected,
}

/// The direction of the tile on the cell `(x, y)`, if the cell lies on the
/// playfield and holds a tile.
pub open spec fn direction_at(
    tiles: Map<TilePosition, ConveyorTile>,
    size: PlayfieldSize,
    x: int,
    y: int,
) -> Option<ConveyorDirection> {
    let cell = TilePosition { x: x as u32, y: y as u32 };
    if size.contains(x, y) && tiles.dom().contains(cell) {
        Some(tiles[cell].direction)
    } else {
        None
    }
}

/// What the side `side` is to a tile that faces `own`, where the cell next
/// to that side holds a tile facing `neighbor`, or holds none: the output
/// where it is the tile's front, an input where the neighbour faces the
/// tile, and unconnected otherwise.
pub open spec fn neighbor_state(
    own: ConveyorDirection,
    side: ConveyorDirection,
    neighbor: Option<ConveyorDirection>,
) -> ConveyorNeighbor {
    if side == own {
        ConveyorNeighbor::Output
    } else if neighbor == Some(side.flipped()) {
        ConveyorNeighbor::Input
    } else {
        ConveyorNeighbor::Unconnected
    }
}

/// What the side `side` of the tile on `position` is to that tile.
pub open spec fn side_state(
    tiles: Map<TilePosition, ConveyorTile>,
    size: PlayfieldSize,
    position: TilePosition,
    side: ConveyorDirection,
) -> ConveyorNeighbor {
    neighbor_state(
        tiles[position].direction,
        side,
        direction_at(tiles, size, position.x + side.unit().x, position.y + side.unit().y),
    )
}

/// The picture of a north-facing tile whose three sides, clockwise from
/// its right, are in the given states. No picture is drawn for an output
/// on one of these sides.
pub open spec fn base_texture(
    right: ConveyorNeighbor,
    back: ConveyorNeighbor,
    left: ConveyorNeighbor,
) -> Option<int> {
    match (right, back, left) {
        (ConveyorNeighbor::Input, ConveyorNeighbor::Input, ConveyorNeighbor::Input) => Some(17),
        (ConveyorNeighbor::Input, ConveyorNeighbor::Input, ConveyorNeighbor::Unconnected) => Some(
            25,
        ),
        (ConveyorNeighbor::Input, ConveyorNeighbor::Unconnected, ConveyorNeighbor::Input) => Some(
            13,
        ),
        (
            ConveyorNeighbor::Input,
            ConveyorNeighbor::Unconnected,
            ConveyorNeighbor::Unconnected,
        ) => Some(9),
        (ConveyorNeighbor::Unconnected, ConveyorNeighbor::Input, ConveyorNeighbor::Input) => Some(
            21,
        ),
        (
            ConveyorNeighbor::Unconnected,
            ConveyorNeighbor::Input,
            ConveyorNeighbor::Unconnected,
        ) => Some(1),
        (
            ConveyorNeighbor::Unconnected,
            ConveyorNeighbor::Unconnected,
            ConveyorNeighbor::Input,
        ) => Some(5),
        (
            ConveyorNeighbor::Unconnected,
            ConveyorNeighbor::Unconnected,
            ConveyorNeighbor::Unconnected,
        ) => Some(1),
        _ => None,
    }
}

/// The picture of a tile that faces `direction` whose three sides are in
/// the given states: the picture of the north-facing tile, moved on by one
/// for each quarter turn; 0 where there is no such picture.
pub open spec fn texture_for(
    direction: ConveyorDirection,
    right: ConveyorNeighbor,
    back: ConveyorNeighbor,
    left: ConveyorNeighbor,
) -> int {
    match base_texture(right, back, left) {
        Some(base) => base + direction.quarter_turns(),
        None => 0,
    }
}

/// The picture that the tile on `position` is to be drawn with, given the
/// tiles around it.
pub open spec fn resolved_texture(
    tiles: Map<TilePosition, ConveyorTile>,
    size: PlayfieldSize,
    position: TilePosition,
) -> int {
    let own = tiles[position].direction;
    texture_for(
        own,
        side_state(tiles, size, position, own.clockwise()),
        side_state(tiles, size, position, own.flipped()),
        side_state(tiles, size, position, own.counterclockwise()),
    )
}

/// Whether `cell` is `center` or one of the four cells next to it.
pub open spec fn touches(center: TilePosition, cell: TilePosition) -> bool {
    magnitude(cell.x - center.x) + magnitude(cell.y - center.y) <= 1
}

/// Whether `cell` lies on the playfield and is the cell of one of the first
/// `n` notices, or next to it.
pub open spec fn touched_by_first(
    updates: Seq<UpdatedTile>,
    n: int,
    size: PlayfieldSize,
    cell: TilePosition,
) -> bool {
    size.contains(cell.x as int, cell.y as int) && exists|i: int|
        0 <= i < n && touches((#[trigger] updates[i]).pos, cell)
}

/// Whether the picture of `cell` is to be looked up anew after the given
/// notices: the cell lies on the playfield, and is the cell of one of the
/// notices or next to it.
pub open spec fn needs_update(
    updates: Seq<UpdatedTile>,
    size: PlayfieldSize,
    cell: TilePosition,
) -> bool {
    touched_by_first(updates, updates.len() as int, size, cell)
}

impl ConveyorDirection {
    /// The picture of a tile that faces this way, from the states of its
    /// three sides in the order of `neighbors_to_check_for_connections`.
    pub fn get_tile_texture_index(&self, input: &[ConveyorNeighbor; 3]) -> (index: u32)
        ensures
            index == texture_for(*self, input[0], input[1], input[2]),
    {
        let base: Option<u32> = match (input[0], input[1], input[2]) {
            (ConveyorNeighbor::Input, ConveyorNeighbor::Input, ConveyorNeighbor::Input) => Some(
                17,
            ),
            (
                ConveyorNeighbor::Input,
                ConveyorNeighbor::Input,
                ConveyorNeighbor::Unconnected,
            ) => Some(25),
            (
                ConveyorNeighbor::Input,
                ConveyorNeighbor::Unconnected,
                ConveyorNeighbor::Input,
            ) => Some(13),
            (
                ConveyorNeighbor::Input,
                ConveyorNeighbor::Unconnected,
                ConveyorNeighbor::Unconnected,
            ) => Some(9),
            (
                ConveyorNeighbor::Unconnected,
                ConveyorNeighbor::Input,
                ConveyorNeighbor::Input,
            ) => Some(21),
            (
                ConveyorNeighbor::Unconnected,
                ConveyorNeighbor::Input,
                ConveyorNeighbor::Unconnected,
            ) => Some(1),
            (
                ConveyorNeighbor::Unconnected,
                ConveyorNeighbor::Unconnected,
                ConveyorNeighbor::Input,
            ) => Some(5),
            (
                ConveyorNeighbor::Unconnected,
                ConveyorNeighbor::Unconnected,
                ConveyorNeighbor::Unconnected,
            ) => Some(1),
            _ => None,
        };
        let Some(base) = base else {
            return 0;
        };
        base + match self {
            ConveyorDirection::North => 0,
            ConveyorDirection::East => 1,
            ConveyorDirection::South => 2,
            ConveyorDirection::West => 3,
        }
    }
}

/// The cell one step from `position` towards `side`, if it lies on a
/// playfield of the given size.
pub fn neighbor_position(position: TilePosition, side: ConveyorDirection, size: PlayfieldSize) -> (cell:
    Option<TilePosition>)
    ensures
        cell is Some <==> size.contains(
            position.x + side.unit().x,
            position.y + side.unit().y,
        ),
        cell is Some ==> cell->Some_0.x == position.x + side.unit().x && cell->Some_0.y
            == position.y + side.unit().y,
{
    let offset = side.offset();
    let x: i64 = position.x as i64 + offset.x as i64;
    let y: i64 = position.y as i64 + offset.y as i64;
    if 0 <= x && x < size.x as i64 && 0 <= y && y < size.y as i64 {
        Some(TilePosition { x: x as u32, y: y as u32 })
    } else {
        None
    }
}

/// What one side of the tile on `position` is to that tile.
pub fn conveyor_neighbor(
    playfield: &Playfield,
    position: TilePosition,
    own: ConveyorDirection,
    side: ConveyorDirection,
) -> (state: ConveyorNeighbor)
    requires
        playfield.wf(),
        playfield@.dom().contains(position),
        playfield@[position].direction == own,
    ensures
        state == side_state(playfield@, playfield.extent(), position, side),
{
    if side == own {
        return ConveyorNeighbor::Output;
    }
    let Some(cell) = neighbor_position(position, side, playfield.size()) else {
        return ConveyorNeighbor::Unconnected;
    };
    let Some(tile) = playfield.get(cell) else {
        return ConveyorNeighbor::Unconnected;
    };
    match tile.direction == side.opposite() {
        true => ConveyorNeighbor::Input,
        false => ConveyorNeighbor::Unconnected,
    }
}

/// The picture that the tile on `position` is to be drawn with, if the cell
/// holds a tile.
pub fn tile_texture_index(playfield: &Playfield, position: TilePosition) -> (index: Option<u32>)
    requires
        playfield.wf(),
    ensures
        index == if playfield@.dom().contains(position) {
            Some(resolved_texture(playfield@, playfield.extent(), position) as u32)
        } else {
            None
        },
        index is Some ==> index->Some_0 == resolved_texture(
            playfield@,
            playfield.extent(),
            position,
        ),
{
    let Some(tile) = playfield.get(position) else {
        return None;
    };
    let direction = tile.direction;
    let sides = direction.neighbors_to_check_for_connections();
    let side_states: [ConveyorNeighbor; 3] = [
        conveyor_neighbor(playfield, position, direction, sides[0]),
        conveyor_neighbor(playfield, position, direction, sides[1]),
        conveyor_neighbor(playfield, position, direction, sides[2]),
    ];
    Some(direction.get_tile_texture_index(&side_states))
}

/// A set of cells of the playfield, kept in a `bevy::utils::HashSet` of
/// pairs of column and row. The set's type cannot be named outside its
/// crate with the bounds it was declared with, so it is held here, out of
/// sight, and nothing is known of it but what the functions below say.
#[verifier::external_body]
pub struct CellSet {
    cells: HashSet<(u32, u32)>,
}

/// The cells in a set of cells, by column and row.
pub uninterp spec fn cell_set_cells(set: CellSet) -> Set<(u32, u32)>;

/// The set without cells.
pub open spec fn no_cells() -> Set<(u32, u32)> {
    Set::empty()
}

/// `HashSet::default`: a set without cells.
#[verifier::external_body]
fn cell_set_new() -> (set: CellSet)
    ensures
        cell_set_cells(set) == no_cells(),
{
    CellSet { cells: HashSet::default() }
}

/// `HashSet::insert`: the set then holds the cell beside the cells it
/// held. The answer is whether the cell is new to the set.
#[verifier::external_body]
fn cell_set_insert(set: &mut CellSet, x: u32, y: u32) -> (fresh: bool)
    ensures
        cell_set_cells(*final(set)) == cell_set_cells(*old(set)).insert((x, y)),
        fresh == !cell_set_cells(*old(set)).contains((x, y)),
{
    set.cells.insert((x, y))
}

/// `HashSet::iter`, each pair made a position: every cell of the set, once.
/// The set walks its cells in an order of its own, of which nothing is
/// said.
#[verifier::external_body]
fn cell_set_to_vec(set: &CellSet) -> (cells: Vec<TilePosition>)
    ensures
        cells@.no_duplicates(),
        forall|p: TilePosition| #[trigger]
            cells@.contains(p) <==> cell_set_cells(*set).contains((p.x, p.y)),
{
    set.cells.iter().map(|cell| TilePosition { x: cell.0, y: cell.1 }).collect()
}

/// Adds to `cells` the cell `center` and the four cells next to it, as far
/// as they lie on the playfield.
fn insert_touching(cells: &mut CellSet, center: TilePosition, size: PlayfieldSize)
    ensures
        forall|p: TilePosition| #[trigger]
            cell_set_cells(*final(cells)).contains((p.x, p.y)) <==> cell_set_cells(
                *old(cells),
            ).contains((p.x, p.y)) || (size.contains(p.x as int, p.y as int) && touches(center, p)),
{
    if center.x < size.x && center.y < size.y {
        let _ = cell_set_insert(cells, center.x, center.y);
    }
    if let Some(cell) = neighbor_position(center, ConveyorDirection::North, size) {
        let _ = cell_set_insert(cells, cell.x, cell.y);
    }
    if let Some(cell) = neighbor_position(center, ConveyorDirection::East, size) {
        let _ = cell_set_insert(cells, cell.x, cell.y);
    }
    if let Some(cell) = neighbor_position(center, ConveyorDirection::South, size) {
        let _ = cell_set_insert(cells, cell.x, cell.y);
    }
    if let Some(cell) = neighbor_position(center, ConveyorDirection::West, size) {
        let _ = cell_set_insert(cells, cell.x, cell.y);
    }
}

/// The cells whose pictures are to be looked up anew after the given
/// notices, each once: the cells of the notices and the cells next to
/// them, as far as they lie on the playfield.
pub fn positions_to_update(updates: &Vec<UpdatedTile>, size: PlayfieldSize) -> (cells: Vec<
    TilePosition,
>)
    ensures
        cells@.no_duplicates(),
        forall|p: TilePosition| #[trigger]
            cells@.contains(p) <==> needs_update(updates@, size, p),
{
    let mut touched = cell_set_new();
    let mut i: usize = 0;
    while i < updates.len()
        invariant
            i <= updates.len(),
            forall|p: TilePosition| #[trigger]
                cell_set_cells(touched).contains((p.x, p.y)) <==> touched_by_first(
                    updates@,
                    i as int,
                    size,
                    p,
                ),
        decreases updates.len() - i,
    {
        let center = updates[i].pos;
        let ghost before = touched;
        insert_touching(&mut touched, center, size);
        proof {
            assert forall|p: TilePosition| #[trigger]
                cell_set_cells(touched).contains((p.x, p.y)) <==> touched_by_first(
                    updates@,
                    i + 1,
                    size,
                    p,
                ) by {
                lemma_touched_by_one_more(updates@, i as int, size, p);
                assert(cell_set_cells(before).contains((p.x, p.y)) <==> touched_by_first(
                    updates@,
                    i as int,
                    size,
                    p,
                ));
            }
        }
        i += 1;
    }
    cell_set_to_vec(&touched)
}

/// A cell is touched by the first `n + 1` notices when it is touched by
/// the first `n`, or by the one behind them.
proof fn lemma_touched_by_one_more(
    updates: Seq<UpdatedTile>,
    n: int,
    size: PlayfieldSize,
    cell: TilePosition,
)
    requires
        0 <= n < updates.len(),
    ensures
        touched_by_first(updates, n + 1, size, cell) <==> touched_by_first(updates, n, size, cell)
            || (size.contains(cell.x as int, cell.y as int) && touches(updates[n].pos, cell)),
{
    if touched_by_first(updates, n, size, cell) {
        let j = choose|j: int| 0 <= j < n && touches((#[trigger] updates[j]).pos, cell);
        assert(0 <= j < n + 1 && touches(updates[j].pos, cell));
    }
    if size.contains(cell.x as int, cell.y as int) && touches(updates[n].pos, cell) {
        assert(0 <= n < n + 1 && touches(updates[n].pos, cell));
    }
    if touched_by_first(updates, n + 1, size, cell) {
        let j = choose|j: int| 0 <= j < n + 1 && touches((#[trigger] updates[j]).pos, cell);
        if j < n {
            assert(0 <= j < n && touches(updates[j].pos, cell));
        }
    }
}

/// Looks up anew the pictures of the tiles that the notices touch, and
/// discards the notices.
///
/// The tiles in question are those on the cells of the notices and on the
/// cells next to them. Each is given the picture that the directions of
/// the tile and of its neighbours call for. No tile is added, removed or
/// turned, and no other tile changes its picture.
pub fn conveyor_tile_update_graphics(
    conveyor_tile_updates: &mut Vec<UpdatedTile>,
    playfield: &mut Playfield,
)
    requires
        old(playfield).wf(),
    ensures
        final(playfield).wf(),
        final(playfield).extent() == old(playfield).extent(),
        final(conveyor_tile_updates)@.len() == 0,
        final(playfield)@.dom() == old(playfield)@.dom(),
        forall|p: TilePosition| #[trigger]
            final(playfield)@.dom().contains(p) ==> {
                &&& final(playfield)@[p].direction == old(playfield)@[p].direction
                &&& final(playfield)@[p].texture_index == if needs_update(
                    old(conveyor_tile_updates)@,
                    old(playfield).extent(),
                    p,
                ) {
                    resolved_texture(old(playfield)@, old(playfield).extent(), p)
                } else {
                    old(playfield)@[p].texture_index as int
                }
            },
{
    let size = playfield.size();
    let cells = positions_to_update(conveyor_tile_updates, size);
    let ghost updates = conveyor_tile_updates@;
    let ghost tiles = playfield@;
    let mut i: usize = 0;
    while i < cells.len()
        invariant
            i <= cells.len(),
            playfield.wf(),
            playfield.extent() == size,
            cells@.no_duplicates(),
            forall|p: TilePosition| cells@.contains(p) <==> needs_update(updates, size, p),
            playfield@.dom() == tiles.dom(),
            forall|p: TilePosition| #[trigger]
                tiles.dom().contains(p) ==> {
                    &&& playfield@[p].direction == tiles[p].direction
                    &&& playfield@[p].texture_index == if cells@.take(i as int).contains(p) {
                        resolved_texture(tiles, size, p)
                    } else {
                        tiles[p].texture_index as int
                    }
                },
        decreases cells.len() - i,
    {
        let cell = cells[i];
        let ghost before = playfield@;
        proof {
            if tiles.dom().contains(cell) {
                lemma_texture_follows_directions(tiles, before, size, cell);
            }
        }
        if let Some(tile) = playfield.get(cell) {
            if let Some(index) = tile_texture_index(playfield, cell) {
                proof {
                    playfield.lemma_tiles_lie_on_the_field();
                }
                playfield.set(
                    cell,
                    ConveyorTile { direction: tile.direction, texture_index: index },
                );
                assert(playfield@.dom() =~= tiles.dom());
            }
        }
        proof {
            let shorter = cells@.take(i as int);
            let longer = cells@.take(i + 1);
            assert(longer =~= shorter.push(cell));
            assert forall|p: TilePosition| #[trigger] tiles.dom().contains(p) implies {
                &&& playfield@[p].direction == tiles[p].direction
                &&& playfield@[p].texture_index == if longer.contains(p) {
                    resolved_texture(tiles, size, p)
                } else {
                    tiles[p].texture_index as int
                }
            } by {
                if p == cell {
                    assert(longer[i as int] == cell);
                } else {
                    if shorter.contains(p) {
                        let j = choose|j: int| 0 <= j < shorter.len() && shorter[j] == p;
                        assert(longer[j] == p);
                    }
                    if longer.contains(p) {
                        let j = choose|j: int| 0 <= j < longer.len() && longer[j] == p;
                        assert(shorter[j] == p);
                    }
                }
            }
        }
        i += 1;
    }
    proof {
        assert(cells@.take(cells.len() as int) =~= cells@);
    }
    conveyor_tile_updates.clear();
}

/// The picture of a tile is decided by the directions of the tiles alone:
/// two fields with the same tiles facing the same ways call for the same
/// picture.
pub proof fn lemma_texture_follows_directions(
    one: Map<TilePosition, ConveyorTile>,
    other: Map<TilePosition, ConveyorTile>,
    size: PlayfieldSize,
    position: TilePosition,
)
    requires
        one.dom() == other.dom(),
        forall|p: TilePosition| #[trigger]
            one.dom().contains(p) ==> one[p].direction == other[p].direction,
        one.dom().contains(position),
    ensures
        resolved_texture(one, size, position) == resolved_texture(other, size, position),
{
    let own = one[position].direction;
    assert forall|side: ConveyorDirection|
        side_state(one, size, position, side) == side_state(other, size, position, side) by {
        let x = position.x + side.unit().x;
        let y = position.y + side.unit().y;
        let cell = TilePosition { x: x as u32, y: y as u32 };
        if one.dom().contains(cell) {
            assert(one[cell].direction == other[cell].direction);
        }
    }
}

/// A tile that was just placed is drawn as a tile that no belt runs into,
/// turned the way it faces; and that is the picture its surroundings call
/// for as long as no neighbour faces it.
pub proof fn lemma_fresh_tile_is_drawn_alone(
    tiles: Map<TilePosition, ConveyorTile>,
    size: PlayfieldSize,
    position: TilePosition,
    direction: ConveyorDirection,
)
    requires
        tiles.dom().contains(position),
        tiles[position] == fresh_tile(direction),
    ensures
        tiles[position].texture_index == texture_for(
            direction,
            ConveyorNeighbor::Unconnected,
            ConveyorNeighbor::Unconnected,
            ConveyorNeighbor::Unconnected,
        ),
        tiles[position].texture_index == 1 + direction.quarter_turns(),
        (forall|side: ConveyorDirection|
            side_state(tiles, size, position, side) != ConveyorNeighbor::Input)
            ==> resolved_texture(tiles, size, position) == tiles[position].texture_index,
{
    if forall|side: ConveyorDirection|
        side_state(tiles, size, position, side) != ConveyorNeighbor::Input {
        assert(side_state(tiles, size, position, direction.clockwise())
            != ConveyorNeighbor::Input);
        assert(side_state(tiles, size, position, direction.flipped()) != ConveyorNeighbor::Input);
        assert(side_state(tiles, size, position, direction.counterclockwise())
            != ConveyorNeighbor::Input);
    }
}

/// None of the three sides that are looked up for a tile is its output.
pub proof fn lemma_looked_up_sides_are_no_output(
    tiles: Map<TilePosition, ConveyorTile>,
    size: PlayfieldSize,
    position: TilePosition,
)
    ensures
        ({
            let own = tiles[position].direction;
            &&& side_state(tiles, size, position, own.clockwise()) != ConveyorNeighbor::Output
            &&& side_state(tiles, size, position, own.flipped()) != ConveyorNeighbor::Output
            &&& side_state(tiles, size, position, own.counterclockwise())
                != ConveyorNeighbor::Output
            &&& resolved_texture(tiles, size, position) != 0
        }),
{
}

/// Once a tile is removed, the side of a neighbour that faced it is no
/// input any more, and the other sides of that neighbour are what they
/// were.
pub proof fn lemma_removed_tile_feeds_nothing(
    tiles: Map<TilePosition, ConveyorTile>,
    size: PlayfieldSize,
    removed: TilePosition,
    position: TilePosition,
    side: ConveyorDirection,
)
    requires
        tiles.dom().contains(position),
        size.contains(position.x as int, position.y as int),
        removed.x == position.x + side.unit().x,
        removed.y == position.y + side.unit().y,
    ensures
        side_state(tiles.remove(removed), size, position, side) != ConveyorNeighbor::Input,
        forall|other: ConveyorDirection|
            other != side ==> side_state(tiles.remove(removed), size, position, other)
                == side_state(tiles, size, position, other),
{
    let rest = tiles.remove(removed);
    assert(position != removed);
    assert(rest[position] == tiles[position]);
    assert forall|other: ConveyorDirection| other != side implies side_state(
        rest,
        size,
        position,
        other,
    ) == side_state(tiles, size, position, other) by {
        let x = position.x + other.unit().x;
        let y = position.y + other.unit().y;
        let cell = TilePosition { x: x as u32, y: y as u32 };
        if size.contains(x, y) {
            assert(cell != removed);
        }
    }
}

} // verus!
