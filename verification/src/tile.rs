use vstd::prelude::*;
use crate::coordinates::{sign, signum, GridCoordinate, PlayfieldSize, TilePosition};
use crate::helpers::grid_traversal::{line_fits, path, GridTraversal};
use crate::input::chained_tile::{
    ChainedTileChangeEvent, ChainedTileChangePosition, ChainedTileChangeType,
    ChainedTilePlaceDirection,
};
use crate::tile::consistency::{
    is_resolved, lemma_changes_are_noticed, lemma_pictures_stay_resolved,
};
use crate::tile::placement::{field_of, place_tile_line, Field, PreviousPlaceAttempt};
use crate::tile::playfield::Playfield;
use crate::tile::removal::{despawn_conveyor_line, lemma_removal_keeps_previous};
use crate::tile::update_graphics::{
    conveyor_tile_update_graphics, needs_update, positions_to_update, resolved_texture,
};

pub mod background;
pub mod consistency;
pub mod placement;
pub mod playfield;
pub mod removal;
pub mod update_graphics;

verus! {

/// The notice that the tile on a cell was placed, turned or removed, so that
/// the pictures of the cell and of its neighbours are looked up anew.
#[derive(Debug, Clone, Copy, PartialEq, Eq, Structural)]
pub struct UpdatedTile {
    pub pos: TilePosition,
}

/// The way a conveyor tile faces: the side its belt moves items towards.
#[derive(Debug, PartialEq, Eq, Clone, Copy, Structural)]
pub enum ConveyorDirection {
    North,
    South,
    East,
    West,
}

impl Default for ConveyorDirection {
    fn default() -> (direction: ConveyorDirection)
        ensures
            direction == ConveyorDirection::North,
    {
        ConveyorDirection::North
    }
}

impl ConveyorDirection {
    /// The direction a quarter turn clockwise of `self`.
    pub open spec fn clockwise(self) -> ConveyorDirection {
        match self {
            ConveyorDirection::North => ConveyorDirection::East,
            ConveyorDirection::East => ConveyorDirection::South,
            ConveyorDirection::South => ConveyorDirection::West,
            ConveyorDirection::West => ConveyorDirection::North,
        }
    }

    /// The direction a half turn from `self`.
    pub open spec fn flipped(self) -> ConveyorDirection {
        self.clockwise().clockwise()
    }

    /// The direction a quarter turn counterclockwise of `self`.
    pub open spec fn counterclockwise(self) -> ConveyorDirection {
        self.clockwise().clockwise().clockwise()
    }

    /// `self`, flipped when the placement is reversed.
    pub open spec fn placed(self, direction: ChainedTilePlaceDirection) -> ConveyorDirection {
        if direction == ChainedTilePlaceDirection::Reversed {
            self.flipped()
        } else {
            self
        }
    }

    /// The number of quarter turns clockwise from north.
    pub open spec fn quarter_turns(self) -> int {
        match self {
            ConveyorDirection::North => 0,
            ConveyorDirection::East => 1,
            ConveyorDirection::South => 2,
            ConveyorDirection::West => 3,
        }
    }

    /// The cell one step from the origin in this direction. North is up the
    /// y axis and east is up the x axis.
    pub open spec fn unit(self) -> GridCoordinate {
        match self {
            ConveyorDirection::North => GridCoordinate { x: 0, y: 1 },
            ConveyorDirection::East => GridCoordinate { x: 1, y: 0 },
            ConveyorDirection::South => GridCoordinate { x: 0, y: -1i32 },
            ConveyorDirection::West => GridCoordinate { x: -1i32, y: 0 },
        }
    }

    /// The direction whose unit offset is `(x, y)`, if there is one.
    pub open spec fn of_offset(x: int, y: int) -> Option<ConveyorDirection> {
        if x == 0 && y == 1 {
            Some(ConveyorDirection::North)
        } else if x == 1 && y == 0 {
            Some(ConveyorDirection::East)
        } else if x == 0 && y == -1 {
            Some(ConveyorDirection::South)
        } else if x == -1 && y == 0 {
            Some(ConveyorDirection::West)
        } else {
            None
        }
    }

    /// The index of the picture of a lone tile that faces this way.
    pub fn texture_index(&self) -> (index: u32)
        ensures
            index == 1 + self.quarter_turns(),
    {
        match self {
            ConveyorDirection::North => 1,
            ConveyorDirection::East => 2,
            ConveyorDirection::South => 3,
            ConveyorDirection::West => 4,
        }
    }

    pub fn opposite(&self) -> (direction: ConveyorDirection)
        ensures
            direction == self.flipped(),
    {
        match self {
            ConveyorDirection::North => ConveyorDirection::South,
            ConveyorDirection::East => ConveyorDirection::West,
            ConveyorDirection::South => ConveyorDirection::North,
            ConveyorDirection::West => ConveyorDirection::East,
        }
    }

    /// The opposite direction when `reverse` is set, else `self`.
    pub fn reverse(&self, reverse: bool) -> (direction: ConveyorDirection)
        ensures
            direction == if reverse {
                self.flipped()
            } else {
                *self
            },
    {
        match reverse {
            true => self.opposite(),
            false => *self,
        }
    }

    pub fn apply_place_direction(&self, direction: ChainedTilePlaceDirection) -> (placed:
        ConveyorDirection)
        ensures
            placed == self.placed(direction),
    {
        self.reverse(direction == ChainedTilePlaceDirection::Reversed)
    }

    pub fn name(&self) -> (name: &'static str)
        ensures
            name@ == match *self {
                ConveyorDirection::North => "North"@,
                ConveyorDirection::East => "East"@,
                ConveyorDirection::South => "South"@,
                ConveyorDirection::West => "West"@,
            },
    {
        match self {
            ConveyorDirection::North => "North",
            ConveyorDirection::East => "East",
            ConveyorDirection::South => "South",
            ConveyorDirection::West => "West",
        }
    }

    /// The unit offsets of all four directions, clockwise from north.
    pub fn direction_values() -> (offsets: [GridCoordinate; 4])
        ensures
            offsets[0] == ConveyorDirection::North.unit(),
            offsets[1] == ConveyorDirection::East.unit(),
            offsets[2] == ConveyorDirection::South.unit(),
            offsets[3] == ConveyorDirection::West.unit(),
    {
        [
            GridCoordinate { x: 0, y: 1 },
            GridCoordinate { x: 1, y: 0 },
            GridCoordinate { x: 0, y: -1 },
            GridCoordinate { x: -1, y: 0 },
        ]
    }

    /// The unit offsets of the three other directions, clockwise, starting
    /// a quarter turn clockwise of `self`.
    pub fn neighbor_offsets(&self) -> (offsets: [GridCoordinate; 3])
        ensures
            offsets[0] == self.clockwise().unit(),
            offsets[1] == self.flipped().unit(),
            offsets[2] == self.counterclockwise().unit(),
    {
        match self {
            ConveyorDirection::North => [
                GridCoordinate { x: 1, y: 0 },
                GridCoordinate { x: 0, y: -1 },
                GridCoordinate { x: -1, y: 0 },
            ],
            ConveyorDirection::East => [
                GridCoordinate { x: 0, y: -1 },
                GridCoordinate { x: -1, y: 0 },
                GridCoordinate { x: 0, y: 1 },
            ],
            ConveyorDirection::South => [
                GridCoordinate { x: -1, y: 0 },
                GridCoordinate { x: 0, y: 1 },
                GridCoordinate { x: 1, y: 0 },
            ],
            ConveyorDirection::West => [
                GridCoordinate { x: 0, y: 1 },
                GridCoordinate { x: 1, y: 0 },
                GridCoordinate { x: 0, y: -1 },
            ],
        }
    }

    pub fn offset(&self) -> (offset: GridCoordinate)
        ensures
            offset == self.unit(),
    {
        match self {
            ConveyorDirection::North => GridCoordinate { x: 0, y: 1 },
            ConveyorDirection::East => GridCoordinate { x: 1, y: 0 },
            ConveyorDirection::South => GridCoordinate { x: 0, y: -1 },
            ConveyorDirection::West => GridCoordinate { x: -1, y: 0 },
        }
    }

    /// The three sides of a tile that can take a belt in, in the order in
    /// which connections are looked up: clockwise, starting a quarter turn
    /// clockwise of `self`. The tile's own direction is not among them.
    pub fn neighbors_to_check_for_connections(&self) -> (sides: [ConveyorDirection; 3])
        ensures
            sides[0] == self.clockwise(),
            sides[1] == self.flipped(),
            sides[2] == self.counterclockwise(),
    {
        match self {
            ConveyorDirection::North => [
                ConveyorDirection::East,
                ConveyorDirection::South,
                ConveyorDirection::West,
            ],
            ConveyorDirection::East => [
                ConveyorDirection::South,
                ConveyorDirection::West,
                ConveyorDirection::North,
            ],
            ConveyorDirection::South => [
                ConveyorDirection::West,
                ConveyorDirection::North,
                ConveyorDirection::East,
            ],
            ConveyorDirection::West => [
                ConveyorDirection::North,
                ConveyorDirection::East,
                ConveyorDirection::South,
            ],
        }
    }

    pub fn rotate_clockwise(&self) -> (direction: ConveyorDirection)
        ensures
            direction == self.clockwise(),
    {
        match self {
            ConveyorDirection::North => ConveyorDirection::East,
            ConveyorDirection::South => ConveyorDirection::West,
            ConveyorDirection::East => ConveyorDirection::South,
            ConveyorDirection::West => ConveyorDirection::North,
        }
    }

    pub fn rotate_counterclockwise(&self) -> (direction: ConveyorDirection)
        ensures
            direction == self.counterclockwise(),
    {
        match self {
            ConveyorDirection::North => ConveyorDirection::West,
            ConveyorDirection::East => ConveyorDirection::North,
            ConveyorDirection::South => ConveyorDirection::East,
            ConveyorDirection::West => ConveyorDirection::South,
        }
    }

    /// The direction whose unit offset is exactly `(x, y)`.
    pub fn from_x_y(x: i32, y: i32) -> (direction: Option<ConveyorDirection>)
        ensures
            direction == ConveyorDirection::of_offset(x as int, y as int),
    {
        match (x, y) {
            (0, 1) => Some(ConveyorDirection::North),
            (1, 0) => Some(ConveyorDirection::East),
            (0, -1) => Some(ConveyorDirection::South),
            (-1, 0) => Some(ConveyorDirection::West),
            _ => None,
        }
    }

    /// The direction in which `vector` points, whatever its length: `None`
    /// for the zero vector and for one that leaves both axes.
    pub fn from_ivec2(vector: GridCoordinate) -> (direction: Option<ConveyorDirection>)
        ensures
            direction == ConveyorDirection::of_offset(
                sign(vector.x as int),
                sign(vector.y as int),
            ),
    {
        Self::from_x_y(signum(vector.x as i64), signum(vector.y as i64))
    }
}

/// A half turn twice, and a quarter turn four times, lead back to where
/// they began; a quarter turn one way undoes a quarter turn the other way.
pub proof fn lemma_turns_cancel(d: ConveyorDirection)
    ensures
        d.flipped().flipped() == d,
        d.clockwise().clockwise().clockwise().clockwise() == d,
        d.clockwise().counterclockwise() == d,
        d.counterclockwise().clockwise() == d,
{
}

/// The four unit offsets are axis-aligned single steps, no two directions
/// share one, and opposite directions have opposite offsets.
pub proof fn lemma_unit_offsets(d: ConveyorDirection, e: ConveyorDirection)
    ensures
        (GridCoordinate { x: 0, y: 0 }).is_unit_step_to(d.unit()),
        d.unit() == e.unit() ==> d == e,
        d.flipped().unit().x == -d.unit().x,
        d.flipped().unit().y == -d.unit().y,
        ConveyorDirection::of_offset(d.unit().x as int, d.unit().y as int) == Some(d),
{
}

impl ChainedTileChangePosition {
    /// The cell where the change starts.
    pub open spec fn first(self) -> GridCoordinate {
        match self {
            ChainedTileChangePosition::Single(position) => position,
            ChainedTileChangePosition::StraightLine { start, .. } => start,
        }
    }

    /// The cell where the change ends.
    pub open spec fn last(self) -> GridCoordinate {
        match self {
            ChainedTileChangePosition::Single(position) => position,
            ChainedTileChangePosition::StraightLine { end, .. } => end,
        }
    }

    /// The cells that the change covers, in order: the one cell, or the
    /// cells that a gesture along the line passes through.
    pub open spec fn cells(self) -> Seq<GridCoordinate> {
        path(self.first(), self.last())
    }

    /// Whether a walk along the change stays among the cells that
    /// coordinates can name.
    pub open spec fn fits(self) -> bool {
        line_fits(self.first(), self.last())
    }
}

impl Field {
    /// The field at the start of a run of placements: as it is where the run
    /// chains with what came before, and with no previous placement where a
    /// new gesture begins.
    pub open spec fn begun(self, chain: bool) -> Field {
        if chain {
            self
        } else {
            Field { previous: None, ..self }
        }
    }

    /// The field after one change: tiles placed on its cells, or the tiles
    /// on its cells removed. A change along a line that does not fit the
    /// grid is passed over: nothing changes.
    pub open spec fn changed(
        self,
        size: PlayfieldSize,
        event: ChainedTileChangeEvent,
        selected: ConveyorDirection,
    ) -> Field {
        if !event.position.fits() {
            self
        } else {
            match event.change_type {
                ChainedTileChangeType::Put {
                    chain,
                    direction,
                    ..
                } => self.begun(chain).placed_along(
                    size,
                    event.position.cells(),
                    direction,
                    selected,
                    chain,
                ),
                ChainedTileChangeType::Delete => self.removed_along(size, event.position.cells()),
            }
        }
    }

    /// The field after the given changes, one after the other.
    pub open spec fn changed_by(
        self,
        size: PlayfieldSize,
        events: Seq<ChainedTileChangeEvent>,
        selected: ConveyorDirection,
    ) -> Field
        decreases events.len(),
    {
        if events.len() == 0 {
            self
        } else {
            self.changed(size, events[0], selected).changed_by(
                size,
                events.drop_first(),
                selected,
            )
        }
    }
}

/// Whether a walk along a change stays among the cells that coordinates can
/// name. A change on one cell always does.
pub fn change_fits(event: &ChainedTileChangeEvent) -> (fits: bool)
    ensures
        fits == event.position.fits(),
{
    match event.position {
        ChainedTileChangePosition::Single(_) => true,
        ChainedTileChangePosition::StraightLine { start, end } => GridTraversal::fits(start, end),
    }
}

/// Applies the changes of one tick to the playfield, in the order in which
/// they were asked for, and sends a notice for each tile placed, turned or
/// removed. A change that places tiles without chaining begins a new
/// gesture: the last placement of the gesture before is forgotten. A change
/// along a line that does not fit the grid is passed over.
pub fn catch_chained_tile_change_events(
    place_tile_events: &Vec<ChainedTileChangeEvent>,
    placed_tiles: &mut Vec<UpdatedTile>,
    playfield: &mut Playfield,
    previous_tile_attempt: &mut Option<PreviousPlaceAttempt>,
    selected_tile_direction: ConveyorDirection,
)
    requires
        old(playfield).wf(),
    ensures
        final(playfield).wf(),
        final(playfield).extent() == old(playfield).extent(),
        field_of(*final(playfield), *final(previous_tile_attempt), final(placed_tiles)@)
            == field_of(
            *old(playfield),
            *old(previous_tile_attempt),
            old(placed_tiles)@,
        ).changed_by(old(playfield).extent(), place_tile_events@, selected_tile_direction),
{
    let size = playfield.size();
    let ghost goal = field_of(*playfield, *previous_tile_attempt, placed_tiles@).changed_by(
        size,
        place_tile_events@,
        selected_tile_direction,
    );
    let mut i: usize = 0;
    assert(place_tile_events@.skip(0) =~= place_tile_events@);
    while i < place_tile_events.len()
        invariant
            i <= place_tile_events.len(),
            playfield.wf(),
            playfield.extent() == size,
            field_of(*playfield, *previous_tile_attempt, placed_tiles@).changed_by(
                size,
                place_tile_events@.skip(i as int),
                selected_tile_direction,
            ) == goal,
        decreases place_tile_events.len() - i,
    {
        let event = place_tile_events[i];
        let ghost before = field_of(*playfield, *previous_tile_attempt, placed_tiles@);
        proof {
            assert(place_tile_events@.skip(i as int)[0] == event);
            assert(place_tile_events@.skip(i as int).drop_first() =~= place_tile_events@.skip(
                i + 1,
            ));
        }
        let (from, to) = match event.position {
            ChainedTileChangePosition::Single(position) => (position, position),
            ChainedTileChangePosition::StraightLine { start, end } => (start, end),
        };
        if !change_fits(&event) {
            i += 1;
            continue ;
        }
        match event.change_type {
            ChainedTileChangeType::Put { tile_type: _, chain, direction } => {
                if !chain {
                    *previous_tile_attempt = None;
                }
                place_tile_line(
                    from,
                    to,
                    playfield,
                    previous_tile_attempt,
                    placed_tiles,
                    direction,
                    selected_tile_direction,
                    chain,
                );
            },
            ChainedTileChangeType::Delete => {
                despawn_conveyor_line(from, to, playfield, placed_tiles);
                proof {
                    lemma_removal_keeps_previous(
                        Field { previous: None, ..before },
                        before.previous,
                        size,
                        path(from, to),
                    );
                }
            },
        }
        assert(field_of(*playfield, *previous_tile_attempt, placed_tiles@) == before.changed(
            size,
            event,
            selected_tile_direction,
        ));
        i += 1;
    }
}

/// One tick of the conveyor layer: the changes are applied, and then the
/// pictures of the tiles they touched are looked up anew.
///
/// The notices that the changes send are used up within the tick. The
/// cells they called to look up are handed back, each once, for whoever
/// draws the playfield. Tiles that were drawn right before the tick are
/// drawn right after it.
pub fn update_conveyors(
    place_tile_events: &Vec<ChainedTileChangeEvent>,
    playfield: &mut Playfield,
    previous_tile_attempt: &mut Option<PreviousPlaceAttempt>,
    selected_tile_direction: ConveyorDirection,
) -> (updated: Vec<TilePosition>)
    requires
        old(playfield).wf(),
    ensures
        final(playfield).wf(),
        final(playfield).extent() == old(playfield).extent(),
        ({
            let size = old(playfield).extent();
            let changed = field_of(
                *old(playfield),
                *old(previous_tile_attempt),
                Seq::empty(),
            ).changed_by(size, place_tile_events@, selected_tile_direction);
            &&& *final(previous_tile_attempt) == changed.previous
            &&& final(playfield)@.dom() == changed.tiles.dom()
            &&& forall|p: TilePosition| #[trigger]
                final(playfield)@.dom().contains(p) ==> {
                    &&& final(playfield)@[p].direction == changed.tiles[p].direction
                    &&& final(playfield)@[p].texture_index == if needs_update(
                        changed.updates,
                        size,
                        p,
                    ) {
                        resolved_texture(changed.tiles, size, p)
                    } else {
                        changed.tiles[p].texture_index as int
                    }
                }
            &&& updated@.no_duplicates()
            &&& forall|p: TilePosition| #[trigger]
                updated@.contains(p) <==> needs_update(changed.updates, size, p)
        }),
        is_resolved(old(playfield)@, old(playfield).extent()) ==> is_resolved(
            final(playfield)@,
            final(playfield).extent(),
        ),
{
    let size = playfield.size();
    let ghost before = field_of(*playfield, *previous_tile_attempt, Seq::empty());
    let mut placed_tiles: Vec<UpdatedTile> = Vec::new();
    assert(placed_tiles@ =~= Seq::empty());
    catch_chained_tile_change_events(
        place_tile_events,
        &mut placed_tiles,
        playfield,
        previous_tile_attempt,
        selected_tile_direction,
    );
    let ghost changed = field_of(*playfield, *previous_tile_attempt, placed_tiles@);
    proof {
        playfield.lemma_tiles_lie_on_the_field();
        lemma_changes_are_noticed(before, size, place_tile_events@, selected_tile_direction);
    }
    let updated = positions_to_update(&placed_tiles, size);
    conveyor_tile_update_graphics(&mut placed_tiles, playfield);
    proof {
        if is_resolved(before.tiles, size) {
            lemma_pictures_stay_resolved(before, changed, playfield@, size);
        }
    }
    updated
}

} // verus!
