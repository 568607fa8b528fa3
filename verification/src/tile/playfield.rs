use vstd::prelude::*;
use bevy::prelude::Entity;
use bevy_ecs_tilemap::map::TilemapSize;
use bevy_ecs_tilemap::tiles::{TilePos, TileStorage};
use crate::coordinates::{PlayfieldSize, TilePosition};
use crate::tile::ConveyorDirection;

verus! {

/// `bevy_ecs_tilemap`'s `TileStorage`, a grid of cells that each hold an
/// entity or nothing. Nothing is known of it here but what the functions
/// below say.
#[verifier::external_type_specification]
#[verifier::external_body]
pub struct ExTileStorage(TileStorage);

/// The cells within a tile storage's size that hold an entity, by column
/// and row, each with the bits of the entity it holds.
pub uninterp spec fn storage_entries(storage: TileStorage) -> Map<(u32, u32), u64>;

/// The columns and rows of a tile storage: its `size`, which is the size it
/// was made with as long as nobody writes to that field.
pub uninterp spec fn storage_size(storage: TileStorage) -> (u32, u32);

/// The entries of a storage in which no cell holds an entity.
pub open spec fn no_entries() -> Map<(u32, u32), u64> {
    Map::empty()
}

/// `TileStorage::empty`: a storage of the given size in which no cell holds
/// an entity. The storage counts its cells in 32 bits, and a size with more
/// cells makes the count overflow: such a size is not asked for.
#[verifier::external_body]
fn storage_empty(width: u32, height: u32) -> (storage: TileStorage)
    requires
        width * height <= u32::MAX,
    ensures
        storage_size(storage) == (width, height),
        storage_entries(storage) == no_entries(),
{
    TileStorage::empty(TilemapSize { x: width, y: height })
}

/// `TileStorage::get`, with `Entity::to_bits` on what it finds: the bits of
/// the entity in a cell of the storage, if the cell holds one. The storage
/// keeps its cells row by row and does not look at the size before it reads,
/// so only cells within the size are asked for.
#[verifier::external_body]
fn storage_get(storage: &TileStorage, x: u32, y: u32) -> (bits: Option<u64>)
    requires
        storage_size(*storage).0 * storage_size(*storage).1 <= u32::MAX,
        x < storage_size(*storage).0,
        y < storage_size(*storage).1,
    ensures
        bits == if storage_entries(*storage).dom().contains((x, y)) {
            Some(storage_entries(*storage)[(x, y)])
        } else {
            None
        },
{
    match storage.get(&TilePos { x, y }) {
        Some(entity) => Some(entity.to_bits()),
        None => None,
    }
}

/// `TileStorage::set`, with `Entity::from_bits` on what it is given: the
/// cell then holds the entity with these bits, which `Entity::to_bits` hands
/// back unchanged, and no other cell changes. Only cells within the size
/// are written, as for `storage_get`.
#[verifier::external_body]
fn storage_set(storage: &mut TileStorage, x: u32, y: u32, bits: u64)
    requires
        storage_size(*old(storage)).0 * storage_size(*old(storage)).1 <= u32::MAX,
        x < storage_size(*old(storage)).0,
        y < storage_size(*old(storage)).1,
    ensures
        storage_size(*final(storage)) == storage_size(*old(storage)),
        storage_entries(*final(storage)) == storage_entries(*old(storage)).insert((x, y), bits),
{
    storage.set(&TilePos { x, y }, Entity::from_bits(bits))
}

/// `TileStorage::remove`: the cell then holds no entity, and no other cell
/// changes. Only cells within the size are cleared, as for `storage_get`.
#[verifier::external_body]
fn storage_remove(storage: &mut TileStorage, x: u32, y: u32)
    requires
        storage_size(*old(storage)).0 * storage_size(*old(storage)).1 <= u32::MAX,
        x < storage_size(*old(storage)).0,
        y < storage_size(*old(storage)).1,
    ensures
        storage_size(*final(storage)) == storage_size(*old(storage)),
        storage_entries(*final(storage)) == storage_entries(*old(storage)).remove((x, y)),
{
    storage.remove(&TilePos { x, y })
}

/// What a conveyor tile holds: the way it faces, and the index of the
/// picture it is drawn with. The picture is looked up from the directions of
/// the tile and its neighbours, and is only ever a copy of that answer.
#[derive(Debug, Clone, Copy, PartialEq, Eq, Structural)]
pub struct ConveyorTile {
    pub direction: ConveyorDirection,
    pub texture_index: u32,
}

/// A tile together with the cell it lies on.
#[derive(Debug, Clone, Copy, PartialEq, Eq, Structural)]
pub struct PlacedTile {
    pub position: TilePosition,
    pub tile: ConveyorTile,
}

/// The conveyor layer of a playfield: for each cell at most one tile.
///
/// The tiles are kept in a list without gaps. A tile storage finds the place
/// of a cell's tile in that list: the entity it holds for the cell has the
/// place for its bits.
pub struct Playfield {
    size: PlayfieldSize,
    storage: TileStorage,
    tiles: Vec<PlacedTile>,
}

impl View for Playfield {
    type V = Map<TilePosition, ConveyorTile>;

    /// The tiles on the playfield, by the cell they lie on.
    closed spec fn view(&self) -> Map<TilePosition, ConveyorTile> {
        Map::new(
            |p: TilePosition| storage_entries(self.storage).dom().contains((p.x, p.y)),
            |p: TilePosition| self.tiles[storage_entries(self.storage)[(p.x, p.y)] as int].tile,
        )
    }
}

impl Playfield {
    /// The extent of the playfield.
    pub closed spec fn extent(&self) -> PlayfieldSize {
        self.size
    }

    /// Whether the list of tiles and the storage that indexes it agree:
    /// every cell with an entry lies on the playfield, and finds in the list
    /// the tile that lies on that cell; every tile in the list is found by
    /// the entry of its cell.
    pub closed spec fn wf(&self) -> bool {
        let entries = storage_entries(self.storage);
        &&& storage_size(self.storage) == (self.size.x, self.size.y)
        &&& self.size.x * self.size.y <= u32::MAX
        &&& forall|x: u32, y: u32| #[trigger]
            entries.dom().contains((x, y)) ==> {
                &&& x < self.size.x
                &&& y < self.size.y
                &&& entries[(x, y)] < self.tiles.len()
                &&& self.tiles[entries[(x, y)] as int].position == (TilePosition { x, y })
            }
        &&& forall|h: int|
            0 <= h < self.tiles.len() ==> {
                let p = (#[trigger] self.tiles[h]).position;
                entries.dom().contains((p.x, p.y)) && entries[(p.x, p.y)] == h
            }
    }

    /// Only cells on the playfield hold tiles.
    pub proof fn lemma_tiles_lie_on_the_field(&self)
        requires
            self.wf(),
        ensures
            forall|p: TilePosition| #[trigger]
                self@.dom().contains(p) ==> self.extent().contains(p.x as int, p.y as int),
    {
        assert forall|p: TilePosition| #[trigger] self@.dom().contains(p) implies self.extent().contains(
            p.x as int,
            p.y as int,
        ) by {
            assert(storage_entries(self.storage).dom().contains((p.x, p.y)));
        }
    }

    /// An empty playfield of the given size.
    pub fn new(size: PlayfieldSize) -> (playfield: Playfield)
        requires
            size.x * size.y <= u32::MAX,
        ensures
            playfield.wf(),
            playfield.extent() == size,
            playfield@ == Map::<TilePosition, ConveyorTile>::empty(),
    {
        let playfield = Playfield {
            size,
            storage: storage_empty(size.x, size.y),
            tiles: Vec::new(),
        };
        assert(playfield@ =~= Map::<TilePosition, ConveyorTile>::empty());
        playfield
    }

    pub fn size(&self) -> (size: PlayfieldSize)
        ensures
            size == self.extent(),
    {
        self.size
    }

    /// The number of tiles on the playfield.
    pub fn len(&self) -> (n: usize)
        requires
            self.wf(),
        ensures
            n == self@.dom().len(),
            self@.dom().finite(),
    {
        proof {
            self.lemma_count();
        }
        self.tiles.len()
    }

    /// All tiles of the playfield with their cells, each once, in no
    /// particular order.
    pub fn tiles(&self) -> (tiles: Vec<PlacedTile>)
        requires
            self.wf(),
        ensures
            self@.dom().finite(),
            tiles@.len() == self@.dom().len(),
            forall|i: int|
                0 <= i < tiles@.len() ==> self@.dom().contains((#[trigger] tiles@[i]).position)
                    && self@[tiles@[i].position] == tiles@[i].tile,
            forall|i: int, j: int|
                0 <= i < j < tiles@.len() ==> (#[trigger] tiles@[i]).position != (
                #[trigger] tiles@[j]).position,
            forall|p: TilePosition| #[trigger]
                self@.dom().contains(p) ==> exists|i: int|
                    0 <= i < tiles@.len() && (#[trigger] tiles@[i]).position == p,
    {
        proof {
            self.lemma_count();
        }
        let mut tiles: Vec<PlacedTile> = Vec::new();
        let mut i: usize = 0;
        while i < self.tiles.len()
            invariant
                i <= self.tiles.len(),
                tiles@ == self.tiles@.take(i as int),
            decreases self.tiles.len() - i,
        {
            tiles.push(self.tiles[i]);
            assert(tiles@ =~= self.tiles@.take(i + 1));
            i += 1;
        }
        proof {
            assert(tiles@ =~= self.tiles@);
            assert forall|i: int, j: int| 0 <= i < j < tiles@.len() implies (#[trigger] tiles@[
                i
            ]).position != (#[trigger] tiles@[j]).position by {
                let p = self.tiles[i].position;
                let q = self.tiles[j].position;
                assert(storage_entries(self.storage)[(p.x, p.y)] == i);
                assert(storage_entries(self.storage)[(q.x, q.y)] == j);
            }
            assert forall|p: TilePosition| #[trigger] self@.dom().contains(p) implies exists|i: int|
                0 <= i < tiles@.len() && (#[trigger] tiles@[i]).position == p by {
                assert(storage_entries(self.storage).dom().contains((p.x, p.y)));
                let h = storage_entries(self.storage)[(p.x, p.y)] as int;
                assert(tiles@[h].position == p);
            }
        }
        tiles
    }

    /// The tile on a cell, if the cell lies on the playfield and holds one.
    pub fn get(&self, position: TilePosition) -> (tile: Option<ConveyorTile>)
        requires
            self.wf(),
        ensures
            tile == if self@.dom().contains(position) {
                Some(self@[position])
            } else {
                None
            },
    {
        if position.x < self.size.x && position.y < self.size.y {
            match storage_get(&self.storage, position.x, position.y) {
                Some(handle) => Some(self.tiles[handle as usize].tile),
                None => None,
            }
        } else {
            proof {
                self.lemma_tiles_lie_on_the_field();
            }
            None
        }
    }

    /// Puts a tile on a cell of the playfield, in place of the one that may
    /// lie there.
    pub fn set(&mut self, position: TilePosition, tile: ConveyorTile)
        requires
            old(self).wf(),
            old(self).extent().contains(position.x as int, position.y as int),
        ensures
            final(self).wf(),
            final(self).extent() == old(self).extent(),
            final(self)@ == old(self)@.insert(position, tile),
    {
        let placed = PlacedTile { position, tile };
        match storage_get(&self.storage, position.x, position.y) {
            Some(handle) => {
                self.tiles.set(handle as usize, placed);
            },
            None => {
                let handle = self.tiles.len() as u64;
                self.tiles.push(placed);
                storage_set(&mut self.storage, position.x, position.y, handle);
            },
        }
        assert(self@ =~= old(self)@.insert(position, tile));
    }

    /// Takes the tile off a cell, if the cell lies on the playfield and
    /// holds one, and hands it out.
    pub fn remove(&mut self, position: TilePosition) -> (tile: Option<ConveyorTile>)
        requires
            old(self).wf(),
        ensures
            final(self).wf(),
            final(self).extent() == old(self).extent(),
            final(self)@ == old(self)@.remove(position),
            tile == if old(self)@.dom().contains(position) {
                Some(old(self)@[position])
            } else {
                None
            },
    {
        if !(position.x < self.size.x && position.y < self.size.y) {
            proof {
                self.lemma_tiles_lie_on_the_field();
                assert(self@ =~= old(self)@.remove(position));
            }
            return None;
        }
        match storage_get(&self.storage, position.x, position.y) {
            Some(handle) => {
                let handle = handle as usize;
                let removed = self.tiles[handle].tile;
                let last = self.tiles.len() - 1;
                storage_remove(&mut self.storage, position.x, position.y);
                if handle != last {
                    let moved = self.tiles[last];
                    self.tiles.set(handle, moved);
                    storage_set(
                        &mut self.storage,
                        moved.position.x,
                        moved.position.y,
                        handle as u64,
                    );
                }
                let _ = self.tiles.pop();
                assert(self@ =~= old(self)@.remove(position));
                Some(removed)
            },
            None => {
                assert(self@ =~= old(self)@.remove(position));
                None
            },
        }
    }

    /// The list holds each tile of the playfield once.
    proof fn lemma_count(&self)
        requires
            self.wf(),
        ensures
            self@.dom().finite(),
            self@.dom().len() == self.tiles.len(),
    {
        let positions = self.tiles@.map_values(|t: PlacedTile| t.position);
        assert(positions.no_duplicates()) by {
            assert forall|i: int, j: int|
                0 <= i < positions.len() && 0 <= j < positions.len() && i != j implies positions[i]
                != positions[j] by {
                let p = self.tiles[i].position;
                let q = self.tiles[j].position;
                assert(storage_entries(self.storage)[(p.x, p.y)] == i);
                assert(storage_entries(self.storage)[(q.x, q.y)] == j);
            }
        }
        assert(positions.to_set() =~= self@.dom()) by {
            assert forall|p: TilePosition| self@.dom().contains(p) implies positions.to_set().contains(
                p,
            ) by {
                let h = storage_entries(self.storage)[(p.x, p.y)] as int;
                assert(storage_entries(self.storage).dom().contains((p.x, p.y)));
                assert(positions[h] == p);
            }
            assert forall|p: TilePosition| positions.to_set().contains(p) implies self@.dom().contains(
                p,
            ) by {
                let h = choose|h: int| 0 <= h < positions.len() && positions[h] == p;
                assert(self.tiles[h].position == p);
            }
        }
        positions.unique_seq_to_set();
    }
}

} // verus!
