use vstd::prelude::*;

verus! {

/// A cell of the unbounded integer grid. Cells off the playfield, including
/// cells with negative coordinates, are ordinary values of this type.
#[derive(Debug, Clone, Copy, PartialEq, Eq, Structural)]
pub struct GridCoordinate {
    pub x: i32,
    pub y: i32,
}

/// A cell addressed the way a playfield stores it: by unsigned column and row.
#[derive(Debug, Clone, Copy, PartialEq, Eq, Structural)]
pub struct TilePosition {
    pub x: u32,
    pub y: u32,
}

/// The extent of a playfield: `x` columns by `y` rows.
#[derive(Debug, Clone, Copy, PartialEq, Eq, Structural)]
pub struct PlayfieldSize {
    pub x: u32,
    pub y: u32,
}

/// Distance of `v` from zero.
pub open spec fn magnitude(v: int) -> int {
    if v < 0 {
        -v
    } else {
        v
    }
}

/// -1, 0 or 1 according to the sign of `v`.
pub open spec fn sign(v: int) -> int {
    if v < 0 {
        -1
    } else if v == 0 {
        0
    } else {
        1
    }
}

/// The value a 32-bit pattern has when it is read as a signed number.
pub open spec fn reinterpret_signed(v: u32) -> int {
    if v <= i32::MAX {
        v as int
    } else {
        v - 0x1_0000_0000
    }
}

/// The value a signed 32-bit number has when its pattern is read as unsigned.
pub open spec fn reinterpret_unsigned(v: int) -> int {
    if v < 0 {
        v + 0x1_0000_0000
    } else {
        v
    }
}

/// -1, 0 or 1 according to the sign of `v`.
pub fn signum(v: i64) -> (s: i32)
    ensures
        s == sign(v as int),
{
    if v < 0 {
        -1
    } else if v == 0 {
        0
    } else {
        1
    }
}

impl PlayfieldSize {
    pub fn new(x: u32, y: u32) -> (size: PlayfieldSize)
        ensures
            size.x == x,
            size.y == y,
    {
        PlayfieldSize { x, y }
    }

    /// Whether the cell `(x, y)` lies on a playfield of this size.
    pub open spec fn contains(self, x: int, y: int) -> bool {
        0 <= x < self.x && 0 <= y < self.y
    }
}

impl GridCoordinate {
    pub fn new(x: i32, y: i32) -> (c: GridCoordinate)
        ensures
            c.x == x,
            c.y == y,
    {
        GridCoordinate { x, y }
    }

    /// Whether `other` is reached from `self` by moving exactly one cell
    /// along exactly one axis.
    pub open spec fn is_unit_step_to(self, other: GridCoordinate) -> bool {
        magnitude(other.x - self.x) + magnitude(other.y - self.y) == 1
    }

    /// The component that lies closer to zero; `x` when both are equally far.
    pub fn closest_to_zero(&self) -> (c: i32)
        ensures
            c == if magnitude(self.x as int) > magnitude(self.y as int) {
                self.y
            } else {
                self.x
            },
    {
        let ax: i64 = if self.x < 0 { -(self.x as i64) } else { self.x as i64 };
        let ay: i64 = if self.y < 0 { -(self.y as i64) } else { self.y as i64 };
        if ax > ay {
            self.y
        } else {
            self.x
        }
    }

    /// The component that lies farther from zero; `x` when both are equally far.
    pub fn farthest_from_zero(&self) -> (c: i32)
        ensures
            c == if magnitude(self.x as int) < magnitude(self.y as int) {
                self.y
            } else {
                self.x
            },
    {
        let ax: i64 = if self.x < 0 { -(self.x as i64) } else { self.x as i64 };
        let ay: i64 = if self.y < 0 { -(self.y as i64) } else { self.y as i64 };
        if ax < ay {
            self.y
        } else {
            self.x
        }
    }

    /// The position of this cell on a playfield of the given size, or `Err`
    /// exactly when the cell lies off that playfield.
    pub fn to_tile_pos(&self, tilemap_size: &PlayfieldSize) -> (r: Result<TilePosition, ()>)
        ensures
            r is Ok <==> tilemap_size.contains(self.x as int, self.y as int),
            r is Ok ==> r->Ok_0.x == self.x && r->Ok_0.y == self.y,
    {
        if self.x < 0 || self.y < 0 {
            return Err(());
        }
        let x: u32 = self.x as u32;
        let y: u32 = self.y as u32;
        if x < tilemap_size.x && y < tilemap_size.y {
            Ok(TilePosition { x, y })
        } else {
            Err(())
        }
    }
}

impl TilePosition {
    pub fn new(x: u32, y: u32) -> (p: TilePosition)
        ensures
            p.x == x,
            p.y == y,
    {
        TilePosition { x, y }
    }

    /// Overwrites both components.
    pub fn set(&mut self, x: u32, y: u32)
        ensures
            final(self).x == x,
            final(self).y == y,
    {
        self.x = x;
        self.y = y;
    }

    /// As `set`, with the arguments in the other order.
    pub fn set_reverse(&mut self, y: u32, x: u32)
        ensures
            final(self).x == x,
            final(self).y == y,
    {
        self.set(x, y)
    }

    /// The same bit patterns read as signed numbers: components above
    /// `i32::MAX` come out negative.
    pub fn as_ivec2(&self) -> (c: GridCoordinate)
        ensures
            c.x == reinterpret_signed(self.x),
            c.y == reinterpret_signed(self.y),
    {
        GridCoordinate { x: signed_pattern(self.x), y: signed_pattern(self.y) }
    }

    /// Moves the position by a signed offset, in 32-bit signed arithmetic on
    /// the bit patterns of the components.
    pub fn add(&mut self, x: i32, y: i32)
        requires
            i32::MIN <= reinterpret_signed(old(self).x) + x <= i32::MAX,
            i32::MIN <= reinterpret_signed(old(self).y) + y <= i32::MAX,
        ensures
            final(self).x == reinterpret_unsigned(reinterpret_signed(old(self).x) + x),
            final(self).y == reinterpret_unsigned(reinterpret_signed(old(self).y) + y),
    {
        self.x = unsigned_pattern(signed_pattern(self.x) + x);
        self.y = unsigned_pattern(signed_pattern(self.y) + y);
    }

    /// As `add`, with the arguments in the other order.
    pub fn add_reverse(&mut self, y: i32, x: i32)
        requires
            i32::MIN <= reinterpret_signed(old(self).x) + x <= i32::MAX,
            i32::MIN <= reinterpret_signed(old(self).y) + y <= i32::MAX,
        ensures
            final(self).x == reinterpret_unsigned(reinterpret_signed(old(self).x) + x),
            final(self).y == reinterpret_unsigned(reinterpret_signed(old(self).y) + y),
    {
        self.add(x, y)
    }
}

fn signed_pattern(v: u32) -> (s: i32)
    ensures
        s == reinterpret_signed(v),
{
    if v <= 0x7fff_ffff {
        v as i32
    } else {
        ((v as i64) - 0x1_0000_0000) as i32
    }
}

fn unsigned_pattern(v: i32) -> (u: u32)
    ensures
        u == reinterpret_unsigned(v as int),
{
    if v < 0 {
        ((v as i64) + 0x1_0000_0000) as u32
    } else {
        v as u32
    }
}

} // verus!
