use vstd::prelude::*;
use crate::coordinates::{magnitude, sign, signum, GridCoordinate};

verus! {

/// A walk over the cells of the grid along a straight line, one cell per
/// call of `next`.
///
/// A walk between two cells takes one step for each unit of distance along
/// either axis, and yields the cell each step leads to: never the cell it
/// starts from. A walk that stays in its cell yields that cell, once. A
/// walk that was extended yields, behind its other cells, the cell it came
/// to rest on once more for each cell it was extended by.
///
/// A line along one axis moves along that axis alone. Any other line keeps,
/// for each axis, an accumulator that grows whenever a step is taken along
/// that axis, and steps along the axis whose accumulator is the smaller
/// one; when the two are equal it steps along x. For a line vector
/// `(vx, vy)` of length `l`, the accumulator of x starts at `vx / vy` and
/// grows by `l / |vx|`, and that of y starts at `vy / vx` and grows by
/// `l / |vy|`. The walk does not store the two fractions. It stores `run`
/// and `rise`, which are `|vx|` and `|vy|`, and `lead`: `run` times the
/// steps taken along y, less `rise` times the steps taken along x, from
/// which `x_is_due` decides the comparison exactly.
#[derive(Debug, Clone, Copy, PartialEq, Eq, Structural)]
pub enum GridTraversal {
    Static { position: GridCoordinate, remaining: usize },
    Orthogonal {
        current_position: GridCoordinate,
        delta: GridCoordinate,
        remaining: usize,
        repeats: usize,
    },
    NonOrthogonal {
        current_position: GridCoordinate,
        run: u32,
        rise: u32,
        lead: i64,
        remaining: usize,
        repeats: usize,
        direction: GridCoordinate,
    },
}

/// The larger of two numbers.
pub open spec fn larger(a: int, b: int) -> int {
    if a < b {
        b
    } else {
        a
    }
}

/// The difference of the two accumulators' starting values, x less y, times
/// their common denominator `run * rise`, on a line that is `run` cells
/// wide and `rise` cells high and whose two components have the same sign
/// or not.
pub open spec fn tilt(run: int, rise: int, same_sign: bool) -> int {
    if same_sign {
        run * run - rise * rise
    } else {
        rise * rise - run * run
    }
}

/// Whether the accumulator of x is not above that of y at the given lead,
/// so that the next step goes along x.
///
/// With `l` the length of the line, that is so exactly when
/// `tilt(run, rise, same_sign) <= l * lead`; the two sides are compared by
/// their signs and their squares.
pub open spec fn x_is_due(run: int, rise: int, same_sign: bool, lead: int) -> bool {
    let t = tilt(run, rise, same_sign);
    let n = run * run + rise * rise;
    if lead > 0 {
        t <= 0 || t * t <= n * lead * lead
    } else if lead == 0 {
        t <= 0
    } else {
        t < 0 && t * t >= n * lead * lead
    }
}

/// Whether a walk from `start` to `end` stays among the cells that
/// coordinates can name. A line along one axis always does. Another line
/// may pass its end along either axis, by less than the number of its
/// steps, so that many cells are asked for from `start` in the direction
/// of the line.
pub open spec fn line_fits(start: GridCoordinate, end: GridCoordinate) -> bool {
    let n = magnitude(end.x - start.x) + magnitude(end.y - start.y);
    ||| start.x == end.x
    ||| start.y == end.y
    ||| {
        &&& start.x < end.x ==> start.x + n <= i32::MAX
        &&& start.x > end.x ==> start.x - n >= i32::MIN
        &&& start.y < end.y ==> start.y + n <= i32::MAX
        &&& start.y > end.y ==> start.y - n >= i32::MIN
    }
}

impl GridTraversal {
    /// The number of cells still to come.
    pub open spec fn steps_left(self) -> nat {
        match self {
            GridTraversal::Static { remaining, .. } => remaining as nat,
            GridTraversal::Orthogonal { remaining, repeats, .. } => (remaining + repeats) as nat,
            GridTraversal::NonOrthogonal { remaining, repeats, .. } => (remaining + repeats) as nat,
        }
    }

    /// The number of steps the walk still takes before it comes to rest.
    pub open spec fn moves_left(self) -> nat {
        match self {
            GridTraversal::Static { .. } => 0,
            GridTraversal::Orthogonal { remaining, .. } => remaining as nat,
            GridTraversal::NonOrthogonal { remaining, .. } => remaining as nat,
        }
    }

    /// The cell the walk stands on: the cell it yielded last, or the cell
    /// it starts from.
    pub open spec fn position(self) -> GridCoordinate {
        match self {
            GridTraversal::Static { position, .. } => position,
            GridTraversal::Orthogonal { current_position, .. } => current_position,
            GridTraversal::NonOrthogonal { current_position, .. } => current_position,
        }
    }

    /// The walk after it yielded one more cell: one step on while it has
    /// steps to take, and where it was once it has come to rest.
    pub open spec fn moved(self) -> GridTraversal {
        match self {
            GridTraversal::Static { position, remaining } => GridTraversal::Static {
                position,
                remaining: (remaining - 1) as usize,
            },
            GridTraversal::Orthogonal { current_position, delta, remaining, repeats } => {
                if remaining > 0 {
                    GridTraversal::Orthogonal {
                        current_position: GridCoordinate {
                            x: (current_position.x + delta.x) as i32,
                            y: (current_position.y + delta.y) as i32,
                        },
                        delta,
                        remaining: (remaining - 1) as usize,
                        repeats,
                    }
                } else {
                    GridTraversal::Orthogonal {
                        current_position,
                        delta,
                        remaining,
                        repeats: (repeats - 1) as usize,
                    }
                }
            },
            GridTraversal::NonOrthogonal {
                current_position,
                run,
                rise,
                lead,
                remaining,
                repeats,
                direction,
            } => {
                if remaining == 0 {
                    GridTraversal::NonOrthogonal {
                        current_position,
                        run,
                        rise,
                        lead,
                        remaining,
                        repeats: (repeats - 1) as usize,
                        direction,
                    }
                } else if x_is_due(
                    run as int,
                    rise as int,
                    direction.x == direction.y,
                    lead as int,
                ) {
                    GridTraversal::NonOrthogonal {
                        current_position: GridCoordinate {
                            x: (current_position.x + direction.x) as i32,
                            y: current_position.y,
                        },
                        run,
                        rise,
                        lead: (lead - rise) as i64,
                        remaining: (remaining - 1) as usize,
                        repeats,
                        direction,
                    }
                } else {
                    GridTraversal::NonOrthogonal {
                        current_position: GridCoordinate {
                            x: current_position.x,
                            y: (current_position.y + direction.y) as i32,
                        },
                        run,
                        rise,
                        lead: (lead + run) as i64,
                        remaining: (remaining - 1) as usize,
                        repeats,
                        direction,
                    }
                }
            },
        }
    }

    /// Whether every cell the walk still passes has coordinates that fit,
    /// and the walk's bookkeeping is consistent.
    pub open spec fn wf(self) -> bool {
        match self {
            GridTraversal::Static { .. } => true,
            GridTraversal::Orthogonal { current_position, delta, remaining, repeats } => {
                &&& magnitude(delta.x as int) + magnitude(delta.y as int) == 1
                &&& remaining + repeats <= usize::MAX
                &&& delta.x == 1 ==> current_position.x + remaining <= i32::MAX
                &&& delta.x == -1 ==> current_position.x - remaining >= i32::MIN
                &&& delta.y == 1 ==> current_position.y + remaining <= i32::MAX
                &&& delta.y == -1 ==> current_position.y - remaining >= i32::MIN
            },
            GridTraversal::NonOrthogonal {
                current_position,
                run,
                rise,
                lead,
                remaining,
                repeats,
                direction,
            } => {
                let reach = 2 * larger(run as int, rise as int);
                &&& run > 0
                &&& rise > 0
                &&& run + rise <= u32::MAX
                &&& direction.x == 1 || direction.x == -1
                &&& direction.y == 1 || direction.y == -1
                &&& -reach <= lead <= reach
                &&& remaining + repeats <= usize::MAX
                &&& direction.x == 1 ==> current_position.x + remaining <= i32::MAX
                &&& direction.x == -1 ==> current_position.x - remaining >= i32::MIN
                &&& direction.y == 1 ==> current_position.y + remaining <= i32::MAX
                &&& direction.y == -1 ==> current_position.y - remaining >= i32::MIN
            },
        }
    }

    /// The cells still to come, in the order in which `next` yields them.
    pub open spec fn cells(self) -> Seq<GridCoordinate>
        decreases self.steps_left(),
    {
        if self.steps_left() == 0 {
            Seq::empty()
        } else {
            seq![self.moved().position()].add(self.moved().cells())
        }
    }

    /// The cell on which the walk comes to rest: the cell its last step
    /// leads to.
    pub open spec fn resting_place(self) -> GridCoordinate
        decreases self.moves_left(),
    {
        if self.moves_left() == 0 {
            self.position()
        } else {
            self.moved().resting_place()
        }
    }

    /// The walk that `new` starts between two cells.
    pub open spec fn starting(start: GridCoordinate, end: GridCoordinate) -> GridTraversal {
        let dx = end.x - start.x;
        let dy = end.y - start.y;
        if dx == 0 && dy == 0 {
            GridTraversal::Static { position: start, remaining: 1 }
        } else if dx == 0 {
            GridTraversal::Orthogonal {
                current_position: start,
                delta: GridCoordinate { x: 0, y: sign(dy) as i32 },
                remaining: magnitude(dy) as usize,
                repeats: 0,
            }
        } else if dy == 0 {
            GridTraversal::Orthogonal {
                current_position: start,
                delta: GridCoordinate { x: sign(dx) as i32, y: 0 },
                remaining: magnitude(dx) as usize,
                repeats: 0,
            }
        } else {
            GridTraversal::NonOrthogonal {
                current_position: start,
                run: magnitude(dx) as u32,
                rise: magnitude(dy) as u32,
                lead: 0,
                remaining: (magnitude(dx) + magnitude(dy)) as usize,
                repeats: 0,
                direction: GridCoordinate { x: sign(dx) as i32, y: sign(dy) as i32 },
            }
        }
    }

    /// The same walk, asked for `n` more cells.
    pub open spec fn extended(self, n: nat) -> GridTraversal {
        match self {
            GridTraversal::Static { position, remaining } => GridTraversal::Static {
                position,
                remaining: (remaining + n) as usize,
            },
            GridTraversal::Orthogonal {
                current_position,
                delta,
                remaining,
                repeats,
            } => GridTraversal::Orthogonal {
                current_position,
                delta,
                remaining,
                repeats: (repeats + n) as usize,
            },
            GridTraversal::NonOrthogonal {
                current_position,
                run,
                rise,
                lead,
                remaining,
                repeats,
                direction,
            } => GridTraversal::NonOrthogonal {
                current_position,
                run,
                rise,
                lead,
                remaining,
                repeats: (repeats + n) as usize,
                direction,
            },
        }
    }

    /// Whether a walk from `start` to `end` stays among the cells that
    /// coordinates can name: what `new` asks of its arguments.
    pub fn fits(start: GridCoordinate, end: GridCoordinate) -> (fits: bool)
        ensures
            fits == line_fits(start, end),
    {
        if start.x == end.x || start.y == end.y {
            return true;
        }
        let dx: i64 = end.x as i64 - start.x as i64;
        let dy: i64 = end.y as i64 - start.y as i64;
        let n: i64 = (if dx < 0 { -dx } else { dx }) + (if dy < 0 { -dy } else { dy });
        let low: i64 = -0x8000_0000;
        let high: i64 = 0x7fff_ffff;
        let x_fits = if dx > 0 { start.x as i64 + n <= high } else { start.x as i64 - n >= low };
        let y_fits = if dy > 0 { start.y as i64 + n <= high } else { start.y as i64 - n >= low };
        x_fits && y_fits
    }

    /// Starts a walk from `start` towards `end`. Its cells are those that a
    /// gesture between the two passes through: one for each unit of
    /// distance along either axis, the first one step from `start`, and
    /// `start` alone when the two are the same.
    pub fn new(start: GridCoordinate, end: GridCoordinate) -> (walk: GridTraversal)
        requires
            line_fits(start, end),
        ensures
            walk == GridTraversal::starting(start, end),
            walk.wf(),
            walk.cells() == path(start, end),
            walk.position() == start,
            start == end ==> walk.cells() == seq![start],
            start != end ==> walk.cells().len() == magnitude(end.x - start.x) + magnitude(
                end.y - start.y,
            ),
    {
        proof {
            lemma_starting_is_wf(start, end);
            lemma_path_is_stepwise(start, end);
        }
        if start.x == end.x && start.y == end.y {
            return GridTraversal::Static { position: start, remaining: 1 };
        }
        let dx: i64 = end.x as i64 - start.x as i64;
        let dy: i64 = end.y as i64 - start.y as i64;
        let ax: i64 = if dx < 0 { -dx } else { dx };
        let ay: i64 = if dy < 0 { -dy } else { dy };
        if start.x == end.x {
            return GridTraversal::Orthogonal {
                current_position: start,
                delta: GridCoordinate { x: 0, y: signum(dy) },
                remaining: ay as usize,
                repeats: 0,
            };
        }
        if start.y == end.y {
            return GridTraversal::Orthogonal {
                current_position: start,
                delta: GridCoordinate { x: signum(dx), y: 0 },
                remaining: ax as usize,
                repeats: 0,
            };
        }
        GridTraversal::NonOrthogonal {
            current_position: start,
            run: ax as u32,
            rise: ay as u32,
            lead: 0,
            remaining: (ax + ay) as usize,
            repeats: 0,
            direction: GridCoordinate { x: signum(dx), y: signum(dy) },
        }
    }

    /// Asks the walk for `extend_amount` more cells: behind the cells it
    /// had to come, it yields the cell it comes to rest on that many times
    /// more.
    pub fn extend(self, extend_amount: usize) -> (walk: GridTraversal)
        requires
            self.wf(),
            self.steps_left() + extend_amount <= usize::MAX,
        ensures
            walk == self.extended(extend_amount as nat),
            walk.wf(),
            walk.cells() == self.cells().add(
                Seq::new(extend_amount as nat, |i: int| self.resting_place()),
            ),
            self.cells().len() > 0 ==> self.resting_place() == self.cells().last(),
    {
        proof {
            lemma_cells_of_extended(self, extend_amount as nat);
            lemma_cells_end_at_rest(self);
        }
        match self {
            GridTraversal::Static { position, remaining } => GridTraversal::Static {
                position,
                remaining: remaining + extend_amount,
            },
            GridTraversal::Orthogonal {
                current_position,
                delta,
                remaining,
                repeats,
            } => GridTraversal::Orthogonal {
                current_position,
                delta,
                remaining,
                repeats: repeats + extend_amount,
            },
            GridTraversal::NonOrthogonal {
                current_position,
                run,
                rise,
                lead,
                remaining,
                repeats,
                direction,
            } => GridTraversal::NonOrthogonal {
                current_position,
                run,
                rise,
                lead,
                remaining,
                repeats: repeats + extend_amount,
                direction,
            },
        }
    }

    /// The cell the walk stands on: the cell it yielded last, or the cell
    /// it starts from.
    pub fn current(&self) -> (position: GridCoordinate)
        ensures
            position == self.position(),
    {
        match self {
            GridTraversal::Static { position, .. } => *position,
            GridTraversal::Orthogonal { current_position, .. } => *current_position,
            GridTraversal::NonOrthogonal { current_position, .. } => *current_position,
        }
    }

    /// The number of cells still to come.
    pub fn steps_left_now(&self) -> (n: usize)
        requires
            self.wf(),
        ensures
            n == self.steps_left(),
    {
        match self {
            GridTraversal::Static { remaining, .. } => *remaining,
            GridTraversal::Orthogonal { remaining, repeats, .. } => *remaining + *repeats,
            GridTraversal::NonOrthogonal { remaining, repeats, .. } => *remaining + *repeats,
        }
    }

    /// Yields the next cell and moves on to it, or yields `None` and leaves
    /// the walk as it is when no cell is left.
    pub fn next(&mut self) -> (cell: Option<GridCoordinate>)
        requires
            old(self).wf(),
        ensures
            final(self).wf(),
            old(self).steps_left() == 0 ==> cell is None && *final(self) == *old(self),
            old(self).steps_left() > 0 ==> cell == Some(final(self).position()) && *final(self)
                == old(self).moved(),
            cell == if old(self).cells().len() == 0 {
                None
            } else {
                Some(old(self).cells()[0])
            },
            old(self).cells().len() > 0 ==> final(self).cells() == old(self).cells().drop_first(),
    {
        proof {
            lemma_cells_len(*self);
            if self.steps_left() > 0 {
                lemma_moved_is_wf(*self);
                assert(self.cells().drop_first() =~= self.moved().cells());
            }
        }
        match *self {
            GridTraversal::Static { position, remaining } => {
                if remaining == 0 {
                    return None;
                }
                *self = GridTraversal::Static { position, remaining: remaining - 1 };
                Some(position)
            },
            GridTraversal::Orthogonal { current_position, delta, remaining, repeats } => {
                if remaining > 0 {
                    let position = GridCoordinate {
                        x: current_position.x + delta.x,
                        y: current_position.y + delta.y,
                    };
                    *self = GridTraversal::Orthogonal {
                        current_position: position,
                        delta,
                        remaining: remaining - 1,
                        repeats,
                    };
                    Some(position)
                } else if repeats > 0 {
                    *self = GridTraversal::Orthogonal {
                        current_position,
                        delta,
                        remaining,
                        repeats: repeats - 1,
                    };
                    Some(current_position)
                } else {
                    None
                }
            },
            GridTraversal::NonOrthogonal {
                current_position,
                run,
                rise,
                lead,
                remaining,
                repeats,
                direction,
            } => {
                if remaining > 0 {
                    let along_x = accumulator_of_x_is_not_higher(
                        run,
                        rise,
                        direction.x == direction.y,
                        lead,
                    );
                    let position = if along_x {
                        GridCoordinate {
                            x: current_position.x + direction.x,
                            y: current_position.y,
                        }
                    } else {
                        GridCoordinate {
                            x: current_position.x,
                            y: current_position.y + direction.y,
                        }
                    };
                    *self = GridTraversal::NonOrthogonal {
                        current_position: position,
                        run,
                        rise,
                        lead: if along_x { lead - rise as i64 } else { lead + run as i64 },
                        remaining: remaining - 1,
                        repeats,
                        direction,
                    };
                    Some(position)
                } else if repeats > 0 {
                    *self = GridTraversal::NonOrthogonal {
                        current_position,
                        run,
                        rise,
                        lead,
                        remaining,
                        repeats: repeats - 1,
                        direction,
                    };
                    Some(current_position)
                } else {
                    None
                }
            },
        }
    }
}

/// Every cell on the way from `start` to `end`, `start` first. Along an
/// axis the last cell is `end`.
pub open spec fn line(start: GridCoordinate, end: GridCoordinate) -> Seq<GridCoordinate> {
    if start == end {
        seq![start]
    } else {
        seq![start].add(GridTraversal::starting(start, end).cells())
    }
}

/// The cells a gesture from `start` to `end` passes through: for each step
/// of the walk between the two the cell the step leads to, and `start`
/// alone when the gesture does not leave its cell.
pub open spec fn path(start: GridCoordinate, end: GridCoordinate) -> Seq<GridCoordinate> {
    GridTraversal::starting(start, end).cells()
}

/// The cells a gesture from `start` to `end` passes through, in order: the
/// cells of the walk between the two.
pub fn traverse(start: GridCoordinate, end: GridCoordinate) -> (cells: Vec<GridCoordinate>)
    requires
        line_fits(start, end),
    ensures
        cells@ == path(start, end),
{
    let mut cells: Vec<GridCoordinate> = Vec::new();
    let mut walk = GridTraversal::new(start, end);
    loop
        invariant
            walk.wf(),
            cells@.add(walk.cells()) == path(start, end),
        ensures
            cells@ == path(start, end),
        decreases walk.steps_left(),
    {
        proof {
            lemma_cells_len(walk);
        }
        let ghost before = walk;
        let ghost collected = cells@;
        match walk.next() {
            Some(cell) => {
                cells.push(cell);
                assert(cells@.add(walk.cells()) =~= collected.add(before.cells()));
            },
            None => {
                assert(collected.add(before.cells()) =~= collected);
                break ;
            },
        }
    }
    cells
}

/// Decides `x_is_due` in machine arithmetic.
fn accumulator_of_x_is_not_higher(run: u32, rise: u32, same_sign: bool, lead: i64) -> (due: bool)
    requires
        run > 0,
        rise > 0,
        run + rise <= u32::MAX,
        -2 * larger(run as int, rise as int) <= lead <= 2 * larger(run as int, rise as int),
    ensures
        due == x_is_due(run as int, rise as int, same_sign, lead as int),
{
    let a: u128 = run as u128;
    let b: u128 = rise as u128;
    let m: u128 = if a < b { b } else { a };
    let l: u128 = (if lead < 0 { -lead } else { lead }) as u128;
    proof {
        lemma_lead_stays_near(run as int, rise as int, same_sign, lead as int);
    }
    if l >= m {
        return lead > 0;
    }
    assert(a * a + b * b <= 0xffff_fffe_0000_0001 && a * a <= 0xffff_fffe_0000_0001 && b * b
        <= 0xffff_fffe_0000_0001) by (nonlinear_arith)
        requires
            a + b <= 0xffff_ffff,
    ;
    let a2: u128 = a * a;
    let b2: u128 = b * b;
    let n: u128 = a2 + b2;
    let t_abs: u128 = if a2 > b2 { a2 - b2 } else { b2 - a2 };
    let t_negative = if same_sign { a2 < b2 } else { a2 > b2 };
    let ghost t = tilt(run as int, rise as int, same_sign);
    assert(t == if t_negative { -(t_abs as int) } else { t_abs as int });
    assert(l * l <= 0xffff_fffe_0000_0001 && l * l == lead * lead) by (nonlinear_arith)
        requires
            l == magnitude(lead as int),
            l <= 0xffff_ffff,
    ;
    let l2: u128 = l * l;
    assert(n * l2 <= 0xffff_fffc_0000_0005_ffff_fffc_0000_0001) by (nonlinear_arith)
        requires
            n <= 0xffff_fffe_0000_0001,
            l2 <= 0xffff_fffe_0000_0001,
    ;
    assert(t_abs * t_abs <= 0xffff_fffc_0000_0005_ffff_fffc_0000_0001 && t_abs * t_abs == t
        * t) by (nonlinear_arith)
        requires
            t_abs <= 0xffff_fffe_0000_0001,
            t == t_abs || t == -t_abs,
    ;
    let right: u128 = n * l2;
    let left: u128 = t_abs * t_abs;
    assert(right == (run * run + rise * rise) * lead * lead) by (nonlinear_arith)
        requires
            right == n * l2,
            n == run * run + rise * rise,
            l2 == lead * lead,
    ;
    if lead > 0 {
        t_negative || t_abs == 0 || left <= right
    } else if lead == 0 {
        t_negative || t_abs == 0
    } else {
        t_negative && left >= right
    }
}

/// A step is taken along x only while the lead is above minus the longer
/// side of the line's box, and along y only while it is below the longer
/// side: so the lead never leaves twice that range. Beyond the longer side
/// the sign of the lead alone decides the step.
pub proof fn lemma_lead_stays_near(run: int, rise: int, same_sign: bool, lead: int)
    requires
        run > 0,
        rise > 0,
    ensures
        x_is_due(run, rise, same_sign, lead) ==> lead > -larger(run, rise),
        !x_is_due(run, rise, same_sign, lead) ==> lead < larger(run, rise),
{
    let m = larger(run, rise);
    let t = tilt(run, rise, same_sign);
    let n = run * run + rise * rise;
    // the tilt is smaller than the square of the longer side, and the
    // squared length is at least that square
    assert(t * t < m * m * (m * m) && n >= m * m) by (nonlinear_arith)
        requires
            t == run * run - rise * rise || t == rise * rise - run * run,
            n == run * run + rise * rise,
            run >= 1,
            rise >= 1,
            m >= run,
            m >= rise,
            m == run || m == rise,
    ;
    if lead <= -m || lead >= m {
        assert(n * lead * lead >= m * m * (m * m)) by (nonlinear_arith)
            requires
                n >= m * m,
                m >= 1,
                lead <= -m || lead >= m,
        ;
    }
}

/// Yielding a cell keeps a walk well formed. While the walk has steps to
/// take, the cell lies one step from the one before; once it has come to
/// rest, the cell is the one before.
pub proof fn lemma_moved_is_wf(walk: GridTraversal)
    requires
        walk.wf(),
        walk.steps_left() > 0,
    ensures
        walk.moved().wf(),
        walk.moved().steps_left() == walk.steps_left() - 1,
        walk.moves_left() > 0 ==> walk.moved().moves_left() == walk.moves_left() - 1
            && walk.position().is_unit_step_to(walk.moved().position()),
        walk.moves_left() == 0 ==> walk.moved().moves_left() == 0 && walk.moved().position()
            == walk.position(),
{
    match walk {
        GridTraversal::NonOrthogonal { run, rise, lead, direction, .. } => {
            lemma_lead_stays_near(run as int, rise as int, direction.x == direction.y, lead as int);
        },
        _ => {},
    }
}

/// A walk has as many cells as it has steps left.
pub proof fn lemma_cells_len(walk: GridTraversal)
    ensures
        walk.cells().len() == walk.steps_left(),
        walk.steps_left() > 0 ==> walk.cells()[0] == walk.moved().position(),
    decreases walk.steps_left(),
{
    if walk.steps_left() > 0 {
        lemma_cells_len(walk.moved());
    }
}

/// A walk that has come to rest yields the cell it stands on, over and
/// over.
pub proof fn lemma_cells_at_rest(walk: GridTraversal)
    requires
        walk.wf(),
        walk.moves_left() == 0,
    ensures
        walk.cells() == Seq::new(walk.steps_left(), |i: int| walk.position()),
    decreases walk.steps_left(),
{
    if walk.steps_left() > 0 {
        lemma_moved_is_wf(walk);
        lemma_cells_at_rest(walk.moved());
        lemma_cells_len(walk);
    }
    assert(walk.cells() =~= Seq::new(walk.steps_left(), |i: int| walk.position()));
}

/// The last cell of a walk is the cell it comes to rest on.
pub proof fn lemma_cells_end_at_rest(walk: GridTraversal)
    requires
        walk.wf(),
    ensures
        walk.cells().len() > 0 ==> walk.cells().last() == walk.resting_place(),
    decreases walk.steps_left(),
{
    lemma_cells_len(walk);
    if walk.steps_left() > 0 {
        lemma_moved_is_wf(walk);
        lemma_cells_end_at_rest(walk.moved());
        lemma_cells_len(walk.moved());
        let next = walk.moved();
        assert(walk.resting_place() == next.resting_place()) by {
            if walk.moves_left() == 0 {
                assert(next.moves_left() == 0);
                assert(next.resting_place() == next.position());
            }
        }
        if next.steps_left() == 0 {
            assert(next.moves_left() == 0);
            assert(next.resting_place() == next.position());
            assert(walk.cells().last() == next.position());
        } else {
            assert(walk.cells().last() == next.cells().last());
        }
    }
}

/// Asking a walk for more cells leaves the cells it had to come as they
/// were, and adds behind them the cell it comes to rest on, once for each
/// cell asked for.
pub proof fn lemma_cells_of_extended(walk: GridTraversal, n: nat)
    requires
        walk.wf(),
        walk.steps_left() + n <= usize::MAX,
    ensures
        walk.extended(n).wf(),
        walk.extended(n).cells() == walk.cells().add(
            Seq::new(n, |i: int| walk.resting_place()),
        ),
    decreases walk.steps_left(),
{
    let longer = walk.extended(n);
    let tail = Seq::new(n, |i: int| walk.resting_place());
    lemma_cells_len(walk);
    lemma_cells_len(longer);
    if walk.moves_left() > 0 {
        lemma_moved_is_wf(walk);
        lemma_cells_of_extended(walk.moved(), n);
        assert(longer.moved() == walk.moved().extended(n));
        assert(longer.cells() =~= walk.cells().add(tail));
    } else {
        lemma_cells_at_rest(walk);
        lemma_cells_at_rest(longer);
        assert(longer.cells() =~= walk.cells().add(tail));
    }
}

/// Every step of a walk along a line leads to a cell next to the one
/// before: one cell away along one axis.
pub proof fn lemma_cells_are_connected(walk: GridTraversal)
    requires
        walk.wf(),
    ensures
        walk.moves_left() > 0 ==> walk.position().is_unit_step_to(walk.cells()[0]),
        forall|i: int|
            0 <= i < walk.moves_left() - 1 ==> (#[trigger] walk.cells()[i]).is_unit_step_to(
                walk.cells()[i + 1],
            ),
    decreases walk.steps_left(),
{
    lemma_cells_len(walk);
    if walk.moves_left() > 0 {
        let next = walk.moved();
        lemma_moved_is_wf(walk);
        lemma_cells_len(next);
        lemma_cells_are_connected(next);
        let c = walk.cells();
        assert forall|i: int| 0 <= i < walk.moves_left() - 1 implies (#[trigger] c[i]).is_unit_step_to(
            c[i + 1],
        ) by {
            if i > 0 {
                assert(c[i] == next.cells()[i - 1]);
                assert(c[i + 1] == next.cells()[i]);
            } else {
                assert(c[1] == next.cells()[0]);
            }
        }
    }
}

/// A walk along an axis visits, step after step, the cells that lie in a
/// row in the direction of its delta.
pub proof fn lemma_cells_along_axis(walk: GridTraversal)
    requires
        walk.wf(),
        walk is Orthogonal,
    ensures
        forall|i: int|
            0 <= i < walk.moves_left() ==> (#[trigger] walk.cells()[i]).x == walk.position().x + (i
                + 1) * walk->delta.x && walk.cells()[i].y == walk.position().y + (i + 1)
                * walk->delta.y,
    decreases walk.steps_left(),
{
    lemma_cells_len(walk);
    if walk.moves_left() > 0 {
        let next = walk.moved();
        lemma_moved_is_wf(walk);
        lemma_cells_len(next);
        lemma_cells_along_axis(next);
        let dx = walk->delta.x as int;
        let dy = walk->delta.y as int;
        let c = walk.cells();
        assert forall|i: int| 0 <= i < walk.moves_left() implies (#[trigger] c[i]).x
            == walk.position().x + (i + 1) * dx && c[i].y == walk.position().y + (i + 1)
            * dy by {
            if i > 0 {
                assert(c[i] == next.cells()[i - 1]);
                assert(dx + i * dx == (i + 1) * dx) by (nonlinear_arith);
                assert(dy + i * dy == (i + 1) * dy) by (nonlinear_arith);
            }
        }
    }
}

/// The walk that starts between two cells whose line fits is well formed,
/// stands on the first, and has one step to take for each unit of distance
/// along either axis.
pub proof fn lemma_starting_is_wf(start: GridCoordinate, end: GridCoordinate)
    requires
        line_fits(start, end),
    ensures
        GridTraversal::starting(start, end).wf(),
        GridTraversal::starting(start, end).position() == start,
        GridTraversal::starting(start, end).moves_left() == magnitude(end.x - start.x) + magnitude(
            end.y - start.y,
        ),
        GridTraversal::starting(start, end).steps_left() == if start == end {
            1
        } else {
            magnitude(end.x - start.x) + magnitude(end.y - start.y)
        },
        GridTraversal::starting(start, end) is Static <==> start == end,
        GridTraversal::starting(start, end) is Orthogonal <==> start != end && (start.x == end.x
            || start.y == end.y),
{
}

/// The cells a gesture passes through are as many as the distances between
/// its end points along the two axes taken together; the first lies one
/// step from where the gesture starts, and each of the others one step from
/// the cell before it: one cell away, along one axis. A gesture that stays
/// in its cell passes through that cell alone.
pub proof fn lemma_path_is_stepwise(start: GridCoordinate, end: GridCoordinate)
    requires
        line_fits(start, end),
    ensures
        start == end ==> path(start, end) == seq![start],
        start != end ==> path(start, end).len() == magnitude(end.x - start.x) + magnitude(
            end.y - start.y,
        ),
        start != end ==> start.is_unit_step_to(path(start, end)[0]),
        forall|i: int|
            0 <= i < path(start, end).len() - 1 ==> (#[trigger] path(start, end)[
                i
            ]).is_unit_step_to(path(start, end)[i + 1]),
{
    let walk = GridTraversal::starting(start, end);
    lemma_starting_is_wf(start, end);
    lemma_cells_len(walk);
    if start != end {
        lemma_cells_are_connected(walk);
    } else {
        lemma_cells_at_rest(walk);
        assert(path(start, end) =~= seq![start]);
    }
}

/// Along an axis, the cells a gesture passes through lie in a row from the
/// cell next to its start up to its end.
pub proof fn lemma_path_along_axis(start: GridCoordinate, end: GridCoordinate)
    requires
        start.x == end.x || start.y == end.y,
        start != end,
    ensures
        path(start, end).last() == end,
        forall|i: int|
            0 <= i < path(start, end).len() ==> (#[trigger] path(start, end)[i]).x == start.x + (i
                + 1) * sign(end.x - start.x) && path(start, end)[i].y == start.y + (i + 1) * sign(
                end.y - start.y,
            ),
{
    let walk = GridTraversal::starting(start, end);
    lemma_starting_is_wf(start, end);
    lemma_cells_len(walk);
    lemma_cells_along_axis(walk);
    let p = path(start, end);
    let n = p.len() as int;
    let sx = sign(end.x - start.x);
    let sy = sign(end.y - start.y);
    assert(p.last() == p[n - 1]);
    assert(n * sx == end.x - start.x && n * sy == end.y - start.y) by (nonlinear_arith)
        requires
            n == magnitude(end.x - start.x) + magnitude(end.y - start.y),
            sx == sign(end.x - start.x),
            sy == sign(end.y - start.y),
            start.x == end.x || start.y == end.y,
    ;
}

/// Along an axis, the way from one cell to another is the way back in
/// reverse.
///
/// The way takes in both ends. A gesture leaves out the cell it starts
/// from, so of two gestures between the same cells, one there and one back,
/// each ends on the cell that the other leaves out, and the cells between
/// are passed in opposite orders.
pub proof fn lemma_line_reverses(a: GridCoordinate, b: GridCoordinate)
    requires
        a.x == b.x || a.y == b.y,
    ensures
        line(a, b) == line(b, a).reverse(),
        a == b ==> path(a, b) == path(b, a).reverse(),
        a != b ==> path(a, b).last() == b && path(b, a).last() == a,
        a != b ==> path(a, b).drop_last() == path(b, a).reverse().drop_first(),
{
    lemma_path_is_stepwise(a, b);
    lemma_path_is_stepwise(b, a);
    if a != b {
        lemma_path_along_axis(a, b);
        lemma_path_along_axis(b, a);
        let n = path(a, b).len() as int;
        let sx = sign(b.x - a.x);
        let sy = sign(b.y - a.y);
        assert(n * sx == b.x - a.x && n * sy == b.y - a.y) by (nonlinear_arith)
            requires
                n == magnitude(b.x - a.x) + magnitude(b.y - a.y),
                sx == sign(b.x - a.x),
                sy == sign(b.y - a.y),
                a.x == b.x || a.y == b.y,
        ;
        let f = line(a, b);
        let g = line(b, a);
        let r = g.reverse();
        assert forall|i: int| 0 <= i < f.len() implies f[i] == r[i] by {
            let j = n - i;
            assert(r[i] == g[j]);
            if i > 0 {
                assert(f[i] == path(a, b)[i - 1]);
            }
            if j > 0 {
                assert(g[j] == path(b, a)[j - 1]);
            }
            assert(j * (-sx) == i * sx - n * sx && j * (-sy) == i * sy - n * sy)
                by (nonlinear_arith)
                requires
                    j == n - i,
            ;
        }
        assert(f =~= r);
        let inner = path(a, b).drop_last();
        let mirrored = path(b, a).reverse().drop_first();
        assert(inner.len() == mirrored.len());
        assert forall|i: int| 0 <= i < inner.len() implies inner[i] == mirrored[i] by {
            assert(inner[i] == f[i + 1]);
            assert(mirrored[i] == path(b, a).reverse()[i + 1]);
            assert(path(b, a).reverse()[i + 1] == path(b, a)[n - 2 - i]);
            assert(path(b, a)[n - 2 - i] == g[n - 1 - i]);
            assert(r[i + 1] == g[n - (i + 1)]);
        }
        assert(inner =~= mirrored);
    } else {
        assert(line(a, b) =~= line(b, a).reverse());
        assert(path(a, b) =~= path(b, a).reverse());
    }
}

} // verus!
