//! The grid: cells, headings, distances and bearings.
//!
//! `x` grows eastward and `y` grows southward. Distances are counted in moves between
//! cells that share an edge.

use crate::fixed::{in_signed_unit, UNIT};
use vstd::prelude::*;

verus! {

/// The largest side of a world: the number of its cells still fits a 32-bit word.
pub const MAX_WORLD_SIZE: usize = 65_535;

/// A cell of the grid.
#[derive(Debug, Clone, Copy, PartialEq, Eq, Structural)]
pub struct Location {
    pub x: usize,
    pub y: usize,
}

/// The direction an agent faces.
#[derive(Debug, Clone, Copy, PartialEq, Eq, Structural)]
pub enum Heading {
    North,
    East,
    South,
    West,
}

/// Whether `cell` lies on a grid of side `size`.
pub open spec fn in_bounds(cell: Location, size: usize) -> bool {
    cell.x < size && cell.y < size
}

/// Whether every cell of `cells` lies on a grid of side `size`.
pub open spec fn all_in_bounds(cells: Seq<Location>, size: usize) -> bool {
    forall|i: int| 0 <= i < cells.len() ==> in_bounds(#[trigger] cells[i], size)
}

/// The magnitude of `v`.
pub open spec fn magnitude(v: int) -> int {
    if v < 0 {
        -v
    } else {
        v
    }
}

/// The number of moves between two cells.
pub open spec fn distance(a: Location, b: Location) -> int {
    magnitude(a.x - b.x) + magnitude(a.y - b.y)
}

/// Whether two cells share an edge.
pub open spec fn adjacent(a: Location, b: Location) -> bool {
    distance(a, b) == 1
}

/// The position of `cell` when the cells of a grid of side `size` are counted row by
/// row.
pub open spec fn cell_number(cell: Location, size: usize) -> int {
    cell.y * size + cell.x
}

/// The cell at position `number` of that count.
pub open spec fn cell_at(number: int, size: usize) -> Location {
    Location { x: (number % (size as int)) as usize, y: (number / (size as int)) as usize }
}

impl Heading {
    /// The heading after a quarter turn to the left.
    pub open spec fn turned_left(self) -> Heading {
        match self {
            Heading::North => Heading::West,
            Heading::West => Heading::South,
            Heading::South => Heading::East,
            Heading::East => Heading::North,
        }
    }

    /// The heading after a quarter turn to the right.
    pub open spec fn turned_right(self) -> Heading {
        match self {
            Heading::North => Heading::East,
            Heading::East => Heading::South,
            Heading::South => Heading::West,
            Heading::West => Heading::North,
        }
    }

    /// The heading that the draw `draw` of `0..4` stands for.
    pub open spec fn numbered(draw: int) -> Heading {
        if draw == 0 {
            Heading::North
        } else if draw == 1 {
            Heading::East
        } else if draw == 2 {
            Heading::South
        } else {
            Heading::West
        }
    }

    /// The heading after a quarter turn to the left.
    pub fn left(&self) -> (h: Heading)
        ensures
            h == self.turned_left(),
    {
        match self {
            Heading::North => Heading::West,
            Heading::West => Heading::South,
            Heading::South => Heading::East,
            Heading::East => Heading::North,
        }
    }

    /// The heading after a quarter turn to the right.
    pub fn right(&self) -> (h: Heading)
        ensures
            h == self.turned_right(),
    {
        match self {
            Heading::North => Heading::East,
            Heading::East => Heading::South,
            Heading::South => Heading::West,
            Heading::West => Heading::North,
        }
    }

    /// The heading that a draw of `0..4` stands for.
    pub fn from_draw(draw: usize) -> (h: Heading)
        requires
            draw < 4,
        ensures
            h == Heading::numbered(draw as int),
    {
        if draw == 0 {
            Heading::North
        } else if draw == 1 {
            Heading::East
        } else if draw == 2 {
            Heading::South
        } else {
            Heading::West
        }
    }
}

/// The cell one move ahead of `from` for an agent facing `heading`, if that cell lies
/// on a grid of side `size`.
pub open spec fn cell_ahead(from: Location, heading: Heading, size: usize) -> Option<Location> {
    match heading {
        Heading::North => if from.y >= 1 && from.y - 1 < size && from.x < size {
            Some(Location { x: from.x, y: (from.y - 1) as usize })
        } else {
            None
        },
        Heading::South => if from.y + 1 < size && from.x < size {
            Some(Location { x: from.x, y: (from.y + 1) as usize })
        } else {
            None
        },
        Heading::West => if from.x >= 1 && from.x - 1 < size && from.y < size {
            Some(Location { x: (from.x - 1) as usize, y: from.y })
        } else {
            None
        },
        Heading::East => if from.x + 1 < size && from.y < size {
            Some(Location { x: (from.x + 1) as usize, y: from.y })
        } else {
            None
        },
    }
}

/// The cell one move ahead, if it lies on the grid.
pub fn step_ahead(from: Location, heading: Heading, size: usize) -> (dest: Option<Location>)
    ensures
        dest == cell_ahead(from, heading, size),
        dest.is_some() ==> in_bounds(dest.unwrap(), size),
        dest.is_some() && in_bounds(from, size) ==> adjacent(from, dest.unwrap()),
{
    match heading {
        Heading::North => if from.y >= 1 && from.y - 1 < size && from.x < size {
            Some(Location { x: from.x, y: from.y - 1 })
        } else {
            None
        },
        Heading::South => if from.y < size && from.y + 1 < size && from.x < size {
            Some(Location { x: from.x, y: from.y + 1 })
        } else {
            None
        },
        Heading::West => if from.x >= 1 && from.x - 1 < size && from.y < size {
            Some(Location { x: from.x - 1, y: from.y })
        } else {
            None
        },
        Heading::East => if from.x < size && from.x + 1 < size && from.y < size {
            Some(Location { x: from.x + 1, y: from.y })
        } else {
            None
        },
    }
}

/// The gap between two coordinates.
pub fn gap(a: usize, b: usize) -> (d: usize)
    ensures
        d == magnitude(a - b),
{
    if a >= b {
        a - b
    } else {
        b - a
    }
}

/// The number of moves between two cells of a world.
pub fn moves_between(a: Location, b: Location) -> (d: usize)
    requires
        in_bounds(a, MAX_WORLD_SIZE),
        in_bounds(b, MAX_WORLD_SIZE),
    ensures
        d == distance(a, b),
        d <= 2 * (MAX_WORLD_SIZE - 1),
{
    gap(a.x, b.x) + gap(a.y, b.y)
}

/// How far `to` lies ahead of an agent at `from` that faces `heading`; negative where
/// it lies behind.
pub open spec fn offset_ahead(heading: Heading, from: Location, to: Location) -> int {
    match heading {
        Heading::North => from.y - to.y,
        Heading::East => to.x - from.x,
        Heading::South => to.y - from.y,
        Heading::West => from.x - to.x,
    }
}

/// How far `to` lies to the right of an agent at `from` that faces `heading`; negative
/// where it lies to the left.
pub open spec fn offset_right(heading: Heading, from: Location, to: Location) -> int {
    match heading {
        Heading::North => to.x - from.x,
        Heading::East => to.y - from.y,
        Heading::South => from.x - to.x,
        Heading::West => from.y - to.y,
    }
}

/// The direction of `to` as seen by an agent at `from` that faces `heading`, as a
/// signed scalar: 0.0 straight ahead (and for the agent's own cell), 0.5 at a right
/// angle, 1.0 straight behind; positive to the right and negative to the left. Between
/// these it grows with the share that the sideways offset has in the distance.
pub open spec fn bearing(heading: Heading, from: Location, to: Location) -> int {
    let ahead = offset_ahead(heading, from, to);
    let right = offset_right(heading, from, to);
    let total = magnitude(ahead) + magnitude(right);
    if total == 0 {
        0
    } else {
        let side = (magnitude(right) * UNIT) / (2 * total);
        let turn = if ahead >= 0 {
            side
        } else {
            UNIT - side
        };
        if right < 0 {
            -turn
        } else {
            turn
        }
    }
}

/// A bearing is a scalar of the signed unit range.
pub proof fn lemma_bearing_bounded(heading: Heading, from: Location, to: Location)
    ensures
        in_signed_unit(bearing(heading, from, to)),
{
    let ahead = offset_ahead(heading, from, to);
    let right = offset_right(heading, from, to);
    let total = magnitude(ahead) + magnitude(right);
    if total != 0 {
        let r = magnitude(right);
        assert(0 <= (r * 1000) / (2 * total) <= 500) by (nonlinear_arith)
            requires
                0 <= r <= total,
                total > 0,
        ;
    }
}

/// The signed difference `a - b` of two coordinates of a world.
fn signed_gap(a: usize, b: usize) -> (d: i64)
    requires
        a < MAX_WORLD_SIZE,
        b < MAX_WORLD_SIZE,
    ensures
        d == a - b,
{
    (a as i64) - (b as i64)
}

/// The direction of `to` as seen from `from` by an agent facing `heading`.
pub fn bearing_to(heading: Heading, from: Location, to: Location) -> (b: i32)
    requires
        in_bounds(from, MAX_WORLD_SIZE),
        in_bounds(to, MAX_WORLD_SIZE),
    ensures
        b == bearing(heading, from, to),
        in_signed_unit(b as int),
{
    proof {
        lemma_bearing_bounded(heading, from, to);
    }
    let ahead: i64 = match heading {
        Heading::North => signed_gap(from.y, to.y),
        Heading::East => signed_gap(to.x, from.x),
        Heading::South => signed_gap(to.y, from.y),
        Heading::West => signed_gap(from.x, to.x),
    };
    let right: i64 = match heading {
        Heading::North => signed_gap(to.x, from.x),
        Heading::East => signed_gap(to.y, from.y),
        Heading::South => signed_gap(from.x, to.x),
        Heading::West => signed_gap(from.y, to.y),
    };
    let ahead_size: i64 = if ahead < 0 {
        -ahead
    } else {
        ahead
    };
    let right_size: i64 = if right < 0 {
        -right
    } else {
        right
    };
    let total: i64 = ahead_size + right_size;
    if total == 0 {
        0
    } else {
        let side: i64 = (right_size * 1000) / (2 * total);
        let turn: i64 = if ahead >= 0 {
            side
        } else {
            1000 - side
        };
        if right < 0 {
            (-turn) as i32
        } else {
            turn as i32
        }
    }
}

/// The cell at position `number` when the cells of a grid are counted row by row.
pub fn numbered_cell(number: usize, size: usize) -> (cell: Location)
    requires
        0 < size <= MAX_WORLD_SIZE,
        number < size * size,
    ensures
        cell == cell_at(number as int, size),
        in_bounds(cell, size),
        cell_number(cell, size) == number,
{
    proof {
        lemma_cell_at(number as int, size);
    }
    Location { x: number % size, y: number / size }
}

/// Counting the cells row by row numbers each cell of the grid once.
pub proof fn lemma_cell_at(number: int, size: usize)
    requires
        size > 0,
        0 <= number < size * size,
    ensures
        in_bounds(cell_at(number, size), size),
        cell_number(cell_at(number, size), size) == number,
{
    let s = size as int;
    assert(0 <= number / s < s && 0 <= number % s < s && (number / s) * s + number % s
        == number) by (nonlinear_arith)
        requires
            s > 0,
            0 <= number < s * s,
    ;
}

/// A cell of the grid has a number below the number of cells, and is the cell at that
/// number.
pub proof fn lemma_cell_number(cell: Location, size: usize)
    requires
        in_bounds(cell, size),
    ensures
        0 <= cell_number(cell, size) < size * size,
        cell_at(cell_number(cell, size), size) == cell,
{
    let s = size as int;
    let x = cell.x as int;
    let y = cell.y as int;
    assert(0 <= y * s + x < s * s && (y * s + x) / s == y && (y * s + x) % s == x)
        by (nonlinear_arith)
        requires
            0 <= x < s,
            0 <= y < s,
    ;
}

} // verus!
