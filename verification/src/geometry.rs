//! Cells, directions and the dimensions of the playfield.

use vstd::prelude::*;
use vstd::std_specs::cmp::PartialEqSpecImpl;

verus! {

/// Width of a cell in terminal columns.
pub const CELL_W: u16 = 2;

/// Height of a cell in terminal rows.
pub const CELL_H: u16 = 1;

/// Width of the playfield in terminal columns.
pub const GROUND_W: u16 = 64;

/// Height of the playfield in terminal rows.
pub const GROUND_H: u16 = 32;

/// Number of cell positions strictly inside the walls.
pub const INTERIOR_CELLS: usize = 870;

/// A heading on the grid.
#[derive(Debug, Clone, Copy, PartialEq, Eq, Structural)]
pub enum Direction {
    Up,
    Down,
    Left,
    Right,
}

impl Direction {
    /// The heading that points the opposite way.
    pub open spec fn reverse_spec(self) -> Direction {
        match self {
            Direction::Up => Direction::Down,
            Direction::Down => Direction::Up,
            Direction::Left => Direction::Right,
            Direction::Right => Direction::Left,
        }
    }

    /// The heading that results when `wanted` is requested while travelling
    /// along `self`: a half turn is refused, anything else is taken.
    pub open spec fn steer_spec(self, wanted: Direction) -> Direction {
        if wanted == self.reverse_spec() {
            self
        } else {
            wanted
        }
    }

    #[verifier::when_used_as_spec(reverse_spec)]
    pub fn reverse(self) -> (r: Direction)
        ensures
            r == self.reverse_spec(),
    {
        match self {
            Direction::Up => Direction::Down,
            Direction::Down => Direction::Up,
            Direction::Left => Direction::Right,
            Direction::Right => Direction::Left,
        }
    }

    #[verifier::when_used_as_spec(steer_spec)]
    pub fn steer(self, wanted: Direction) -> (r: Direction)
        ensures
            r == self.steer_spec(wanted),
    {
        if wanted == self.reverse() {
            self
        } else {
            wanted
        }
    }
}

/// The anchor reached from `p` after `steps` moves of `(w, h)` columns and
/// rows along `dir`.
pub open spec fn shifted(p: (int, int), dir: Direction, steps: int, w: int, h: int) -> (int, int) {
    match dir {
        Direction::Up => (p.0, p.1 - steps * h),
        Direction::Down => (p.0, p.1 + steps * h),
        Direction::Left => (p.0 - steps * w, p.1),
        Direction::Right => (p.0 + steps * w, p.1),
    }
}

/// Whether `q` lies exactly one cell away from `p` along some direction.
pub open spec fn adjacent(p: (int, int), q: (int, int)) -> bool {
    exists|d: Direction| q == #[trigger] shifted(p, d, 1, CELL_W as int, CELL_H as int)
}

/// Whether `(x, y)` is a multiple of the cell size.
pub open spec fn aligned(p: (int, int)) -> bool {
    p.0 % (CELL_W as int) == 0 && p.1 % (CELL_H as int) == 0
}

/// Whether a cell anchored at `p` is aligned and lies strictly inside the
/// walls.
pub open spec fn in_interior(p: (int, int)) -> bool {
    &&& aligned(p)
    &&& CELL_W < p.0 < GROUND_W - CELL_W
    &&& CELL_H < p.1 < GROUND_H
}

/// An axis-aligned rectangle of the grid, `size` columns by rows, whose
/// top-left corner is `pos`.
#[derive(Debug, Clone, Copy)]
pub struct Cell {
    pub pos: (u16, u16),
    pub size: (u16, u16),
}

impl PartialEq for Cell {
    /// Two cells are equal when they share an anchor.
    fn eq(&self, other: &Self) -> (r: bool) {
        self.pos.0 == other.pos.0 && self.pos.1 == other.pos.1
    }
}

impl Eq for Cell {

}

impl PartialEqSpecImpl for Cell {
    open spec fn obeys_eq_spec() -> bool {
        true
    }

    open spec fn eq_spec(&self, other: &Self) -> bool {
        self.pos == other.pos
    }
}

impl Cell {
    /// The anchor as a pair of mathematical integers.
    pub open spec fn anchor(self) -> (int, int) {
        (self.pos.0 as int, self.pos.1 as int)
    }

    /// The cell of uniform size anchored at `p`.
    pub open spec fn at(p: (int, int)) -> Cell {
        Cell { pos: (p.0 as u16, p.1 as u16), size: (CELL_W, CELL_H) }
    }

    /// The cell of uniform size anchored at `pos`.
    pub open spec fn new_spec(pos: (u16, u16)) -> Cell {
        Cell { pos, size: (CELL_W, CELL_H) }
    }

    /// Whether the cell has the uniform size.
    pub open spec fn wf(self) -> bool {
        self.size == (CELL_W, CELL_H)
    }

    /// The anchor reached after `steps` moves of this cell's own size along
    /// `dir`.
    pub open spec fn shift_target(self, dir: Direction, steps: int) -> (int, int) {
        shifted(self.anchor(), dir, steps, self.size.0 as int, self.size.1 as int)
    }

    pub fn new(x: u16, y: u16) -> (c: Cell)
        ensures
            c == Cell::new_spec((x, y)),
            c == Cell::at((x as int, y as int)),
            c.wf(),
    {
        Cell { pos: (x, y), size: (CELL_W, CELL_H) }
    }

    /// Whether the cell has the uniform size and lies, aligned, strictly
    /// inside the walls.
    pub fn is_inside(&self) -> (r: bool)
        ensures
            r == (self.wf() && in_interior(self.anchor())),
    {
        self.size.0 == CELL_W && self.size.1 == CELL_H && self.pos.0 % CELL_W == 0 && self.pos.1
            % CELL_H == 0 && CELL_W < self.pos.0 && self.pos.0 < GROUND_W - CELL_W && CELL_H
            < self.pos.1 && self.pos.1 < GROUND_H
    }

    /// Whether `other` lies exactly one cell away from this cell along some
    /// direction.
    pub fn is_adjacent(&self, other: &Cell) -> (r: bool)
        ensures
            r == adjacent(self.anchor(), other.anchor()),
    {
        let px: u32 = self.pos.0 as u32;
        let py: u32 = self.pos.1 as u32;
        let qx: u32 = other.pos.0 as u32;
        let qy: u32 = other.pos.1 as u32;
        let w: u32 = CELL_W as u32;
        let h: u32 = CELL_H as u32;
        let ghost p = self.anchor();
        let ghost q = other.anchor();
        if qx == px && qy + h == py {
            assert(q == shifted(p, Direction::Up, 1, CELL_W as int, CELL_H as int));
            true
        } else if qx == px && qy == py + h {
            assert(q == shifted(p, Direction::Down, 1, CELL_W as int, CELL_H as int));
            true
        } else if qy == py && qx + w == px {
            assert(q == shifted(p, Direction::Left, 1, CELL_W as int, CELL_H as int));
            true
        } else if qy == py && qx == px + w {
            assert(q == shifted(p, Direction::Right, 1, CELL_W as int, CELL_H as int));
            true
        } else {
            false
        }
    }

    /// A cell of uniform size, `steps` moves away from this one along `dir`.
    pub fn clone_with_pos_shift(&self, dir: Direction, steps: u16) -> (c: Cell)
        requires
            0 <= self.shift_target(dir, steps as int).0 <= u16::MAX,
            0 <= self.shift_target(dir, steps as int).1 <= u16::MAX,
        ensures
            c == Cell::at(self.shift_target(dir, steps as int)),
            c.anchor() == self.shift_target(dir, steps as int),
            c.wf(),
    {
        let mut x: u16 = self.pos.0;
        let mut y: u16 = self.pos.1;
        proof {
            assert(steps * self.size.0 >= 0 && steps * self.size.1 >= 0) by (nonlinear_arith);
        }
        match dir {
            Direction::Up => y -= steps * self.size.1,
            Direction::Down => y += steps * self.size.1,
            Direction::Left => x -= steps * self.size.0,
            Direction::Right => x += steps * self.size.0,
        }
        Cell::new(x, y)
    }
}

} // verus!
