//! The wall: the four border segments that enclose the playfield.

use crate::geometry::{Cell, CELL_H, CELL_W, GROUND_H, GROUND_W};
use crate::snake::covers;
use vstd::prelude::*;

verus! {

/// Whether a cell anchored at `p` is part of the border: the top row, the
/// bottom row, or one of the two side columns between them.
pub open spec fn on_border(p: (int, int)) -> bool {
    &&& p.0 % (CELL_W as int) == 0
    &&& CELL_W <= p.0 <= GROUND_W - CELL_W
    &&& CELL_H <= p.1 <= GROUND_H
    &&& (p.1 == CELL_H || p.1 == GROUND_H || p.0 == CELL_W || p.0 == GROUND_W - CELL_W)
}

/// The anchor of the `k`-th wall cell: the 31 cells of the top run from
/// left to right, the 30 cells of the left column and the 30 of the right
/// column from top to bottom, then the 31 cells of the bottom run from left
/// to right.
pub open spec fn wall_anchor(k: int) -> (int, int) {
    if k < 31 {
        ((k + 1) * CELL_W, CELL_H as int)
    } else if k < 61 {
        (CELL_W as int, (k - 31 + 2) * CELL_H)
    } else if k < 91 {
        (GROUND_W - CELL_W, (k - 61 + 2) * CELL_H)
    } else {
        ((k - 91 + 1) * CELL_W, GROUND_H as int)
    }
}

/// The wall's cells in the order in which they are laid down.
pub open spec fn wall_cells() -> Seq<Cell> {
    Seq::new(122, |k: int| Cell::at(wall_anchor(k)))
}

pub struct Wall {
    pub cells: Vec<Cell>,
}

impl Wall {
    /// The wall holds exactly the border cells, in their fixed order.
    pub open spec fn wf(self) -> bool {
        self.cells@ == wall_cells()
    }

    pub fn new() -> (w: Wall)
        ensures
            w.wf(),
            w.cells@ == wall_cells(),
    {
        let mut cells: Vec<Cell> = Vec::new();
        let columns: u16 = GROUND_W / CELL_W;
        let rows: u16 = GROUND_H / CELL_H;
        let mut i: u16 = 1;
        while i < columns
            invariant
                columns == 32,
                1 <= i <= columns,
                cells@.len() == i - 1,
                forall|k: int|
                    0 <= k < cells@.len() ==> #[trigger] cells@[k] == Cell::at(wall_anchor(k)),
            decreases columns - i,
        {
            cells.push(Cell::new(i * CELL_W, CELL_H));
            i += 1;
        }
        let mut i: u16 = 2;
        while i < rows
            invariant
                rows == 32,
                2 <= i <= rows,
                cells@.len() == 31 + i - 2,
                forall|k: int|
                    0 <= k < cells@.len() ==> #[trigger] cells@[k] == Cell::at(wall_anchor(k)),
            decreases rows - i,
        {
            cells.push(Cell::new(CELL_W, i * CELL_H));
            i += 1;
        }
        let mut i: u16 = 2;
        while i < rows
            invariant
                rows == 32,
                2 <= i <= rows,
                cells@.len() == 61 + i - 2,
                forall|k: int|
                    0 <= k < cells@.len() ==> #[trigger] cells@[k] == Cell::at(wall_anchor(k)),
            decreases rows - i,
        {
            cells.push(Cell::new(GROUND_W - CELL_W, i * CELL_H));
            i += 1;
        }
        let mut i: u16 = 1;
        while i < columns
            invariant
                columns == 32,
                1 <= i <= columns,
                cells@.len() == 91 + i - 1,
                forall|k: int|
                    0 <= k < cells@.len() ==> #[trigger] cells@[k] == Cell::at(wall_anchor(k)),
            decreases columns - i,
        {
            cells.push(Cell::new(i * CELL_W, GROUND_H));
            i += 1;
        }
        assert(cells@ =~= wall_cells());
        Wall { cells }
    }

    /// Whether the wall is well formed.
    pub fn is_valid(&self) -> (r: bool)
        ensures
            r == self.wf(),
    {
        let border = Wall::new();
        let n = border.cells.len();
        if self.cells.len() != n {
            return false;
        }
        let mut i: usize = 0;
        while i < n
            invariant
                n == border.cells@.len(),
                n == self.cells@.len(),
                border.cells@ == wall_cells(),
                i <= n,
                forall|k: int| 0 <= k < i ==> self.cells@[k] == border.cells@[k],
            decreases n - i,
        {
            let a = self.cells[i];
            let b = border.cells[i];
            if a.pos.0 != b.pos.0 || a.pos.1 != b.pos.1 || a.size.0 != b.size.0 || a.size.1
                != b.size.1 {
                return false;
            }
            i += 1;
        }
        assert(self.cells@ =~= wall_cells());
        true
    }

    /// Whether some wall cell shares its anchor with `cell`.
    pub fn contains(&self, cell: &Cell) -> (r: bool)
        ensures
            r == covers(self.cells@, 0, cell.pos),
            self.wf() ==> r == on_border(cell.anchor()),
    {
        let n = self.cells.len();
        let mut i: usize = 0;
        while i < n
            invariant
                n == self.cells@.len(),
                forall|j: int| 0 <= j < i ==> (#[trigger] self.cells@[j]).pos != cell.pos,
            decreases n - i,
        {
            if self.cells[i] == *cell {
                proof {
                    lemma_wall_is_border(cell.pos);
                }
                return true;
            }
            i += 1;
        }
        proof {
            lemma_wall_is_border(cell.pos);
        }
        false
    }
}

/// The wall's cells are exactly the cells on the border.
pub proof fn lemma_wall_is_border(p: (u16, u16))
    ensures
        covers(wall_cells(), 0, p) <==> on_border((p.0 as int, p.1 as int)),
{
    let cells = wall_cells();
    let q = (p.0 as int, p.1 as int);
    if on_border(q) {
        let k: int = if q.1 == CELL_H {
            q.0 / 2 - 1
        } else if q.1 == GROUND_H {
            q.0 / 2 - 1 + 91
        } else if q.0 == CELL_W {
            q.1 - 2 + 31
        } else {
            q.1 - 2 + 61
        };
        assert(0 <= k < 122);
        assert(wall_anchor(k) == q);
        assert(cells[k].pos == p);
    }
    if covers(cells, 0, p) {
        let k = choose|k: int| 0 <= k < cells.len() && (#[trigger] cells[k]).pos == p;
        assert(cells[k] == Cell::at(wall_anchor(k)));
        assert(on_border(wall_anchor(k)));
    }
}

} // verus!
