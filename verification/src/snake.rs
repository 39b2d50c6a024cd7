//! The snake: an ordered run of cells, head first, and its heading.

use crate::geometry::{adjacent, shifted, Cell, Direction, CELL_H, CELL_W};
use crate::wall::Wall;
use std::collections::VecDeque;
use vstd::prelude::*;

verus! {

/// Whether some cell of `cells`, at index `from` or later, is anchored at
/// `p`.
pub open spec fn covers(cells: Seq<Cell>, from: int, p: (u16, u16)) -> bool {
    exists|i: int| from <= i < cells.len() && (#[trigger] cells[i]).pos == p
}

/// The anchor `i` cells behind `pos` for a snake that heads along `dir`.
pub open spec fn trail(pos: (u16, u16), dir: Direction, i: int) -> (int, int) {
    shifted((pos.0 as int, pos.1 as int), dir.reverse(), i, CELL_W as int, CELL_H as int)
}

/// Whether no two of `cells` share an anchor.
pub open spec fn distinct(cells: Seq<Cell>) -> bool {
    forall|i: int, j: int|
        0 <= i < j < cells.len() ==> (#[trigger] cells[i]).pos != (#[trigger] cells[j]).pos
}

pub struct Snake {
    pub body: VecDeque<Cell>,
    pub dir: Direction,
}

impl Snake {
    /// The body is never empty, every cell has the uniform size, and each
    /// cell lies one step away from the cell behind it.
    pub open spec fn wf(self) -> bool {
        &&& self.body@.len() >= 1
        &&& forall|i: int| 0 <= i < self.body@.len() ==> (#[trigger] self.body@[i]).wf()
        &&& forall|i: int|
            0 <= i < self.body@.len() - 1 ==> adjacent(
                self.body@[i + 1].anchor(),
                #[trigger] self.body@[i].anchor(),
            )
    }

    /// The cell one step ahead of the head along the heading.
    pub open spec fn next_head(self) -> Cell {
        Cell::at(self.body@[0].shift_target(self.dir, 1))
    }

    /// Whether the cell one step ahead of the head still has coordinates
    /// that fit the grid's integer type.
    pub open spec fn can_advance(self) -> bool {
        &&& self.body@.len() >= 1
        &&& 0 <= self.body@[0].shift_target(self.dir, 1).0 <= u16::MAX
        &&& 0 <= self.body@[0].shift_target(self.dir, 1).1 <= u16::MAX
    }

    /// A straight snake of `len` cells whose head is at `pos` and whose body
    /// trails behind it, away from the heading.
    pub fn new(pos: (u16, u16), dir: Direction, len: u16) -> (s: Snake)
        requires
            len >= 1,
            0 <= trail(pos, dir, len - 1).0 <= u16::MAX,
            0 <= trail(pos, dir, len - 1).1 <= u16::MAX,
        ensures
            s.dir == dir,
            s.body@.len() == len,
            forall|i: int| 0 <= i < len ==> #[trigger] s.body@[i] == Cell::at(trail(pos, dir, i)),
            s.body@[0].pos == pos,
            s.wf(),
    {
        let head = Cell::new(pos.0, pos.1);
        let dir_rev = dir.reverse();
        let ghost p = (pos.0 as int, pos.1 as int);
        let mut body: VecDeque<Cell> = VecDeque::new();
        let mut i: u16 = 0;
        while i < len
            invariant
                i <= len,
                len >= 1,
                head == Cell::at(p),
                head.anchor() == p,
                head.wf(),
                p == (pos.0 as int, pos.1 as int),
                dir_rev == dir.reverse(),
                0 <= shifted(p, dir_rev, len - 1, CELL_W as int, CELL_H as int).0 <= u16::MAX,
                0 <= shifted(p, dir_rev, len - 1, CELL_W as int, CELL_H as int).1 <= u16::MAX,
                body@.len() == i,
                forall|j: int|
                    0 <= j < i ==> #[trigger] body@[j] == Cell::at(
                        shifted(p, dir_rev, j, CELL_W as int, CELL_H as int),
                    ),
            decreases len - i,
        {
            proof {
                let w = CELL_W as int;
                let h = CELL_H as int;
                assert(0 <= i * w <= (len - 1) * w && 0 <= i * h <= (len - 1) * h)
                    by (nonlinear_arith)
                    requires
                        0 <= i <= len - 1,
                        w >= 0,
                        h >= 0,
                ;
            }
            let c = head.clone_with_pos_shift(dir_rev, i);
            body.push_back(c);
            i += 1;
        }
        let s = Snake { body, dir };
        proof {
            assert forall|j: int| 0 <= j < s.body@.len() - 1 implies adjacent(
                s.body@[j + 1].anchor(),
                #[trigger] s.body@[j].anchor(),
            ) by {
                let a = s.body@[j + 1];
                let b = s.body@[j];
                assert(b.anchor() == shifted(a.anchor(), dir, 1, CELL_W as int, CELL_H as int));
            }
        }
        s
    }

    /// Whether the snake is well formed.
    pub fn is_valid(&self) -> (r: bool)
        ensures
            r == self.wf(),
    {
        let n = self.body.len();
        if n == 0 {
            return false;
        }
        let mut i: usize = 0;
        while i < n
            invariant
                n == self.body@.len(),
                i <= n,
                forall|k: int| 0 <= k < i ==> (#[trigger] self.body@[k]).wf(),
                forall|k: int|
                    0 <= k < i - 1 ==> adjacent(
                        self.body@[k + 1].anchor(),
                        #[trigger] self.body@[k].anchor(),
                    ),
            decreases n - i,
        {
            let c = self.body[i];
            if c.size.0 != CELL_W || c.size.1 != CELL_H {
                return false;
            }
            if i > 0 && !c.is_adjacent(&self.body[i - 1]) {
                assert(!adjacent(self.body@[i - 1 + 1].anchor(), self.body@[i - 1].anchor()));
                return false;
            }
            i += 1;
        }
        true
    }

    /// Whether no two cells of the body share an anchor.
    pub fn is_simple(&self) -> (r: bool)
        ensures
            r == distinct(self.body@),
    {
        let n = self.body.len();
        let mut i: usize = 0;
        while i < n
            invariant
                n == self.body@.len(),
                i <= n,
                forall|a: int, b: int|
                    0 <= a < i && a < b < n ==> (#[trigger] self.body@[a]).pos
                        != (#[trigger] self.body@[b]).pos,
            decreases n - i,
        {
            let c = self.body[i];
            if self.occupies_from(i + 1, &c) {
                return false;
            }
            i += 1;
        }
        true
    }

    pub fn head(&self) -> (c: &Cell)
        requires
            self.body@.len() >= 1,
        ensures
            *c == self.body@[0],
    {
        &self.body[0]
    }

    /// Whether some cell of the body, at index `from` or later, shares its
    /// anchor with `cell`.
    pub fn occupies_from(&self, from: usize, cell: &Cell) -> (r: bool)
        ensures
            r == covers(self.body@, from as int, cell.pos),
    {
        let n = self.body.len();
        let mut i: usize = from;
        while i < n
            invariant
                n == self.body@.len(),
                from <= i,
                forall|j: int|
                    from <= j < i && j < n ==> (#[trigger] self.body@[j]).pos != cell.pos,
            decreases n - i,
        {
            if self.body[i] == *cell {
                return true;
            }
            i += 1;
        }
        false
    }

    /// Puts a new head one step ahead along the heading and keeps the tail.
    pub fn grow_body(&mut self)
        requires
            old(self).can_advance(),
        ensures
            final(self).dir == old(self).dir,
            final(self).body@ == seq![old(self).next_head()] + old(self).body@,
            final(self).body@.len() == old(self).body@.len() + 1,
            old(self).wf() ==> final(self).wf(),
    {
        let next = self.head().clone_with_pos_shift(self.dir, 1);
        self.body.push_front(next);
        proof {
            Self::lemma_prepend_keeps_wf(*old(self));
        }
    }

    /// Puts a new head one step ahead along the heading and drops the tail.
    pub fn move_body(&mut self)
        requires
            old(self).can_advance(),
        ensures
            final(self).dir == old(self).dir,
            final(self).body@ == (seq![old(self).next_head()] + old(self).body@).drop_last(),
            final(self).body@.len() == old(self).body@.len(),
            old(self).wf() ==> final(self).wf(),
    {
        let next = self.head().clone_with_pos_shift(self.dir, 1);
        self.body.push_front(next);
        self.body.pop_back();
        proof {
            Self::lemma_prepend_keeps_wf(*old(self));
        }
    }

    /// True when a cell behind the head shares the head's anchor.
    pub fn check_bite_body(&self) -> (r: bool)
        requires
            self.body@.len() >= 1,
        ensures
            r == covers(self.body@, 1, self.body@[0].pos),
    {
        let head = self.body[0];
        self.occupies_from(1, &head)
    }

    /// True when the head shares its anchor with `food`.
    pub fn check_bite_food(&self, food: &Cell) -> (r: bool)
        requires
            self.body@.len() >= 1,
        ensures
            r == (self.body@[0].pos == food.pos),
    {
        self.body[0] == *food
    }

    /// True when any cell of the body shares its anchor with `food`.
    pub fn check_overlap_food(&self, food: &Cell) -> (r: bool)
        ensures
            r == covers(self.body@, 0, food.pos),
    {
        self.occupies_from(0, food)
    }

    /// True when some wall cell shares its anchor with the head.
    pub fn check_collide_wall(&self, wall: &Wall) -> (r: bool)
        requires
            self.body@.len() >= 1,
        ensures
            r == covers(wall.cells@, 0, self.body@[0].pos),
    {
        let head = self.body[0];
        wall.contains(&head)
    }

    /// Prepending a next head that lies on no cell behind the head to a
    /// body without repeated anchors gives a body without repeated anchors,
    /// with or without the old tail.
    pub proof fn lemma_prepend_keeps_distinct(s: Snake)
        requires
            s.can_advance(),
            s.body@[0].wf(),
            distinct(s.body@),
            !covers(s.body@, 1, s.next_head().pos),
        ensures
            distinct(seq![s.next_head()] + s.body@),
            distinct((seq![s.next_head()] + s.body@).drop_last()),
    {
        let grown = seq![s.next_head()] + s.body@;
        assert forall|i: int, j: int| 0 <= i < j < grown.len() implies (#[trigger] grown[i]).pos
            != (#[trigger] grown[j]).pos by {
            if i == 0 {
                assert(grown[j] == s.body@[j - 1]);
            } else {
                assert(grown[i] == s.body@[i - 1]);
                assert(grown[j] == s.body@[j - 1]);
            }
        }
        let moved = grown.drop_last();
        assert forall|i: int, j: int| 0 <= i < j < moved.len() implies (#[trigger] moved[i]).pos
            != (#[trigger] moved[j]).pos by {
            assert(moved[i] == grown[i]);
            assert(moved[j] == grown[j]);
        }
    }

    /// Prepending the next head to a well-formed body gives a well-formed
    /// body, with or without the old tail.
    pub proof fn lemma_prepend_keeps_wf(s: Snake)
        requires
            s.can_advance(),
        ensures
            s.wf() ==> {
                let grown = seq![s.next_head()] + s.body@;
                &&& grown.len() == s.body@.len() + 1
                &&& forall|i: int| 0 <= i < grown.len() ==> (#[trigger] grown[i]).wf()
                &&& forall|i: int|
                    0 <= i < grown.len() - 1 ==> adjacent(
                        grown[i + 1].anchor(),
                        #[trigger] grown[i].anchor(),
                    )
            },
    {
        if s.wf() {
            let grown = seq![s.next_head()] + s.body@;
            assert forall|i: int| 0 <= i < grown.len() - 1 implies adjacent(
                grown[i + 1].anchor(),
                #[trigger] grown[i].anchor(),
            ) by {
                if i > 0 {
                    assert(grown[i] == s.body@[i - 1]);
                    assert(grown[i + 1] == s.body@[i]);
                    assert(adjacent(s.body@[i - 1 + 1].anchor(), s.body@[i - 1].anchor()));
                } else {
                    assert(grown[1] == s.body@[0]);
                }
            }
        }
    }
}

} // verus!
