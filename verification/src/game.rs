//! The game: wall, snake, food and score, and the rules that advance them.

use crate::chance::random_in;
use crate::geometry::{
    in_interior, Cell, Direction, CELL_H, CELL_W, GROUND_H, GROUND_W, INTERIOR_CELLS,
};
use crate::snake::{covers, distinct, Snake};
use crate::wall::{wall_cells, Wall};
use vstd::prelude::*;
use vstd::relations::injective_on;
use vstd::set_lib::{lemma_int_range, lemma_len_subset, lemma_map_size, set_int_range};

verus! {

/// Milliseconds between two ticks.
pub const TIME_STEP: u64 = 150;

/// Number of random draws made for a new food position before the lattice
/// is searched in order.
pub const FOOD_DRAWS: u32 = 4096;

/// What the player did, as far as the game cares.
#[derive(Debug, Clone, Copy, PartialEq, Eq, Structural)]
pub enum Input {
    Up,
    Down,
    Left,
    Right,
    Quit,
    Other,
}

/// What a tick did to the game.
#[derive(Debug, Clone, Copy, PartialEq, Eq, Structural)]
pub enum Outcome {
    /// The game is over; nothing moved.
    Over,
    /// The snake took the food and grew by one cell.
    Ate,
    /// The snake moved one step.
    Moved,
}

/// Whether the snake's body leaves no position of the interior free.
pub open spec fn board_full(body: Seq<Cell>) -> bool {
    forall|x: u16, y: u16| in_interior((x as int, y as int)) ==> #[trigger] covers(body, 0, (x, y))
}

/// Whether `p` is a position where food may be put: inside the interior and
/// off the snake's body.
pub open spec fn free_for_food(body: Seq<Cell>, p: (u16, u16)) -> bool {
    in_interior((p.0 as int, p.1 as int)) && !covers(body, 0, p)
}

/// Whether none of the first `n` of `samples` is free for food.
pub open spec fn none_free(body: Seq<Cell>, samples: Seq<(u16, u16)>, n: int) -> bool {
    forall|j: int| 0 <= j < n && j < samples.len() ==> !free_for_food(body, #[trigger] samples[j])
}

/// Whether the sample at index `k` is the first of `samples` that is free
/// for food.
pub open spec fn first_free(body: Seq<Cell>, samples: Seq<(u16, u16)>, k: int) -> bool {
    &&& 0 <= k < samples.len()
    &&& free_for_food(body, samples[k])
    &&& none_free(body, samples, k)
}

/// The `n`-th position of the interior lattice, counted column by column,
/// thirty positions to a column.
pub open spec fn lattice_pos(n: int) -> (u16, u16) {
    ((2 * (n / 30 + 2)) as u16, (n % 30 + 2) as u16)
}

/// A body that covers every position of the interior has at least as many
/// cells as the interior has positions.
pub proof fn lemma_full_board_is_long(body: Seq<Cell>)
    requires
        board_full(body),
    ensures
        body.len() >= INTERIOR_CELLS,
{
    let positions = set_int_range(0, INTERIOR_CELLS as int);
    let holder = |n: int|
        choose|i: int| 0 <= i < body.len() && (#[trigger] body[i]).pos == lattice_pos(n);
    assert forall|n: int| positions.contains(n) implies 0 <= #[trigger] holder(n) < body.len()
        && body[holder(n)].pos == lattice_pos(n) by {
        let p = lattice_pos(n);
        assert(in_interior((p.0 as int, p.1 as int)));
        assert(covers(body, 0, (p.0, p.1)));
    }
    assert(injective_on(holder, positions)) by {
        assert forall|a: int, b: int|
            positions.contains(a) && positions.contains(b) && #[trigger] holder(a)
                == #[trigger] holder(b) implies a == b by {
            assert(lattice_pos(a) == lattice_pos(b));
        }
    }
    let holders = positions.map(holder);
    lemma_int_range(0, INTERIOR_CELLS as int);
    lemma_map_size(positions, holders, holder);
    let indices = set_int_range(0, body.len() as int);
    lemma_int_range(0, body.len() as int);
    assert forall|i: int| holders.contains(i) implies indices.contains(i) by {
        let n = choose|n: int| positions.contains(n) && i == holder(n);
        assert(0 <= holder(n) < body.len());
    }
    lemma_len_subset(holders, indices);
}

pub struct Game {
    pub wall: Wall,
    pub snake: Snake,
    pub food: Cell,
    pub score: u16,
    /// Clock reading at the last tick, in milliseconds.
    pub time: u64,
    /// Milliseconds between two ticks.
    pub time_step: u64,
    pub is_over: bool,
}

impl Game {
    /// The wall is the border, the snake is connected, crosses itself
    /// nowhere and lies inside the interior, the food lies inside the
    /// interior, and the snake is no longer than the interior has room for;
    /// once it is that long the game is over.
    pub open spec fn wf(self) -> bool {
        &&& self.wall.wf()
        &&& self.snake.wf()
        &&& distinct(self.snake.body@)
        &&& forall|i: int|
            0 <= i < self.snake.body@.len() ==> in_interior(
                (#[trigger] self.snake.body@[i]).anchor(),
            )
        &&& self.snake.body@.len() <= INTERIOR_CELLS
        &&& (self.snake.body@.len() == INTERIOR_CELLS ==> self.is_over)
        &&& self.food.wf()
        &&& in_interior(self.food.anchor())
        &&& self.score <= self.snake.body@.len()
    }

    /// Which of the three things the next tick will do.
    pub open spec fn tick_kind(self) -> Outcome {
        let next = self.snake.next_head();
        if self.is_over || covers(self.wall.cells@, 0, next.pos) || covers(
            self.snake.body@,
            1,
            next.pos,
        ) {
            Outcome::Over
        } else if next.pos == self.food.pos {
            Outcome::Ate
        } else {
            Outcome::Moved
        }
    }

    /// What a tick of kind `o` does to everything but the food and the
    /// clock: the wall and the heading stay, the body and the score change
    /// as `o` says, a collision ends the game, and so does a meal after
    /// which the snake has as many cells as the interior has positions.
    pub open spec fn stepped(self, post: Game, o: Outcome) -> bool {
        &&& o == self.tick_kind()
        &&& post.wall.cells@ == self.wall.cells@
        &&& post.snake.dir == self.snake.dir
        &&& post.time_step == self.time_step
        &&& match o {
            Outcome::Over => {
                &&& post.snake.body@ == self.snake.body@
                &&& post.score == self.score
                &&& post.is_over
            },
            Outcome::Ate => {
                &&& post.snake.body@ == seq![self.snake.next_head()] + self.snake.body@
                &&& post.score == self.score + 1
                &&& post.is_over == (post.snake.body@.len() >= INTERIOR_CELLS)
            },
            Outcome::Moved => {
                &&& post.snake.body@ == (seq![self.snake.next_head()]
                    + self.snake.body@).drop_last()
                &&& post.score == self.score
                &&& !post.is_over
            },
        }
    }

    /// What a whole tick of kind `o` does but to the clock: the step above,
    /// and new food on a free position after a meal that does not end the
    /// game.
    pub open spec fn ticked(self, post: Game, o: Outcome) -> bool {
        &&& self.stepped(post, o)
        &&& if o == Outcome::Ate && !post.is_over {
            post.food.wf() && free_for_food(post.snake.body@, post.food.pos)
        } else {
            post.food == self.food
        }
    }

    /// The heading after the first of `events` has been applied.
    pub open spec fn heading_after(self, events: Seq<Input>) -> Direction {
        if events.len() == 0 {
            self.snake.dir
        } else {
            match events[0] {
                Input::Up => self.snake.dir.steer(Direction::Up),
                Input::Down => self.snake.dir.steer(Direction::Down),
                Input::Left => self.snake.dir.steer(Direction::Left),
                Input::Right => self.snake.dir.steer(Direction::Right),
                _ => self.snake.dir,
            }
        }
    }

    /// Whether the game is over after the first of `events` has been
    /// applied.
    pub open spec fn over_after(self, events: Seq<Input>) -> bool {
        self.is_over || (events.len() > 0 && events[0] == Input::Quit)
    }

    /// The game after the first of `events` has been applied.
    pub open spec fn after_events(self, events: Seq<Input>) -> Game {
        Game {
            snake: Snake { dir: self.heading_after(events), ..self.snake },
            is_over: self.over_after(events),
            ..self
        }
    }

    /// Whether a tick is due when the clock reads `now`.
    pub open spec fn tick_due(self, now: u64) -> bool {
        now >= self.time && now - self.time >= self.time_step
    }

    /// Whether the game is well formed.
    pub fn is_valid(&self) -> (r: bool)
        ensures
            r == self.wf(),
    {
        if !self.wall.is_valid() || !self.snake.is_valid() || !self.food.is_inside() {
            return false;
        }
        if !self.snake.is_simple() {
            return false;
        }
        let n = self.snake.body.len();
        if n > INTERIOR_CELLS || (n == INTERIOR_CELLS && !self.is_over) {
            return false;
        }
        if self.score as usize > n {
            return false;
        }
        let mut i: usize = 0;
        while i < n
            invariant
                n == self.snake.body@.len(),
                i <= n,
                forall|k: int|
                    0 <= k < i ==> in_interior((#[trigger] self.snake.body@[k]).anchor()),
            decreases n - i,
        {
            if !self.snake.body[i].is_inside() {
                return false;
            }
            i += 1;
        }
        true
    }

    /// Milliseconds between two refreshes: half the time between two
    /// ticks.
    pub fn refresh_period(&self) -> (ms: u64)
        ensures
            ms == self.time_step / 2,
    {
        self.time_step / 2
    }

    /// A fresh game whose clock starts at `now`: a snake of three cells in
    /// the middle of the field heading right, food in the lower half, no
    /// score.
    pub fn new(now: u64) -> (g: Game)
        ensures
            g.wf(),
            !g.is_over,
            g.score == 0,
            g.time == now,
            g.time_step == TIME_STEP,
            g.food == Cell::at((30, 30)),
            g.snake.dir == Direction::Right,
            g.snake.body@ == seq![Cell::at((32, 16)), Cell::at((30, 16)), Cell::at((28, 16))],
            g.wall.cells@ == wall_cells(),
    {
        let g = Game {
            wall: Wall::new(),
            snake: Snake::new((GROUND_W / 2, GROUND_H / 2), Direction::Right, 3),
            food: Cell::new(30, 30),
            score: 0,
            time: now,
            time_step: TIME_STEP,
            is_over: false,
        };
        assert(g.snake.body@ =~= seq![Cell::at((32, 16)), Cell::at((30, 16)), Cell::at((28, 16))]);
        g
    }

    /// Applies the first of `events`, if there is one, and discards the
    /// rest: an arrow steers unless it asks for a half turn, the quit key
    /// ends the game, anything else is ignored.
    pub fn process_event(&mut self, events: &Vec<Input>)
        ensures
            final(self).snake.dir == old(self).heading_after(events@),
            final(self).is_over == old(self).over_after(events@),
            final(self).snake.body@ == old(self).snake.body@,
            final(self).wall.cells@ == old(self).wall.cells@,
            final(self).food == old(self).food,
            final(self).score == old(self).score,
            final(self).time == old(self).time,
            final(self).time_step == old(self).time_step,
            *final(self) == old(self).after_events(events@),
            old(self).wf() ==> final(self).wf(),
    {
        if events.len() > 0 {
            match events[0] {
                Input::Up => {
                    self.snake.dir = self.snake.dir.steer(Direction::Up);
                },
                Input::Down => {
                    self.snake.dir = self.snake.dir.steer(Direction::Down);
                },
                Input::Left => {
                    self.snake.dir = self.snake.dir.steer(Direction::Left);
                },
                Input::Right => {
                    self.snake.dir = self.snake.dir.steer(Direction::Right);
                },
                Input::Quit => {
                    self.is_over = true;
                },
                Input::Other => {},
            }
        }
    }

    /// Advances the game by one tick, leaving the food where it is.
    ///
    /// The cell ahead of the head decides: on the wall or on the body the
    /// game ends and nothing moves; on the food the snake grows and scores;
    /// otherwise the snake moves. A snake that has grown to fill the
    /// interior ends the game.
    pub fn advance(&mut self) -> (o: Outcome)
        requires
            old(self).wf(),
        ensures
            final(self).wf(),
            old(self).stepped(*final(self), o),
            final(self).food == old(self).food,
            final(self).time == old(self).time,
            old(self).is_over ==> final(self).is_over,
    {
        if self.is_over {
            return Outcome::Over;
        }
        let next = self.snake.head().clone_with_pos_shift(self.snake.dir, 1);
        if self.wall.contains(&next) || self.snake.occupies_from(1, &next) {
            self.is_over = true;
            return Outcome::Over;
        }
        proof {
            Snake::lemma_prepend_keeps_distinct(self.snake);
        }
        if next == self.food {
            self.score += 1;
            self.snake.grow_body();
            if self.snake.body.len() >= INTERIOR_CELLS {
                self.is_over = true;
            }
            Outcome::Ate
        } else {
            self.snake.move_body();
            Outcome::Moved
        }
    }

    /// Draws one position of the interior lattice at random.
    pub fn sample_food_pos() -> (p: (u16, u16))
        ensures
            in_interior((p.0 as int, p.1 as int)),
    {
        let column: u16 = random_in(2, GROUND_W / CELL_W - 1);
        let row: u16 = random_in(2, GROUND_H / CELL_H);
        (column * CELL_W, row * CELL_H)
    }

    /// Moves the food to a position of the interior lattice drawn at
    /// random, whether or not the snake lies there.
    pub fn update_food_pos(&mut self)
        ensures
            in_interior(final(self).food.anchor()),
            final(self).food.size == old(self).food.size,
            final(self).snake == old(self).snake,
            final(self).wall == old(self).wall,
            final(self).score == old(self).score,
            final(self).time == old(self).time,
            final(self).time_step == old(self).time_step,
            final(self).is_over == old(self).is_over,
            old(self).wf() ==> final(self).wf(),
    {
        let p = Self::sample_food_pos();
        self.food.pos = p;
    }

    /// Puts the food at `(x, y)` if that is a position of the interior
    /// lattice which the snake does not cover, and says whether it did.
    pub fn try_place_food(&mut self, x: u16, y: u16) -> (placed: bool)
        ensures
            placed == free_for_food(old(self).snake.body@, (x, y)),
            placed ==> final(self).food == Cell::new_spec((x, y)),
            !placed ==> final(self).food == old(self).food,
            final(self).snake == old(self).snake,
            final(self).wall == old(self).wall,
            final(self).score == old(self).score,
            final(self).time == old(self).time,
            final(self).time_step == old(self).time_step,
            final(self).is_over == old(self).is_over,
            old(self).wf() ==> final(self).wf(),
    {
        let inside = x % CELL_W == 0 && CELL_W < x && x < GROUND_W - CELL_W && y % CELL_H == 0
            && CELL_H < y && y < GROUND_H;
        if !inside {
            return false;
        }
        let candidate = Cell::new(x, y);
        if self.snake.check_overlap_food(&candidate) {
            return false;
        }
        self.food = candidate;
        true
    }

    /// Tries the positions of `samples` in order until one is taken as the
    /// new food position, and returns how many were looked at.
    ///
    /// The food ends up at the first sample that is free for food; where
    /// none is, it stays and every sample has been looked at.
    pub fn place_food_from(&mut self, samples: &Vec<(u16, u16)>) -> (used: usize)
        ensures
            used <= samples@.len(),
            first_free(old(self).snake.body@, samples@, used - 1) ==> final(self).food
                == Cell::new_spec(samples@[used - 1]),
            !first_free(old(self).snake.body@, samples@, used - 1) ==> {
                &&& none_free(old(self).snake.body@, samples@, samples@.len() as int)
                &&& used == samples@.len()
                &&& final(self).food == old(self).food
            },
            final(self).snake == old(self).snake,
            final(self).wall == old(self).wall,
            final(self).score == old(self).score,
            final(self).time == old(self).time,
            final(self).time_step == old(self).time_step,
            final(self).is_over == old(self).is_over,
            old(self).wf() ==> final(self).wf(),
    {
        let mut k: usize = 0;
        while k < samples.len()
            invariant
                k <= samples@.len(),
                none_free(old(self).snake.body@, samples@, k as int),
                *self == *old(self),
            decreases samples@.len() - k,
        {
            let p = samples[k];
            if self.try_place_food(p.0, p.1) {
                return k + 1;
            }
            k += 1;
        }
        k
    }

    /// The first position of the interior lattice, column by column from
    /// the left and top to bottom within a column, that the snake does not
    /// cover; `None` where it covers them all.
    pub fn first_free_cell(&self) -> (found: Option<Cell>)
        ensures
            match found {
                Some(c) => {
                    &&& c.wf()
                    &&& free_for_food(self.snake.body@, c.pos)
                    &&& forall|a: u16, b: u16|
                        in_interior((a as int, b as int)) && (a < c.pos.0 || (a == c.pos.0 && b
                            < c.pos.1)) ==> #[trigger] covers(self.snake.body@, 0, (a, b))
                },
                None => board_full(self.snake.body@),
            },
    {
        let mut x: u16 = 2 * CELL_W;
        while x < GROUND_W - CELL_W
            invariant
                4 <= x <= 62,
                x % 2 == 0,
                forall|a: u16, b: u16|
                    in_interior((a as int, b as int)) && a < x ==> #[trigger] covers(
                        self.snake.body@,
                        0,
                        (a, b),
                    ),
            decreases 62 - x,
        {
            let mut y: u16 = 2 * CELL_H;
            while y < GROUND_H
                invariant
                    4 <= x < 62,
                    x % 2 == 0,
                    2 <= y <= 32,
                    forall|a: u16, b: u16|
                        in_interior((a as int, b as int)) && (a < x || (a == x && b < y))
                            ==> #[trigger] covers(self.snake.body@, 0, (a, b)),
                decreases 32 - y,
            {
                let candidate = Cell::new(x, y);
                if !self.snake.check_overlap_food(&candidate) {
                    return Some(candidate);
                }
                y += CELL_H;
            }
            x += CELL_W;
        }
        None
    }

    /// Finds a new place for the food and says whether there was one.
    ///
    /// Positions of the interior lattice are drawn at random until one is
    /// off the snake. After `FOOD_DRAWS` draws the lattice is searched in
    /// order instead, so the search ends even on a crowded board. Where the
    /// snake covers the whole interior the food stays where it was.
    pub fn place_food(&mut self) -> (placed: bool)
        ensures
            placed == !board_full(old(self).snake.body@),
            placed ==> final(self).food.wf() && free_for_food(
                old(self).snake.body@,
                final(self).food.pos,
            ),
            !placed ==> final(self).food == old(self).food,
            final(self).snake == old(self).snake,
            final(self).wall == old(self).wall,
            final(self).score == old(self).score,
            final(self).time == old(self).time,
            final(self).time_step == old(self).time_step,
            final(self).is_over == old(self).is_over,
            old(self).wf() ==> final(self).wf(),
    {
        let before = self.food;
        let mut draws: u32 = 0;
        while draws < FOOD_DRAWS
            invariant
                self.snake == old(self).snake,
                self.wall == old(self).wall,
                self.score == old(self).score,
                self.time == old(self).time,
                self.time_step == old(self).time_step,
                self.is_over == old(self).is_over,
                self.food.size == old(self).food.size,
                before == old(self).food,
            decreases FOOD_DRAWS - draws,
        {
            self.update_food_pos();
            if !self.snake.check_overlap_food(&self.food) {
                self.food = Cell::new(self.food.pos.0, self.food.pos.1);
                return true;
            }
            draws += 1;
        }
        match self.first_free_cell() {
            Some(c) => {
                self.food = c;
                true
            },
            None => {
                self.food = before;
                false
            },
        }
    }

    /// Advances the game by one tick and, after a meal that leaves room,
    /// finds a new place for the food.
    pub fn update_game_state(&mut self) -> (o: Outcome)
        requires
            old(self).wf(),
        ensures
            final(self).wf(),
            old(self).ticked(*final(self), o),
            final(self).time == old(self).time,
            old(self).is_over ==> final(self).is_over,
    {
        let o = self.advance();
        if o == Outcome::Ate && !self.is_over {
            proof {
                if board_full(self.snake.body@) {
                    lemma_full_board_is_long(self.snake.body@);
                }
            }
            let _placed = self.place_food();
        }
        o
    }

    /// One round of the loop after the frame has been drawn: applies the
    /// first of `events`, then ticks if a tick is due at clock reading
    /// `now` and restarts the tick clock. Returns what the tick did, or
    /// `None` where none was due.
    pub fn refresh(&mut self, events: &Vec<Input>, now: u64) -> (r: Option<Outcome>)
        requires
            old(self).wf(),
        ensures
            final(self).wf(),
            old(self).tick_due(now) ==> r is Some && old(self).after_events(events@).ticked(
                *final(self),
                r->Some_0,
            ) && final(self).time == now,
            !old(self).tick_due(now) ==> r is None && *final(self) == old(self).after_events(
                events@,
            ),
    {
        self.process_event(events);
        if now >= self.time && now - self.time >= self.time_step {
            let o = self.update_game_state();
            self.time = now;
            Some(o)
        } else {
            None
        }
    }
}

} // verus!
