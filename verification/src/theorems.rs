//! What holds of every game, proved from the contracts of the engine.

use crate::game::{
    board_full, free_for_food, lattice_pos, lemma_full_board_is_long, Game, Input, Outcome,
};
use crate::geometry::{adjacent, aligned, in_interior, Cell, Direction, INTERIOR_CELLS};
use crate::snake::{covers, distinct, Snake};
use crate::wall::wall_anchor;
use vstd::prelude::*;
use vstd::relations::injective_on;
use vstd::set_lib::{lemma_int_range, lemma_map_size, lemma_subset_equality, set_int_range};

verus! {

/// The number of meals among `outcomes`.
pub open spec fn meals(outcomes: Seq<Outcome>) -> nat
    decreases outcomes.len(),
{
    if outcomes.len() == 0 {
        0
    } else {
        meals(outcomes.drop_last()) + if outcomes.last() == Outcome::Ate {
            1nat
        } else {
            0nat
        }
    }
}

/// Whether `states` is a run of the game in which each state follows from
/// the one before by a tick with the outcome listed for it.
pub open spec fn is_run(states: Seq<Game>, outcomes: Seq<Outcome>) -> bool {
    &&& states.len() == outcomes.len() + 1
    &&& forall|i: int|
        0 <= i < outcomes.len() ==> (#[trigger] states[i]).ticked(states[i + 1], outcomes[i])
}

/// A tick changes the snake's length by one if it is a meal and not at all
/// otherwise.
pub proof fn lemma_tick_length(pre: Game, post: Game, o: Outcome)
    requires
        pre.snake.body@.len() >= 1,
        pre.ticked(post, o),
    ensures
        o == Outcome::Ate ==> post.snake.body@.len() == pre.snake.body@.len() + 1,
        o != Outcome::Ate ==> post.snake.body@.len() == pre.snake.body@.len(),
{
}

/// Over any run of ticks the snake grows by exactly one cell per meal, and
/// so does the score: a run without a meal leaves the length as it was.
pub proof fn lemma_run_length(states: Seq<Game>, outcomes: Seq<Outcome>)
    requires
        is_run(states, outcomes),
        states[0].snake.body@.len() >= 1,
    ensures
        states.last().snake.body@.len() == states[0].snake.body@.len() + meals(outcomes),
        states.last().score == states[0].score + meals(outcomes),
        (forall|i: int| 0 <= i < outcomes.len() ==> outcomes[i] != Outcome::Ate)
            ==> states.last().snake.body@.len() == states[0].snake.body@.len(),
    decreases outcomes.len(),
{
    if outcomes.len() > 0 {
        let n = outcomes.len() as int;
        let before = states.drop_last();
        let earlier = outcomes.drop_last();
        assert forall|i: int| 0 <= i < earlier.len() implies (#[trigger] before[i]).ticked(
            before[i + 1],
            earlier[i],
        ) by {
            assert(states[i].ticked(states[i + 1], outcomes[i]));
        }
        lemma_run_length(before, earlier);
        assert(before.last() == states[n - 1]);
        assert(states[n - 1].ticked(states[n], outcomes[n - 1]));
        lemma_tick_length(states[n - 1], states[n], outcomes[n - 1]);
        if forall|i: int| 0 <= i < outcomes.len() ==> outcomes[i] != Outcome::Ate {
            lemma_no_meals(outcomes);
        }
    } else {
        if forall|i: int| 0 <= i < outcomes.len() ==> outcomes[i] != Outcome::Ate {
            lemma_no_meals(outcomes);
        }
    }
}

/// A list of outcomes none of which is a meal counts no meals.
pub proof fn lemma_no_meals(outcomes: Seq<Outcome>)
    requires
        forall|i: int| 0 <= i < outcomes.len() ==> outcomes[i] != Outcome::Ate,
    ensures
        meals(outcomes) == 0,
    decreases outcomes.len(),
{
    if outcomes.len() > 0 {
        let earlier = outcomes.drop_last();
        assert forall|i: int| 0 <= i < earlier.len() implies earlier[i] != Outcome::Ate by {
            assert(earlier[i] == outcomes[i]);
        }
        lemma_no_meals(earlier);
    }
}

/// In a well-formed game every anchor of the snake, of the wall and of the
/// food is a multiple of the cell size.
pub proof fn lemma_anchors_aligned(g: Game)
    requires
        g.wf(),
    ensures
        forall|i: int|
            0 <= i < g.snake.body@.len() ==> aligned((#[trigger] g.snake.body@[i]).anchor()),
        forall|i: int|
            0 <= i < g.wall.cells@.len() ==> aligned((#[trigger] g.wall.cells@[i]).anchor()),
        aligned(g.food.anchor()),
{
    assert forall|i: int| 0 <= i < g.snake.body@.len() implies aligned(
        (#[trigger] g.snake.body@[i]).anchor(),
    ) by {
        assert(in_interior(g.snake.body@[i].anchor()));
    }
    assert forall|i: int| 0 <= i < g.wall.cells@.len() implies aligned(
        (#[trigger] g.wall.cells@[i]).anchor(),
    ) by {
        assert(g.wall.cells@[i] == Cell::at(wall_anchor(i)));
    }
}

/// In a well-formed snake each cell lies exactly one step, along some
/// direction, from the cell behind it.
pub proof fn lemma_body_continuous(s: Snake, i: int)
    requires
        s.wf(),
        0 <= i < s.body@.len() - 1,
    ensures
        adjacent(s.body@[i + 1].anchor(), s.body@[i].anchor()),
{
}

/// Asking for the reverse of the heading leaves the heading as it is;
/// asking for any other direction, a perpendicular one among them, makes it
/// the heading.
pub proof fn lemma_no_reverse(heading: Direction, wanted: Direction)
    ensures
        wanted == heading.reverse() ==> heading.steer(wanted) == heading,
        wanted != heading.reverse() ==> heading.steer(wanted) == wanted,
        heading.steer(heading.reverse()) == heading,
{
}

/// The same, said of the game: an arrow against the heading changes
/// nothing, any other arrow sets the heading, and no arrow ends the game.
pub proof fn lemma_arrow_steers(g: Game, wanted: Direction)
    ensures
        ({
            let key = match wanted {
                Direction::Up => Input::Up,
                Direction::Down => Input::Down,
                Direction::Left => Input::Left,
                Direction::Right => Input::Right,
            };
            &&& wanted == g.snake.dir.reverse() ==> g.heading_after(seq![key]) == g.snake.dir
            &&& wanted != g.snake.dir.reverse() ==> g.heading_after(seq![key]) == wanted
            &&& g.over_after(seq![key]) == g.is_over
        }),
{
}

/// After a meal that does not end the game the food is aligned, strictly
/// inside the interior, and on no cell of the snake.
pub proof fn lemma_food_after_meal(pre: Game, post: Game)
    requires
        pre.ticked(post, Outcome::Ate),
        !post.is_over,
    ensures
        aligned(post.food.anchor()),
        in_interior(post.food.anchor()),
        !covers(post.snake.body@, 0, post.food.pos),
        free_for_food(post.snake.body@, post.food.pos),
{
}

/// Whether the tick from `pre` to `post` ended the game and moved nothing.
pub open spec fn tick_ended(pre: Game, post: Game) -> bool {
    &&& pre.tick_kind() == Outcome::Over
    &&& post.is_over
    &&& post.snake.body@ == pre.snake.body@
    &&& post.score == pre.score
    &&& post.food == pre.food
}

/// Whether the tick from `pre` to `post` grew the snake onto the food and
/// either put new food on a free position or ended the game.
pub open spec fn tick_grew(pre: Game, post: Game) -> bool {
    &&& pre.tick_kind() == Outcome::Ate
    &&& post.snake.body@ == seq![pre.snake.next_head()] + pre.snake.body@
    &&& post.score == pre.score + 1
    &&& (post.is_over || free_for_food(post.snake.body@, post.food.pos))
}

/// Whether the tick from `pre` to `post` moved the snake one step.
pub open spec fn tick_moved(pre: Game, post: Game) -> bool {
    &&& pre.tick_kind() == Outcome::Moved
    &&& !post.is_over
    &&& post.snake.body@ == (seq![pre.snake.next_head()] + pre.snake.body@).drop_last()
    &&& post.score == pre.score
    &&& post.food == pre.food
}

/// Every tick does exactly one of three things: it ends the game, it grows
/// the snake and replaces the food, or it moves the snake. Which one is
/// decided by the state before the tick alone.
pub proof fn lemma_tick_exclusive(pre: Game, post: Game, o: Outcome)
    requires
        pre.ticked(post, o),
    ensures
        o == pre.tick_kind(),
        tick_ended(pre, post) <==> o == Outcome::Over,
        tick_grew(pre, post) <==> o == Outcome::Ate,
        tick_moved(pre, post) <==> o == Outcome::Moved,
{
}

/// A snake with fewer cells than the interior has positions leaves room
/// for food.
pub proof fn lemma_short_snake_leaves_room(body: Seq<Cell>)
    requires
        body.len() < INTERIOR_CELLS,
    ensures
        !board_full(body),
        exists|x: u16, y: u16| free_for_food(body, (x, y)),
{
    if board_full(body) {
        lemma_full_board_is_long(body);
    }
    let p = choose|p: (u16, u16)|
        in_interior((p.0 as int, p.1 as int)) && !covers(body, 0, (p.0, p.1));
    assert(free_for_food(body, (p.0, p.1)));
}

/// A body that lies inside the interior, repeats no anchor and has as many
/// cells as the interior has positions covers every position: the game
/// that ends for want of room ends on a full board.
pub proof fn lemma_long_snake_fills_board(body: Seq<Cell>)
    requires
        distinct(body),
        forall|i: int| 0 <= i < body.len() ==> in_interior((#[trigger] body[i]).anchor()),
        body.len() == INTERIOR_CELLS,
    ensures
        board_full(body),
{
    let range = set_int_range(0, INTERIOR_CELLS as int);
    let anchor = |i: int| body[i].pos;
    let position = |n: int| lattice_pos(n);
    let anchors = range.map(anchor);
    let positions = range.map(position);
    lemma_int_range(0, INTERIOR_CELLS as int);
    assert(injective_on(anchor, range));
    assert(injective_on(position, range));
    lemma_map_size(range, anchors, anchor);
    lemma_map_size(range, positions, position);
    assert forall|p: (u16, u16)| anchors.contains(p) implies positions.contains(p) by {
        let i = choose|i: int| range.contains(i) && p == anchor(i);
        assert(in_interior(body[i].anchor()));
        let n = (p.0 / 2 - 2) * 30 + (p.1 - 2);
        assert(range.contains(n) && p == position(n));
    }
    lemma_subset_equality(anchors, positions);
    assert forall|x: u16, y: u16| in_interior((x as int, y as int)) implies #[trigger] covers(
        body,
        0,
        (x, y),
    ) by {
        let n = (x / 2 - 2) * 30 + (y - 2);
        assert(range.contains(n) && (x, y) == position(n));
        assert(positions.contains((x, y)));
        assert(anchors.contains((x, y)));
        let i = choose|i: int| range.contains(i) && (x, y) == anchor(i);
        assert(body[i].pos == (x, y));
    }
}

/// In a well-formed game the snake has as many cells as the interior has
/// positions exactly when it covers them all.
pub proof fn lemma_full_means_long(g: Game)
    requires
        g.wf(),
    ensures
        board_full(g.snake.body@) <==> g.snake.body@.len() == INTERIOR_CELLS,
{
    if board_full(g.snake.body@) {
        lemma_full_board_is_long(g.snake.body@);
    }
    if g.snake.body@.len() == INTERIOR_CELLS {
        lemma_long_snake_fills_board(g.snake.body@);
    }
}

/// Once the game is over a tick changes nothing.
pub proof fn lemma_over_is_terminal(pre: Game, post: Game, o: Outcome)
    requires
        pre.is_over,
        pre.ticked(post, o),
    ensures
        o == Outcome::Over,
        post.is_over,
        post.snake.body@ == pre.snake.body@,
        post.snake.dir == pre.snake.dir,
        post.food == pre.food,
        post.score == pre.score,
{
}

} // verus!
