//! Frames: what to paint where, and in which colour.
//!
//! Nothing here writes to a terminal. A frame is a list of labels and a
//! list of single-character glyphs, each with its position and colour, in
//! the order in which they are to be painted.

use crate::game::Game;
use crate::geometry::{in_interior, Cell};
use crate::snake::Snake;
use crate::wall::{wall_anchor, Wall};
use vstd::prelude::*;

verus! {

/// Column and row at which the title starts.
pub const TITLE_X: u16 = 10;

pub const TITLE_Y: u16 = 0;

/// Column and row at which the score starts.
pub const SCORE_X: u16 = 40;

pub const SCORE_Y: u16 = 0;

#[derive(Debug, Clone, Copy, PartialEq, Eq)]
pub enum Color {
    Red,
    Blue,
    White,
    Magenta,
    Green,
}

/// One full block at column `x`, row `y`.
#[derive(Debug, Clone, Copy, PartialEq, Eq)]
pub struct Glyph {
    pub x: u16,
    pub y: u16,
    pub color: Color,
}

/// What a label says.
#[derive(Debug, Clone, Copy, PartialEq, Eq)]
pub enum Text {
    /// The game's title.
    Title,
    /// The word for the score, followed by the score.
    Score(u16),
}

/// A line of text that starts at column `x`, row `y`.
#[derive(Debug, Clone, Copy, PartialEq, Eq)]
pub struct Label {
    pub x: u16,
    pub y: u16,
    pub color: Color,
    pub text: Text,
}

/// Everything one refresh paints after clearing the screen: first the
/// labels, then the glyphs, each list in order.
#[derive(Debug)]
pub struct Frame {
    pub labels: Vec<Label>,
    pub glyphs: Vec<Glyph>,
}

/// The glyphs of rows `y` to `y + rows - 1` in column `x`, top to bottom.
pub open spec fn column_glyphs(x: int, y: int, rows: nat, color: Color) -> Seq<Glyph> {
    Seq::new(rows, |j: int| Glyph { x: x as u16, y: (y + j) as u16, color })
}

/// The glyphs of the first `columns` columns of `c`, column by column from
/// the left.
pub open spec fn cell_glyphs(c: Cell, color: Color, columns: nat) -> Seq<Glyph>
    decreases columns,
{
    if columns == 0 {
        Seq::empty()
    } else {
        cell_glyphs(c, color, (columns - 1) as nat) + column_glyphs(
            c.pos.0 + columns - 1,
            c.pos.1 as int,
            c.size.1 as nat,
            color,
        )
    }
}

/// The glyphs of the first `n` of `cells`, one cell after the other.
pub open spec fn cells_glyphs(cells: Seq<Cell>, color: Color, n: nat) -> Seq<Glyph>
    decreases n,
{
    if n == 0 {
        Seq::empty()
    } else {
        cells_glyphs(cells, color, (n - 1) as nat) + cell_glyphs(
            cells[n - 1],
            color,
            cells[n - 1].size.0 as nat,
        )
    }
}

/// Whether every position of the cell's rectangle has coordinates that fit
/// the grid's integer type.
pub open spec fn paintable(c: Cell) -> bool {
    c.pos.0 + c.size.0 <= u16::MAX && c.pos.1 + c.size.1 <= u16::MAX
}

/// A cell of the uniform size is painted as two glyphs side by side.
pub proof fn lemma_uniform_cell_glyphs(c: Cell, color: Color)
    requires
        c.wf(),
        paintable(c),
    ensures
        cell_glyphs(c, color, c.size.0 as nat) == seq![
            Glyph { x: c.pos.0, y: c.pos.1, color },
            Glyph { x: (c.pos.0 + 1) as u16, y: c.pos.1, color },
        ],
{
    reveal_with_fuel(cell_glyphs, 3);
    assert(cell_glyphs(c, color, 2) =~= seq![
        Glyph { x: c.pos.0, y: c.pos.1, color },
        Glyph { x: (c.pos.0 + 1) as u16, y: c.pos.1, color },
    ]);
}

/// The two labels of the top row: the title, then the score.
pub open spec fn title_labels(score: u16) -> Seq<Label> {
    seq![
        Label { x: TITLE_X, y: TITLE_Y, color: Color::Magenta, text: Text::Title },
        Label { x: SCORE_X, y: SCORE_Y, color: Color::Green, text: Text::Score(score) },
    ]
}

/// Appends the glyphs of `c` to `out`.
fn paint(c: &Cell, color: Color, out: &mut Vec<Glyph>)
    requires
        paintable(*c),
    ensures
        final(out)@ == old(out)@ + cell_glyphs(*c, color, c.size.0 as nat),
{
    let x_end: u16 = c.pos.0 + c.size.0;
    let y_end: u16 = c.pos.1 + c.size.1;
    let mut x: u16 = c.pos.0;
    assert(out@ =~= old(out)@ + cell_glyphs(*c, color, 0));
    while x < x_end
        invariant
            x_end == c.pos.0 + c.size.0,
            y_end == c.pos.1 + c.size.1,
            c.pos.0 <= x <= x_end,
            out@ == old(out)@ + cell_glyphs(*c, color, (x - c.pos.0) as nat),
        decreases x_end - x,
    {
        let ghost before = out@;
        let mut y: u16 = c.pos.1;
        assert(out@ =~= before + column_glyphs(x as int, c.pos.1 as int, 0, color));
        while y < y_end
            invariant
                y_end == c.pos.1 + c.size.1,
                c.pos.1 <= y <= y_end,
                out@ == before + column_glyphs(
                    x as int,
                    c.pos.1 as int,
                    (y - c.pos.1) as nat,
                    color,
                ),
            decreases y_end - y,
        {
            out.push(Glyph { x, y, color });
            assert(out@ =~= before + column_glyphs(
                x as int,
                c.pos.1 as int,
                (y + 1 - c.pos.1) as nat,
                color,
            ));
            y += 1;
        }
        x += 1;
        assert(out@ =~= old(out)@ + cell_glyphs(*c, color, (x - c.pos.0) as nat));
    }
}

/// Appends `more` to `out`.
fn append(out: &mut Vec<Glyph>, more: &Vec<Glyph>)
    ensures
        final(out)@ == old(out)@ + more@,
{
    let mut i: usize = 0;
    assert(out@ =~= old(out)@ + more@.subrange(0, 0));
    while i < more.len()
        invariant
            i <= more@.len(),
            out@ == old(out)@ + more@.subrange(0, i as int),
        decreases more@.len() - i,
    {
        out.push(more[i]);
        assert(out@ =~= old(out)@ + more@.subrange(0, i + 1));
        i += 1;
    }
    assert(more@.subrange(0, more@.len() as int) =~= more@);
}

impl Cell {
    /// The glyphs that fill the cell's rectangle, column by column.
    pub fn render(&self, color: Color) -> (out: Vec<Glyph>)
        requires
            paintable(*self),
        ensures
            out@ == cell_glyphs(*self, color, self.size.0 as nat),
    {
        let mut out: Vec<Glyph> = Vec::new();
        paint(self, color, &mut out);
        out
    }
}

impl Snake {
    /// The snake's cells in blue, head first.
    pub fn render(&self) -> (out: Vec<Glyph>)
        requires
            forall|i: int| 0 <= i < self.body@.len() ==> paintable(#[trigger] self.body@[i]),
        ensures
            out@ == cells_glyphs(self.body@, Color::Blue, self.body@.len()),
    {
        let mut out: Vec<Glyph> = Vec::new();
        let n = self.body.len();
        let mut i: usize = 0;
        while i < n
            invariant
                n == self.body@.len(),
                i <= n,
                forall|k: int| 0 <= k < self.body@.len() ==> paintable(#[trigger] self.body@[k]),
                out@ == cells_glyphs(self.body@, Color::Blue, i as nat),
            decreases n - i,
        {
            paint(&self.body[i], Color::Blue, &mut out);
            i += 1;
        }
        out
    }
}

impl Wall {
    /// The wall's cells in white, in the order in which they were laid
    /// down.
    pub fn render(&self) -> (out: Vec<Glyph>)
        requires
            forall|i: int| 0 <= i < self.cells@.len() ==> paintable(#[trigger] self.cells@[i]),
        ensures
            out@ == cells_glyphs(self.cells@, Color::White, self.cells@.len()),
    {
        let mut out: Vec<Glyph> = Vec::new();
        let n = self.cells.len();
        let mut i: usize = 0;
        while i < n
            invariant
                n == self.cells@.len(),
                i <= n,
                forall|k: int| 0 <= k < self.cells@.len() ==> paintable(#[trigger] self.cells@[k]),
                out@ == cells_glyphs(self.cells@, Color::White, i as nat),
            decreases n - i,
        {
            paint(&self.cells[i], Color::White, &mut out);
            i += 1;
        }
        out
    }
}

impl Game {
    /// The food's cell in red.
    pub fn render_food(&self) -> (out: Vec<Glyph>)
        requires
            paintable(self.food),
        ensures
            out@ == cell_glyphs(self.food, Color::Red, self.food.size.0 as nat),
            self.food.wf() ==> out@ == seq![
                Glyph { x: self.food.pos.0, y: self.food.pos.1, color: Color::Red },
                Glyph { x: (self.food.pos.0 + 1) as u16, y: self.food.pos.1, color: Color::Red },
            ],
    {
        proof {
            if self.food.wf() {
                lemma_uniform_cell_glyphs(self.food, Color::Red);
            }
        }
        self.food.render(Color::Red)
    }

    /// The title in magenta and the score in green, on the top row.
    pub fn render_title(&self) -> (out: Vec<Label>)
        ensures
            out@ == title_labels(self.score),
    {
        let mut out: Vec<Label> = Vec::new();
        out.push(Label { x: TITLE_X, y: TITLE_Y, color: Color::Magenta, text: Text::Title });
        out.push(
            Label { x: SCORE_X, y: SCORE_Y, color: Color::Green, text: Text::Score(self.score) },
        );
        assert(out@ =~= title_labels(self.score));
        out
    }

    /// One frame: title and score, then the snake, the food and the wall,
    /// so that the wall is painted over whatever reaches it.
    pub fn render(&self) -> (frame: Frame)
        requires
            self.wf(),
        ensures
            frame.labels@ == title_labels(self.score),
            frame.glyphs@ == cells_glyphs(self.snake.body@, Color::Blue, self.snake.body@.len())
                + cell_glyphs(self.food, Color::Red, self.food.size.0 as nat) + cells_glyphs(
                self.wall.cells@,
                Color::White,
                self.wall.cells@.len(),
            ),
    {
        proof {
            assert forall|i: int| 0 <= i < self.snake.body@.len() implies paintable(
                #[trigger] self.snake.body@[i],
            ) by {
                assert(self.snake.body@[i].wf());
                assert(in_interior(self.snake.body@[i].anchor()));
            }
            assert forall|i: int| 0 <= i < self.wall.cells@.len() implies paintable(
                #[trigger] self.wall.cells@[i],
            ) by {
                assert(self.wall.cells@[i] == Cell::at(wall_anchor(i)));
            }
        }
        let labels = self.render_title();
        let mut glyphs = self.snake.render();
        let food = self.render_food();
        let wall = self.wall.render();
        append(&mut glyphs, &food);
        append(&mut glyphs, &wall);
        Frame { labels, glyphs }
    }
}

} // verus!
