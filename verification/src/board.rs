//! The mathematical model of the game: a board of cells indexed by `(row, column)`,
//! the two ends of the snake, and the directions of travel.

use crate::snake_grid::{Direction, GameResult, SnakeCell, GRID_HEIGHT, GRID_WIDTH};
use vstd::prelude::*;

verus! {

/// `p` is a `(row, column)` pair of the grid.
pub open spec fn in_grid(p: (int, int)) -> bool {
    0 <= p.0 < GRID_HEIGHT && 0 <= p.1 < GRID_WIDTH
}

/// The neighbour of `p` in direction `d`. The grid wraps: leaving it on one edge
/// enters it on the opposite edge.
pub open spec fn step(p: (int, int), d: Direction) -> (int, int) {
    match d {
        Direction::Up => (
            if p.0 == 0 {
                GRID_HEIGHT - 1
            } else {
                p.0 - 1
            },
            p.1,
        ),
        Direction::Down => (
            if p.0 == GRID_HEIGHT - 1 {
                0
            } else {
                p.0 + 1
            },
            p.1,
        ),
        Direction::Left => (
            p.0,
            if p.1 == 0 {
                GRID_WIDTH - 1
            } else {
                p.1 - 1
            },
        ),
        Direction::Right => (
            p.0,
            if p.1 == GRID_WIDTH - 1 {
                0
            } else {
                p.1 + 1
            },
        ),
    }
}

/// The cell that a pair of indices names.
pub open spec fn pos(c: (usize, usize)) -> (int, int) {
    (c.0 as int, c.1 as int)
}

/// The direction that points the other way.
pub open spec fn opposite(d: Direction) -> Direction {
    match d {
        Direction::Up => Direction::Down,
        Direction::Down => Direction::Up,
        Direction::Left => Direction::Right,
        Direction::Right => Direction::Left,
    }
}

/// `p` comes before `q` when the grid is read row by row.
pub open spec fn precedes(p: (int, int), q: (int, int)) -> bool {
    p.0 < q.0 || (p.0 == q.0 && p.1 < q.1)
}

/// The whole state of a game.
#[verifier::ext_equal]
pub struct Board {
    /// The content of every cell of the grid.
    pub cells: Map<(int, int), SnakeCell>,
    /// How many segments the snake has beyond the two it starts with.
    pub snake_size: nat,
    /// Where the head is.
    pub head: (int, int),
    /// Where the tail is.
    pub tail: (int, int),
    /// The direction that the next step applies.
    pub travel: Direction,
    /// The direction that the last step applied.
    pub previous: Direction,
}

impl Board {
    /// The board at the start of a game: a snake of two cells a quarter of the way
    /// into the grid, heading right, and nothing else.
    pub open spec fn initial() -> Board {
        let head = (GRID_HEIGHT as int / 4, GRID_WIDTH as int / 4);
        let tail = (head.0, head.1 - 1);
        Board {
            cells: Map::new(
                |p: (int, int)| in_grid(p),
                |p: (int, int)|
                    if p == head {
                        SnakeCell::Body(None)
                    } else if p == tail {
                        SnakeCell::Body(Some(Direction::Right))
                    } else {
                        SnakeCell::Air
                    },
            ),
            snake_size: 0,
            head,
            tail,
            travel: Direction::Right,
            previous: Direction::Right,
        }
    }

    /// The board with cell `p` replaced by `c`.
    pub open spec fn with_cell(self, p: (int, int), c: SnakeCell) -> Board {
        Board { cells: self.cells.insert(p, c), ..self }
    }

    /// `p` is a cell of the grid that holds nothing.
    pub open spec fn free(self, p: (int, int)) -> bool {
        in_grid(p) && self.cells[p] is Air
    }

    /// Some cell of the grid holds nothing.
    pub open spec fn has_air(self) -> bool {
        exists|p: (int, int)| self.free(p)
    }

    /// `post` is this board with a fruit put on the free cell `p`.
    pub open spec fn fruit_lands(self, p: (int, int), post: Board) -> bool {
        self.free(p) && post == self.with_cell(p, SnakeCell::Food)
    }

    /// The board after a request to travel in direction `d`. The request is dropped
    /// when `d` reverses the direction of the last step or the direction now chosen.
    pub open spec fn turned(self, d: Direction) -> Board {
        if d == opposite(self.previous) || d == opposite(self.travel) {
            self
        } else {
            Board { travel: d, ..self }
        }
    }

    /// The board once the chosen direction is recorded as the one applied.
    pub open spec fn committed(self) -> Board {
        Board { previous: self.travel, ..self }
    }

    /// The cell that the head enters on the next step.
    pub open spec fn target(self) -> (int, int) {
        step(self.head, self.travel)
    }

    /// The board after the head has entered the target cell: the old head points to
    /// the new one, and the snake is one segment longer.
    pub open spec fn advanced(self) -> Board {
        Board {
            cells: self.cells.insert(self.head, SnakeCell::Body(Some(self.travel))).insert(
                self.target(),
                SnakeCell::Body(None),
            ),
            snake_size: self.snake_size + 1,
            head: self.target(),
            ..self
        }
    }

    /// The cell that the segment at `p` points to; `p` itself where it points nowhere.
    pub open spec fn next(self, p: (int, int)) -> (int, int) {
        match self.cells[p] {
            SnakeCell::Body(Some(d)) => step(p, d),
            _ => p,
        }
    }

    /// The board after the tail cell is given up: the tail follows its pointer, the
    /// cell it leaves is empty, and the snake is one segment shorter.
    pub open spec fn retired(self) -> Board {
        Board {
            cells: self.cells.insert(self.tail, SnakeCell::Air),
            snake_size: if self.snake_size > 0 {
                (self.snake_size - 1) as nat
            } else {
                0
            },
            tail: self.next(self.tail),
            ..self
        }
    }

    /// The board after a step into an empty cell: the head advances and the tail
    /// follows.
    pub open spec fn moved(self) -> Board {
        self.advanced().retired()
    }

    /// The cell reached from the tail by following `k` stored pointers.
    pub open spec fn walk(self, k: nat) -> (int, int)
        decreases k,
    {
        if k == 0 {
            self.tail
        } else {
            self.next(self.walk((k - 1) as nat))
        }
    }

    /// The cell at `p` is a segment that points to another one.
    pub open spec fn is_link(self, p: (int, int)) -> bool {
        self.cells[p] matches SnakeCell::Body(Some(_))
    }

    /// The number of cells of the snake.
    pub open spec fn length(self) -> nat {
        self.snake_size + 2
    }

    /// The snake is one chain: following the stored pointers from the tail, every
    /// cell before the last is a segment with a pointer, and the cell number
    /// `length()` is the head, which has none.
    pub open spec fn well_formed(self) -> bool {
        &&& in_grid(self.head)
        &&& in_grid(self.tail)
        &&& forall|k: nat| k <= self.snake_size ==> self.is_link(#[trigger] self.walk(k))
        &&& self.walk((self.snake_size + 1) as nat) == self.head
        &&& self.cells[self.head] == SnakeCell::Body(None)
    }

    /// The cells that hold a fruit.
    pub open spec fn food_cells(self) -> Set<(int, int)> {
        Set::new(|p: (int, int)| in_grid(p) && self.cells[p] is Food)
    }

    /// The number of cells that hold a fruit.
    pub open spec fn food_count(self) -> nat {
        self.food_cells().len()
    }

    /// One simulation step takes this board to `post` and ends with `result`.
    ///
    /// * Into an empty cell the snake moves.
    /// * Into a segment of the snake nothing changes and the game is lost.
    /// * Into the fruit the head advances and the tail stays; a new fruit lands on
    ///   some free cell, or, where none is left, the game is won.
    pub open spec fn ticked(self, post: Board, result: GameResult) -> bool {
        match self.cells[self.target()] {
            SnakeCell::Air => result == GameResult::Continue && post == self.moved(),
            SnakeCell::Body(_) => result == GameResult::Lose && post == self,
            SnakeCell::Food => {
                ||| (result == GameResult::GrowAndContinue && exists|p: (int, int)|
                    self.advanced().fruit_lands(p, post))
                ||| (result == GameResult::Win && !self.advanced().has_air() && post
                    == self.advanced())
            },
        }
    }
}

/// A request to reverse the direction of the last step, or the direction now
/// chosen, changes nothing.
pub proof fn lemma_reversal_is_dropped(b: Board, d: Direction)
    requires
        d == opposite(b.previous) || d == opposite(b.travel),
    ensures
        b.turned(d) == b,
{
}

/// A request that is not a reversal sets the direction of travel, and nothing else.
pub proof fn lemma_safe_turn_is_taken(b: Board, d: Direction)
    requires
        d != opposite(b.previous),
        d != opposite(b.travel),
    ensures
        b.turned(d) == (Board { travel: d, ..b }),
{
}

/// No request makes the snake travel against the direction of the last step.
pub proof fn lemma_turn_never_reverses(b: Board, d: Direction)
    requires
        b.travel != opposite(b.previous),
    ensures
        b.turned(d).travel != opposite(b.previous),
        b.turned(d).previous == b.previous,
{
}

/// The same request made twice does what it does once.
pub proof fn lemma_turn_is_idempotent(b: Board, d: Direction)
    ensures
        b.turned(d).turned(d) == b.turned(d),
{
}

/// A step into a segment of the snake loses the game and changes no cell; and a
/// step loses the game only so.
pub proof fn lemma_collision_changes_nothing(pre: Board, post: Board, result: GameResult)
    requires
        pre.ticked(post, result),
    ensures
        pre.cells[pre.target()] is Body ==> result == GameResult::Lose && post == pre,
        result == GameResult::Lose ==> pre.cells[pre.target()] is Body,
{
}

/// Off an edge of the grid, a step enters at the opposite edge.
pub proof fn lemma_step_wraps(p: (int, int))
    requires
        in_grid(p),
    ensures
        p.0 == 0 ==> step(p, Direction::Up) == (GRID_HEIGHT - 1, p.1),
        p.0 == GRID_HEIGHT - 1 ==> step(p, Direction::Down) == (0int, p.1),
        p.1 == 0 ==> step(p, Direction::Left) == (p.0, GRID_WIDTH - 1),
        p.1 == GRID_WIDTH - 1 ==> step(p, Direction::Right) == (p.0, 0int),
{
}

} // verus!
