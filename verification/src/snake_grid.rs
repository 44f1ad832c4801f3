//! The grid, the snake stored in it, and one simulation step.

use crate::board::{in_grid, opposite, pos, precedes, step, Board};
use crate::chain::{
    lemma_fruit_well_formed, lemma_initial_well_formed, lemma_length_bound, lemma_step_in_grid,
    lemma_ticked_well_formed, lemma_turned_well_formed,
};
use crate::fruit::{
    lemma_fruit_lands_food_count, lemma_initial_food_count, lemma_ticked_food_count,
};
use rand::Rng;
use vstd::prelude::*;

verus! {

/// Number of rows of the grid.
pub const GRID_HEIGHT: usize = 25;

/// Number of columns of the grid.
pub const GRID_WIDTH: usize = 25;

/// What one cell of the grid holds.
#[derive(Clone, Copy, PartialEq, Eq, Debug)]
pub enum SnakeCell {
    /// Empty; the snake may move here.
    Air,
    /// The fruit.
    Food,
    /// A segment of the snake. The direction leads to the neighbouring segment on the
    /// side of the head; the head itself holds none.
    Body(Option<Direction>),
}

/// One of the four directions of travel.
#[derive(Clone, Copy, PartialEq, Eq, Debug, Structural)]
pub enum Direction {
    Up,
    Down,
    Left,
    Right,
}

/// How one simulation step ended.
#[derive(Clone, Copy, PartialEq, Eq, Debug)]
pub enum GameResult {
    /// The snake ate the fruit and no free cell is left for another one.
    Win,
    /// The head ran into the snake; nothing moved.
    Lose,
    /// The snake moved by one cell.
    Continue,
    /// The snake ate the fruit, grew by one cell, and a new fruit was placed.
    GrowAndContinue,
}

/// How often `generate_fruit` draws a cell at random before it takes the first free
/// cell instead.
pub const FRUIT_DRAWS: usize = 100;

/// The grid and the snake that lives in it.
///
/// The snake is not kept as a list. Its cells are the `Body` cells of the grid, each
/// pointing to the next one towards the head, and the two ends are cached in
/// `head_location` and `tail_location`.
pub struct SnakeGrid {
    /// The cells, row by row.
    pub grid: [[SnakeCell; GRID_WIDTH]; GRID_HEIGHT],
    /// The number of segments beyond the two that the snake starts with.
    pub snake_size: usize,
    /// Row and column of the head.
    pub head_location: (usize, usize),
    /// Row and column of the tail.
    pub tail_location: (usize, usize),
    /// The direction that the next step applies.
    pub travel_direction: Direction,
    /// The direction that the last step applied.
    pub previous_direction: Direction,
}

impl View for SnakeGrid {
    type V = Board;

    open spec fn view(&self) -> Board {
        Board {
            cells: Map::new(|p: (int, int)| in_grid(p), |p: (int, int)| self.grid@[p.0]@[p.1]),
            snake_size: self.snake_size as nat,
            head: pos(self.head_location),
            tail: pos(self.tail_location),
            travel: self.travel_direction,
            previous: self.previous_direction,
        }
    }
}

/// Draws a number below `bound` with `rand::Rng::gen_range` on the generator that
/// `rand::thread_rng` hands out. Nothing is proved of the call. The contract claims
/// only what the generator documents of every draw: the number lies in the half-open
/// range it was given. An empty range makes the generator panic, so `bound` is
/// positive.
#[verifier::external_body]
fn random_below(bound: usize) -> (drawn: usize)
    requires
        bound > 0,
    ensures
        drawn < bound,
{
    rand::thread_rng().gen_range(0..bound)
}

impl SnakeGrid {
    /// A grid with a snake of two cells a quarter of the way in, heading right, and
    /// no fruit.
    pub fn new() -> (g: SnakeGrid)
        ensures
            g@ == Board::initial(),
            g@.well_formed(),
            g@.food_count() == 0,
    {
        let mut grid = [[SnakeCell::Air; GRID_WIDTH]; GRID_HEIGHT];
        let head_location: (usize, usize) = (GRID_HEIGHT / 4, GRID_WIDTH / 4);
        let travel_direction = Direction::Right;
        grid[head_location.0][head_location.1] = SnakeCell::Body(None);
        // The snake is two cells long, the tail on the left of the head.
        let tail_location: (usize, usize) = (head_location.0, head_location.1 - 1);
        grid[tail_location.0][tail_location.1] = SnakeCell::Body(Some(Direction::Right));

        let g = SnakeGrid {
            grid,
            snake_size: 0,
            head_location,
            tail_location,
            travel_direction,
            previous_direction: travel_direction,
        };
        proof {
            assert(g@ =~= Board::initial());
            lemma_initial_well_formed();
            lemma_initial_food_count();
        }
        g
    }

    /// Puts a fruit on the cell at `row` and `col` if that cell is empty, and says
    /// whether it did. This is what `generate_fruit` does with each cell it draws.
    pub fn place_fruit(&mut self, row: usize, col: usize) -> (placed: bool)
        requires
            row < GRID_HEIGHT,
            col < GRID_WIDTH,
        ensures
            placed == old(self)@.free((row as int, col as int)),
            placed ==> old(self)@.fruit_lands((row as int, col as int), final(self)@),
            !placed ==> final(self)@ == old(self)@,
            placed ==> final(self)@.food_count() == old(self)@.food_count() + 1,
            old(self)@.well_formed() ==> final(self)@.well_formed(),
    {
        if let SnakeCell::Air = self.grid[row][col] {
            self.grid[row][col] = SnakeCell::Food;
            proof {
                let p = (row as int, col as int);
                assert(self@ =~= old(self)@.with_cell(p, SnakeCell::Food));
                lemma_fruit_lands_food_count(old(self)@, p, self@);
                if old(self)@.well_formed() {
                    lemma_fruit_well_formed(old(self)@, p, self@);
                }
            }
            true
        } else {
            false
        }
    }

    /// The first empty cell when the grid is read row by row, if there is one.
    pub fn first_free_cell(&self) -> (found: Option<(usize, usize)>)
        ensures
            match found {
                Some(q) => self@.free(pos(q)) && forall|p: (int, int)|
                    self@.free(p) ==> !precedes(p, pos(q)),
                None => !self@.has_air(),
            },
    {
        let mut row: usize = 0;
        while row < GRID_HEIGHT
            invariant
                row <= GRID_HEIGHT,
                forall|p: (int, int)| self@.free(p) ==> p.0 >= row,
            decreases GRID_HEIGHT - row,
        {
            let mut col: usize = 0;
            while col < GRID_WIDTH
                invariant
                    row < GRID_HEIGHT,
                    col <= GRID_WIDTH,
                    forall|p: (int, int)| self@.free(p) ==> p.0 >= row,
                    forall|p: (int, int)| self@.free(p) && p.0 == row ==> p.1 >= col,
                decreases GRID_WIDTH - col,
            {
                if let SnakeCell::Air = self.grid[row][col] {
                    return Some((row, col));
                }
                col += 1;
            }
            row += 1;
        }
        None
    }

    /// Puts a fruit on an empty cell and returns `true`; where the grid has no empty
    /// cell, changes nothing and returns `false`.
    ///
    /// The cell is drawn at random, row and column each uniformly, and drawn again
    /// while it is occupied. After `FRUIT_DRAWS` occupied cells the fruit goes to the
    /// first free cell instead, so the search always ends.
    pub fn generate_fruit(&mut self) -> (placed: bool)
        ensures
            placed == old(self)@.has_air(),
            placed ==> exists|p: (int, int)| old(self)@.fruit_lands(p, final(self)@),
            !placed ==> final(self)@ == old(self)@,
            placed ==> final(self)@.food_count() == old(self)@.food_count() + 1,
            old(self)@.well_formed() ==> final(self)@.well_formed(),
    {
        let ghost pre = self@;
        let mut draws: usize = 0;
        let mut placed = false;
        while !placed && draws < FRUIT_DRAWS
            invariant
                !placed ==> self@ == pre,
                placed ==> exists|p: (int, int)| pre.fruit_lands(p, self@),
            decreases FRUIT_DRAWS - draws,
        {
            let y: usize = random_below(GRID_HEIGHT);
            let x: usize = random_below(GRID_WIDTH);
            placed = self.place_fruit(y, x);
            draws += 1;
        }
        if !placed {
            match self.first_free_cell() {
                Some(q) => {
                    placed = self.place_fruit(q.0, q.1);
                },
                None => {},
            }
        }
        proof {
            if placed {
                let p = choose|p: (int, int)| pre.fruit_lands(p, self@);
                lemma_fruit_lands_food_count(pre, p, self@);
                if pre.well_formed() {
                    lemma_fruit_well_formed(pre, p, self@);
                }
            }
        }
        placed
    }

    /// Walks the snake from the tail along the stored directions and says whether it
    /// is one chain: `snake_size + 1` segments that point onwards, and then the
    /// head, which points nowhere.
    pub fn is_well_formed(&self) -> (intact: bool)
        ensures
            intact == self@.well_formed(),
    {
        if self.head_location.0 >= GRID_HEIGHT || self.head_location.1 >= GRID_WIDTH {
            return false;
        }
        if self.tail_location.0 >= GRID_HEIGHT || self.tail_location.1 >= GRID_WIDTH {
            return false;
        }
        if self.snake_size > GRID_WIDTH * GRID_HEIGHT - 2 {
            proof {
                if self@.well_formed() {
                    lemma_length_bound(self@);
                }
            }
            return false;
        }
        let mut at: (usize, usize) = self.tail_location;
        let mut visited: usize = 0;
        while visited <= self.snake_size
            invariant
                visited <= self.snake_size + 1,
                self.snake_size <= GRID_WIDTH * GRID_HEIGHT - 2,
                at.0 < GRID_HEIGHT,
                at.1 < GRID_WIDTH,
                pos(at) == self@.walk(visited as nat),
                forall|k: nat| k < visited ==> self@.is_link(#[trigger] self@.walk(k)),
            decreases self.snake_size + 1 - visited,
        {
            match self.grid[at.0][at.1] {
                SnakeCell::Body(Some(d)) => {
                    at = SnakeGrid::update_coordinates(at, d);
                },
                _ => {
                    proof {
                        assert(!self@.is_link(self@.walk(visited as nat)));
                    }
                    return false;
                },
            }
            visited += 1;
            proof {
                assert(self@.walk(visited as nat) == self@.next(
                    self@.walk((visited - 1) as nat),
                ));
            }
        }
        if at.0 != self.head_location.0 || at.1 != self.head_location.1 {
            return false;
        }
        match self.grid[at.0][at.1] {
            SnakeCell::Body(None) => true,
            _ => false,
        }
    }

    /// Asks the snake to travel in `direction` from the next step on. The request is
    /// dropped when `direction` reverses the direction of the last step, or the
    /// direction chosen since; so a snake never turns back into its own neck,
    /// however many requests arrive between two steps.
    pub fn update_direction(&mut self, direction: Direction)
        ensures
            final(self)@ == old(self)@.turned(direction),
            old(self)@.well_formed() ==> final(self)@.well_formed(),
    {
        proof {
            if old(self)@.well_formed() {
                lemma_turned_well_formed(old(self)@, direction);
            }
        }
        if direction == SnakeGrid::opposite_direction(self.previous_direction) {
            // A half turn since the last step: not allowed.
            return ;
        }
        match direction {
            Direction::Up => {
                if self.travel_direction != Direction::Down {
                    self.travel_direction = direction;
                }
            },
            Direction::Left => {
                if self.travel_direction != Direction::Right {
                    self.travel_direction = direction;
                }
            },
            Direction::Right => {
                if self.travel_direction != Direction::Left {
                    self.travel_direction = direction;
                }
            },
            Direction::Down => {
                if self.travel_direction != Direction::Up {
                    self.travel_direction = direction;
                }
            },
        }
    }

    /// Advances the game by one step: the head enters the next cell in the direction
    /// of travel.
    ///
    /// * An empty cell: the snake moves, `Continue`.
    /// * The fruit: the head advances, the tail stays, and a new fruit is placed,
    ///   `GrowAndContinue`; where no cell is left for it, `Win`.
    /// * A segment of the snake: nothing changes, `Lose`.
    ///
    /// The step reads `travel_direction` only. Whoever drives the game copies it to
    /// `previous_direction` before each step, so that `update_direction` knows which
    /// direction was applied last.
    pub fn tick(&mut self) -> (result: GameResult)
        requires
            old(self)@.well_formed(),
        ensures
            old(self)@.ticked(final(self)@, result),
            final(self)@.well_formed(),
            result != GameResult::Win ==> final(self)@.food_count() == old(self)@.food_count(),
            result == GameResult::Win ==> final(self)@.food_count() + 1 == old(self)@.food_count(),
    {
        let ghost pre = self@;
        proof {
            lemma_step_in_grid(pre.head, pre.travel);
            lemma_length_bound(pre);
        }
        let head: (usize, usize) = self.head_location;
        let travel = self.travel_direction;
        // Move the head forward.
        let new_coords: (usize, usize) = SnakeGrid::update_coordinates(head, travel);
        let entered = self.grid[new_coords.0][new_coords.1];
        let result = match entered {
            SnakeCell::Air => {
                // The next cell becomes the head, and the tail cell is given up.
                self.grid[new_coords.0][new_coords.1] = SnakeCell::Body(None);
                self.grid[head.0][head.1] = SnakeCell::Body(Some(travel));
                self.head_location = new_coords;
                let old_tail: (usize, usize) = self.tail_location;
                match self.grid[old_tail.0][old_tail.1] {
                    SnakeCell::Body(direction) => {
                        if let Some(d) = direction {
                            self.tail_location = SnakeGrid::update_coordinates(old_tail, d);
                        }
                    },
                    _ => (),
                }
                self.grid[old_tail.0][old_tail.1] = SnakeCell::Air;
                proof {
                    assert(self@ =~= pre.moved());
                }
                GameResult::Continue
            },
            SnakeCell::Food => {
                // The fruit's cell becomes the head, and the tail stays.
                self.grid[head.0][head.1] = SnakeCell::Body(Some(travel));
                self.grid[new_coords.0][new_coords.1] = SnakeCell::Body(None);
                self.head_location = new_coords;
                self.snake_size += 1;
                proof {
                    assert(self@ =~= pre.advanced());
                }
                if self.generate_fruit() {
                    GameResult::GrowAndContinue
                } else {
                    GameResult::Win
                }
            },
            SnakeCell::Body(_) => GameResult::Lose,
        };
        proof {
            lemma_ticked_well_formed(pre, self@, result);
            lemma_ticked_food_count(pre, self@, result);
        }
        result
    }

    /// The neighbour of the cell at `coords` in `direction`, on a grid that wraps:
    /// the step off one edge enters at the opposite edge.
    pub fn update_coordinates(coords: (usize, usize), direction: Direction) -> (next: (
        usize,
        usize,
    ))
        requires
            coords.0 < GRID_HEIGHT,
            coords.1 < GRID_WIDTH,
        ensures
            pos(next) == step(pos(coords), direction),
            next.0 < GRID_HEIGHT,
            next.1 < GRID_WIDTH,
            direction == Direction::Up && coords.0 == 0 ==> next.0 == GRID_HEIGHT - 1,
            direction == Direction::Down && coords.0 == GRID_HEIGHT - 1 ==> next.0 == 0,
            direction == Direction::Left && coords.1 == 0 ==> next.1 == GRID_WIDTH - 1,
            direction == Direction::Right && coords.1 == GRID_WIDTH - 1 ==> next.1 == 0,
    {
        match direction {
            Direction::Up => {
                let mut row: usize = coords.0;
                if row == 0 {
                    row += GRID_HEIGHT;
                }
                (row - 1, coords.1)
            },
            Direction::Down => ((coords.0 + 1) % GRID_HEIGHT, coords.1),
            Direction::Left => {
                let mut col: usize = coords.1;
                if col == 0 {
                    col += GRID_WIDTH;
                }
                (coords.0, col - 1)
            },
            Direction::Right => (coords.0, (coords.1 + 1) % GRID_WIDTH),
        }
    }

    /// The direction that points the other way.
    pub fn opposite_direction(direction: Direction) -> (reversed: Direction)
        ensures
            reversed == opposite(direction),
    {
        match direction {
            Direction::Up => Direction::Down,
            Direction::Down => Direction::Up,
            Direction::Left => Direction::Right,
            Direction::Right => Direction::Left,
        }
    }
}

} // verus!
