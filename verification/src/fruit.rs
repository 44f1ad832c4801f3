//! Proofs about the number of fruits on the board.

use crate::board::{in_grid, Board};
use crate::chain::cell_index;
use crate::snake_grid::{GameResult, SnakeCell, GRID_HEIGHT, GRID_WIDTH};
use vstd::prelude::*;
use vstd::set_lib::*;

verus! {

/// All the cells of the grid.
pub open spec fn grid_cells() -> Set<(int, int)> {
    Set::new(|p: (int, int)| in_grid(p))
}

/// The grid has finitely many cells.
pub proof fn lemma_grid_cells_finite()
    ensures
        grid_cells().finite(),
{
    let all = set_int_range(0, GRID_WIDTH * GRID_HEIGHT);
    let f = |i: int| (i / (GRID_WIDTH as int), i % (GRID_WIDTH as int));
    lemma_int_range(0, GRID_WIDTH * GRID_HEIGHT);
    all.lemma_map_finite(f);
    assert forall|p: (int, int)| grid_cells().contains(p) implies all.map(f).contains(p) by {
        let i = cell_index(p);
        assert(all.contains(i));
        assert(f(i) == p);
    }
    lemma_set_subset_finite(all.map(f), grid_cells());
}

/// Finitely many cells hold a fruit.
pub proof fn lemma_food_cells_finite(b: Board)
    ensures
        b.food_cells().finite(),
{
    lemma_grid_cells_finite();
    lemma_set_subset_finite(grid_cells(), b.food_cells());
}

/// Replacing a cell changes the number of fruits by what the cell held and holds.
pub proof fn lemma_with_cell_food_count(b: Board, p: (int, int), c: SnakeCell)
    requires
        in_grid(p),
    ensures
        b.with_cell(p, c).food_count() + (if b.cells[p] is Food {
            1int
        } else {
            0int
        }) == b.food_count() + (if c is Food {
            1int
        } else {
            0int
        }),
{
    let post = b.with_cell(p, c);
    lemma_food_cells_finite(b);
    lemma_food_cells_finite(post);
    let rest = b.food_cells().remove(p);
    assert(rest =~= post.food_cells().remove(p));
    if b.cells[p] is Food {
        assert(b.food_cells() =~= rest.insert(p));
    } else {
        assert(b.food_cells() =~= rest);
    }
    if c is Food {
        assert(post.food_cells() =~= rest.insert(p));
    } else {
        assert(post.food_cells() =~= rest);
    }
}

/// The board at the start of a game holds no fruit, and has room for one.
pub proof fn lemma_initial_food_count()
    ensures
        Board::initial().food_count() == 0,
        Board::initial().has_air(),
{
    assert(Board::initial().food_cells() =~= Set::empty());
    assert(Board::initial().free((0, 0)));
}

/// A fresh board on which one fruit has landed holds exactly one fruit.
pub proof fn lemma_first_fruit(p: (int, int), post: Board)
    requires
        Board::initial().fruit_lands(p, post),
    ensures
        post.food_count() == 1,
{
    lemma_initial_food_count();
    lemma_with_cell_food_count(Board::initial(), p, SnakeCell::Food);
}

/// A fruit that lands on a free cell is one fruit more.
pub proof fn lemma_fruit_lands_food_count(b: Board, p: (int, int), post: Board)
    requires
        b.fruit_lands(p, post),
    ensures
        post.food_count() == b.food_count() + 1,
{
    lemma_with_cell_food_count(b, p, SnakeCell::Food);
}

/// Advancing the head removes the fruit it enters, and no other.
pub proof fn lemma_advanced_food_count(b: Board)
    requires
        b.well_formed(),
    ensures
        b.advanced().food_count() + (if b.cells[b.target()] is Food {
            1int
        } else {
            0int
        }) == b.food_count(),
{
    crate::chain::lemma_step_in_grid(b.head, b.travel);
    let mid = b.with_cell(b.head, SnakeCell::Body(Some(b.travel)));
    lemma_with_cell_food_count(b, b.head, SnakeCell::Body(Some(b.travel)));
    lemma_with_cell_food_count(mid, b.target(), SnakeCell::Body(None));
    assert(mid.with_cell(b.target(), SnakeCell::Body(None)).food_cells()
        =~= b.advanced().food_cells());
}

/// Giving up the tail cell of a well-formed snake touches no fruit.
pub proof fn lemma_retired_food_count(b: Board)
    requires
        b.well_formed(),
    ensures
        b.retired().food_count() == b.food_count(),
{
    assert(b.is_link(b.walk(0)));
    lemma_with_cell_food_count(b, b.tail, SnakeCell::Air);
    assert(b.with_cell(b.tail, SnakeCell::Air).food_cells() =~= b.retired().food_cells());
}

/// What a simulation step does to the number of fruits: a move and a collision keep
/// it, and so does a step that eats the fruit and is given a new one; only a won
/// game ends with one fruit less.
pub proof fn lemma_ticked_food_count(pre: Board, post: Board, result: GameResult)
    requires
        pre.well_formed(),
        pre.ticked(post, result),
    ensures
        result != GameResult::Win ==> post.food_count() == pre.food_count(),
        result == GameResult::Win ==> post.food_count() + 1 == pre.food_count(),
{
    match pre.cells[pre.target()] {
        SnakeCell::Air => {
            lemma_advanced_food_count(pre);
            crate::chain::lemma_advanced_well_formed(pre);
            lemma_retired_food_count(pre.advanced());
        },
        SnakeCell::Body(_) => {},
        SnakeCell::Food => {
            lemma_advanced_food_count(pre);
            if result == GameResult::GrowAndContinue {
                let p = choose|p: (int, int)| pre.advanced().fruit_lands(p, post);
                lemma_fruit_lands_food_count(pre.advanced(), p, post);
            }
        },
    }
}

/// On a board with at most one fruit, every step that grows the snake ends with
/// exactly one fruit on the board.
pub proof fn lemma_growth_leaves_one_fruit(pre: Board, post: Board)
    requires
        pre.well_formed(),
        pre.food_count() <= 1,
        pre.ticked(post, GameResult::GrowAndContinue),
    ensures
        post.food_count() == 1,
{
    lemma_ticked_food_count(pre, post, GameResult::GrowAndContinue);
    crate::chain::lemma_step_in_grid(pre.head, pre.travel);
    lemma_food_cells_finite(pre);
    assert(pre.food_cells().contains(pre.target()));
}

} // verus!
