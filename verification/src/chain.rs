//! Proofs about the chain of segments that makes up the snake.

use crate::board::{in_grid, step, Board};
use crate::snake_grid::{Direction, GameResult, SnakeCell, GRID_HEIGHT, GRID_WIDTH};
use vstd::prelude::*;
use vstd::relations::*;
use vstd::set_lib::*;

verus! {

/// A step stays on the grid and always leaves the cell it starts from.
pub proof fn lemma_step_in_grid(p: (int, int), d: Direction)
    requires
        in_grid(p),
    ensures
        in_grid(step(p, d)),
        step(p, d) != p,
{
}

/// Following pointers from a tail on the grid never leaves the grid.
pub proof fn lemma_walk_in_grid(b: Board, k: nat)
    requires
        in_grid(b.tail),
    ensures
        in_grid(b.walk(k)),
    decreases k,
{
    if k > 0 {
        lemma_walk_in_grid(b, (k - 1) as nat);
        let p = b.walk((k - 1) as nat);
        match b.cells[p] {
            SnakeCell::Body(Some(d)) => lemma_step_in_grid(p, d),
            _ => {},
        }
    }
}

/// Two walks that meet stay together.
pub proof fn lemma_walk_merge(b: Board, i: nat, j: nat, m: nat)
    requires
        b.walk(i) == b.walk(j),
    ensures
        b.walk(i + m) == b.walk(j + m),
    decreases m,
{
    if m > 0 {
        lemma_walk_merge(b, i, j, (m - 1) as nat);
        assert(b.walk(i + m) == b.next(b.walk((i + m - 1) as nat)));
        assert(b.walk(j + m) == b.next(b.walk((j + m - 1) as nat)));
    }
}

/// No cell occurs twice in the snake.
pub proof fn lemma_walk_distinct(b: Board, i: nat, j: nat)
    requires
        b.well_formed(),
        i < j < b.length(),
    ensures
        b.walk(i) != b.walk(j),
{
    if b.walk(i) == b.walk(j) {
        let m = (b.snake_size + 1 - j) as nat;
        lemma_walk_merge(b, i, j, m);
        assert(b.is_link(b.walk(i + m)));
    }
}

/// A walk depends only on the tail and on the cells it passes.
pub proof fn lemma_walk_frame(a: Board, b: Board, k: nat)
    requires
        a.tail == b.tail,
        forall|j: nat| j < k ==> a.cells[#[trigger] a.walk(j)] == b.cells[a.walk(j)],
    ensures
        b.walk(k) == a.walk(k),
    decreases k,
{
    if k > 0 {
        lemma_walk_frame(a, b, (k - 1) as nat);
        let p = a.walk((k - 1) as nat);
        assert(a.cells[p] == b.cells[p]);
    }
}

/// A walk from the second cell of `a` is the walk of `a`, one cell ahead.
pub proof fn lemma_walk_shift(a: Board, b: Board, k: nat)
    requires
        b.tail == a.walk(1),
        forall|j: nat| 1 <= j <= k ==> a.cells[#[trigger] a.walk(j)] == b.cells[a.walk(j)],
    ensures
        b.walk(k) == a.walk(k + 1),
    decreases k,
{
    if k > 0 {
        lemma_walk_shift(a, b, (k - 1) as nat);
        let p = a.walk(k);
        assert(a.cells[p] == b.cells[p]);
        assert(a.walk(k + 1) == a.next(a.walk(k)));
    }
}

/// A board that differs from a well-formed one only outside the snake's cells is
/// well formed.
pub proof fn lemma_frame_well_formed(a: Board, b: Board)
    requires
        a.well_formed(),
        b.head == a.head,
        b.tail == a.tail,
        b.snake_size == a.snake_size,
        forall|p: (int, int)| in_grid(p) && a.cells[p] is Body ==> b.cells[p] == a.cells[p],
    ensures
        b.well_formed(),
        forall|k: nat| k < a.length() ==> b.walk(k) == a.walk(k),
{
    assert forall|k: nat| k < a.length() implies b.walk(k) == a.walk(k) by {
        assert forall|j: nat| j < k implies a.cells[#[trigger] a.walk(j)] == b.cells[a.walk(j)] by {
            lemma_walk_in_grid(a, j);
            assert(a.is_link(a.walk(j)));
        }
        lemma_walk_frame(a, b, k);
    }
    assert forall|k: nat| k <= b.snake_size implies b.is_link(#[trigger] b.walk(k)) by {
        assert(b.walk(k) == a.walk(k));
        lemma_walk_in_grid(a, k);
        assert(a.is_link(a.walk(k)));
    }
    assert(b.walk((b.snake_size + 1) as nat) == a.walk((a.snake_size + 1) as nat));
}

/// The head of a well-formed snake can advance into any cell that is not part of a
/// snake, and the snake stays well formed.
pub proof fn lemma_advanced_well_formed(b: Board)
    requires
        b.well_formed(),
        !(b.cells[b.target()] is Body),
    ensures
        b.advanced().well_formed(),
{
    let c = b.advanced();
    let n = b.length();
    let t = b.target();
    lemma_step_in_grid(b.head, b.travel);
    assert forall|k: nat| k < n implies c.walk(k) == b.walk(k) by {
        assert forall|j: nat| j < k implies b.cells[#[trigger] b.walk(j)] == c.cells[b.walk(j)] by {
            lemma_walk_distinct(b, j, (n - 1) as nat);
            assert(b.is_link(b.walk(j)));
        }
        lemma_walk_frame(b, c, k);
    }
    assert(c.walk((n - 1) as nat) == b.head);
    assert(c.walk(n) == c.next(c.walk((n - 1) as nat)));
    assert(c.walk(n) == t);
    assert forall|k: nat| k <= c.snake_size implies c.is_link(#[trigger] c.walk(k)) by {
        assert(c.walk(k) == b.walk(k));
        if k + 1 < n {
            lemma_walk_distinct(b, k, (n - 1) as nat);
            assert(b.is_link(b.walk(k)));
        }
    }
}

/// A well-formed snake of more than two cells can give up its tail cell and stays
/// well formed.
pub proof fn lemma_retired_well_formed(b: Board)
    requires
        b.well_formed(),
        b.snake_size >= 1,
    ensures
        b.retired().well_formed(),
{
    let c = b.retired();
    let n = b.length();
    assert(b.is_link(b.walk(0)));
    assert(b.walk(1) == b.next(b.walk(0)));
    lemma_walk_in_grid(b, 1);
    assert forall|k: nat| k + 1 < n implies c.walk(k) == b.walk(k + 1) by {
        assert forall|j: nat| 1 <= j <= k implies b.cells[#[trigger] b.walk(j)] == c.cells[b.walk(j)] by {
            lemma_walk_distinct(b, 0, j);
        }
        lemma_walk_shift(b, c, k);
    }
    assert(c.walk((c.snake_size + 1) as nat) == b.walk((b.snake_size + 1) as nat));
    lemma_walk_distinct(b, 0, (n - 1) as nat);
    assert forall|k: nat| k <= c.snake_size implies c.is_link(#[trigger] c.walk(k)) by {
        assert(c.walk(k) == b.walk(k + 1));
        lemma_walk_distinct(b, 0, k + 1);
        assert(b.is_link(b.walk(k + 1)));
    }
}

/// The place of a cell when the grid is read row by row.
pub open spec fn cell_index(p: (int, int)) -> int {
    p.0 * GRID_WIDTH + p.1
}

/// A well-formed snake has no more cells than the grid.
pub proof fn lemma_length_bound(b: Board)
    requires
        b.well_formed(),
    ensures
        b.length() <= GRID_WIDTH * GRID_HEIGHT,
{
    let n = b.length() as int;
    let f = |k: int| cell_index(b.walk(k as nat));
    let x = set_int_range(0, n);
    let y = x.map(f);
    let all = set_int_range(0, GRID_WIDTH * GRID_HEIGHT);
    lemma_int_range(0, n);
    lemma_int_range(0, GRID_WIDTH * GRID_HEIGHT);
    assert forall|i: int, j: int|
        x.contains(i) && x.contains(j) && #[trigger] f(i) == #[trigger] f(j) implies i == j by {
        lemma_walk_in_grid(b, i as nat);
        lemma_walk_in_grid(b, j as nat);
        if i < j {
            lemma_walk_distinct(b, i as nat, j as nat);
        } else if j < i {
            lemma_walk_distinct(b, j as nat, i as nat);
        }
    }
    assert(injective_on(f, x));
    lemma_map_size(x, y, f);
    assert forall|v: int| y.contains(v) implies all.contains(v) by {
        let k = choose|k: int| x.contains(k) && v == f(k);
        lemma_walk_in_grid(b, k as nat);
    }
    lemma_len_subset(y, all);
}

/// The snake that a game starts with is well formed.
pub proof fn lemma_initial_well_formed()
    ensures
        Board::initial().well_formed(),
{
    let b = Board::initial();
    assert(b.walk(0) == b.tail);
    assert(b.walk(1) == b.next(b.walk(0)));
    assert forall|k: nat| k <= b.snake_size implies b.is_link(#[trigger] b.walk(k)) by {
        assert(k == 0);
    }
}

/// The two ends of a well-formed snake are different cells.
pub proof fn lemma_ends_differ(b: Board)
    requires
        b.well_formed(),
    ensures
        b.head != b.tail,
{
    lemma_walk_distinct(b, 0, (b.snake_size + 1) as nat);
}

/// A request to turn moves no cell: the snake stays well formed.
pub proof fn lemma_turned_well_formed(b: Board, d: Direction)
    requires
        b.well_formed(),
    ensures
        b.turned(d).well_formed(),
{
    lemma_frame_well_formed(b, b.turned(d));
}

/// Recording the chosen direction as applied moves no cell: the snake stays well
/// formed.
pub proof fn lemma_committed_well_formed(b: Board)
    requires
        b.well_formed(),
    ensures
        b.committed().well_formed(),
{
    lemma_frame_well_formed(b, b.committed());
}

/// A fruit that lands on a free cell leaves the snake well formed.
pub proof fn lemma_fruit_well_formed(b: Board, p: (int, int), post: Board)
    requires
        b.well_formed(),
        b.fruit_lands(p, post),
    ensures
        post.well_formed(),
{
    lemma_frame_well_formed(b, post);
}

/// Every simulation step of a well-formed snake leaves it well formed: walking the
/// stored pointers from the tail still reaches the head after `length()` cells.
pub proof fn lemma_ticked_well_formed(pre: Board, post: Board, result: GameResult)
    requires
        pre.well_formed(),
        pre.ticked(post, result),
    ensures
        post.well_formed(),
{
    match pre.cells[pre.target()] {
        SnakeCell::Air => {
            lemma_advanced_well_formed(pre);
            lemma_retired_well_formed(pre.advanced());
        },
        SnakeCell::Body(_) => {},
        SnakeCell::Food => {
            lemma_advanced_well_formed(pre);
            if result == GameResult::GrowAndContinue {
                let p = choose|p: (int, int)| pre.advanced().fruit_lands(p, post);
                lemma_fruit_well_formed(pre.advanced(), p, post);
            }
        },
    }
}

/// A step that eats the fruit makes the snake one cell longer; a move keeps its
/// length; a collision changes nothing.
pub proof fn lemma_ticked_length(pre: Board, post: Board, result: GameResult)
    requires
        pre.ticked(post, result),
    ensures
        result == GameResult::GrowAndContinue || result == GameResult::Win ==> post.length()
            == pre.length() + 1,
        result == GameResult::Continue || result == GameResult::Lose ==> post.length()
            == pre.length(),
{
}

} // verus!
