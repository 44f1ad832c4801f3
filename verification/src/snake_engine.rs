//! The decisions of the game loop.
//!
//! The loop itself polls the keyboard, sleeps and draws, which is not done here. Once
//! per iteration it hands the keys that are down to [`Controller::step`], which
//! steers the snake, advances the game at a fixed cadence, and answers with what the
//! loop has to do next.

use crate::board::{opposite, Board};
use crate::chain::{
    lemma_committed_well_formed, lemma_frame_well_formed, lemma_ticked_well_formed,
};
use crate::fruit::{lemma_initial_food_count, lemma_ticked_food_count};
use crate::snake_grid::{Direction, GameResult, SnakeGrid};
use vstd::prelude::*;

verus! {

/// The game advances once in this many iterations of the loop.
pub const TICK_INTERVAL: u32 = 20;

/// How long the loop sleeps at the end of an iteration, in milliseconds.
pub const SLEEP_MILLIS: u64 = 5;

/// A key that the game knows, or any other.
#[derive(Clone, Copy, PartialEq, Eq, Debug)]
pub enum Key {
    Up,
    Down,
    Left,
    Right,
    W,
    A,
    S,
    D,
    Escape,
    Other,
}

/// What the keys of one poll ask of the loop.
#[derive(Clone, Copy, PartialEq, Eq, Debug)]
pub enum KeyboardResult {
    /// Go on.
    Normal,
    /// Leave the loop.
    Exit,
    /// Start the game again. No key asks for it.
    Restart,
}

/// What the loop has to do at the end of an iteration.
#[derive(Clone, Copy, PartialEq, Eq, Debug)]
pub enum LoopAction {
    /// Leave the loop.
    Exit,
    /// The game advanced by one step, which ended as given: draw the grid, then sleep.
    Render(GameResult),
    /// Nothing changed on the grid: sleep.
    Sleep,
}

/// The direction that a key stands for: the arrow keys and W, A, S, D.
pub open spec fn key_direction(key: Key) -> Option<Direction> {
    match key {
        Key::Right | Key::D => Some(Direction::Right),
        Key::Left | Key::A => Some(Direction::Left),
        Key::Up | Key::W => Some(Direction::Up),
        Key::Down | Key::S => Some(Direction::Down),
        Key::Escape | Key::Other => None,
    }
}

/// The board after one key: a direction key is a request to turn, any other key
/// leaves the board alone.
pub open spec fn key_pressed(b: Board, key: Key) -> Board {
    match key_direction(key) {
        Some(d) => b.turned(d),
        None => b,
    }
}

/// The board after the keys of one poll, taken in order.
pub open spec fn steered(b: Board, keys: Seq<Key>) -> Board
    decreases keys.len(),
{
    if keys.len() == 0 {
        b
    } else {
        key_pressed(steered(b, keys.drop_last()), keys.last())
    }
}

/// Steering changes nothing but the direction of travel.
pub proof fn lemma_steered_turns_only(b: Board, keys: Seq<Key>)
    ensures
        steered(b, keys) == (Board { travel: steered(b, keys).travel, ..b }),
        steered(b, keys).food_count() == b.food_count(),
        b.well_formed() ==> steered(b, keys).well_formed(),
    decreases keys.len(),
{
    if keys.len() > 0 {
        lemma_steered_turns_only(b, keys.drop_last());
    }
    let post = steered(b, keys);
    assert(post.food_cells() =~= b.food_cells());
    if b.well_formed() {
        lemma_frame_well_formed(b, post);
    }
}

/// However many keys arrive between two steps, the snake is never steered against
/// the direction that the last step applied.
pub proof fn lemma_steered_never_reverses(b: Board, keys: Seq<Key>)
    requires
        b.travel != opposite(b.previous),
    ensures
        steered(b, keys).travel != opposite(b.previous),
    decreases keys.len(),
{
    if keys.len() > 0 {
        lemma_steered_never_reverses(b, keys.drop_last());
        lemma_steered_turns_only(b, keys.drop_last());
    }
}

/// Whether `x` occurs among the first `i + 1` items: among the first `i`, or as the
/// next one.
proof fn lemma_contains_next<T>(s: Seq<T>, i: int, x: T)
    requires
        0 <= i < s.len(),
    ensures
        s.take(i + 1).contains(x) == (s.take(i).contains(x) || s[i] == x),
{
    let shorter = s.take(i);
    let longer = s.take(i + 1);
    if longer.contains(x) {
        let j = choose|j: int| 0 <= j < longer.len() && longer[j] == x;
        if j < i {
            assert(shorter[j] == x);
        }
    }
    if shorter.contains(x) {
        let j = choose|j: int| 0 <= j < shorter.len() && shorter[j] == x;
        assert(longer[j] == x);
    }
    if s[i] == x {
        assert(longer[i] == x);
    }
}

/// The direction that `key` stands for, if any.
pub fn direction_of(key: Key) -> (d: Option<Direction>)
    ensures
        d == key_direction(key),
{
    match key {
        Key::Right | Key::D => Some(Direction::Right),
        Key::Left | Key::A => Some(Direction::Left),
        Key::Up | Key::W => Some(Direction::Up),
        Key::Down | Key::S => Some(Direction::Down),
        Key::Escape | Key::Other => None,
    }
}

/// Handles the keys that one poll found down, in order: every direction key is a
/// request to turn, and the escape key asks to leave the loop.
pub fn read_input(grid: &mut SnakeGrid, keys: &[Key]) -> (code: KeyboardResult)
    ensures
        final(grid)@ == steered(old(grid)@, keys@),
        code == if keys@.contains(Key::Escape) {
            KeyboardResult::Exit
        } else {
            KeyboardResult::Normal
        },
{
    let ghost pre = grid@;
    let mut code = KeyboardResult::Normal;
    let mut i: usize = 0;
    while i < keys.len()
        invariant
            i <= keys.len(),
            grid@ == steered(pre, keys@.take(i as int)),
            code == if keys@.take(i as int).contains(Key::Escape) {
                KeyboardResult::Exit
            } else {
                KeyboardResult::Normal
            },
        decreases keys.len() - i,
    {
        let key = keys[i];
        match direction_of(key) {
            Some(direction) => {
                grid.update_direction(direction);
            },
            None => {
                if let Key::Escape = key {
                    code = KeyboardResult::Exit;
                }
            },
        }
        proof {
            let seen = keys@.take(i as int + 1);
            assert(seen.drop_last() =~= keys@.take(i as int));
            assert(seen.last() == key);
            lemma_contains_next(keys@, i as int, Key::Escape);
        }
        i += 1;
    }
    proof {
        assert(keys@.take(keys.len() as int) =~= keys@);
    }
    code
}

/// The state of the game loop as the contracts see it.
pub struct ControllerView {
    /// The game.
    pub board: Board,
    /// How many iterations pass before the next step of the game.
    pub countdown: nat,
    /// The game has ended, won or lost, and advances no more.
    pub over: bool,
}

impl ControllerView {
    /// One iteration of the loop, with `keys` down, takes this state to `post` and
    /// asks the loop for `action`.
    ///
    /// The keys steer the snake first. The escape key then ends the loop at once.
    /// Otherwise the countdown runs; when it has run out, it starts again and, unless
    /// the game has ended, the chosen direction is committed and the game advances
    /// by one step. A step that loses or wins ends the game.
    pub open spec fn stepped(self, keys: Seq<Key>, post: ControllerView, action: LoopAction) -> bool {
        let board = steered(self.board, keys);
        if keys.contains(Key::Escape) {
            action == LoopAction::Exit && post == (ControllerView { board, ..self })
        } else if self.countdown > 0 {
            action == LoopAction::Sleep && post == (ControllerView {
                board,
                countdown: (self.countdown - 1) as nat,
                ..self
            })
        } else if self.over {
            action == LoopAction::Sleep && post == (ControllerView {
                board,
                countdown: (TICK_INTERVAL - 1) as nat,
                ..self
            })
        } else {
            &&& action matches LoopAction::Render(result)
            &&& board.committed().ticked(post.board, result)
            &&& post.countdown == TICK_INTERVAL - 1
            &&& post.over == (result == GameResult::Lose || result == GameResult::Win)
        }
    }
}

/// Every iteration keeps the snake one chain, and keeps a board with at most one
/// fruit a board with at most one fruit.
pub proof fn lemma_stepped_keeps_board_sound(
    pre: ControllerView,
    keys: Seq<Key>,
    post: ControllerView,
    action: LoopAction,
)
    requires
        pre.board.well_formed(),
        pre.stepped(keys, post, action),
    ensures
        post.board.well_formed(),
        pre.board.food_count() <= 1 ==> post.board.food_count() <= 1,
{
    let board = steered(pre.board, keys);
    lemma_steered_turns_only(pre.board, keys);
    if !keys.contains(Key::Escape) && pre.countdown == 0 && !pre.over {
        let result = action->Render_0;
        lemma_committed_well_formed(board);
        assert(board.committed().food_cells() =~= board.food_cells());
        lemma_ticked_well_formed(board.committed(), post.board, result);
        lemma_ticked_food_count(board.committed(), post.board, result);
    }
}

/// Once the game has ended it stays ended, and the board changes no more but for
/// the direction of travel.
pub proof fn lemma_stepped_after_the_end(
    pre: ControllerView,
    keys: Seq<Key>,
    post: ControllerView,
    action: LoopAction,
)
    requires
        pre.over,
        pre.stepped(keys, post, action),
    ensures
        post.over,
        post.board == steered(pre.board, keys),
        action == LoopAction::Exit || action == LoopAction::Sleep,
{
}

/// The game and the cadence at which it advances.
pub struct Controller {
    grid: SnakeGrid,
    countdown: u32,
    over: bool,
}

impl View for Controller {
    type V = ControllerView;

    closed spec fn view(&self) -> ControllerView {
        ControllerView { board: self.grid@, countdown: self.countdown as nat, over: self.over }
    }
}

impl Controller {
    #[verifier::type_invariant]
    spec fn sound(self) -> bool {
        self.grid@.well_formed()
    }

    /// A new game with its first fruit placed, about to advance on the first
    /// iteration.
    pub fn new() -> (c: Controller)
        ensures
            c@.countdown == 0,
            !c@.over,
            exists|p: (int, int)| Board::initial().fruit_lands(p, c@.board),
    {
        let mut grid = SnakeGrid::new();
        proof {
            lemma_initial_food_count();
        }
        grid.generate_fruit();
        Controller { grid, countdown: 0, over: false }
    }

    /// Takes up a game on `grid`, about to advance on the first iteration. The snake
    /// on the grid has to be one chain; a grid on which it is not is refused.
    pub fn from_grid(grid: SnakeGrid) -> (c: Option<Controller>)
        ensures
            c is Some == grid@.well_formed(),
            c matches Some(taken) ==> taken@ == (ControllerView {
                board: grid@,
                countdown: 0,
                over: false,
            }),
    {
        if grid.is_well_formed() {
            Some(Controller { grid, countdown: 0, over: false })
        } else {
            None
        }
    }

    /// The grid, to draw it. The snake in it is one chain.
    pub fn grid(&self) -> (g: &SnakeGrid)
        ensures
            g@ == self@.board,
            g@.well_formed(),
    {
        proof {
            use_type_invariant(self);
        }
        &self.grid
    }

    /// Whether the game has ended.
    pub fn is_over(&self) -> (over: bool)
        ensures
            over == self@.over,
    {
        self.over
    }

    /// One iteration of the loop with `keys` down: the next state, and what the loop
    /// has to do.
    pub fn step(self, keys: &[Key]) -> (next: (Controller, LoopAction))
        ensures
            self@.stepped(keys@, next.0@, next.1),
    {
        proof {
            use_type_invariant(&self);
        }
        let Controller { mut grid, mut countdown, mut over } = self;
        proof {
            lemma_steered_turns_only(grid@, keys@);
        }
        if let KeyboardResult::Exit = read_input(&mut grid, keys) {
            return (Controller { grid, countdown, over }, LoopAction::Exit);
        }
        let mut action = LoopAction::Sleep;
        if countdown == 0 {
            if !over {
                proof {
                    lemma_committed_well_formed(grid@);
                }
                // The direction now chosen is the one that this step applies.
                grid.previous_direction = grid.travel_direction;
                let result = grid.tick();
                match result {
                    GameResult::Lose | GameResult::Win => {
                        over = true;
                    },
                    _ => {},
                }
                action = LoopAction::Render(result);
            }
            countdown = TICK_INTERVAL;
        }
        countdown = countdown - 1;
        (Controller { grid, countdown, over }, action)
    }
}

} // verus!
