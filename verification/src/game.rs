//! One session: a snake and its food on one board, driven by inputs.

use vstd::prelude::*;
use crate::direction::Direction;
use crate::food::Food;
use crate::grid::has_free_cell;
use crate::grid::valid_board;
use crate::snake::cells_of;
use crate::snake::initial_body;
use crate::snake::lemma_cells_of;
use crate::snake::Snake;
use crate::snake::SnakePiece;

verus! {

/// What can happen to a session between two frames.
#[derive(Clone, Copy, Debug, PartialEq, Eq, Structural)]
pub enum Input {
    /// The player asks for a direction.
    Turn(Direction),
    /// The player asks for a new game.
    Restart,
    /// The clock asks for one move.
    Tick,
}

/// A snake and the food it is after.
pub struct Game {
    pub snake: Snake,
    pub food: Food,
}

impl Game {
    /// Snake and food share one board, and food that is on offer does not lie
    /// under the snake.
    pub open spec fn wf(&self) -> bool {
        &&& self.snake.wf()
        &&& self.food.wf()
        &&& self.snake.window_size() == self.food.window_size()
        &&& self.snake.grid_size() == self.food.grid_size()
        &&& !self.food.is_exhausted() ==> !self.snake.occupies(self.food.cell())
        &&& self.food.is_exhausted() ==> !has_free_cell(
            self.snake.window_size() as int,
            self.snake.grid_size() as int,
            self.snake.cells(),
        )
    }

    /// The snake has died or fills the board.
    pub open spec fn spec_is_over(&self) -> bool {
        self.snake.is_dead() || self.food.is_exhausted()
    }

    /// Whether the snake has died or fills the board.
    #[verifier::when_used_as_spec(spec_is_over)]
    pub fn is_over(&self) -> (over: bool)
        ensures
            over == self.is_over(),
    {
        self.snake.is_dead() || self.food.is_exhausted()
    }

    /// A fresh snake with food on a random cell clear of it. On a board of a
    /// single cell there is no such cell, and the game starts out over.
    pub fn new(window_size: u32, grid_size: u32, seed: u64) -> (game: Game)
        requires
            valid_board(window_size as int, grid_size as int),
        ensures
            game.wf(),
            game.snake@ == initial_body(),
            !game.snake.is_dead(),
            game.snake.window_size() == window_size,
            game.snake.grid_size() == grid_size,
            game.food.is_exhausted() == !has_free_cell(
                window_size as int,
                grid_size as int,
                cells_of(initial_body()),
            ),
    {
        let snake = Snake::new(window_size, grid_size);
        let mut food = Food::new(window_size, grid_size, seed);
        let cells = snake.positions();
        food.regenerate(&cells);
        Game { snake, food }
    }

    /// Applies one input. A turn goes to the snake, which may ignore it. A
    /// tick moves the snake once. A restart is honoured only when the game is
    /// over: the snake starts afresh and the food is placed anew, clear of it.
    pub fn handle_input(&mut self, input: Input)
        requires
            old(self).wf(),
        ensures
            final(self).wf(),
            final(self).snake.window_size() == old(self).snake.window_size(),
            final(self).snake.grid_size() == old(self).snake.grid_size(),
            match input {
                Input::Turn(direction) => {
                    &&& final(self).food == old(self).food
                    &&& final(self).snake.is_dead() == old(self).snake.is_dead()
                    &&& final(self).snake@ == if old(self).snake.is_dead()
                        || direction == old(self).snake.pending_direction().opposite() {
                        old(self).snake@
                    } else {
                        old(self).snake@.update(
                            old(self).snake@.len() - 1,
                            SnakePiece { direction_to: direction, ..old(self).snake@.last() },
                        )
                    }
                },
                Input::Restart => if old(self).is_over() {
                    &&& final(self).snake@ == initial_body()
                    &&& !final(self).snake.is_dead()
                    &&& final(self).food.is_exhausted() == !has_free_cell(
                        old(self).snake.window_size() as int,
                        old(self).snake.grid_size() as int,
                        cells_of(initial_body()),
                    )
                } else {
                    *final(self) == *old(self)
                },
                Input::Tick => old(self).snake.moved_ahead(
                    &old(self).food,
                    &final(self).snake,
                    &final(self).food,
                ),
            },
    {
        match input {
            Input::Turn(direction) => {
                let ghost before = self.snake@;
                self.snake.turn(direction);
                proof {
                    assert(cells_of(self.snake@) =~= cells_of(before));
                }
            },
            Input::Restart => {
                if self.is_over() {
                    self.snake.reset();
                    let cells = self.snake.positions();
                    self.food.regenerate(&cells);
                }
            },
            Input::Tick => {
                proof {
                    lemma_cells_of(self.snake@, self.food.cell());
                }
                self.snake.move_ahead(&mut self.food);
            },
        }
    }
}

} // verus!
