//! The snake: an ordered body of cells, a pending direction and a terminal
//! `dead` flag. `move_ahead` is the one operation that changes the body.

use vstd::prelude::*;
use crate::direction::Direction;
use crate::food::Food;
use crate::grid::has_free_cell;
use crate::grid::is_free_cell;
use crate::grid::lemma_grid_neighbours;
use crate::grid::lemma_step_on_grid;
use crate::grid::step_coordinate;
use crate::grid::valid_board;
use crate::grid::valid_cell;
use crate::grid::Position;

verus! {

/// One cell of the snake's body, with the direction it was entered from and
/// the direction it is left towards. On the head, `direction_to` is the
/// pending direction: the one the next move takes.
#[derive(Clone, Copy, Debug, PartialEq, Eq, Structural)]
pub struct SnakePiece {
    pub position: Position,
    pub direction_from: Direction,
    pub direction_to: Direction,
}

impl SnakePiece {
    /// A piece at (`x`, `y`) that was entered and is left in `direction`.
    pub fn new(x: u32, y: u32, direction: Direction) -> (piece: Self)
        ensures
            piece == (SnakePiece {
                position: Position { x, y },
                direction_from: direction,
                direction_to: direction,
            }),
    {
        SnakePiece { position: Position { x, y }, direction_from: direction, direction_to: direction }
    }
}

/// One cell of the body as a renderer needs it.
#[derive(Clone, Copy, Debug, PartialEq, Eq, Structural)]
pub struct Segment {
    pub position: Position,
    pub direction_from: Direction,
    pub direction_to: Direction,
    pub is_head: bool,
}

/// The cells that the pieces of `body` lie on, in the same order.
pub open spec fn cells_of(body: Seq<SnakePiece>) -> Seq<Position> {
    body.map_values(|piece: SnakePiece| piece.position)
}

/// No two pieces of `body` lie on the same cell.
pub open spec fn distinct_cells(body: Seq<SnakePiece>) -> bool {
    forall|i: int, j: int| 0 <= i < j < body.len() ==> body[i].position != body[j].position
}

/// Every piece of `body` lies on a cell of the board.
pub open spec fn cells_on_board(body: Seq<SnakePiece>, window_size: int, grid_size: int) -> bool {
    forall|i: int| 0 <= i < body.len() ==> valid_cell(body[i].position, window_size, grid_size)
}

/// The cell one step from `from` in `direction`, through the edge if need be.
/// `Up` is towards smaller `y`.
pub open spec fn next_position(
    from: Position,
    direction: Direction,
    window_size: int,
    grid_size: int,
) -> Position {
    match direction {
        Direction::Up => Position {
            x: from.x,
            y: step_coordinate(from.y as int, false, window_size, grid_size) as u32,
        },
        Direction::Down => Position {
            x: from.x,
            y: step_coordinate(from.y as int, true, window_size, grid_size) as u32,
        },
        Direction::Left => Position {
            x: step_coordinate(from.x as int, false, window_size, grid_size) as u32,
            y: from.y,
        },
        Direction::Right => Position {
            x: step_coordinate(from.x as int, true, window_size, grid_size) as u32,
            y: from.y,
        },
    }
}

/// A step off the board comes back in at the opposite edge: right from the
/// last column lands in the first, up from the first row lands in the last,
/// and likewise for left and down. The other coordinate stays as it is.
pub proof fn lemma_wrap_at_edges(window_size: u32, grid_size: u32, x: u32, y: u32)
    requires
        valid_board(window_size as int, grid_size as int),
    ensures
        next_position(
            Position { x: (window_size - grid_size) as u32, y },
            Direction::Right,
            window_size as int,
            grid_size as int,
        ) == (Position { x: 0, y }),
        next_position(Position { x: 0, y }, Direction::Left, window_size as int, grid_size as int)
            == (Position { x: (window_size - grid_size) as u32, y }),
        next_position(Position { x, y: 0 }, Direction::Up, window_size as int, grid_size as int)
            == (Position { x, y: (window_size - grid_size) as u32 }),
        next_position(
            Position { x, y: (window_size - grid_size) as u32 },
            Direction::Down,
            window_size as int,
            grid_size as int,
        ) == (Position { x, y: 0 }),
{
    let w = window_size as int;
    let g = grid_size as int;
    lemma_grid_neighbours(0, w, g);
    lemma_step_on_grid(w - g, true, w, g);
    lemma_step_on_grid(0, false, w, g);
}

/// The body of a fresh snake: one piece at the origin, heading right.
pub open spec fn initial_body() -> Seq<SnakePiece> {
    seq![
        SnakePiece {
            position: Position { x: 0, y: 0 },
            direction_from: Direction::Right,
            direction_to: Direction::Right,
        },
    ]
}

/// A cell is among `cells_of(body)` exactly when some piece lies on it.
pub proof fn lemma_cells_of(body: Seq<SnakePiece>, p: Position)
    ensures
        cells_of(body).len() == body.len(),
        cells_of(body).contains(p) <==> exists|i: int|
            0 <= i < body.len() && #[trigger] body[i].position == p,
{
    let cells = cells_of(body);
    if cells.contains(p) {
        let i = choose|i: int| 0 <= i < cells.len() && cells[i] == p;
        assert(body[i].position == p);
    }
    if exists|i: int| 0 <= i < body.len() && #[trigger] body[i].position == p {
        let i = choose|i: int| 0 <= i < body.len() && #[trigger] body[i].position == p;
        assert(cells[i] == p);
    }
}

/// The snake. Its view is the body, tail first and head last.
pub struct Snake {
    pieces: Vec<SnakePiece>,
    pub dead: bool,
    window_size: u32,
    grid_size: u32,
}

impl View for Snake {
    type V = Seq<SnakePiece>;

    closed spec fn view(&self) -> Seq<SnakePiece> {
        self.pieces@
    }
}

impl Snake {
    /// The snake has run into itself.
    pub closed spec fn spec_is_dead(&self) -> bool {
        self.dead
    }

    /// The side of the board.
    pub closed spec fn spec_window_size(&self) -> u32 {
        self.window_size
    }

    /// The side of one cell.
    pub closed spec fn spec_grid_size(&self) -> u32 {
        self.grid_size
    }

    /// The cells of the body, tail first.
    pub open spec fn cells(&self) -> Seq<Position> {
        cells_of(self@)
    }

    /// Some piece of the body lies on `p`.
    pub open spec fn spec_occupies(&self, p: Position) -> bool {
        self.cells().contains(p)
    }

    /// The body is never empty, lies on the board, and covers no cell twice.
    pub open spec fn wf(&self) -> bool {
        &&& self@.len() > 0
        &&& valid_board(self.window_size() as int, self.grid_size() as int)
        &&& cells_on_board(self@, self.window_size() as int, self.grid_size() as int)
        &&& distinct_cells(self@)
    }

    /// The direction that the next move takes.
    pub open spec fn pending_direction(&self) -> Direction {
        self@.last().direction_to
    }

    /// The piece that the next move puts in front of the head.
    pub open spec fn next_piece(&self) -> SnakePiece {
        let direction = self.pending_direction();
        SnakePiece {
            position: next_position(
                self@.last().position,
                direction,
                self.window_size() as int,
                self.grid_size() as int,
            ),
            direction_from: direction,
            direction_to: direction,
        }
    }

    /// The next move would run the head into the body.
    pub open spec fn collides(&self) -> bool {
        self.occupies(self.next_piece().position)
    }

    /// Nothing moves any more: the snake is dead, or the board has no room
    /// left for food.
    pub open spec fn halted(&self, food: &Food) -> bool {
        self.is_dead() || food.is_exhausted()
    }

    /// `after` and `food_after` are what one move makes of `self` and `food`.
    ///
    /// A halted snake and its food stay as they are. A snake that would run
    /// into its body dies with body and food unchanged. A snake that reaches
    /// the food keeps its tail, and the food either lies on a cell clear of
    /// the longer snake or, if no cell is clear, stays and is exhausted. Any
    /// other move drops the tail piece and leaves the food alone.
    pub open spec fn moved_ahead(&self, food: &Food, after: &Snake, food_after: &Food) -> bool {
        let new_head = self.next_piece();
        let board = food.window_size() as int;
        let cell = food.grid_size() as int;
        &&& after.window_size() == self.window_size()
        &&& after.grid_size() == self.grid_size()
        &&& food_after.window_size() == food.window_size()
        &&& food_after.grid_size() == food.grid_size()
        &&& if self.halted(food) {
            *after == *self && *food_after == *food
        } else if self.collides() {
            after@ == self@ && after.is_dead() && *food_after == *food
        } else if new_head.position != food.cell() {
            after@ == self@.drop_first().push(new_head) && !after.is_dead() && *food_after == *food
        } else {
            &&& after@ == self@.push(new_head)
            &&& !after.is_dead()
            &&& food_after.is_exhausted() == !has_free_cell(board, cell, after.cells())
            &&& if food_after.is_exhausted() {
                food_after.cell() == food.cell()
            } else {
                is_free_cell(food_after.cell(), board, cell, after.cells())
            }
        }
    }

    /// Whether the snake has run into itself.
    #[verifier::when_used_as_spec(spec_is_dead)]
    pub fn is_dead(&self) -> (dead: bool)
        ensures
            dead == self.is_dead(),
    {
        self.dead
    }

    /// The side of the board.
    #[verifier::when_used_as_spec(spec_window_size)]
    pub fn window_size(&self) -> (side: u32)
        ensures
            side == self.window_size(),
    {
        self.window_size
    }

    /// The side of one cell.
    #[verifier::when_used_as_spec(spec_grid_size)]
    pub fn grid_size(&self) -> (side: u32)
        ensures
            side == self.grid_size(),
    {
        self.grid_size
    }

    /// A live snake of one piece at the origin, heading right.
    pub fn new(window_size: u32, grid_size: u32) -> (snake: Self)
        requires
            valid_board(window_size as int, grid_size as int),
        ensures
            snake.wf(),
            snake@ == initial_body(),
            !snake.is_dead(),
            snake.window_size() == window_size,
            snake.grid_size() == grid_size,
    {
        let mut pieces: Vec<SnakePiece> = Vec::new();
        pieces.push(SnakePiece::new(0, 0, Direction::Right));
        proof {
            lemma_grid_neighbours(0, window_size as int, grid_size as int);
        }
        Snake { pieces, dead: false, window_size, grid_size }
    }

    /// The piece that moves next: the last of the body.
    fn head(&self) -> (piece: &SnakePiece)
        requires
            self.wf(),
        ensures
            *piece == self@.last(),
    {
        &self.pieces[self.pieces.len() - 1]
    }

    /// Back to the state that `new` gives, on the same board.
    pub fn reset(&mut self)
        requires
            old(self).wf(),
        ensures
            final(self).wf(),
            final(self)@ == initial_body(),
            !final(self).is_dead(),
            final(self).window_size() == old(self).window_size(),
            final(self).grid_size() == old(self).grid_size(),
    {
        *self = Self::new(self.window_size, self.grid_size);
    }

    /// Asks for `direction` as the direction of the next move. A dead snake
    /// ignores it, and so does a snake whose pending direction is the opposite
    /// one. Only the head's `direction_to` can change.
    pub fn turn(&mut self, direction: Direction)
        requires
            old(self).wf(),
        ensures
            final(self).wf(),
            final(self)@ == if old(self).is_dead() || direction == old(self).pending_direction().opposite() {
                old(self)@
            } else {
                old(self)@.update(
                    old(self)@.len() - 1,
                    SnakePiece { direction_to: direction, ..old(self)@.last() },
                )
            },
            direction == old(self).pending_direction().opposite() ==> final(self).pending_direction() == old(self).pending_direction(),
            final(self).is_dead() == old(self).is_dead(),
            final(self).window_size() == old(self).window_size(),
            final(self).grid_size() == old(self).grid_size(),
    {
        if self.dead {
            return ;
        }
        let last: usize = self.pieces.len() - 1;
        let head = self.pieces[last];
        if !head.direction_to.is_opposite(direction) {
            self.pieces[last].direction_to = direction;
        }
    }

    /// The piece one step ahead of the head in the pending direction.
    fn generate_new_piece(&self) -> (piece: SnakePiece)
        requires
            self.wf(),
        ensures
            piece == self.next_piece(),
            valid_cell(piece.position, self.window_size() as int, self.grid_size() as int),
    {
        let current_head = self.head();
        let position = current_head.position;
        proof {
            let w = self.window_size as int;
            let g = self.grid_size as int;
            lemma_step_on_grid(position.x as int, true, w, g);
            lemma_step_on_grid(position.x as int, false, w, g);
            lemma_step_on_grid(position.y as int, true, w, g);
            lemma_step_on_grid(position.y as int, false, w, g);
        }
        let (new_x, new_y) = match current_head.direction_to {
            Direction::Up => (position.x, self.get_new_coordinate(position.y, false)),
            Direction::Down => (position.x, self.get_new_coordinate(position.y, true)),
            Direction::Left => (self.get_new_coordinate(position.x, false), position.y),
            Direction::Right => (self.get_new_coordinate(position.x, true), position.y),
        };
        SnakePiece::new(new_x, new_y, current_head.direction_to)
    }

    /// The coordinate one cell forwards or backwards from `coordinate`, coming
    /// back in at the opposite edge when the step leaves the board.
    fn get_new_coordinate(&self, coordinate: u32, is_increment: bool) -> (next: u32)
        requires
            0 < self.grid_size() <= self.window_size(),
            coordinate < self.window_size(),
        ensures
            next == step_coordinate(
                coordinate as int,
                is_increment,
                self.window_size() as int,
                self.grid_size() as int,
            ),
            next < self.window_size(),
    {
        let c = coordinate;
        let w = self.window_size;
        let g = self.grid_size;
        if is_increment {
            if c >= w - g {
                assert((c + g) % (w as int) == c + g - w) by (nonlinear_arith)
                    requires
                        w <= c + g < 2 * w,
                ;
                c - (w - g)
            } else {
                assert((c + g) % (w as int) == c + g) by (nonlinear_arith)
                    requires
                        0 <= c + g < w,
                ;
                c + g
            }
        } else {
            if c < g {
                assert((c - g) % (w as int) == c - g + w) by (nonlinear_arith)
                    requires
                        -w <= c - g < 0,
                ;
                c + (w - g)
            } else {
                assert((c - g) % (w as int) == c - g) by (nonlinear_arith)
                    requires
                        0 <= c - g < w,
                ;
                c - g
            }
        }
    }

    /// Whether some piece of the body lies on `p`.
    #[verifier::when_used_as_spec(spec_occupies)]
    pub fn occupies(&self, p: Position) -> (covered: bool)
        ensures
            covered == self.occupies(p),
    {
        let mut i: usize = 0;
        while i < self.pieces.len()
            invariant
                i <= self.pieces.len(),
                forall|j: int| 0 <= j < i ==> self@[j].position != p,
            decreases self.pieces.len() - i,
        {
            if self.pieces[i].position.x == p.x && self.pieces[i].position.y == p.y {
                proof {
                    lemma_cells_of(self@, p);
                }
                return true;
            }
            i += 1;
        }
        proof {
            lemma_cells_of(self@, p);
        }
        false
    }

    /// The cells of the body, tail first.
    pub fn positions(&self) -> (cells: Vec<Position>)
        ensures
            cells@ == self.cells(),
    {
        let mut cells: Vec<Position> = Vec::new();
        let mut i: usize = 0;
        while i < self.pieces.len()
            invariant
                i <= self.pieces.len(),
                cells@.len() == i,
                forall|j: int| 0 <= j < i ==> cells@[j] == self@[j].position,
            decreases self.pieces.len() - i,
        {
            cells.push(self.pieces[i].position);
            i += 1;
        }
        cells
    }

    /// The body for a renderer, tail first; the last segment is marked as the head.
    pub fn segments(&self) -> (segments: Vec<Segment>)
        ensures
            segments@.len() == self@.len(),
            forall|i: int|
                0 <= i < self@.len() ==> segments@[i] == (Segment {
                    position: self@[i].position,
                    direction_from: self@[i].direction_from,
                    direction_to: self@[i].direction_to,
                    is_head: i == self@.len() - 1,
                }),
    {
        let mut segments: Vec<Segment> = Vec::new();
        let mut i: usize = 0;
        while i < self.pieces.len()
            invariant
                i <= self.pieces.len(),
                segments@.len() == i,
                forall|j: int|
                    0 <= j < i ==> segments@[j] == (Segment {
                        position: self@[j].position,
                        direction_from: self@[j].direction_from,
                        direction_to: self@[j].direction_to,
                        is_head: j == self@.len() - 1,
                    }),
            decreases self.pieces.len() - i,
        {
            let piece = self.pieces[i];
            segments.push(
                Segment {
                    position: piece.position,
                    direction_from: piece.direction_from,
                    direction_to: piece.direction_to,
                    is_head: i + 1 == self.pieces.len(),
                },
            );
            i += 1;
        }
        segments
    }

    /// One tick. A halted snake does nothing. Otherwise the head takes one
    /// step in the pending direction, through the edge of the board if need
    /// be. If that cell is part of the body, the tail's cell included, the
    /// snake dies where it stands. If it is the food's cell, the snake grows by
    /// the new head and the food moves to a cell clear of the snake, or is
    /// marked exhausted when the snake fills the board. Otherwise the tail
    /// piece is dropped and the new head is added.
    pub fn move_ahead(&mut self, food: &mut Food)
        requires
            old(self).wf(),
            old(food).wf(),
        ensures
            final(self).wf(),
            final(food).wf(),
            old(self).moved_ahead(old(food), final(self), final(food)),
            old(self).is_dead() ==> final(self).is_dead() && final(self)@ == old(self)@,
            !old(self).halted(old(food)) && !old(self).collides() ==> {
                if old(self).next_piece().position == old(food).cell() {
                    &&& final(self)@.len() == old(self)@.len() + 1
                    &&& !final(food).is_exhausted() ==> final(food).cell() != old(food).cell()
                        && !final(self).occupies(final(food).cell())
                } else {
                    &&& final(self)@.len() == old(self)@.len()
                    &&& final(self)@.drop_last() == old(self)@.drop_first()
                }
            },
    {
        if self.dead || food.is_exhausted() {
            return ;
        }
        let new_head = self.generate_new_piece();
        proof {
            lemma_cells_of(self@, new_head.position);
        }
        if self.occupies(new_head.position) {
            self.dead = true;
        } else {
            let target = food.position();
            if new_head.position.x == target.x && new_head.position.y == target.y {
                self.pieces.push(new_head);
                let cells = self.positions();
                proof {
                    lemma_cells_of(self@, new_head.position);
                    assert(self@[self@.len() - 1].position == new_head.position);
                }
                food.regenerate(&cells);
            } else {
                self.pieces.remove(0);
                self.pieces.push(new_head);
            }
        }
    }
}

} // verus!
