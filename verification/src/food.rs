//! The food spawner: one food cell at a time, placed at random among the cells
//! that the caller does not exclude.

use vstd::prelude::*;
use rand::rngs::StdRng;
use rand::Rng;
use rand::SeedableRng;
use crate::grid::cell_coordinate;
use crate::grid::has_free_cell;
use crate::grid::is_free_cell;
use crate::grid::lemma_cells_per_side;
use crate::grid::lemma_grid_gap;
use crate::grid::lemma_grid_neighbours;
use crate::grid::on_grid;
use crate::grid::scan_le;
use crate::grid::valid_board;
use crate::grid::valid_cell;
use crate::grid::Position;

verus! {

/// How many random cells `regenerate` tries before it scans the board.
pub const PLACEMENT_TRIES: u32 = 64;

/// `rand::rngs::StdRng`, the generator that a `Food` draws from. Its state is
/// opaque here.
#[verifier::external_type_specification]
#[verifier::external_body]
pub struct ExStdRng(StdRng);

/// Calls `rand::SeedableRng::seed_from_u64` for `StdRng`. Nothing is claimed
/// of the generator that comes back.
#[verifier::external_body]
fn seeded_generator(seed: u64) -> StdRng {
    StdRng::seed_from_u64(seed)
}

/// Calls `rand::Rng::gen_range` on the half-open range from 0 to `bound`.
/// Claimed: the number drawn is below `bound`. An empty range panics there,
/// so `bound` must be positive. Which number comes is not stated.
#[verifier::external_body]
fn draw_below(rng: &mut StdRng, bound: u32) -> (drawn: u32)
    requires
        bound > 0,
    ensures
        drawn < bound,
{
    rng.gen_range(0..bound)
}

/// Whether `p` is one of `list`.
pub fn contains_position(list: &Vec<Position>, p: Position) -> (found: bool)
    ensures
        found == list@.contains(p),
{
    let mut i: usize = 0;
    while i < list.len()
        invariant
            i <= list.len(),
            forall|j: int| 0 <= j < i ==> list@[j] != p,
        decreases list.len() - i,
    {
        if list[i].x == p.x && list[i].y == p.y {
            return true;
        }
        i += 1;
    }
    false
}

/// The first cell of the board, read row by row from the top and each row from
/// the left, that is not among `excluding`; `None` when every cell is.
pub fn first_free_cell(window_size: u32, grid_size: u32, excluding: &Vec<Position>) -> (found:
    Option<Position>)
    requires
        valid_board(window_size as int, grid_size as int),
    ensures
        found is Some <==> has_free_cell(window_size as int, grid_size as int, excluding@),
        found matches Some(p) ==> is_free_cell(p, window_size as int, grid_size as int, excluding@)
            && forall|q: Position|
            is_free_cell(q, window_size as int, grid_size as int, excluding@) ==> scan_le(p, q),
{
    let ghost w = window_size as int;
    let ghost g = grid_size as int;
    let mut y: u32 = 0;
    proof {
        lemma_grid_neighbours(0, w, g);
    }
    while y < window_size
        invariant
            valid_board(w, g),
            w == window_size,
            g == grid_size,
            y <= window_size,
            y % grid_size == 0,
            forall|q: Position| is_free_cell(q, w, g, excluding@) ==> q.y >= y,
        decreases window_size - y,
    {
        let mut x: u32 = 0;
        while x < window_size
            invariant
                valid_board(w, g),
                w == window_size,
                g == grid_size,
                y < window_size,
                y % grid_size == 0,
                x <= window_size,
                x % grid_size == 0,
                forall|q: Position|
                    is_free_cell(q, w, g, excluding@) ==> q.y > y || (q.y == y && q.x >= x),
            decreases window_size - x,
        {
            let here = Position { x, y };
            if !contains_position(excluding, here) {
                assert(is_free_cell(here, w, g, excluding@));
                return Some(here);
            }
            proof {
                lemma_grid_neighbours(x as int, w, g);
                assert forall|q: Position| is_free_cell(q, w, g, excluding@) implies q.y > y || (
                q.y == y && q.x >= x + g) by {
                    if q.y == y && q.x < x + g {
                        lemma_grid_gap(x as int, q.x as int, g);
                        assert(q == here);
                    }
                }
            }
            x = x + grid_size;
        }
        proof {
            lemma_grid_neighbours(y as int, w, g);
            assert forall|q: Position| is_free_cell(q, w, g, excluding@) implies q.y >= y + g by {
                if q.y < y + g {
                    lemma_grid_gap(y as int, q.y as int, g);
                }
            }
        }
        y = y + grid_size;
    }
    None
}

/// The food: its cell, the board it is placed on, and the generator that
/// picks its cells.
pub struct Food {
    pub x: u32,
    pub y: u32,
    exhausted: bool,
    window_size: u32,
    grid_size: u32,
    rng: StdRng,
}

impl Food {
    /// The side of the board.
    pub closed spec fn spec_window_size(&self) -> u32 {
        self.window_size
    }

    /// The side of one cell.
    pub closed spec fn spec_grid_size(&self) -> u32 {
        self.grid_size
    }

    /// The last placement found every cell of the board excluded.
    pub closed spec fn spec_is_exhausted(&self) -> bool {
        self.exhausted
    }

    /// The cell the food lies on.
    pub closed spec fn cell(&self) -> Position {
        Position { x: self.x, y: self.y }
    }

    /// The board is cut into whole cells and the food lies on one of them.
    pub open spec fn wf(&self) -> bool {
        &&& valid_board(self.window_size() as int, self.grid_size() as int)
        &&& valid_cell(self.cell(), self.window_size() as int, self.grid_size() as int)
    }

    /// `other` is this food on the same board, whatever its generator has drawn since.
    pub open spec fn same_placement(&self, other: &Food) -> bool {
        &&& self.cell() == other.cell()
        &&& self.is_exhausted() == other.is_exhausted()
        &&& self.window_size() == other.window_size()
        &&& self.grid_size() == other.grid_size()
    }

    /// The side of the board.
    #[verifier::when_used_as_spec(spec_window_size)]
    pub fn window_size(&self) -> (side: u32)
        ensures
            side == self.window_size(),
    {
        self.window_size
    }

    /// The side of one cell.
    #[verifier::when_used_as_spec(spec_grid_size)]
    pub fn grid_size(&self) -> (side: u32)
        ensures
            side == self.grid_size(),
    {
        self.grid_size
    }

    /// Whether the last placement found every cell of the board excluded. The
    /// game is then over: nothing is left to eat.
    #[verifier::when_used_as_spec(spec_is_exhausted)]
    pub fn is_exhausted(&self) -> (exhausted: bool)
        ensures
            exhausted == self.is_exhausted(),
    {
        self.exhausted
    }

    /// The cell the food lies on.
    pub fn position(&self) -> (p: Position)
        ensures
            p == self.cell(),
    {
        Position { x: self.x, y: self.y }
    }

    /// A random grid coordinate of the board: the generator draws the number
    /// of a cell along a side, and `cell_coordinate` gives where that cell
    /// begins. Only the generator changes.
    fn get_random_coordinate(&mut self) -> (coordinate: u32)
        requires
            old(self).wf(),
        ensures
            on_grid(
                coordinate as int,
                old(self).window_size() as int,
                old(self).grid_size() as int,
            ),
            final(self).same_placement(old(self)),
    {
        let cells: u32 = self.window_size / self.grid_size;
        proof {
            lemma_cells_per_side(self.window_size as int, self.grid_size as int);
        }
        let index: u32 = draw_below(&mut self.rng, cells);
        cell_coordinate(index, self.window_size, self.grid_size)
    }

    /// A food for the board of side `window_size` with cells of side
    /// `grid_size`, on a random cell, drawing from a generator seeded with
    /// `seed`.
    pub fn new(window_size: u32, grid_size: u32, seed: u64) -> (food: Food)
        requires
            valid_board(window_size as int, grid_size as int),
        ensures
            food.wf(),
            food.window_size() == window_size,
            food.grid_size() == grid_size,
            !food.is_exhausted(),
    {
        let mut food = Food {
            x: 0,
            y: 0,
            exhausted: false,
            window_size,
            grid_size,
            rng: seeded_generator(seed),
        };
        let nothing: Vec<Position> = Vec::new();
        proof {
            lemma_grid_neighbours(0, window_size as int, grid_size as int);
            assert(is_free_cell(food.cell(), window_size as int, grid_size as int, nothing@));
        }
        food.regenerate(&nothing);
        food
    }

    /// Puts the food on the cell at (`x`, `y`) if that is a cell of the board
    /// and not among `excluding`; otherwise changes nothing.
    pub fn try_place(&mut self, x: u32, y: u32, excluding: &Vec<Position>) -> (placed: bool)
        requires
            old(self).wf(),
        ensures
            placed == is_free_cell(
                Position { x, y },
                old(self).window_size() as int,
                old(self).grid_size() as int,
                excluding@,
            ),
            placed ==> final(self).cell() == (Position { x, y }) && !final(self).is_exhausted(),
            !placed ==> final(self).same_placement(old(self)),
            final(self).window_size() == old(self).window_size(),
            final(self).grid_size() == old(self).grid_size(),
            final(self).wf(),
    {
        let candidate = Position { x, y };
        if x < self.window_size && y < self.window_size && x % self.grid_size == 0 && y
            % self.grid_size == 0 && !contains_position(excluding, candidate) {
            self.x = x;
            self.y = y;
            self.exhausted = false;
            true
        } else {
            false
        }
    }

    /// Moves the food to a cell of the board that is not among `excluding`.
    /// A few random cells are tried first; if all of them are excluded, the
    /// first free cell in reading order is taken. When no cell is free the
    /// food stays where it is and is marked exhausted.
    pub fn regenerate(&mut self, excluding: &Vec<Position>) -> (placed: bool)
        requires
            old(self).wf(),
        ensures
            placed == has_free_cell(
                old(self).window_size() as int,
                old(self).grid_size() as int,
                excluding@,
            ),
            placed ==> is_free_cell(
                final(self).cell(),
                old(self).window_size() as int,
                old(self).grid_size() as int,
                excluding@,
            ),
            !placed ==> final(self).cell() == old(self).cell(),
            final(self).is_exhausted() == !placed,
            final(self).window_size() == old(self).window_size(),
            final(self).grid_size() == old(self).grid_size(),
            final(self).wf(),
    {
        let mut tries: u32 = 0;
        while tries < PLACEMENT_TRIES
            invariant
                self.wf(),
                self.same_placement(old(self)),
            decreases PLACEMENT_TRIES - tries,
        {
            let x = self.get_random_coordinate();
            let y = self.get_random_coordinate();
            if self.try_place(x, y, excluding) {
                return true;
            }
            tries += 1;
        }
        match first_free_cell(self.window_size, self.grid_size, excluding) {
            Some(p) => {
                self.x = p.x;
                self.y = p.y;
                self.exhausted = false;
                true
            },
            None => {
                self.exhausted = true;
                false
            },
        }
    }
}

} // verus!
