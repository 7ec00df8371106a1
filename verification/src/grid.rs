//! Board geometry: which coordinates are cells, and how one step wraps.

use vstd::prelude::*;
use vstd::arithmetic::div_mod::lemma_fundamental_div_mod;
use vstd::arithmetic::div_mod::lemma_mod_multiples_basic;

verus! {

/// The top-left corner of a cell, in board units. `y` grows downwards.
#[derive(Clone, Copy, Debug, PartialEq, Eq, Structural)]
pub struct Position {
    pub x: u32,
    pub y: u32,
}

/// A board of side `window_size` can be cut into whole cells of side `grid_size`.
pub open spec fn valid_board(window_size: int, grid_size: int) -> bool {
    0 < grid_size <= window_size && window_size % grid_size == 0
}

/// `coordinate` lies on the board and on a cell boundary.
pub open spec fn on_grid(coordinate: int, window_size: int, grid_size: int) -> bool {
    0 <= coordinate < window_size && coordinate % grid_size == 0
}

/// Both components of `p` are on the grid.
pub open spec fn valid_cell(p: Position, window_size: int, grid_size: int) -> bool {
    on_grid(p.x as int, window_size, grid_size) && on_grid(p.y as int, window_size, grid_size)
}

/// One step of `grid_size` from `coordinate`, forwards or backwards, taken
/// modulo the board's side.
pub open spec fn step_coordinate(
    coordinate: int,
    is_increment: bool,
    window_size: int,
    grid_size: int,
) -> int {
    if is_increment {
        (coordinate + grid_size) % window_size
    } else {
        (coordinate - grid_size) % window_size
    }
}

/// How many cells lie along one side of the board.
pub open spec fn cells_per_side(window_size: int, grid_size: int) -> int {
    window_size / grid_size
}

/// `a` comes no later than `b` when the board is read row by row from the top,
/// each row from the left.
pub open spec fn scan_le(a: Position, b: Position) -> bool {
    a.y < b.y || (a.y == b.y && a.x <= b.x)
}

/// Some cell of the board is not among `excluding`.
pub open spec fn has_free_cell(window_size: int, grid_size: int, excluding: Seq<Position>) -> bool {
    exists|p: Position| is_free_cell(p, window_size, grid_size, excluding)
}

/// `p` is a cell of the board that is not among `excluding`.
pub open spec fn is_free_cell(
    p: Position,
    window_size: int,
    grid_size: int,
    excluding: Seq<Position>,
) -> bool {
    valid_cell(p, window_size, grid_size) && !excluding.contains(p)
}

/// A step from a grid coordinate lands on a grid coordinate.
pub proof fn lemma_step_on_grid(
    coordinate: int,
    is_increment: bool,
    window_size: int,
    grid_size: int,
)
    requires
        valid_board(window_size, grid_size),
        on_grid(coordinate, window_size, grid_size),
    ensures
        on_grid(
            step_coordinate(coordinate, is_increment, window_size, grid_size),
            window_size,
            grid_size,
        ),
        is_increment && coordinate + grid_size < window_size ==> step_coordinate(
            coordinate,
            is_increment,
            window_size,
            grid_size,
        ) == coordinate + grid_size,
        is_increment && coordinate + grid_size >= window_size ==> step_coordinate(
            coordinate,
            is_increment,
            window_size,
            grid_size,
        ) == 0 && coordinate == window_size - grid_size,
        !is_increment && coordinate >= grid_size ==> step_coordinate(
            coordinate,
            is_increment,
            window_size,
            grid_size,
        ) == coordinate - grid_size,
        !is_increment && coordinate < grid_size ==> step_coordinate(
            coordinate,
            is_increment,
            window_size,
            grid_size,
        ) == window_size - grid_size && coordinate == 0,
{
    lemma_grid_neighbours(coordinate, window_size, grid_size);
    let w = window_size;
    let g = grid_size;
    let c = coordinate;
    if is_increment {
        if c + g < w {
            assert((c + g) % w == c + g) by (nonlinear_arith)
                requires
                    0 <= c + g < w,
            ;
        } else {
            assert((c + g) % w == 0) by (nonlinear_arith)
                requires
                    c + g == w,
                    w > 0,
            ;
            assert(0int % g == 0) by (nonlinear_arith)
                requires
                    g > 0,
            ;
        }
    } else {
        if c >= g {
            assert((c - g) % w == c - g) by (nonlinear_arith)
                requires
                    0 <= c - g < w,
            ;
        } else {
            assert((c - g) % w == w - g) by (nonlinear_arith)
                requires
                    c == 0,
                    0 < g <= w,
            ;
        }
    }
}

/// Around a grid coordinate the nearest other grid coordinates are a whole
/// cell away, and the last cell of a row ends at the board's edge.
pub proof fn lemma_grid_neighbours(coordinate: int, window_size: int, grid_size: int)
    requires
        valid_board(window_size, grid_size),
        on_grid(coordinate, window_size, grid_size),
    ensures
        coordinate + grid_size <= window_size,
        (coordinate + grid_size) % grid_size == 0,
        coordinate == 0 || coordinate >= grid_size,
        coordinate >= grid_size ==> (coordinate - grid_size) % grid_size == 0,
        (window_size - grid_size) % grid_size == 0,
        0int % grid_size == 0,
{
    let w = window_size;
    let g = grid_size;
    let c = coordinate;
    lemma_fundamental_div_mod(c, g);
    lemma_fundamental_div_mod(w, g);
    let a = c / g;
    let b = w / g;
    assert(a < b && a >= 0) by (nonlinear_arith)
        requires
            c == g * a,
            w == g * b,
            0 <= c < w,
            g > 0,
    ;
    assert(c + g <= w) by (nonlinear_arith)
        requires
            c == g * a,
            w == g * b,
            a + 1 <= b,
            g > 0,
    ;
    assert(c + g == (a + 1) * g && c - g == (a - 1) * g && w - g == (b - 1) * g && 0 == 0 * g)
        by (nonlinear_arith)
        requires
            c == g * a,
            w == g * b,
    ;
    lemma_mod_multiples_basic(a + 1, g);
    lemma_mod_multiples_basic(a - 1, g);
    lemma_mod_multiples_basic(b - 1, g);
    lemma_mod_multiples_basic(0, g);
    assert(c == 0 || c >= g) by (nonlinear_arith)
        requires
            c == g * a,
            a >= 0,
            g > 0,
    ;
}

/// Two grid coordinates less than a cell apart are the same coordinate.
pub proof fn lemma_grid_gap(a: int, b: int, grid_size: int)
    requires
        grid_size > 0,
        a % grid_size == 0,
        b % grid_size == 0,
        a <= b < a + grid_size,
    ensures
        a == b,
{
    let g = grid_size;
    lemma_fundamental_div_mod(a, g);
    lemma_fundamental_div_mod(b, g);
    let qa = a / g;
    let qb = b / g;
    assert(qa == qb) by (nonlinear_arith)
        requires
            a == g * qa,
            b == g * qb,
            a <= b < a + g,
            g > 0,
    ;
}

/// A board has at least one cell along each side, and its cells fill the side.
pub proof fn lemma_cells_per_side(window_size: int, grid_size: int)
    requires
        valid_board(window_size, grid_size),
    ensures
        cells_per_side(window_size, grid_size) > 0,
        cells_per_side(window_size, grid_size) * grid_size == window_size,
{
    let w = window_size;
    let g = grid_size;
    lemma_fundamental_div_mod(w, g);
    let n = w / g;
    assert(n > 0 && n * g == w) by (nonlinear_arith)
        requires
            w == g * n,
            w > 0,
            g > 0,
    ;
}

/// The coordinate at which the cell number `index` along a side begins,
/// counting the cells from 0.
pub fn cell_coordinate(index: u32, window_size: u32, grid_size: u32) -> (coordinate: u32)
    requires
        valid_board(window_size as int, grid_size as int),
        index < cells_per_side(window_size as int, grid_size as int),
    ensures
        coordinate == index * grid_size,
        on_grid(coordinate as int, window_size as int, grid_size as int),
{
    proof {
        let w = window_size as int;
        let g = grid_size as int;
        let n = cells_per_side(w, g);
        lemma_cells_per_side(w, g);
        assert(0 <= index * g <= w - g) by (nonlinear_arith)
            requires
                n * g == w,
                0 <= index < n,
                g > 0,
        ;
        lemma_mod_multiples_basic(index as int, g);
    }
    index * grid_size
}

} // verus!
