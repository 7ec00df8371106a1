use snake_game::food::{contains_position, first_free_cell, Food, PLACEMENT_TRIES};
use snake_game::grid::{cell_coordinate, Position};

fn at(x: u32, y: u32) -> Position {
    Position { x, y }
}

fn board_cells(window_size: u32, grid_size: u32) -> Vec<Position> {
    let mut cells = Vec::new();
    let mut y = 0;
    while y < window_size {
        let mut x = 0;
        while x < window_size {
            cells.push(at(x, y));
            x += grid_size;
        }
        y += grid_size;
    }
    cells
}

#[test]
fn new_food_lies_on_a_cell_of_its_board() {
    for seed in 0..100 {
        let food = Food::new(600, 30, seed);
        let cell = food.position();
        assert_eq!((cell.x, cell.y), (food.x, food.y));
        assert!(cell.x < 600 && cell.y < 600);
        assert_eq!(cell.x % 30, 0);
        assert_eq!(cell.y % 30, 0);
        assert!(!food.is_exhausted());
        assert_eq!(food.window_size(), 600);
        assert_eq!(food.grid_size(), 30);
    }
}

#[test]
fn new_food_is_not_always_in_the_first_cell() {
    let mut elsewhere = 0;
    for seed in 0..40 {
        if Food::new(600, 30, seed).position() != at(0, 0) {
            elsewhere += 1;
        }
    }
    assert!(elsewhere > 0);
}

#[test]
fn one_seed_gives_one_sequence_of_cells() {
    let mut first = Food::new(600, 30, 42);
    let mut second = Food::new(600, 30, 42);
    assert_eq!(first.position(), second.position());
    for _ in 0..20 {
        assert!(first.regenerate(&Vec::new()));
        assert!(second.regenerate(&Vec::new()));
        assert_eq!(first.position(), second.position());
    }
}

#[test]
fn regenerate_finds_the_one_cell_that_is_left() {
    let all = board_cells(60, 20);
    for keep in 0..all.len() {
        let mut excluding = all.clone();
        let free = excluding.remove(keep);
        for seed in 0..5 {
            let mut food = Food::new(60, 20, seed);
            assert!(food.regenerate(&excluding));
            assert_eq!(food.position(), free);
            assert!(!food.is_exhausted());
        }
    }
}

#[test]
fn regenerate_on_a_full_board_leaves_the_food_and_marks_it_exhausted() {
    let all = board_cells(60, 20);
    let mut food = Food::new(60, 20, 9);
    assert!(food.try_place(40, 20, &Vec::new()));
    assert!(!food.regenerate(&all));
    assert!(food.is_exhausted());
    assert_eq!(food.position(), at(40, 20));
    assert!(food.regenerate(&Vec::new()));
    assert!(!food.is_exhausted());
}

#[test]
fn regenerate_avoids_every_excluded_cell() {
    let all = board_cells(100, 20);
    let excluding: Vec<Position> = all.iter().copied().filter(|c| (c.x + c.y) % 40 == 0).collect();
    for seed in 0..30 {
        let mut food = Food::new(100, 20, seed);
        for _ in 0..30 {
            assert!(food.regenerate(&excluding));
            let cell = food.position();
            assert!(!excluding.contains(&cell));
            assert!(all.contains(&cell));
        }
    }
}

#[test]
fn regenerate_ignores_excluded_points_that_are_no_cells() {
    let mut excluding = board_cells(40, 20);
    excluding.retain(|c| *c != at(20, 20));
    excluding.push(at(20, 21));
    excluding.push(at(25, 20));
    excluding.push(at(40, 40));
    let mut food = Food::new(40, 20, 5);
    assert!(food.regenerate(&excluding));
    assert_eq!(food.position(), at(20, 20));
}

#[test]
fn try_place_takes_a_free_cell() {
    let mut food = Food::new(60, 20, 0);
    assert!(food.try_place(40, 20, &vec![at(0, 0), at(20, 0)]));
    assert_eq!(food.position(), at(40, 20));
    assert!(!food.is_exhausted());
}

#[test]
fn try_place_refuses_excluded_cells_and_points_off_the_grid() {
    let mut food = Food::new(60, 20, 0);
    assert!(food.try_place(20, 20, &Vec::new()));
    assert!(!food.try_place(40, 20, &vec![at(0, 0), at(40, 20)]));
    assert!(!food.try_place(60, 0, &Vec::new()));
    assert!(!food.try_place(0, 60, &Vec::new()));
    assert!(!food.try_place(10, 0, &Vec::new()));
    assert!(!food.try_place(0, 30, &Vec::new()));
    assert!(!food.try_place(80, 80, &Vec::new()));
    assert_eq!(food.position(), at(20, 20));
}

#[test]
fn try_place_clears_the_exhausted_mark() {
    let mut food = Food::new(20, 20, 0);
    assert!(!food.regenerate(&vec![at(0, 0)]));
    assert!(food.is_exhausted());
    assert!(!food.try_place(0, 0, &vec![at(0, 0)]));
    assert!(food.is_exhausted());
    assert!(food.try_place(0, 0, &Vec::new()));
    assert!(!food.is_exhausted());
}

#[test]
fn first_free_cell_reads_rows_from_the_top_and_cells_from_the_left() {
    assert_eq!(first_free_cell(60, 20, &Vec::new()), Some(at(0, 0)));
    assert_eq!(first_free_cell(60, 20, &vec![at(0, 0)]), Some(at(20, 0)));
    assert_eq!(
        first_free_cell(60, 20, &vec![at(0, 0), at(20, 0), at(40, 0), at(20, 20)]),
        Some(at(0, 20))
    );
    assert_eq!(
        first_free_cell(60, 20, &vec![at(40, 0), at(0, 20), at(20, 0), at(0, 0)]),
        Some(at(20, 20))
    );
    assert_eq!(first_free_cell(4000000000, 2000000000, &vec![at(0, 0)]), Some(at(2000000000, 0)));
}

#[test]
fn first_free_cell_is_none_on_a_full_board() {
    assert_eq!(first_free_cell(60, 20, &board_cells(60, 20)), None);
    assert_eq!(first_free_cell(20, 20, &vec![at(0, 0)]), None);
    let mut twice = board_cells(40, 20);
    twice.extend(board_cells(40, 20));
    assert_eq!(first_free_cell(40, 20, &twice), None);
}

#[test]
fn contains_position_compares_both_coordinates() {
    let list = vec![at(0, 20), at(40, 0)];
    assert!(contains_position(&list, at(0, 20)));
    assert!(contains_position(&list, at(40, 0)));
    assert!(!contains_position(&list, at(20, 0)));
    assert!(!contains_position(&list, at(0, 0)));
    assert!(!contains_position(&list, at(40, 20)));
    assert!(!contains_position(&Vec::new(), at(0, 0)));
}

#[test]
fn the_number_of_random_tries_is_bounded() {
    assert_eq!(PLACEMENT_TRIES, 64);
}

#[test]
fn cell_coordinate_is_the_index_times_the_cell_size() {
    assert_eq!(cell_coordinate(0, 60, 20), 0);
    assert_eq!(cell_coordinate(1, 60, 20), 20);
    assert_eq!(cell_coordinate(2, 60, 20), 40);
    assert_eq!(cell_coordinate(19, 600, 30), 570);
    assert_eq!(cell_coordinate(0, 30, 30), 0);
    assert_eq!(cell_coordinate(1, 4000000000, 2000000000), 2000000000);
}

#[test]
fn every_cell_start_is_reached_by_some_seed() {
    let mut seen_x = [false; 3];
    let mut seen_y = [false; 3];
    for seed in 0..200 {
        let cell = Food::new(60, 20, seed).position();
        seen_x[(cell.x / 20) as usize] = true;
        seen_y[(cell.y / 20) as usize] = true;
    }
    assert_eq!(seen_x, [true; 3]);
    assert_eq!(seen_y, [true; 3]);
}
