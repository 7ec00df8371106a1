use snake_game::direction::Direction;
use snake_game::game::{Game, Input};
use snake_game::grid::Position;
use snake_game::snake::Snake;

fn at(x: u32, y: u32) -> Position {
    Position { x, y }
}

/// A game on the 3 by 3 board whose snake has just run into its own tail.
fn lost_game() -> Game {
    let mut game = Game::new(60, 20, 11);
    assert!(game.food.try_place(20, 0, &game.snake.positions()));
    game.handle_input(Input::Tick);
    assert!(game.food.try_place(40, 0, &game.snake.positions()));
    game.handle_input(Input::Tick);
    assert!(game.food.try_place(20, 40, &game.snake.positions()));
    game.handle_input(Input::Tick);
    assert!(game.snake.dead);
    game
}

#[test]
fn a_new_game_has_food_clear_of_the_snake() {
    for seed in 0..100 {
        let game = Game::new(40, 20, seed);
        assert!(!game.is_over());
        assert_eq!(game.snake.positions(), vec![at(0, 0)]);
        assert_ne!(game.food.position(), at(0, 0));
        assert!(!game.food.is_exhausted());
    }
}

#[test]
fn a_game_on_one_cell_starts_out_over() {
    let mut game = Game::new(30, 30, 0);
    assert!(game.food.is_exhausted());
    assert!(game.is_over());
    assert!(!game.snake.dead);
    game.handle_input(Input::Tick);
    assert!(!game.snake.dead);
    assert_eq!(game.snake.positions(), vec![at(0, 0)]);
    game.handle_input(Input::Restart);
    assert!(game.is_over());
    assert!(!game.snake.dead);
}

#[test]
fn a_tick_moves_the_snake_once() {
    let mut game = Game::new(60, 20, 4);
    assert!(game.food.try_place(40, 40, &game.snake.positions()));
    game.handle_input(Input::Tick);
    assert_eq!(game.snake.positions(), vec![at(20, 0)]);
    game.handle_input(Input::Turn(Direction::Down));
    assert_eq!(game.snake.positions(), vec![at(20, 0)]);
    game.handle_input(Input::Tick);
    assert_eq!(game.snake.positions(), vec![at(20, 20)]);
    assert_eq!(game.food.position(), at(40, 40));
}

#[test]
fn a_turn_input_obeys_the_no_reversal_rule() {
    let mut game = Game::new(60, 20, 4);
    game.handle_input(Input::Turn(Direction::Left));
    assert_eq!(game.snake.segments()[0].direction_to, Direction::Right);
    game.handle_input(Input::Turn(Direction::Up));
    assert_eq!(game.snake.segments()[0].direction_to, Direction::Up);
}

#[test]
fn restart_is_ignored_while_the_game_is_on() {
    let mut game = Game::new(60, 20, 4);
    assert!(game.food.try_place(40, 40, &game.snake.positions()));
    game.handle_input(Input::Tick);
    game.handle_input(Input::Restart);
    assert_eq!(game.snake.positions(), vec![at(20, 0)]);
    assert_eq!(game.food.position(), at(40, 40));
}

#[test]
fn restart_after_death_starts_afresh() {
    for _ in 0..5 {
        let mut game = lost_game();
        assert!(game.is_over());
        game.handle_input(Input::Tick);
        assert_eq!(game.snake.positions(), vec![at(0, 0), at(20, 0), at(40, 0)]);
        game.handle_input(Input::Restart);
        assert!(!game.is_over());
        assert!(!game.snake.dead);
        assert_eq!(game.snake.segments(), Snake::new(60, 20).segments());
        assert_ne!(game.food.position(), at(0, 0));
    }
}

#[test]
fn restart_after_filling_the_board_starts_afresh() {
    let mut game = Game::new(40, 20, 8);
    assert!(game.food.try_place(20, 0, &game.snake.positions()));
    game.handle_input(Input::Tick);
    assert!(game.food.try_place(20, 20, &game.snake.positions()));
    game.handle_input(Input::Turn(Direction::Down));
    game.handle_input(Input::Tick);
    game.handle_input(Input::Turn(Direction::Left));
    game.handle_input(Input::Tick);
    assert!(game.food.is_exhausted());
    assert!(game.is_over());
    assert!(!game.snake.dead);
    assert_eq!(game.snake.positions().len(), 4);
    game.handle_input(Input::Restart);
    assert!(!game.is_over());
    assert_eq!(game.snake.positions(), vec![at(0, 0)]);
    assert!(!game.snake.occupies(game.food.position()));
}

#[test]
fn food_on_offer_is_never_under_the_snake() {
    let turns = [Direction::Up, Direction::Right, Direction::Down, Direction::Left];
    for seed in 0..20u64 {
        let mut game = Game::new(80, 20, seed);
        let mut state = seed ^ 0x9E3779B97F4A7C15;
        for _ in 0..300 {
            state = state.wrapping_mul(6364136223846793005).wrapping_add(1442695040888963407);
            match (state >> 40) % 6 {
                0 => game.handle_input(Input::Restart),
                1 | 2 => game.handle_input(Input::Turn(turns[((state >> 33) % 4) as usize])),
                _ => game.handle_input(Input::Tick),
            }
            if !game.food.is_exhausted() {
                assert!(!game.snake.occupies(game.food.position()));
            }
        }
    }
}
