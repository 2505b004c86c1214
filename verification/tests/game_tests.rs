use std::collections::VecDeque;

use snake::game::{Game, TickOutcome};
use snake::geometry::{Coordinate, Direction};
use snake::snake::Snake;

fn game_on_ten_by_ten(segments: Vec<Coordinate>, direction: Direction, food: Coordinate) -> Game {
    Game {
        snake: Snake {
            segments: VecDeque::from(segments),
            direction,
        },
        food_location: food,
        screen_dimensions: Coordinate { x: 10, y: 10 },
    }
}

#[test]
fn new_game_places_food_off_the_snake() {
    let game = Game::new(Coordinate { x: 10, y: 10 }).expect("board has free cells");
    assert_eq!(game.snake.segments.len(), 1);
    assert_eq!(game.snake.segments[0], Coordinate { x: 0, y: 0 });
    assert!(matches!(game.snake.direction, Direction::Right));
    assert_ne!(game.food_location, Coordinate { x: 0, y: 0 });
    assert!(game.food_location.x < 10 && game.food_location.y < 10);
}

#[test]
fn one_cell_board_cannot_start() {
    assert!(Game::new(Coordinate { x: 1, y: 1 }).is_none());
}

#[test]
fn three_quiet_ticks_shift_a_single_segment() {
    let mut game = game_on_ten_by_ten(
        vec![Coordinate { x: 0, y: 0 }],
        Direction::Right,
        Coordinate { x: 5, y: 5 },
    );
    for _ in 0..3 {
        let outcome = game.frame(None);
        assert!(matches!(outcome, TickOutcome::Moved { ate_food: false }));
    }
    assert_eq!(game.snake.segments.len(), 1);
    assert_eq!(game.snake.segments[0], Coordinate { x: 3, y: 0 });
    assert_eq!(game.food_location, Coordinate { x: 5, y: 5 });
}

#[test]
fn eating_tick_grows_and_replaces_the_food() {
    let mut game = game_on_ten_by_ten(
        vec![Coordinate { x: 0, y: 0 }],
        Direction::Right,
        Coordinate { x: 1, y: 0 },
    );
    let outcome = game.tick();
    assert!(matches!(outcome, TickOutcome::Moved { ate_food: true }));
    assert_eq!(game.snake.segments.len(), 2);
    assert_eq!(game.snake.segments[0], Coordinate { x: 0, y: 0 });
    assert_eq!(game.snake.segments[1], Coordinate { x: 1, y: 0 });
    assert_ne!(game.food_location, Coordinate { x: 0, y: 0 });
    assert_ne!(game.food_location, Coordinate { x: 1, y: 0 });
    assert!(game.food_location.x < 10 && game.food_location.y < 10);
}

#[test]
fn running_into_the_body_ends_the_session() {
    // Tail to head: the head at (1,0) turns left into the second segment.
    let mut game = game_on_ten_by_ten(
        vec![
            Coordinate { x: 0, y: 1 },
            Coordinate { x: 0, y: 0 },
            Coordinate { x: 1, y: 0 },
        ],
        Direction::Left,
        Coordinate { x: 5, y: 5 },
    );
    let outcome = game.tick();
    assert!(matches!(outcome, TickOutcome::GameOver));
    // The session state is left as it was.
    assert_eq!(game.snake.segments.len(), 3);
    assert_eq!(game.snake.segments[2], Coordinate { x: 1, y: 0 });
}

#[test]
fn moving_onto_the_leaving_tail_is_not_a_collision() {
    // A length-2 snake reversing: the new head lands where the tail was, but
    // the tail moves away on the same tick.
    let mut game = game_on_ten_by_ten(
        vec![Coordinate { x: 0, y: 0 }, Coordinate { x: 1, y: 0 }],
        Direction::Left,
        Coordinate { x: 5, y: 5 },
    );
    let outcome = game.tick();
    assert!(matches!(outcome, TickOutcome::Moved { ate_food: false }));
    assert_eq!(game.snake.segments.len(), 2);
    assert_eq!(game.snake.segments[0], Coordinate { x: 1, y: 0 });
    assert_eq!(game.snake.segments[1], Coordinate { x: 0, y: 0 });
}

#[test]
fn stepping_off_the_board_ends_the_session() {
    let mut game = game_on_ten_by_ten(
        vec![Coordinate { x: 0, y: 0 }],
        Direction::Up,
        Coordinate { x: 5, y: 5 },
    );
    assert!(matches!(game.tick(), TickOutcome::GameOver));
    assert_eq!(game.snake.segments.len(), 1);
    assert_eq!(game.snake.segments[0], Coordinate { x: 0, y: 0 });
}

#[test]
fn eating_the_last_free_cell_reports_a_full_board() {
    let mut game = Game {
        snake: Snake {
            segments: VecDeque::from(vec![Coordinate { x: 0, y: 0 }]),
            direction: Direction::Down,
        },
        food_location: Coordinate { x: 0, y: 1 },
        screen_dimensions: Coordinate { x: 1, y: 2 },
    };
    let outcome = game.tick();
    assert!(matches!(outcome, TickOutcome::BoardFull));
    assert_eq!(game.snake.segments.len(), 2);
}

#[test]
fn frame_applies_at_most_the_one_given_intent() {
    let mut game = game_on_ten_by_ten(
        vec![Coordinate { x: 5, y: 5 }],
        Direction::Right,
        Coordinate { x: 9, y: 9 },
    );
    // One intent: the tick runs under it.
    let outcome = game.frame(Some(Direction::Up));
    assert!(matches!(outcome, TickOutcome::Moved { ate_food: false }));
    assert!(matches!(game.snake.direction, Direction::Up));
    assert_eq!(game.snake.segments[0], Coordinate { x: 5, y: 4 });
    // No intent: the heading in effect carries on.
    let outcome = game.frame(None);
    assert!(matches!(outcome, TickOutcome::Moved { ate_food: false }));
    assert!(matches!(game.snake.direction, Direction::Up));
    assert_eq!(game.snake.segments[0], Coordinate { x: 5, y: 3 });
}

#[test]
fn render_cells_paint_the_body_then_the_food() {
    let game = game_on_ten_by_ten(
        vec![Coordinate { x: 0, y: 0 }, Coordinate { x: 1, y: 0 }],
        Direction::Right,
        Coordinate { x: 2, y: 2 },
    );
    let cells = game.render_cells();
    assert_eq!(cells.len(), 3);
    assert_eq!(cells[0].position, Coordinate { x: 0, y: 0 });
    assert_eq!(cells[0].glyph, 'x');
    assert_eq!(cells[1].position, Coordinate { x: 1, y: 0 });
    assert_eq!(cells[1].glyph, 'x');
    assert_eq!(cells[2].position, Coordinate { x: 2, y: 2 });
    assert_eq!(cells[2].glyph, 'o');
}
