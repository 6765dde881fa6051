use snake_core::direction::{Direction, PressedKeys};
use snake_core::fruit::Fruit;
use snake_core::game::{EndCause, Game, Phase};
use snake_core::grid::{create_position, Arena, Position};
use snake_core::snake::Segment;
use snake_core::timer::{FRUIT_INTERVAL, MOVE_INTERVAL};

const NONE: PressedKeys = PressedKeys { left: false, right: false, up: false, down: false };
const LEFT: PressedKeys = PressedKeys { left: true, right: false, up: false, down: false };
const RIGHT: PressedKeys = PressedKeys { left: false, right: true, up: false, down: false };
const DOWN: PressedKeys = PressedKeys { left: false, right: false, up: false, down: true };

/// A game whose snake moves every 10 units of time and whose fruit timer
/// never fires on its own.
fn quiet_game() -> Game {
    Game::new(Arena::default(), 10, u64::MAX)
}

fn positions(game: &Game) -> Vec<Position> {
    game.snake().segments().iter().map(|segment| segment.position).collect()
}

fn headings(game: &Game) -> Vec<Direction> {
    game.snake().segments().iter().map(|segment| segment.heading).collect()
}

#[test]
fn new_game_has_a_lone_head_and_no_fruit() {
    let game = Game::new(Arena::default(), MOVE_INTERVAL, FRUIT_INTERVAL);
    assert_eq!(game.phase(), Phase::Running);
    assert_eq!(game.arena(), Arena::default());
    assert_eq!(
        game.snake().segments(),
        vec![Segment { id: 0, position: create_position(0, 0), heading: Direction::Up }]
    );
    assert_eq!(game.fruits().len(), 0);
    assert_eq!(game.move_cooldown().period(), 135_000_000);
    assert_eq!(game.move_cooldown().elapsed(), 0);
    assert_eq!(game.fruit_timer().period(), 2_000_000_000);
    assert!(!game.ready_to_move());
}

#[test]
fn snake_waits_for_the_cooldown() {
    let mut game = quiet_game();
    game.tick_with(NONE, 9, None);
    assert_eq!(positions(&game), vec![create_position(0, 0)]);
    assert!(!game.ready_to_move());
    game.tick_with(NONE, 1, None);
    assert_eq!(positions(&game), vec![create_position(0, 1)]);
    assert!(game.ready_to_move());
    game.tick_with(NONE, 0, None);
    assert_eq!(positions(&game), vec![create_position(0, 1)]);
    assert!(!game.ready_to_move());
}

#[test]
fn snake_moves_once_for_every_third_tick() {
    let mut game = Game::new(Arena::new(200, 200).unwrap(), 135, u64::MAX);
    let mut moves = 0;
    let mut last = game.snake().head().position;
    for tick in 1..=50 {
        game.tick_with(NONE, 45, None);
        let now = game.snake().head().position;
        if now != last {
            moves += 1;
            last = now;
        }
        assert_eq!(moves, tick / 3);
    }
    assert_eq!(moves, 16);
    assert_eq!(last, create_position(0, 16));
}

#[test]
fn key_held_between_moves_turns_the_head_only() {
    let mut game = quiet_game();
    game.add_snake_body_on_fruit_eaten(2);
    game.tick_with(LEFT, 3, None);
    assert_eq!(headings(&game), vec![Direction::Left, Direction::Up, Direction::Up]);
    assert_eq!(
        positions(&game),
        vec![create_position(0, 0), create_position(0, -1), create_position(0, -2)]
    );
}

#[test]
fn heading_does_not_leak_past_one_segment_in_a_tick() {
    let mut game = quiet_game();
    game.add_snake_body_on_fruit_eaten(2);
    assert!(game.set_segment_heading(1, Direction::Left));
    assert!(game.set_segment_heading(2, Direction::Right));
    assert_eq!(headings(&game), vec![Direction::Up, Direction::Left, Direction::Right]);
    game.tick_with(NONE, 10, None);
    assert_eq!(headings(&game), vec![Direction::Up, Direction::Up, Direction::Left]);
    assert_eq!(
        positions(&game),
        vec![create_position(0, 1), create_position(0, 0), create_position(-1, -2)]
    );
}

#[test]
fn newly_pressed_key_reaches_the_head_and_no_further() {
    let mut game = quiet_game();
    game.add_snake_body_on_fruit_eaten(2);
    game.set_segment_heading(1, Direction::Left);
    game.set_segment_heading(2, Direction::Right);
    game.tick_with(DOWN, 10, None);
    assert_eq!(headings(&game), vec![Direction::Down, Direction::Up, Direction::Left]);
    assert_eq!(game.snake().head().position, create_position(0, -1));
}

#[test]
fn stages_of_a_tick_can_be_run_one_by_one() {
    let mut game = quiet_game();
    game.add_snake_body_on_fruit_eaten(1);
    game.tick_move_cooldown(10);
    assert!(game.ready_to_move());
    game.change_snake_body_directions();
    game.change_direction_on_input(RIGHT);
    assert_eq!(headings(&game), vec![Direction::Right, Direction::Up]);
    game.move_snake_bodies();
    assert_eq!(positions(&game), vec![create_position(1, 0), create_position(0, 0)]);
    assert_eq!(game.handle_snake_fruit_collisions(), 0);
    assert!(!game.snake_head_collides_with_body());
    game.reap_out_of_bounds();
    assert_eq!(game.phase(), Phase::Running);
    assert_eq!(game.snake().len(), 2);
}

#[test]
fn head_on_a_fruit_eats_it_and_the_snake_grows() {
    let mut game = quiet_game();
    assert!(game.place_fruit(create_position(0, 1)));
    assert!(game.place_fruit(create_position(5, 5)));
    game.tick_with(NONE, 10, None);
    assert_eq!(
        game.snake().segments(),
        vec![
            Segment { id: 0, position: create_position(0, 1), heading: Direction::Up },
            Segment { id: 1, position: create_position(0, 0), heading: Direction::Up },
        ]
    );
    assert_eq!(
        game.fruits().to_vec(),
        vec![Fruit { id: 1, position: create_position(5, 5) }]
    );
    assert_eq!(game.phase(), Phase::Running);
}

#[test]
fn eating_one_fruit_from_the_start_yields_two_segments() {
    let mut game = quiet_game();
    assert_eq!(game.add_snake_body_on_fruit_eaten(1), 1);
    let segments = game.snake().segments();
    assert_eq!(segments.len(), 2);
    assert_eq!(segments[1].position, create_position(0, -1));
    assert_eq!(segments[1].heading, Direction::Up);
    assert_eq!(segments[0].position, create_position(0, 0));
}

#[test]
fn fruit_is_placed_on_free_cells_only() {
    let mut game = quiet_game();
    game.add_snake_body_on_fruit_eaten(2);
    assert!(!game.place_fruit(create_position(0, 0)));
    assert!(!game.place_fruit(create_position(0, -1)));
    assert!(!game.place_fruit(create_position(0, -2)));
    assert!(!game.place_fruit(create_position(11, 0)));
    assert!(!game.place_fruit(create_position(0, -11)));
    assert_eq!(game.fruits().len(), 0);
    assert!(game.place_fruit(create_position(10, -10)));
    assert!(!game.place_fruit(create_position(10, -10)));
    assert_eq!(
        game.fruits().to_vec(),
        vec![Fruit { id: 0, position: create_position(10, -10) }]
    );
}

#[test]
fn fruit_comes_when_the_fruit_timer_fires() {
    let mut game = Game::new(Arena::default(), u64::MAX, 20);
    game.tick_with(NONE, 19, Some(create_position(3, 3)));
    assert_eq!(game.fruits().len(), 0);
    game.tick_with(NONE, 1, Some(create_position(3, 3)));
    assert_eq!(game.fruits().to_vec(), vec![Fruit { id: 0, position: create_position(3, 3) }]);
    game.tick_with(NONE, 20, None);
    assert_eq!(game.fruits().len(), 1);
    game.tick_with(NONE, 20, Some(create_position(3, 3)));
    assert_eq!(game.fruits().len(), 1);
    game.tick_with(NONE, 20, Some(create_position(-3, 3)));
    assert_eq!(game.fruits().len(), 2);
    game.spawn_fruit_at(20, Some(create_position(0, 0)));
    assert_eq!(game.fruits().len(), 2);
}

#[test]
fn fruit_spawned_under_the_head_is_eaten_in_the_same_tick() {
    let mut game = Game::new(Arena::default(), 10, 10);
    // The head moves to (0, 1) first; the cell it left is free for the fruit.
    game.tick_with(NONE, 10, Some(create_position(0, 0)));
    assert_eq!(game.fruits().len(), 1);
    assert_eq!(game.snake().len(), 1);
    // Down again: the head comes back on the fruit.
    game.tick_with(DOWN, 10, None);
    assert_eq!(game.snake().head().position, create_position(0, 0));
    assert_eq!(game.fruits().len(), 0);
    assert_eq!(game.snake().len(), 2);
    assert_eq!(game.snake().tail().position, create_position(0, 1));
    assert_eq!(game.snake().tail().heading, Direction::Down);
}

#[test]
fn overlap_with_the_head_ends_the_game_in_the_same_tick() {
    for index in 1..4 {
        let mut game = quiet_game();
        game.add_snake_body_on_fruit_eaten(3);
        let head = game.snake().head().position;
        assert!(game.set_segment_position(index, head));
        assert_eq!(game.phase(), Phase::Running);
        game.tick_with(NONE, 0, None);
        assert_eq!(game.phase(), Phase::Ended(EndCause::SelfCollision));
    }
}

#[test]
fn snake_that_turns_into_itself_dies() {
    let mut game = quiet_game();
    game.add_snake_body_on_fruit_eaten(4);
    game.tick_with(LEFT, 10, None);
    assert_eq!(game.phase(), Phase::Running);
    game.tick_with(DOWN, 10, None);
    assert_eq!(game.phase(), Phase::Running);
    game.tick_with(RIGHT, 10, None);
    assert_eq!(game.phase(), Phase::Ended(EndCause::SelfCollision));
    assert_eq!(game.snake().head().position, create_position(0, -1));
}

#[test]
fn snake_that_reverses_runs_into_itself() {
    let mut game = quiet_game();
    game.add_snake_body_on_fruit_eaten(2);
    game.tick_with(DOWN, 10, None);
    assert_eq!(game.phase(), Phase::Ended(EndCause::SelfCollision));
    assert_eq!(
        positions(&game),
        vec![create_position(0, -1), create_position(0, 0), create_position(0, -1)]
    );
}

#[test]
fn head_and_tail_of_a_snake_of_two_can_change_places() {
    let mut game = quiet_game();
    game.add_snake_body_on_fruit_eaten(1);
    game.tick_with(DOWN, 10, None);
    assert_eq!(game.phase(), Phase::Running);
    assert_eq!(positions(&game), vec![create_position(0, -1), create_position(0, 0)]);
}

#[test]
fn game_that_is_over_stays_as_it_is() {
    let mut game = quiet_game();
    game.add_snake_body_on_fruit_eaten(2);
    game.tick_with(DOWN, 10, None);
    assert_eq!(game.phase(), Phase::Ended(EndCause::SelfCollision));
    let segments = game.snake().segments();
    let timer = game.move_cooldown();
    game.tick_with(LEFT, 10, Some(create_position(4, 4)));
    game.tick(LEFT, 10);
    assert_eq!(game.snake().segments(), segments);
    assert_eq!(game.move_cooldown(), timer);
    assert_eq!(game.fruits().len(), 0);
    assert_eq!(game.phase(), Phase::Ended(EndCause::SelfCollision));
    game.end_game(EndCause::LeftArena);
    assert_eq!(game.phase(), Phase::Ended(EndCause::SelfCollision));
}

#[test]
fn end_game_ends_a_running_game() {
    let mut game = quiet_game();
    game.end_game(EndCause::LeftArena);
    assert_eq!(game.phase(), Phase::Ended(EndCause::LeftArena));
}

#[test]
fn segment_moved_outside_is_removed_by_the_next_tick() {
    let mut game = quiet_game();
    game.add_snake_body_on_fruit_eaten(3);
    let moved = game.snake().segment(2).unwrap();
    assert!(game.set_segment_position(2, create_position(-11, 4)));
    game.tick_with(NONE, 0, None);
    assert_eq!(game.phase(), Phase::Running);
    let left: Vec<u64> = game.snake().segments().iter().map(|segment| segment.id).collect();
    assert_eq!(left, vec![0, 1, 3]);
    assert!(!left.contains(&moved.id));
}

#[test]
fn snake_that_walks_out_of_the_arena_ends_the_game() {
    let mut game = Game::new(Arena::new(4, 4).unwrap(), 10, u64::MAX);
    game.tick_with(NONE, 10, None);
    game.tick_with(NONE, 10, None);
    assert_eq!(game.snake().head().position, create_position(0, 2));
    assert_eq!(game.phase(), Phase::Running);
    game.tick_with(NONE, 10, None);
    assert_eq!(game.phase(), Phase::Ended(EndCause::LeftArena));
    assert_eq!(game.snake().len(), 1);
    assert_eq!(game.snake().head().position, create_position(0, 3));
}

#[test]
fn long_snake_loses_the_segments_that_cross_the_border() {
    let mut game = Game::new(Arena::new(4, 4).unwrap(), 10, u64::MAX);
    game.add_snake_body_on_fruit_eaten(2);
    game.tick_with(NONE, 10, None);
    game.tick_with(NONE, 10, None);
    assert_eq!(game.snake().len(), 3);
    game.tick_with(NONE, 10, None);
    assert_eq!(game.phase(), Phase::Running);
    let ids: Vec<u64> = game.snake().segments().iter().map(|segment| segment.id).collect();
    assert_eq!(ids, vec![1, 2]);
    assert_eq!(positions(&game), vec![create_position(0, 2), create_position(0, 1)]);
}

#[test]
fn fruit_outside_the_arena_cannot_be_placed() {
    let mut game = Game::new(Arena::new(0, 0).unwrap(), 10, 10);
    assert!(!game.place_fruit(create_position(0, 0)));
    assert!(!game.place_fruit(create_position(1, 0)));
    assert_eq!(game.fruits().len(), 0);
}
