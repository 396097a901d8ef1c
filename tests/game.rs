use rusty_snake::game::Game;
use rusty_snake::location::{Direction, Location, LocationType};

fn body_of(g: &Game) -> Vec<(usize, usize)> {
    g.snake().body().iter().map(|l| (l.x(), l.y())).collect()
}

fn food_of(g: &Game) -> Vec<(usize, usize)> {
    g.food_locations().iter().map(|l| (l.x(), l.y())).collect()
}

fn at(x: usize, y: usize) -> Location {
    Location::new(x, y, LocationType::FOOD)
}

/// A 10 by 10 game whose snake has eaten its way right from (5,2) to a body
/// of `n` segments, head at (5, 1 + n).
fn grown(n: usize) -> Game {
    let mut g = Game::create(10, 10);
    for k in 1..n {
        assert!(g.spawn(at(5, 2 + k)));
    }
    for _ in 1..n {
        g.tick();
    }
    assert_eq!(g.snake().len(), n);
    g
}

#[test]
fn create_places_snake_and_food() {
    let g = Game::create(10, 10);
    assert_eq!((g.height(), g.width()), (10, 10));
    assert_eq!(body_of(&g), vec![(5, 2)]);
    assert_eq!(food_of(&g), vec![(3, 3)]);
    assert_eq!(g.snake().heading(), Direction::RIGHT);
    assert_eq!(g.score(), 0);
    assert!(!g.is_finished());
}

#[test]
fn create_on_a_small_board_starts_finished() {
    let g = Game::create(3, 3);
    assert!(g.is_finished());
    assert!(food_of(&g).is_empty());
    let mut g = Game::create(3, 3);
    g.tick();
    assert_eq!(body_of(&g), vec![(5, 2)]);
}

#[test]
fn four_ticks_heading_right() {
    let mut g = Game::create(10, 10);
    for _ in 0..4 {
        g.tick();
    }
    assert_eq!(body_of(&g), vec![(5, 6)]);
    assert_eq!(g.snake().len(), 1);
    assert_eq!(g.score(), 0);
    assert_eq!(food_of(&g), vec![(3, 3)]);
    assert!(!g.is_finished());
}

#[test]
fn turning_up_onto_relocated_food_eats_it() {
    let mut g = Game::create(10, 10);
    g.tick();
    g.tick();
    assert_eq!(body_of(&g), vec![(5, 4)]);
    g.set_heading(Direction::UP);
    assert!(g.pick_if_present(&at(3, 3)));
    assert!(g.spawn(at(4, 4)));
    g.tick();
    assert_eq!(body_of(&g), vec![(4, 4), (5, 4)]);
    assert_eq!(g.snake().len(), 2);
    assert_eq!(g.score(), 1);
    assert!(food_of(&g).is_empty());
    assert!(!g.is_finished());
}

#[test]
fn eating_grows_by_one_and_removes_the_food() {
    let mut g = Game::create(10, 10);
    assert!(g.spawn(at(5, 3)));
    g.tick();
    assert_eq!(body_of(&g), vec![(5, 3), (5, 2)]);
    assert_eq!(g.score(), 1);
    assert_eq!(food_of(&g), vec![(3, 3)]);
    assert!(!g.has_food(&at(5, 3)));
}

#[test]
fn ticks_without_food_keep_the_length() {
    let mut g = grown(3);
    assert_eq!(body_of(&g), vec![(5, 4), (5, 3), (5, 2)]);
    g.set_heading(Direction::DOWN);
    g.tick();
    g.tick();
    assert_eq!(body_of(&g), vec![(7, 4), (6, 4), (5, 4)]);
    assert_eq!(g.score(), 2);
}

#[test]
fn reaching_column_width_ends_the_game() {
    let mut g = Game::create(10, 10);
    for _ in 0..7 {
        g.tick();
    }
    assert_eq!(body_of(&g), vec![(5, 9)]);
    assert!(!g.is_finished());
    g.tick();
    assert!(g.is_finished());
    assert_eq!(body_of(&g), vec![(5, 9)]);
}

#[test]
fn reaching_row_height_ends_the_game() {
    let mut g = Game::create(10, 10);
    g.set_heading(Direction::DOWN);
    for _ in 0..4 {
        g.tick();
    }
    assert_eq!(body_of(&g), vec![(9, 2)]);
    assert!(!g.is_finished());
    g.tick();
    assert!(g.is_finished());
}

#[test]
fn stepping_below_column_zero_ends_the_game() {
    let mut g = Game::create(10, 10);
    g.set_heading(Direction::LEFT);
    g.tick();
    g.tick();
    assert_eq!(body_of(&g), vec![(5, 0)]);
    assert!(!g.is_finished());
    g.tick();
    assert!(g.is_finished());
    assert_eq!(body_of(&g), vec![(5, 0)]);
}

#[test]
fn stepping_below_row_zero_ends_the_game() {
    let mut g = Game::create(10, 10);
    assert!(g.pick_if_present(&at(3, 3)));
    g.set_heading(Direction::UP);
    for _ in 0..5 {
        g.tick();
    }
    assert_eq!(body_of(&g), vec![(0, 2)]);
    assert!(!g.is_finished());
    g.tick();
    assert!(g.is_finished());
}

#[test]
fn moving_onto_the_vacated_tail_is_allowed() {
    let mut g = grown(4);
    assert_eq!(body_of(&g), vec![(5, 5), (5, 4), (5, 3), (5, 2)]);
    g.set_heading(Direction::UP);
    g.tick();
    g.set_heading(Direction::LEFT);
    g.tick();
    assert_eq!(body_of(&g), vec![(4, 4), (4, 5), (5, 5), (5, 4)]);
    g.set_heading(Direction::DOWN);
    g.tick();
    assert!(!g.is_finished());
    assert_eq!(body_of(&g), vec![(5, 4), (4, 4), (4, 5), (5, 5)]);
}

#[test]
fn moving_onto_the_body_ends_the_game() {
    let mut g = grown(5);
    g.set_heading(Direction::UP);
    g.tick();
    g.set_heading(Direction::LEFT);
    g.tick();
    assert_eq!(body_of(&g), vec![(4, 5), (4, 6), (5, 6), (5, 5), (5, 4)]);
    g.set_heading(Direction::DOWN);
    g.tick();
    assert!(g.is_finished());
    assert_eq!(body_of(&g), vec![(4, 5), (4, 6), (5, 6), (5, 5), (5, 4)]);
    g.tick();
    assert_eq!(body_of(&g), vec![(4, 5), (4, 6), (5, 6), (5, 5), (5, 4)]);
}

#[test]
fn headings_translate_a_single_segment() {
    let mut g = Game::create(10, 10);
    assert!(g.pick_if_present(&at(3, 3)));
    assert!(!g.pick_if_present(&at(3, 3)));
    let headings = [Direction::RIGHT, Direction::UP, Direction::UP, Direction::LEFT, Direction::DOWN];
    for d in headings {
        g.set_heading(d);
        g.tick();
    }
    assert_eq!(body_of(&g), vec![(4, 2)]);
    assert_eq!(g.score(), 0);
}

#[test]
fn spawn_refuses_taken_or_outside_cells() {
    let mut g = Game::create(10, 10);
    assert!(!g.spawn(at(3, 3)));
    assert!(!g.spawn(at(5, 2)));
    assert!(!g.spawn(at(10, 0)));
    assert!(!g.spawn(at(0, 10)));
    assert!(g.spawn(at(0, 0)));
    assert!(g.has_food(&at(0, 0)));
    assert_eq!(food_of(&g), vec![(3, 3), (0, 0)]);
    assert!(g.in_bounds(&at(9, 9)));
    assert!(!g.in_bounds(&at(9, 10)));
}

#[test]
fn snapshot_shows_each_cell() {
    let g = grown(2);
    let s = g.snapshot();
    assert_eq!(s.len(), 10);
    for row in s.iter() {
        assert_eq!(row.len(), 10);
    }
    assert_eq!(s[5][3], LocationType::HEAD);
    assert_eq!(s[5][2], LocationType::SNAKE);
    assert_eq!(s[3][3], LocationType::FOOD);
    assert_eq!(s[0][0], LocationType::EMPTY);
    assert_eq!(g.cell_kind(5, 3), LocationType::HEAD);
    let count = s.iter().flatten().filter(|k| **k == LocationType::EMPTY).count();
    assert_eq!(count, 97);
}

#[test]
fn snapshot_twice_between_ticks_is_the_same() {
    let mut g = Game::create(10, 10);
    g.tick();
    let a = g.snapshot();
    let b = g.snapshot();
    assert_eq!(a, b);
    g.tick();
    let c = g.snapshot();
    assert_ne!(a, c);
}

#[test]
fn eating_places_food_from_the_queue() {
    let mut g = Game::create(10, 10);
    assert!(g.spawn(at(5, 3)));
    g.queue_food(at(5, 4));
    g.queue_food(at(8, 8));
    g.queue_food(at(1, 1));
    g.tick();
    assert_eq!(g.score(), 1);
    assert_eq!(food_of(&g), vec![(3, 3), (5, 4)]);
    g.tick();
    assert_eq!(g.score(), 2);
    assert_eq!(body_of(&g), vec![(5, 4), (5, 3), (5, 2)]);
    assert_eq!(food_of(&g), vec![(3, 3), (8, 8)]);
    let queued: Vec<(usize, usize)> = g.food_queue().iter().map(|l| (l.x(), l.y())).collect();
    assert_eq!(queued, vec![(1, 1)]);
}

#[test]
fn queued_food_on_a_taken_cell_is_dropped() {
    let mut g = Game::create(10, 10);
    assert!(g.spawn(at(5, 3)));
    g.queue_food(at(5, 2));
    g.queue_food(at(0, 0));
    g.tick();
    assert_eq!(food_of(&g), vec![(3, 3)]);
    assert_eq!(g.food_queue().len(), 1);
    g.tick();
    assert_eq!(food_of(&g), vec![(3, 3)]);
    assert_eq!(g.food_queue().len(), 1);
}

#[test]
fn create_stores_one_food_and_one_segment_with_their_kinds() {
    let g = Game::create(10, 10);
    assert_eq!(g.food_locations().len(), 1);
    assert_eq!(g.food_locations()[0].location_type(), LocationType::FOOD);
    assert_eq!(g.snake().body().len(), 1);
    assert_eq!(g.snake().body()[0].location_type(), LocationType::SNAKE);
    assert!(!g.snake().is_dead());
}

#[test]
fn spawn_stores_food_kind_whatever_it_is_given() {
    let mut g = Game::create(10, 10);
    assert!(g.spawn(Location::new(1, 1, LocationType::SNAKE)));
    assert!(g.food_locations().iter().all(|l| l.location_type() == LocationType::FOOD));
    assert!(g.spawn(at(5, 3)));
    g.tick();
    assert!(g.snake().body().iter().all(|l| l.location_type() == LocationType::SNAKE));
    assert_eq!(body_of(&g), vec![(5, 3), (5, 2)]);
}
