use snake_sim::game::Game;
use snake_sim::geom::Vec2i;
use snake_sim::snake::{Unit, Head, Snake, Fruit};
use snake_sim::{ONE, INIT_SPEED};

fn game_with(head_x: i64, head_y: i64, units: Vec<Unit>, fruit_x: i64, fruit_y: i64) -> Game {
    Game {
        snake: Snake {
            head: Head {
                unit: Unit { position: Vec2i { x: head_x, y: head_y } },
                heading: 0,
                speed: INIT_SPEED,
            },
            units,
        },
        fruit: Fruit { position: Vec2i { x: fruit_x, y: fruit_y } },
    }
}

#[test]
fn new_game_starts_centered_with_fruit_in_field() {
    let g = Game::new();
    assert_eq!(g.snake.head.unit.position, Vec2i { x: 0, y: 0 });
    assert_eq!(g.snake.units.len(), 0);
    assert!(g.fruit.position.x.abs() <= ONE && g.fruit.position.y.abs() <= ONE);
}

#[test]
fn eating_grows_once_and_respawns_fruit() {
    // fruit on the head: the frame eats exactly once, the single new body
    // unit starts on the head's pre-eat position, and the fruit moves
    let mut g = game_with(0, 0, vec![], 0, 0);
    g.frame(0, false, false);
    assert_eq!(g.snake.units.len(), 1);
    assert_eq!(g.snake.units[0].position, Vec2i { x: 0, y: 0 });
    assert!(g.fruit.position != Vec2i { x: 0, y: 0 });
    assert!(g.fruit.position.x.abs() <= ONE && g.fruit.position.y.abs() <= ONE);
    // next frame with the fruit far away: no further growth
    g.fruit = Fruit { position: Vec2i { x: 900_000, y: 900_000 } };
    g.frame(0, false, false);
    assert_eq!(g.snake.units.len(), 1);
}

#[test]
fn losing_resets_snake_and_fruit() {
    let mut g = game_with(1_500_000, 0, vec![Unit { position: Vec2i { x: 1_420_000, y: 0 } }],
        -900_000, -900_000);
    g.frame(0, false, false);
    assert_eq!(g.snake.units.len(), 0);
    assert_eq!(g.snake.head.unit.position, Vec2i { x: 0, y: 0 });
    assert_eq!(g.snake.head.speed, INIT_SPEED);
    assert!(g.fruit.position.x.abs() <= ONE && g.fruit.position.y.abs() <= ONE);
}

#[test]
fn eat_then_lose_in_one_frame_still_resets() {
    // the head overlaps the fruit and a far body unit at once: growth is
    // applied first, then the loss discards it within the same frame
    let units = vec![
        Unit { position: Vec2i { x: 500_000, y: 0 } },
        Unit { position: Vec2i { x: 10_000, y: 0 } },
    ];
    let mut g = game_with(0, 0, units, 0, 0);
    g.frame(0, false, false);
    assert_eq!(g.snake.units.len(), 0);
    assert_eq!(g.snake.head.unit.position, Vec2i { x: 0, y: 0 });
}

#[test]
fn right_input_wins_over_left() {
    let mut g = game_with(0, 0, vec![], 900_000, 900_000);
    g.frame(1_000_000, true, true);
    assert_eq!(g.snake.head.heading, -2_000_000);
}

#[test]
fn left_input_alone_turns_left() {
    let mut g = game_with(0, 0, vec![], 900_000, 900_000);
    g.frame(1_000_000, true, false);
    assert_eq!(g.snake.head.heading, 2_000_000);
}

#[test]
fn no_input_goes_straight() {
    let mut g = game_with(0, 0, vec![], 900_000, 900_000);
    g.frame(500_000, false, false);
    assert_eq!(g.snake.head.unit.position, Vec2i { x: 200_000, y: 0 });
    assert_eq!(g.snake.head.heading, 0);
}

#[test]
fn long_run_keeps_chain_within_follow_distance() {
    let mut g = game_with(0, 0, vec![], 0, 0);
    // grow a few times by teleporting the fruit onto the head's path
    for _ in 0..4 {
        g.fruit = Fruit { position: g.snake.head.unit.position };
        g.frame(100_000, false, false);
    }
    // wander with varying input; the follow invariant holds throughout
    for i in 0..200 {
        let left = i % 3 == 0;
        let right = i % 7 == 0;
        g.frame(33_000, left, right);
        let mut prev = g.snake.head.unit.position;
        for u in &g.snake.units {
            let dx = (prev.x - u.position.x) as f64;
            let dy = (prev.y - u.position.y) as f64;
            let dist = (dx * dx + dy * dy).sqrt();
            assert!(dist <= 80_003.0, "chain stretched to {dist}");
            prev = u.position;
        }
    }
}
