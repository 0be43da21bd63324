use snake_sim::geom::Vec2i;
use snake_sim::snake::{Unit, Head, Snake, Fruit};
use snake_sim::{ONE, UNIT_RADIUS, INIT_SPEED};

fn unit_at(x: i64, y: i64) -> Unit {
    Unit { position: Vec2i { x, y } }
}

fn head_at(x: i64, y: i64) -> Head {
    Head { unit: unit_at(x, y), heading: 0, speed: INIT_SPEED }
}

fn snake_with(head: Head, units: Vec<Unit>) -> Snake {
    Snake { head, units }
}

#[test]
fn follow_clamp_moves_to_exact_distance_on_axis() {
    // leader 0.2 units away on the x axis: the unit must close up to exactly
    // two radii (0.08 units) behind it
    let mut u = unit_at(0, 0);
    u.go(Vec2i { x: 200_000, y: 0 });
    assert_eq!(u.position, Vec2i { x: 120_000, y: 0 });
    assert_eq!(200_000 - u.position.x, 2 * UNIT_RADIUS);
}

#[test]
fn follow_clamp_does_nothing_within_reach() {
    let mut u = unit_at(10_000, -5_000);
    u.go(Vec2i { x: 50_000, y: -5_000 });
    assert_eq!(u.position, Vec2i { x: 10_000, y: -5_000 });
    // exactly at the clamp distance: still no move
    let mut v = unit_at(0, 0);
    v.go(Vec2i { x: 80_000, y: 0 });
    assert_eq!(v.position, Vec2i { x: 0, y: 0 });
}

#[test]
fn follow_clamp_diagonal_lands_near_clamp_distance() {
    let mut u = unit_at(0, 0);
    u.go(Vec2i { x: 100_000, y: 100_000 });
    assert_eq!(u.position, Vec2i { x: 43_431, y: 43_431 });
    let gx = (100_000 - u.position.x) as f64;
    let gy = (100_000 - u.position.y) as f64;
    let dist = (gx * gx + gy * gy).sqrt();
    assert!((dist - 80_000.0).abs() <= 3.0, "post-move distance {dist}");
}

#[test]
fn intersect_is_strict_circle_overlap() {
    let u = unit_at(0, 0);
    // boundary: distance equals the radius sum, so no overlap
    assert!(!u.intersect(Vec2i { x: 100_000, y: 0 }, 60_000));
    assert!(u.intersect(Vec2i { x: 99_999, y: 0 }, 60_000));
}

#[test]
fn rotation_keeps_direction_magnitude() {
    let mut h = head_at(0, 0);
    let steps: [i64; 7] = [1_000_000, 1_000_000, -3_000_000, 2_500_000, 700_000, -50_000, 4_000_000];
    for a in steps {
        h.rotate(a);
        let d = h.direction();
        let norm2 = d.x * d.x + d.y * d.y;
        assert!(norm2 <= ONE * ONE);
        assert!(norm2 > ONE * ONE - 2 * ONE - 1);
        let norm = ((norm2 as f64).sqrt()) / 1e6;
        assert!((norm - 1.0).abs() < 2e-6, "norm {norm}");
    }
}

#[test]
fn rotation_wraps_past_half_turn() {
    let mut h = head_at(0, 0);
    for _ in 0..7 {
        h.rotate(1_000_000);
    }
    // seven radians is one full turn plus 0.716814 radians
    assert_eq!(h.heading, 7_000_000 - 6_283_186);
}

#[test]
fn rotation_by_many_turns_in_one_call() {
    let mut h = head_at(0, 0);
    // a hundred radians: 16 whole turns less 0.530976 radians
    h.rotate(100_000_000);
    assert_eq!(h.heading, 100_000_000 - 16 * 6_283_186);
    let d = h.direction();
    let norm2 = d.x * d.x + d.y * d.y;
    assert!(norm2 <= ONE * ONE && norm2 > ONE * ONE - 2 * ONE - 1);
}

#[test]
fn direction_matches_float_trig() {
    let mut h = head_at(0, 0);
    assert_eq!(h.direction(), Vec2i { x: ONE, y: 0 });
    h.rotate(2_000_000);
    let d = h.direction();
    let ex = (2.0f64.cos() * 1e6).round();
    let ey = (2.0f64.sin() * 1e6).round();
    assert!((d.x as f64 - ex).abs() < 5_000.0, "cos {} vs {}", d.x, ex);
    assert!((d.y as f64 - ey).abs() < 5_000.0, "sin {} vs {}", d.y, ey);
    h.rotate(-3_500_000);
    let d2 = h.direction();
    let ex2 = ((-1.5f64).cos() * 1e6).round();
    let ey2 = ((-1.5f64).sin() * 1e6).round();
    assert!((d2.x as f64 - ex2).abs() < 5_000.0);
    assert!((d2.y as f64 - ey2).abs() < 5_000.0);
}

#[test]
fn advance_one_second_straight() {
    // speed 0.4, one second, no rotation: head ends at (0.4, 0) exactly
    let mut s = Snake::default();
    s.go(1_000_000, 0);
    assert_eq!(s.head.unit.position, Vec2i { x: 400_000, y: 0 });
    assert_eq!(s.head.heading, 0);
}

#[test]
fn advance_one_second_turning_left() {
    // left held one second at 2 rad/s: direction rotated by +2 rad, unit length
    let mut s = Snake::default();
    s.go(1_000_000, 2_000_000);
    assert_eq!(s.head.heading, 2_000_000);
    let d = s.head.direction();
    let ex = (2.0f64.cos() * 1e6).round();
    let ey = (2.0f64.sin() * 1e6).round();
    assert!((d.x as f64 - ex).abs() < 5_000.0);
    assert!((d.y as f64 - ey).abs() < 5_000.0);
    let norm2 = d.x * d.x + d.y * d.y;
    assert!(norm2 <= ONE * ONE && norm2 > ONE * ONE - 2 * ONE - 1);
}

#[test]
fn chain_units_follow_in_order() {
    let mut s = Snake::default();
    s.add_unit();
    s.add_unit();
    s.add_unit();
    assert_eq!(s.units.len(), 3);
    // all start on the head; a long straight run strings them out at two
    // radii from one another, neck to tail
    for _ in 0..50 {
        s.go(100_000, 0);
    }
    assert_eq!(s.head.unit.position.y, 0);
    let mut prev = s.head.unit.position.x;
    for u in &s.units {
        assert_eq!(u.position.y, 0);
        assert_eq!(prev - u.position.x, 2 * UNIT_RADIUS);
        prev = u.position.x;
    }
}

#[test]
fn add_unit_copies_predecessor_position() {
    let mut s = Snake::default();
    s.add_unit();
    assert_eq!(s.units.len(), 1);
    assert_eq!(s.units[0].position, Vec2i { x: 0, y: 0 });
    s.go(1_000_000, 0);
    let tail = s.units[0].position;
    s.add_unit();
    assert_eq!(s.units.len(), 2);
    assert_eq!(s.units[1].position, tail);
}

#[test]
fn length_counts_head_and_body() {
    let mut s = Snake::default();
    assert_eq!(s.length(), 1);
    s.add_unit();
    s.add_unit();
    assert_eq!(s.length(), 3);
}

#[test]
fn wall_loss_boundary_on_each_side() {
    // playable half-extent is 0.96 units: one micro-unit past it loses
    for (x, y, lost) in [
        (960_000, 0, false),
        (960_001, 0, true),
        (-960_000, 0, false),
        (-960_001, 0, true),
        (0, 960_000, false),
        (0, 960_001, true),
        (0, -960_001, true),
    ] {
        let s = snake_with(head_at(x, y), vec![]);
        assert_eq!(s.is_lose(), lost, "head at ({x}, {y})");
    }
}

#[test]
fn forced_head_position_loses_by_wall_alone() {
    let s = snake_with(head_at(1_500_000, 0), vec![]);
    assert!(s.is_lose());
}

#[test]
fn self_collision_ignores_neck() {
    // a neck unit exactly on the head never loses
    let s = snake_with(head_at(0, 0), vec![unit_at(0, 0)]);
    assert!(!s.is_lose());
    // the same unit at index 1 loses
    let s2 = snake_with(head_at(0, 0), vec![unit_at(500_000, 0), unit_at(0, 0)]);
    assert!(s2.is_lose());
}

#[test]
fn self_collision_uses_tightened_radius() {
    // threshold is 0.8 * UNIT_RADIUS + UNIT_RADIUS = 0.072 units, strict
    let s = snake_with(head_at(0, 0), vec![unit_at(500_000, 0), unit_at(72_000, 0)]);
    assert!(!s.is_lose());
    let s2 = snake_with(head_at(0, 0), vec![unit_at(500_000, 0), unit_at(71_999, 0)]);
    assert!(s2.is_lose());
}

#[test]
fn can_eat_boundary_is_strict() {
    let s = Snake::default();
    // fruit and unit radii sum to 0.1 units
    let far = Fruit { position: Vec2i { x: 100_000, y: 0 } };
    assert!(!s.can_eat(&far));
    let near = Fruit { position: Vec2i { x: 99_999, y: 0 } };
    assert!(s.can_eat(&near));
}

#[test]
fn fruit_from_draws_maps_range_endpoints() {
    // the draw is a fraction of 2^32, so the top draw stays strictly
    // below the field's upper edge
    let f0 = Fruit::from_draws(0, 0);
    assert_eq!(f0.position, Vec2i { x: -ONE, y: -ONE });
    let f1 = Fruit::from_draws(u32::MAX, u32::MAX);
    assert_eq!(f1.position, Vec2i { x: ONE - 1, y: ONE - 1 });
    let fm = Fruit::from_draws(2_147_483_648, 0);
    assert_eq!(fm.position.x, 0);
}

#[test]
fn fruit_respawn_stays_in_field() {
    for _ in 0..100 {
        let f = Fruit::respawn();
        assert!(-ONE <= f.position.x && f.position.x < ONE);
        assert!(-ONE <= f.position.y && f.position.y < ONE);
    }
}

#[test]
fn head_advances_and_reports_position() {
    let mut h = head_at(0, 0);
    h.go(500_000);
    assert_eq!(h.position(), Vec2i { x: 200_000, y: 0 });
    assert!(h.intersect(Vec2i { x: 220_000, y: 0 }, 0));
    assert!(!h.intersect(Vec2i { x: 260_000, y: 0 }, 0));
}

#[test]
fn integer_square_root_edges() {
    assert_eq!(snake_sim::num::isqrt(0), 0);
    assert_eq!(snake_sim::num::isqrt(1), 1);
    assert_eq!(snake_sim::num::isqrt(999_999), 999);
    assert_eq!(snake_sim::num::isqrt(1_000_000), 1_000);
    assert_eq!(snake_sim::num::isqrt(20_000_000_000), 141_421);
    assert_eq!(snake_sim::num::isqrt(1_000_000_000_000_000_000), 1_000_000_000);
}

#[test]
fn default_snake_is_initial() {
    let s = Snake::default();
    assert_eq!(s.head.unit.position, Vec2i { x: 0, y: 0 });
    assert_eq!(s.head.heading, 0);
    assert_eq!(s.head.speed, INIT_SPEED);
    assert!(s.units.is_empty());
}
