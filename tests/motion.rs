use pax_romana::camera::Camera;
use pax_romana::entity::{diagonal_step, Action, Entity};
use pax_romana::math::Point;
use pax_romana::player::{KeyCode, Player};
use pax_romana::tile::Properties;
use pax_romana::tileset::Tileset;

fn entity_at(x: i32, y: i32) -> Entity {
    Entity::new(Point::new(x, y), (1000, 800), (44, 44), 300)
}

#[test]
fn moving_left_at_the_edge_stays_at_zero() {
    let mut e = entity_at(0, 100);
    e.action = Action::MovingLeft;
    e.update();
    assert_eq!(e.position, Point::new(0, 100));
}

#[test]
fn clamped_at_the_far_edge() {
    let mut e = entity_at(900, 700);
    e.action = Action::MovingDownRight;
    e.update();
    assert_eq!(e.position, Point::new(956, 756));
}

#[test]
fn cardinal_and_diagonal_steps() {
    let mut e = entity_at(500, 400);
    e.action = Action::MovingUp;
    e.update();
    assert_eq!(e.position, Point::new(500, 100));
    e.action = Action::MovingDownLeft;
    e.update();
    assert_eq!(e.position, Point::new(288, 312));
    e.action = Action::IdleRight;
    e.update();
    assert_eq!(e.position, Point::new(288, 312));
}

#[test]
fn diagonal_speed_matches_cardinal_speed() {
    for speed in [0, 1, 3, 300, 768, 1_000_000] {
        let d = diagonal_step(speed) as i64;
        let s = speed as i64;
        assert!(2 * d * d <= s * s);
        assert!(s * s < 2 * (d + 1) * (d + 1));
    }
    assert_eq!(diagonal_step(300), 212);
    let diag = (2.0f64 * 212.0 * 212.0).sqrt();
    assert!((diag - 300.0).abs() < 1.5);
}

#[test]
fn keys_combine_into_diagonals() {
    let ts_anims = pax_romana_test_animations();
    let mut p = Player::new(ts_anims, Point::new(10, 10), (1000, 1000), (44, 44), 3);
    p.give_key_down(KeyCode::W);
    assert_eq!(p.entity.action, Action::MovingUp);
    p.give_key_down(KeyCode::A);
    assert_eq!(p.entity.action, Action::MovingUpLeft);
    p.give_key_up(KeyCode::W);
    assert_eq!(p.entity.action, Action::MovingLeft);
    p.give_key_up(KeyCode::A);
    assert_eq!(p.entity.action, Action::IdleLeft);
    p.give_key_down(KeyCode::Other);
    assert_eq!(p.entity.action, Action::IdleLeft);
    p.give_key_down(KeyCode::D);
    p.give_key_up(KeyCode::D);
    assert_eq!(p.entity.action, Action::IdleRight);
    assert_eq!(p.get_position(), Point::new(10, 10));
}

fn pax_romana_test_animations() -> pax_romana::animation::Animations {
    let mut records = Vec::new();
    for (id, entity, kf) in [(0, "player-top", 0), (1, "player-top", 1), (2, "player-bottom", 0), (3, "player-bottom", 1)] {
        let mut p = Properties::default();
        p.entity = Some(entity.to_string());
        p.keyframe = Some(kf);
        records.push((id, p));
    }
    let ts = Tileset::from_grid(2, 2, 16, 16, &records).unwrap();
    pax_romana::animation::Animations::new(&ts, "player-top", "player-bottom", 0).unwrap()
}

#[test]
fn player_moves_on_update() {
    let mut p = Player::new(pax_romana_test_animations(), Point::new(10, 10), (1000, 1000), (44, 44), 3);
    p.give_key_down(KeyCode::D);
    p.update(16);
    assert_eq!(p.get_position(), Point::new(13, 10));
}

#[test]
fn camera_follows_and_clamps() {
    let mut c = Camera::new((800, 600), (2000, 1500), (16, 16));
    c.give_center(Point::new(1000, 700));
    assert_eq!(c.draw, Point::new(-616, -416));
    c.give_center(Point::new(10, 10));
    assert_eq!(c.draw, Point::new(0, 0));
    c.give_center(Point::new(1990, 1490));
    assert_eq!(c.draw, Point::new(-1200, -900));
}
