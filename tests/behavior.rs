use std::collections::HashMap;

use pax_romana::animation::Animations;
use pax_romana::dialogbox::{Dialog, DialogTree};
use pax_romana::entity::Action;
use pax_romana::math::Point;
use pax_romana::npc::{random_nearby_point, steer_toward, Behavior, Character, WanderConfig, NPC};
use pax_romana::tile::Properties;
use pax_romana::tileset::Tileset;

fn animations() -> Animations {
    let mut records = Vec::new();
    for (id, entity, kf) in [(0, "player-top", 0), (1, "player-top", 1), (2, "player-bottom", 0), (3, "player-bottom", 1)] {
        let mut p = Properties::default();
        p.entity = Some(entity.to_string());
        p.keyframe = Some(kf);
        p.delay = Some(100);
        records.push((id, p));
    }
    let ts = Tileset::from_grid(2, 2, 16, 16, &records).unwrap();
    Animations::new(&ts, "player-top", "player-bottom", 0).unwrap()
}

fn tree() -> DialogTree {
    let mut dialogs = HashMap::new();
    dialogs.insert(0, Dialog::new("Hail".to_string(), vec![(1, "Bye".to_string())]));
    dialogs.insert(1, Dialog::new("Vale".to_string(), vec![]));
    DialogTree::new(dialogs).unwrap()
}

fn peasant() -> NPC {
    NPC::new(
        Character::Peasant,
        tree(),
        animations(),
        Point::new(100, 100),
        (2000, 2000),
        (44, 44),
        3,
        WanderConfig { radius: 150, reach: 30, wait_time: 3000 },
    )
}

fn dist2(a: Point, b: Point) -> i64 {
    let dx = a.x as i64 - b.x as i64;
    let dy = a.y as i64 - b.y as i64;
    dx * dx + dy * dy
}

#[test]
fn character_names() {
    assert_eq!(Character::Player.to_str(), "player");
    assert_eq!(Character::Peasant.to_str(), "peasant");
}

#[test]
fn without_target_the_npc_only_picks_one() {
    let mut npc = peasant();
    assert_eq!(npc.behavior, Behavior::Wandering(None));
    npc.update(0);
    assert_eq!(npc.entity.position, Point::new(100, 100));
    match npc.behavior {
        Behavior::Wandering(Some(t)) => assert!(dist2(t, Point::new(100, 100)) <= 150 * 150),
        other => panic!("unexpected {:?}", other),
    }
}

#[test]
fn targets_stay_within_the_wander_radius() {
    for _ in 0..200 {
        let p = random_nearby_point(Point::new(100, 100), 150);
        assert!(dist2(p, Point::new(100, 100)) <= 150 * 150);
    }
    let mut moved = false;
    for _ in 0..50 {
        if random_nearby_point(Point::new(0, 0), 150) != Point::new(0, 0) {
            moved = true;
        }
    }
    assert!(moved);
    assert_eq!(random_nearby_point(Point::new(7, 9), 0), Point::new(7, 9));
}

#[test]
fn arrives_waits_and_wanders_again() {
    let mut npc = peasant();
    npc.step(0, Point::new(110, 95));
    assert_eq!(npc.behavior, Behavior::Wandering(Some(Point::new(110, 95))));
    npc.step(10, Point::new(0, 0));
    assert_eq!(npc.entity.action, Action::IdleRight);
    assert_eq!(npc.behavior, Behavior::Waiting(10));
    npc.step(3010, Point::new(200, 100));
    assert_eq!(npc.behavior, Behavior::Waiting(10));
    assert_eq!(npc.entity.position, Point::new(100, 100));
    npc.step(3011, Point::new(200, 100));
    assert_eq!(npc.behavior, Behavior::Wandering(Some(Point::new(200, 100))));
    npc.step(3020, Point::new(0, 0));
    assert_eq!(npc.entity.action, Action::MovingRight);
    assert_eq!(npc.entity.position, Point::new(103, 100));
}

#[test]
fn steering_by_sector() {
    let p = Point::new(100, 100);
    assert_eq!(steer_toward(p, Point::new(110, 120), 30), None);
    assert_eq!(steer_toward(p, Point::new(110, 40), 30), Some(Action::MovingUp));
    assert_eq!(steer_toward(p, Point::new(110, 200), 30), Some(Action::MovingDown));
    assert_eq!(steer_toward(p, Point::new(0, 100), 30), Some(Action::MovingLeft));
    assert_eq!(steer_toward(p, Point::new(200, 100), 30), Some(Action::MovingRight));
    assert_eq!(steer_toward(p, Point::new(0, 0), 30), Some(Action::MovingUpLeft));
    assert_eq!(steer_toward(p, Point::new(0, 200), 30), Some(Action::MovingDownLeft));
    assert_eq!(steer_toward(p, Point::new(200, 0), 30), Some(Action::MovingUpRight));
    assert_eq!(steer_toward(p, Point::new(200, 200), 30), Some(Action::MovingDownRight));
}

#[test]
fn talking_npc_stands_still() {
    let mut npc = peasant();
    npc.step(0, Point::new(250, 100));
    npc.step(1, Point::new(0, 0));
    assert_eq!(npc.entity.position, Point::new(103, 100));
    let t = npc.get_dialogtree();
    assert!(t.get(0).is_some());
    assert!(npc.is_talking());
    npc.step(2, Point::new(0, 0));
    npc.update(3);
    assert_eq!(npc.entity.position, Point::new(103, 100));
    npc.stop_talking();
    assert!(!npc.is_talking());
    assert!(matches!(npc.behavior, Behavior::Wandering(Some(_))));
}
