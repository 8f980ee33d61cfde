use pax_romana::animation::{flip, Animation, Animations, Frame};
use pax_romana::entity::Action;
use pax_romana::math::Rect;
use pax_romana::tile::Properties;
use pax_romana::tileset::{Tileset, TilesetError};

fn frame(x: i32, delay: usize) -> Frame {
    Frame::new(Rect::new(x, 0, 16, 16), Some(delay), 0)
}

#[test]
fn cycles_through_every_frame_and_back() {
    let frames = vec![frame(0, 100), frame(16, 50), frame(32, 10)];
    let mut a = Animation::new(frames.clone(), 0);
    assert_eq!(a.current, frames[0]);
    let mut now = 0;
    for k in 1..=3 {
        now += 101;
        a.update(now);
        assert_eq!(a.current, frames[k % 3]);
        assert_eq!(a.timer, now);
    }
    assert_eq!(a.current, frames[0]);
}

#[test]
fn waits_until_the_delay_has_passed() {
    let frames = vec![frame(0, 100), frame(16, 100)];
    let mut a = Animation::new(frames.clone(), 1000);
    a.update(1100);
    assert_eq!(a.current, frames[0]);
    assert_eq!(a.timer, 1000);
    a.update(1101);
    assert_eq!(a.current, frames[1]);
    assert_eq!(a.timer, 1101);
}

#[test]
fn frame_outside_the_list_snaps_to_the_first() {
    let mut a = Animation::new(vec![frame(0, 100)], 0);
    a.give_frames(vec![frame(64, 100), frame(80, 100)]);
    a.update(1);
    assert_eq!(a.current, frame(64, 100));
    assert_eq!(a.timer, 0);
}

#[test]
fn empty_list_keeps_the_frame() {
    let mut a = Animation::new(vec![], 0);
    let before = a.current;
    assert_eq!(before.source, Rect::zero());
    a.update(10_000);
    assert_eq!(a.current, before);
}

#[test]
fn frame_without_delay_holds() {
    let frames = vec![Frame::new(Rect::zero(), None, 0), frame(16, 1)];
    let mut a = Animation::new(frames.clone(), 0);
    a.update(1_000_000);
    assert_eq!(a.current, frames[0]);
}

#[test]
fn advance_with_given_delay() {
    let frames = vec![frame(0, 100), frame(16, 100)];
    let mut a = Animation::new(frames.clone(), 0);
    a.advance(50, 40);
    assert_eq!(a.current, frames[1]);
    assert_eq!(a.timer, 50);
    a.advance(60, 40);
    assert_eq!(a.current, frames[1]);
}

#[test]
fn jittered_delay_stays_in_range() {
    let mut f = frame(0, 100);
    f.scramble = true;
    let frames = vec![f, frame(16, 100)];
    let mut early = Animation::new(frames.clone(), 0);
    early.update(59);
    assert_eq!(early.current, frames[0]);
    let mut late = Animation::new(frames.clone(), 0);
    late.update(141);
    assert_eq!(late.current, frames[1]);
}

#[test]
fn flipped_frame_mirrors_the_source() {
    let f = flip(frame(16, 5));
    assert_eq!(f.source, Rect::new(-32, 0, 16, 16));
    assert_eq!(f.delay, Some(5));
}

fn character_tiles() -> Tileset {
    let mut records = Vec::new();
    for (id, entity, kf) in [(0, "player-top", 0), (1, "player-top", 1), (2, "player-bottom", 0), (3, "player-bottom", 1)] {
        let mut p = Properties::default();
        p.entity = Some(entity.to_string());
        p.keyframe = Some(kf);
        p.delay = Some(100);
        records.push((id, p));
    }
    Tileset::from_grid(2, 2, 16, 16, &records).unwrap()
}

#[test]
fn character_animations_by_action() {
    let ts = character_tiles();
    let mut anims = Animations::new(&ts, "player-top", "player-bottom", 0).unwrap();
    anims.update(Action::MovingRight, 1);
    let idle_right = anims.current.current;
    assert_eq!(idle_right.source, flip(Frame::new(Rect::new(0, 0, 16, 32), None, 0)).source);
    anims.update(Action::MovingRight, 200);
    assert_eq!(anims.current.current.source, flip(Frame::new(Rect::new(16, 0, 16, 32), None, 0)).source);
    anims.update(Action::MovingUp, 250);
    assert_eq!(anims.current.frames.len(), 2);
    anims.update(Action::IdleLeft, 300);
    assert_eq!(anims.current.current.source, Rect::new(0, 0, 16, 32));
}

#[test]
fn character_animations_need_both_keyframes() {
    let ts = character_tiles();
    assert_eq!(
        Animations::new(&ts, "player-top", "player-legs", 0).unwrap_err(),
        TilesetError::MissingEntityKeyframe
    );
}
