use vstd::arithmetic::div_mod::{lemma_mod_self_0, lemma_small_mod};
use vstd::prelude::*;

use crate::entity::Action;
use crate::math::{can_flip, flip_spec, random_below, union, union_spec, Rect};
use crate::tile::{frame_of, Tile};
use crate::tileset::{
    has_entity_keyframe, is_entity_keyframe, is_first_entity_keyframe, source_ok, Tileset,
    TilesetError,
};

verus! {

/// One frame of an animation: what to draw and for how long.
#[derive(Clone, Copy, Debug, PartialEq, Eq, Structural)]
pub struct Frame {
    pub source: Rect,
    /// Milliseconds the frame is shown; `None` holds it indefinitely.
    pub delay: Option<usize>,
    /// Draw-time rotation in degrees.
    pub rotation: u32,
    /// Whether the delay is jittered each time it is checked.
    pub scramble: bool,
    pub visible: bool,
}

impl Frame {
    pub fn new(source: Rect, delay: Option<usize>, rotation: u32) -> (r: Frame)
        ensures
            r == (Frame { source, delay, rotation, scramble: false, visible: true }),
    {
        Frame { source, delay, rotation, scramble: false, visible: true }
    }
}

/// The frame mirrored horizontally.
pub open spec fn flip_frame_spec(f: Frame) -> Frame {
    Frame { source: flip_spec(f.source), ..f }
}

/// Mirrors a frame's source rectangle horizontally.
pub fn flip(frame: Frame) -> (r: Frame)
    requires
        can_flip(frame.source),
    ensures
        r == flip_frame_spec(frame),
{
    Frame { source: crate::math::flip(frame.source), ..frame }
}

/// Time since `timer`, or nothing if the clock reads earlier.
pub open spec fn elapsed(timer: u64, now: u64) -> int {
    if now >= timer {
        now - timer
    } else {
        0
    }
}

pub open spec fn is_first_index(s: Seq<Frame>, f: Frame, i: int) -> bool {
    &&& 0 <= i < s.len()
    &&& s[i] == f
    &&& forall|j: int| 0 <= j < i ==> s[j] != f
}

/// Where `f` first occurs in `s`, or -1.
#[verifier::opaque]
pub open spec fn first_index(s: Seq<Frame>, f: Frame) -> int {
    if s.contains(f) {
        choose|i: int| is_first_index(s, f, i)
    } else {
        -1
    }
}

/// The delays a check may use for frame `f`: its own delay, or with jitter
/// anything from six to fourteen tenths of it.
pub open spec fn delay_ok(f: Frame, eff: u128) -> bool {
    match f.delay {
        Some(d) => if f.scramble {
            d * 6 / 10 <= eff <= d * 14 / 10
        } else {
            eff == d
        },
        None => true,
    }
}

pub struct AnimationView {
    pub frames: Seq<Frame>,
    pub timer: u64,
    pub current: Frame,
}

/// One step of the clock at time `now`, with `eff` as the current frame's
/// delay: a frame of the list whose delay has run out gives way to the next
/// one (wrapping round) and restarts the timer; a frame that is not in the
/// list gives way at once to the first one; an empty list changes nothing.
#[verifier::opaque]
pub open spec fn advance_spec(a: AnimationView, now: u64, eff: u128) -> AnimationView {
    let i = first_index(a.frames, a.current);
    if i >= 0 {
        if a.current.delay is Some && elapsed(a.timer, now) > eff {
            AnimationView { current: a.frames[(i + 1) % (a.frames.len() as int)], timer: now, ..a }
        } else {
            a
        }
    } else if a.frames.len() > 0 {
        AnimationView { current: a.frames[0], ..a }
    } else {
        a
    }
}

/// Whether `b` is clock `a` after one step at `now`, with a delay that the
/// frame on show allows.
pub open spec fn ticked(a: AnimationView, b: AnimationView, now: u64) -> bool {
    exists|eff: u128| delay_ok(a.current, eff) && b == #[trigger] advance_spec(a, now, eff)
}

/// A frame list, the frame on show and when it came up.
#[derive(Clone, Debug)]
pub struct Animation {
    pub frames: Vec<Frame>,
    /// Milliseconds timestamp at which `current` came up.
    pub timer: u64,
    pub current: Frame,
}

impl View for Animation {
    type V = AnimationView;

    open spec fn view(&self) -> AnimationView {
        AnimationView { frames: self.frames@, timer: self.timer, current: self.current }
    }
}

pub open spec fn blank_frame() -> Frame {
    Frame { source: Rect { x: 0, y: 0, w: 0, h: 0 }, delay: None, rotation: 0, scramble: false, visible: true }
}

impl Animation {
    /// Starts on the first frame of `frames` (a blank frame if there is
    /// none) at time `now`.
    pub fn new(frames: Vec<Frame>, now: u64) -> (r: Animation)
        ensures
            r.frames@ == frames@,
            r.timer == now,
            r.current == if frames@.len() > 0 { frames@[0] } else { blank_frame() },
    {
        let current = if frames.len() > 0 {
            frames[0]
        } else {
            Frame::new(Rect::zero(), None, 0)
        };
        Animation { frames, timer: now, current }
    }

    /// Replaces the frame list; the frame on show and the timer stay.
    pub fn give_frames(&mut self, frames: Vec<Frame>)
        ensures
            final(self).frames@ == frames@,
            final(self).timer == old(self).timer,
            final(self).current == old(self).current,
    {
        self.frames = frames;
    }

    /// Where the frame on show first stands in the list, if it does.
    pub fn position(&self) -> (r: Option<usize>)
        ensures
            match r {
                Some(i) => {
                    &&& i < self.frames@.len()
                    &&& self.frames@[i as int] == self.current
                    &&& i == first_index(self.frames@, self.current)
                },
                None => !self.frames@.contains(self.current) && first_index(self.frames@, self.current)
                    == -1,
            },
    {
        let mut i: usize = 0;
        while i < self.frames.len()
            invariant
                i <= self.frames@.len(),
                forall|j: int| 0 <= j < i ==> self.frames@[j] != self.current,
            decreases self.frames@.len() - i,
        {
            if self.frames[i] == self.current {
                reveal(first_index);
                assert(is_first_index(self.frames@, self.current, i as int));
                assert(self.frames@.contains(self.current));
                let ghost k = first_index(self.frames@, self.current);
                assert(is_first_index(self.frames@, self.current, k));
                assert(k == i) by {
                    if k < i {
                        assert(self.frames@[k] != self.current);
                    }
                    if k > i {
                        assert(self.frames@[i as int] != self.current);
                    }
                }
                return Some(i);
            }
            i += 1;
        }
        reveal(first_index);
        assert(!self.frames@.contains(self.current)) by {
            if self.frames@.contains(self.current) {
                let j = choose|j: int| 0 <= j < self.frames@.len() && self.frames@[j] == self.current;
                assert(self.frames@[j] != self.current);
            }
        }
        None
    }

    /// One step of the clock at time `now`, with `delay` standing for the
    /// delay of the frame on show.
    pub fn advance(&mut self, now: u64, delay: u128)
        ensures
            final(self)@ == advance_spec(old(self)@, now, delay),
    {
        reveal(advance_spec);
        let pos = self.position();
        match pos {
            Some(i) => {
                if self.current.delay.is_some() {
                    let gone: u64 = if now >= self.timer { now - self.timer } else { 0 };
                    if gone as u128 > delay {
                        let n: usize = self.frames.len();
                        let next: usize = if i + 1 == n { 0 } else { i + 1 };
                        proof {
                            if i + 1 == n {
                                lemma_mod_self_0(n as int);
                            } else {
                                lemma_small_mod((i + 1) as nat, n as nat);
                            }
                        }
                        self.current = self.frames[next];
                        self.timer = now;
                    }
                }
            },
            None => {
                if self.frames.len() > 0 {
                    self.current = self.frames[0];
                }
            },
        }
    }

    /// One step of the clock at time `now`. A frame that jitters its delay
    /// draws the delay afresh at each check.
    pub fn update(&mut self, now: u64)
        ensures
            ticked(old(self)@, final(self)@, now),
    {
        let ghost before = self@;
        let eff: u128 = match self.current.delay {
            Some(d) => if self.current.scramble {
                random_below(d as u128 * 6 / 10, d as u128 * 14 / 10 + 1)
            } else {
                d as u128
            },
            None => 0,
        };
        self.advance(now, eff);
        assert(delay_ok(before.current, eff) && self@ == advance_spec(before, now, eff));
        assert(ticked(before, self@, now));
    }
}

/// A copy of a frame list.
pub fn copy_frames(v: &Vec<Frame>) -> (r: Vec<Frame>)
    ensures
        r@ == v@,
{
    let mut out: Vec<Frame> = Vec::new();
    let mut i: usize = 0;
    while i < v.len()
        invariant
            i <= v@.len(),
            out@ == v@.take(i as int),
        decreases v@.len() - i,
    {
        out.push(v[i]);
        i += 1;
        assert(out@ =~= v@.take(i as int));
    }
    assert(v@.take(v@.len() as int) =~= v@);
    out
}

pub struct AnimationsView {
    pub idle_left: Seq<Frame>,
    pub moving_left: Seq<Frame>,
    pub idle_right: Seq<Frame>,
    pub moving_right: Seq<Frame>,
    pub current: AnimationView,
}

/// The frame list bound to an action; vertical motion has none and keeps
/// whatever list is active.
pub open spec fn frames_for(a: AnimationsView, action: Action) -> Option<Seq<Frame>> {
    match action {
        Action::IdleLeft => Some(a.idle_left),
        Action::MovingLeft | Action::MovingUpLeft | Action::MovingDownLeft => Some(a.moving_left),
        Action::IdleRight => Some(a.idle_right),
        Action::MovingRight | Action::MovingUpRight | Action::MovingDownRight => Some(a.moving_right),
        Action::MovingUp | Action::MovingDown => None,
    }
}

/// The clock after selecting the list of `action` and one step at `now`.
pub open spec fn select_and_tick(before: AnimationsView, action: Action, now: u64, after: AnimationsView) -> bool {
    &&& after == AnimationsView { current: after.current, ..before }
    &&& exists|eff: u128|
        delay_ok(selected(before, action).current, eff) && after.current == advance_spec(
            #[trigger] selected(before, action),
            now,
            eff,
        )
}

/// The clock with the list of `action` selected.
pub open spec fn selected(before: AnimationsView, action: Action) -> AnimationView {
    match frames_for(before, action) {
        Some(f) => AnimationView { frames: f, ..before.current },
        None => before.current,
    }
}

/// The frame made of a top and a bottom tile's frames: the top's timing
/// over the union of both sources.
pub open spec fn composite(top: Frame, bottom: Frame) -> Frame {
    Frame { source: union_spec(top.source, bottom.source), ..top }
}

/// The animations of a two-tile character, by action: idle and moving to
/// the left, and their mirror images to the right.
#[derive(Debug)]
pub struct Animations {
    idle_left: Vec<Frame>,
    moving_left: Vec<Frame>,
    idle_right: Vec<Frame>,
    moving_right: Vec<Frame>,
    pub current: Animation,
}

impl View for Animations {
    type V = AnimationsView;

    closed spec fn view(&self) -> AnimationsView {
        AnimationsView {
            idle_left: self.idle_left@,
            moving_left: self.moving_left@,
            idle_right: self.idle_right@,
            moving_right: self.moving_right@,
            current: self.current@,
        }
    }
}

/// Whether `f` is the frame that keyframe `k` of entities `top` and
/// `bottom` make together.
pub open spec fn is_composite_frame(ts: Seq<Tile>, top: Seq<char>, bottom: Seq<char>, k: usize, f: Frame) -> bool {
    exists|a: int, b: int|
        is_first_entity_keyframe(ts, top, k, a) && is_first_entity_keyframe(ts, bottom, k, b) && f
            == #[trigger] composite(frame_of(ts[a]), frame_of(ts[b]))
}

/// Whether `v` holds the animations of the character drawn by entities
/// `top` and `bottom`, its clock started at `now` on a blank frame.
pub open spec fn animations_of(ts: Seq<Tile>, top: Seq<char>, bottom: Seq<char>, now: u64, v: AnimationsView) -> bool {
    &&& v.idle_left.len() == 1
    &&& is_composite_frame(ts, top, bottom, 0, v.idle_left[0])
    &&& is_composite_frame(ts, top, bottom, 1, v.moving_left[1])
    &&& v.moving_left.len() == 2
    &&& v.moving_left[0] == v.idle_left[0]
    &&& v.idle_right == seq![flip_frame_spec(v.idle_left[0])]
    &&& v.moving_right == seq![flip_frame_spec(v.moving_left[0]), flip_frame_spec(v.moving_left[1])]
    &&& v.current == AnimationView { frames: Seq::empty(), timer: now, current: blank_frame() }
}

/// Whether both entities have keyframe `k`.
pub open spec fn has_pair(ts: Seq<Tile>, top: Seq<char>, bottom: Seq<char>, k: usize) -> bool {
    has_entity_keyframe(ts, top, k) && has_entity_keyframe(ts, bottom, k)
}

fn composite_frame(tileset: &Tileset, top: &str, bottom: &str, keyframe: usize) -> (r: Result<Frame, TilesetError>)
    requires
        tileset.wf(),
    ensures
        r matches Ok(f) ==> source_ok(f.source) && can_flip(f.source) && is_composite_frame(
            tileset@,
            top@,
            bottom@,
            keyframe,
            f,
        ),
        r is Ok <==> has_pair(tileset@, top@, bottom@, keyframe),
        r is Err ==> r == Err::<Frame, TilesetError>(TilesetError::MissingEntityKeyframe),
{
    proof {
        tileset.lemma_wf();
    }
    let t = match tileset.get_tile_by_entity_keyframe(top, keyframe) {
        Ok(t) => t,
        Err(e) => return Err(e),
    };
    let b = match tileset.get_tile_by_entity_keyframe(bottom, keyframe) {
        Ok(b) => b,
        Err(e) => return Err(e),
    };
    assert(source_ok(t.source) && source_ok(b.source));
    let f = t.frame();
    let source = union(t.source, b.source);
    let r = Frame { source, ..f };
    proof {
        let a = choose|a: int| is_first_entity_keyframe(tileset@, top@, keyframe, a) && tileset@[a] == t;
        let c = choose|c: int| is_first_entity_keyframe(tileset@, bottom@, keyframe, c) && tileset@[c] == b;
        assert(r == composite(frame_of(tileset@[a]), frame_of(tileset@[c])));
        assert(is_entity_keyframe(tileset@[a], top@, keyframe));
        assert(is_entity_keyframe(tileset@[c], bottom@, keyframe));
    }
    Ok(r)
}

impl Animations {
    /// The animations of the character drawn by the tiles of entities `top`
    /// and `bottom`: keyframe 0 of each makes the idle frame and keyframe 1
    /// the moving one; the left lists are `[idle]` and `[idle, moving]`,
    /// the right ones their mirror images. The clock starts at `now` on a
    /// blank frame.
    pub fn new(tileset: &Tileset, top: &str, bottom: &str, now: u64) -> (r: Result<
        Animations,
        TilesetError,
    >)
        requires
            tileset.wf(),
        ensures
            r is Err ==> r == Err::<Animations, TilesetError>(TilesetError::MissingEntityKeyframe),
            r is Ok <==> has_pair(tileset@, top@, bottom@, 0) && has_pair(tileset@, top@, bottom@, 1),
            r matches Ok(a) ==> animations_of(tileset@, top@, bottom@, now, a@),
    {
        let idle = match composite_frame(tileset, top, bottom, 0) {
            Ok(f) => f,
            Err(e) => return Err(e),
        };
        let moving = match composite_frame(tileset, top, bottom, 1) {
            Ok(f) => f,
            Err(e) => return Err(e),
        };
        let a = Animations {
            idle_left: vec![idle],
            moving_left: vec![idle, moving],
            idle_right: vec![flip(idle)],
            moving_right: vec![flip(idle), flip(moving)],
            current: Animation::new(Vec::new(), now),
        };
        assert(a@.idle_left[0] == idle);
        assert(a@.moving_left[1] == moving);
        assert(a@.current.frames =~= Seq::<Frame>::empty());
        assert(a@.idle_right =~= seq![flip_frame_spec(idle)]);
        Ok(a)
    }

    /// Selects the list bound to `action`, then steps the clock at `now`.
    pub fn update(&mut self, action: Action, now: u64)
        ensures
            select_and_tick(old(self)@, action, now, final(self)@),
    {
        let frames: Option<Vec<Frame>> = match action {
            Action::IdleLeft => Some(copy_frames(&self.idle_left)),
            Action::MovingLeft | Action::MovingUpLeft | Action::MovingDownLeft => Some(
                copy_frames(&self.moving_left),
            ),
            Action::IdleRight => Some(copy_frames(&self.idle_right)),
            Action::MovingRight | Action::MovingUpRight | Action::MovingDownRight => Some(
                copy_frames(&self.moving_right),
            ),
            Action::MovingUp | Action::MovingDown => None,
        };
        let ghost before = self@;
        if let Some(f) = frames {
            self.current.give_frames(f);
        }
        let ghost sel = self.current@;
        assert(sel == selected(before, action));
        self.current.update(now);
        assert(ticked(sel, self.current@, now));
        let ghost eff = choose|eff: u128| delay_ok(sel.current, eff) && self.current@ == advance_spec(sel, now, eff);
        assert(self@ == AnimationsView { current: self@.current, ..before });
        assert(select_and_tick(before, action, now, self@)) by {
            assert(delay_ok(sel.current, eff) && self@.current == advance_spec(sel, now, eff));
        }
    }
}

} // verus!
