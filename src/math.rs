use rand::Rng;
use vstd::prelude::*;

verus! {

/// An axis-aligned rectangle in integer units.
#[derive(Clone, Copy, Debug, PartialEq, Eq, Structural)]
pub struct Rect {
    pub x: i32,
    pub y: i32,
    pub w: i32,
    pub h: i32,
}

/// A point in integer units.
#[derive(Clone, Copy, Debug, PartialEq, Eq, Structural)]
pub struct Point {
    pub x: i32,
    pub y: i32,
}

impl Rect {
    pub fn new(x: i32, y: i32, w: i32, h: i32) -> (r: Rect)
        ensures
            r == (Rect { x, y, w, h }),
    {
        Rect { x, y, w, h }
    }

    pub fn zero() -> (r: Rect)
        ensures
            r == (Rect { x: 0, y: 0, w: 0, h: 0 }),
    {
        Rect { x: 0, y: 0, w: 0, h: 0 }
    }
}

impl Point {
    pub fn new(x: i32, y: i32) -> (r: Point)
        ensures
            r == (Point { x, y }),
    {
        Point { x, y }
    }
}

/// The x-origin of a horizontally mirrored rectangle.
pub open spec fn flipped_x(r: Rect) -> int {
    -r.x - r.w
}

/// Whether mirroring `r` keeps its origin representable.
pub open spec fn can_flip(r: Rect) -> bool {
    i32::MIN <= flipped_x(r) <= i32::MAX
}

/// The horizontally mirrored rectangle: the origin is negated and the width
/// subtracted, which selects the mirrored source region of the atlas.
pub open spec fn flip_spec(r: Rect) -> Rect {
    Rect { x: flipped_x(r) as i32, ..r }
}

/// Mirrors a source rectangle horizontally.
pub fn flip(rect: Rect) -> (r: Rect)
    requires
        can_flip(rect),
    ensures
        r == flip_spec(rect),
{
    let x = (-(rect.x as i64) - rect.w as i64) as i32;
    Rect { x, ..rect }
}

/// Mirroring twice gives back the rectangle mirrored.
pub proof fn lemma_flip_involution(r: Rect)
    requires
        can_flip(r),
    ensures
        can_flip(flip_spec(r)),
        flip_spec(flip_spec(r)) == r,
{
}

pub open spec fn abs(v: int) -> int {
    if v < 0 { -v } else { v }
}

pub open spec fn min_int(a: int, b: int) -> int {
    if a <= b { a } else { b }
}

pub open spec fn max_int(a: int, b: int) -> int {
    if a >= b { a } else { b }
}

/// The smallest rectangle holding both `a` and `b`.
pub open spec fn union_spec(a: Rect, b: Rect) -> Rect {
    let x = min_int(a.x as int, b.x as int);
    let y = min_int(a.y as int, b.y as int);
    Rect {
        x: x as i32,
        y: y as i32,
        w: (max_int(a.x + a.w, b.x + b.w) - x) as i32,
        h: (max_int(a.y + a.h, b.y + b.h) - y) as i32,
    }
}

/// Whether the union of `a` and `b` has representable extents.
pub open spec fn can_union(a: Rect, b: Rect) -> bool {
    let x = min_int(a.x as int, b.x as int);
    let y = min_int(a.y as int, b.y as int);
    &&& max_int(a.x + a.w, b.x + b.w) - x <= i32::MAX
    &&& max_int(a.y + a.h, b.y + b.h) - y <= i32::MAX
    &&& max_int(a.x + a.w, b.x + b.w) - x >= i32::MIN
    &&& max_int(a.y + a.h, b.y + b.h) - y >= i32::MIN
}

/// The smallest rectangle holding both rectangles.
pub fn union(a: Rect, b: Rect) -> (r: Rect)
    requires
        can_union(a, b),
    ensures
        r == union_spec(a, b),
{
    let x: i64 = if a.x <= b.x { a.x as i64 } else { b.x as i64 };
    let y: i64 = if a.y <= b.y { a.y as i64 } else { b.y as i64 };
    let ra: i64 = a.x as i64 + a.w as i64;
    let rb: i64 = b.x as i64 + b.w as i64;
    let ba: i64 = a.y as i64 + a.h as i64;
    let bb: i64 = b.y as i64 + b.h as i64;
    let right: i64 = if ra >= rb { ra } else { rb };
    let bottom: i64 = if ba >= bb { ba } else { bb };
    Rect { x: x as i32, y: y as i32, w: (right - x) as i32, h: (bottom - y) as i32 }
}

/// Whether `m` is the integer square root of `n`.
pub open spec fn is_sqrt_floor(n: int, m: int) -> bool {
    0 <= m && m * m <= n < (m + 1) * (m + 1)
}

/// The integer square root of `n`, for `n >= 0`.
pub open spec fn sqrt_floor(n: int) -> int {
    choose|m: int| is_sqrt_floor(n, m)
}

/// There is one integer square root.
pub proof fn lemma_sqrt_floor_unique(n: int, m: int)
    requires
        is_sqrt_floor(n, m),
    ensures
        sqrt_floor(n) == m,
{
    let k = sqrt_floor(n);
    assert(is_sqrt_floor(n, k));
    if k < m {
        assert((k + 1) * (k + 1) <= m * m) by (nonlinear_arith)
            requires
                0 <= k < m,
        ;
    }
    if k > m {
        assert((m + 1) * (m + 1) <= k * k) by (nonlinear_arith)
            requires
                0 <= m < k,
        ;
    }
}

/// The integer square root: the largest `r` with `r * r <= n`.
pub fn isqrt(n: u64) -> (r: u64)
    ensures
        r * r <= n,
        n < (r + 1) * (r + 1),
        r == sqrt_floor(n as int),
{
    let mut lo: u64 = 0;
    let mut hi: u64 = 0x1_0000_0000;
    assert(n < hi * hi) by (nonlinear_arith)
        requires
            hi == 0x1_0000_0000,
            n <= u64::MAX,
    ;
    while hi - lo > 1
        invariant
            lo < hi <= 0x1_0000_0000,
            lo * lo <= n,
            n < hi * hi,
        decreases hi - lo,
    {
        let mid: u64 = lo + (hi - lo) / 2;
        assert(mid * mid <= 0x1_0000_0000 * 0x1_0000_0000) by (nonlinear_arith)
            requires
                mid < 0x1_0000_0000,
        ;
        let sq: u128 = mid as u128 * mid as u128;
        if sq <= n as u128 {
            lo = mid;
        } else {
            hi = mid;
        }
    }
    assert(hi == lo + 1);
    proof {
        lemma_sqrt_floor_unique(n as int, lo as int);
    }
    lo
}

/// Whether `i` is the first entry of `frames` showing `source`.
pub open spec fn is_first_source(frames: Seq<(usize, Rect)>, source: Rect, i: int) -> bool {
    &&& 0 <= i < frames.len()
    &&& frames[i].1 == source
    &&& forall|j: int| 0 <= j < i ==> (#[trigger] frames[j]).1 != source
}

/// The source on show and its timer after a step at `now` through a list
/// of `(delay, source)` entries: the entry after the first one showing
/// `source` once its delay has passed (wrapping round), the first entry at
/// once if `source` is not in the list, nothing on an empty list.
pub open spec fn next_source_spec(source: Rect, frames: Seq<(usize, Rect)>, timer: u64, now: u64) -> (Rect, u64) {
    if exists|i: int| is_first_source(frames, source, i) {
        let i = choose|i: int| is_first_source(frames, source, i);
        if now >= timer && now - timer > frames[i].0 {
            (frames[(i + 1) % (frames.len() as int)].1, now)
        } else {
            (source, timer)
        }
    } else if frames.len() > 0 {
        (frames[0].1, timer)
    } else {
        (source, timer)
    }
}

/// Steps a source rectangle through a list of `(delay, source)` entries.
pub fn next_source(source: Rect, animation: &Vec<(usize, Rect)>, timer: u64, now: u64) -> (r: (Rect, u64))
    ensures
        r == next_source_spec(source, animation@, timer, now),
{
    let mut i: usize = 0;
    while i < animation.len()
        invariant
            i <= animation@.len(),
            forall|j: int| 0 <= j < i ==> (#[trigger] animation@[j]).1 != source,
        decreases animation@.len() - i,
    {
        if animation[i].1 == source {
            assert(is_first_source(animation@, source, i as int));
            let ghost k = choose|k: int| is_first_source(animation@, source, k);
            assert(k == i) by {
                if k < i {
                    assert(animation@[k].1 != source);
                }
                if k > i {
                    assert(animation@[i as int].1 != source);
                }
            }
            if now >= timer && (now - timer) as u128 > animation[i].0 as u128 {
                let n = animation.len();
                let next: usize = if i + 1 == n { 0 } else { i + 1 };
                proof {
                    if i + 1 == n {
                        vstd::arithmetic::div_mod::lemma_mod_self_0(n as int);
                    } else {
                        vstd::arithmetic::div_mod::lemma_small_mod((i + 1) as nat, n as nat);
                    }
                }
                return (animation[next].1, now);
            } else {
                return (source, timer);
            }
        }
        i += 1;
    }
    if animation.len() > 0 {
        (animation[0].1, timer)
    } else {
        (source, timer)
    }
}

/// Relies on rand's `thread_rng` and `Rng::gen_range`: a value drawn from
/// the half-open range `[low, high)`, which panics when the range is empty.
#[verifier::external_body]
pub(crate) fn random_below(low: u128, high: u128) -> (r: u128)
    requires
        low < high,
    ensures
        low <= r < high,
{
    rand::thread_rng().gen_range(low, high)
}

} // verus!
