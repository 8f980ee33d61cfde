use vstd::arithmetic::div_mod::{lemma_add_mod_noop, lemma_mod_bound, lemma_mod_self_0, lemma_small_mod};
use vstd::prelude::*;

use crate::animation::{
    advance_spec, delay_ok, elapsed, first_index, is_first_index, ticked, AnimationView, Frame,
};

verus! {

/// The clock after one step per entry of `nows`, the step at `nows[k]`
/// taking `effs[k]` as the delay.
pub open spec fn run(a: AnimationView, nows: Seq<u64>, effs: Seq<u128>) -> AnimationView
    decreases nows.len(),
{
    if nows.len() == 0 || nows.len() != effs.len() {
        a
    } else {
        advance_spec(run(a, nows.drop_last(), effs.drop_last()), nows.last(), effs.last())
    }
}

/// No frame occurs twice.
pub open spec fn distinct(s: Seq<Frame>) -> bool {
    forall|i: int, j: int| 0 <= i < j < s.len() ==> s[i] != s[j]
}

/// Every frame has a delay.
pub open spec fn all_timed(s: Seq<Frame>) -> bool {
    forall|i: int| 0 <= i < s.len() ==> (#[trigger] s[i]).delay is Some
}

/// At each step the delay has run out since the step before it (since
/// `start` for the first one).
pub open spec fn each_expires(start: u64, nows: Seq<u64>, effs: Seq<u128>) -> bool {
    forall|k: int|
        0 <= k < nows.len() ==> elapsed(if k == 0 { start } else { nows[k - 1] }, #[trigger] nows[k])
            > effs[k]
}

pub proof fn lemma_first_index_distinct(s: Seq<Frame>, i: int)
    requires
        distinct(s),
        0 <= i < s.len(),
    ensures
        first_index(s, s[i]) == i,
{
    reveal(first_index);
    assert(is_first_index(s, s[i], i));
    assert(s.contains(s[i]));
    let k = first_index(s, s[i]);
    assert(is_first_index(s, s[i], k));
    if k < i {
        assert(s[k] != s[i]);
    }
    if k > i {
        assert(s[i] != s[k]);
    }
}

/// One step once the delay has run out moves a distinct timed list on by one.
pub proof fn lemma_step(b: AnimationView, j: int, now: u64, eff: u128)
    requires
        distinct(b.frames),
        all_timed(b.frames),
        0 <= j < b.frames.len(),
        b.current == b.frames[j],
        elapsed(b.timer, now) > eff,
    ensures
        advance_spec(b, now, eff) == (AnimationView {
            current: b.frames[(j + 1) % (b.frames.len() as int)],
            timer: now,
            ..b
        }),
{
    reveal(advance_spec);
    lemma_first_index_distinct(b.frames, j);
    assert(b.frames[j].delay is Some);
}

pub proof fn lemma_next_index(i: int, m: int, n: int)
    requires
        0 < n,
        0 <= i,
        0 < m,
    ensures
        0 <= (i + m - 1) % n < n,
        (((i + m - 1) % n) + 1) % n == (i + m) % n,
{
    lemma_mod_bound(i + m - 1, n);
    lemma_add_mod_noop(i + m - 1, 1, n);
    vstd::arithmetic::div_mod::lemma_mod_twice(i + m - 1, n);
    if n == 1 {
        lemma_mod_self_0(1);
    } else {
        lemma_small_mod(1, n as nat);
    }
}

/// A frame that is not in a non-empty list gives way to the list's first
/// frame at the next step, whatever the time, and the timer is kept.
pub proof fn lemma_snap_to_first(a: AnimationView, now: u64, eff: u128)
    requires
        a.frames.len() > 0,
        !a.frames.contains(a.current),
    ensures
        advance_spec(a, now, eff) == (AnimationView { current: a.frames[0], ..a }),
{
    reveal(advance_spec);
    reveal(first_index);
}

/// Cycling: on a list of `n` distinct timed frames, starting on frame `i`,
/// steps each taken once the delay has run out show frame `(i + k) % n`
/// after `k` of them, so `n` of them show every frame once and come back to
/// the first.
#[verifier::rlimit(40)]
pub proof fn lemma_cycle(a: AnimationView, i: int, nows: Seq<u64>, effs: Seq<u128>)
    requires
        a.frames.len() > 0,
        distinct(a.frames),
        all_timed(a.frames),
        0 <= i < a.frames.len(),
        a.current == a.frames[i],
        nows.len() == effs.len(),
        each_expires(a.timer, nows, effs),
    ensures
        run(a, nows, effs).frames == a.frames,
        run(a, nows, effs).current == a.frames[(i + nows.len()) % (a.frames.len() as int)],
        nows.len() > 0 ==> run(a, nows, effs).timer == nows.last(),
        nows.len() == 0 ==> run(a, nows, effs).timer == a.timer,
        nows.len() == a.frames.len() ==> run(a, nows, effs).current == a.current,
    decreases nows.len(),
{
    let n = a.frames.len() as int;
    let m = nows.len() as int;
    if m == 0 {
        lemma_small_mod(i as nat, n as nat);
    } else {
        let pn = nows.drop_last();
        let pe = effs.drop_last();
        assert forall|k: int| 0 <= k < pn.len() implies elapsed(
            if k == 0 { a.timer } else { pn[k - 1] },
            #[trigger] pn[k],
        ) > pe[k] by {
            assert(nows[k] == pn[k]);
        }
        lemma_cycle(a, i, pn, pe);
        let b = run(a, pn, pe);
        lemma_next_index(i, m, n);
        let j = (i + m - 1) % n;
        assert(elapsed(if m - 1 == 0 { a.timer } else { nows[m - 2] }, nows[m - 1]) > effs[m - 1]);
        lemma_step(b, j, nows.last(), effs.last());
        assert(run(a, nows, effs) == advance_spec(b, nows.last(), effs.last()));
        if m == n {
            vstd::arithmetic::div_mod::lemma_mod_multiples_vanish(1, i, n);
            assert(n * 1 + i == i + m);
            lemma_small_mod(i as nat, n as nat);
        }
    }
}

/// No frame jitters its delay.
pub open spec fn steady(s: Seq<Frame>) -> bool {
    forall|i: int| 0 <= i < s.len() ==> !(#[trigger] s[i]).scramble
}

/// Successive states of a clock that `Animation::update` produced, each call
/// made once the delay of the frame on show had run out.
pub open spec fn full_delay_updates(states: Seq<AnimationView>, nows: Seq<u64>) -> bool {
    &&& states.len() == nows.len() + 1
    &&& forall|k: int|
        0 <= k < nows.len() ==> ticked(states[k], states[k + 1], #[trigger] nows[k]) && elapsed(
            states[k].timer,
            nows[k],
        ) > states[k].current.delay->0
}

proof fn lemma_updates_upto(states: Seq<AnimationView>, nows: Seq<u64>, i: int, k: int)
    requires
        full_delay_updates(states, nows),
        states[0].frames.len() > 0,
        distinct(states[0].frames),
        all_timed(states[0].frames),
        steady(states[0].frames),
        0 <= i < states[0].frames.len(),
        states[0].current == states[0].frames[i],
        0 <= k <= nows.len(),
    ensures
        states[k].frames == states[0].frames,
        states[k].current == states[0].frames[(i + k) % (states[0].frames.len() as int)],
    decreases k,
{
    let fs = states[0].frames;
    let n = fs.len() as int;
    if k == 0 {
        lemma_small_mod(i as nat, n as nat);
    } else {
        lemma_updates_upto(states, nows, i, k - 1);
        lemma_next_index(i, k, n);
        let j = (i + k - 1) % n;
        let b = states[k - 1];
        assert(ticked(b, states[k], nows[k - 1]));
        let eff = choose|eff: u128| delay_ok(b.current, eff) && states[k] == advance_spec(b, nows[k - 1], eff);
        assert(!fs[j].scramble && fs[j].delay is Some);
        assert(eff == b.current.delay->0);
        lemma_step(b, j, nows[k - 1], eff);
    }
}

/// Cycling through `Animation::update`: on a list of `n` distinct frames
/// that all have a fixed delay, starting on frame `i`, calls made once the
/// delay of the frame on show has run out show frame `(i + k) % n` after `k`
/// of them, so the first `n` show every frame and come back to frame `i`.
pub proof fn lemma_update_cycle(states: Seq<AnimationView>, nows: Seq<u64>, i: int)
    requires
        full_delay_updates(states, nows),
        states[0].frames.len() > 0,
        distinct(states[0].frames),
        all_timed(states[0].frames),
        steady(states[0].frames),
        0 <= i < states[0].frames.len(),
        states[0].current == states[0].frames[i],
    ensures
        forall|k: int|
            0 <= k <= nows.len() ==> (#[trigger] states[k]).frames == states[0].frames
                && states[k].current == states[0].frames[(i + k) % (states[0].frames.len() as int)],
        nows.len() >= states[0].frames.len() ==> states[states[0].frames.len() as int].current
            == states[0].current,
{
    assert forall|k: int| 0 <= k <= nows.len() implies (#[trigger] states[k]).frames == states[0].frames
        && states[k].current == states[0].frames[(i + k) % (states[0].frames.len() as int)] by {
        lemma_updates_upto(states, nows, i, k);
    }
    let n = states[0].frames.len() as int;
    if nows.len() >= n {
        lemma_updates_upto(states, nows, i, n);
        vstd::arithmetic::div_mod::lemma_mod_multiples_vanish(1, i, n);
        assert(n * 1 + i == i + n);
        lemma_small_mod(i as nat, n as nat);
    }
}

} // verus!

