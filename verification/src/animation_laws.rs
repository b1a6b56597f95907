//! What holds of every animation: which easings never move backwards, and
//! how an animation with a single iteration runs to its end.
//!
//! The cubic curve `3(1-t)²t·y1 + 3(1-t)t²·y2 + t³` is `y1·A + (y2 - y1)·B +
//! (1 - y2)·C` with `A = 1 - (1-t)³`, `B = 3t² - 2t³` and `C = t³`. Each of
//! `A`, `B` and `C` rises with `t`, so the curve rises when `0 <= y1 <= y2
//! <= 1`.

use crate::animation::{
    advance_one, advanced, cubic_curve, distinct_ids, eased, elapsed_since, is_running,
    lemma_easing_ends, lemma_easing_monotone, lemma_finished_is_gone,
    lemma_raw_progress_complete, lemma_raw_progress_monotone, progress_at, repeats,
    ActiveAnimation, EasingFunction,
};
use crate::numeric::trunc_div;
use vstd::prelude::*;

verus! {

/// `A` at `t`, in units of a thousandth cubed.
pub open spec fn rise_a(t: int) -> int {
    3_000_000 * t - 3000 * (t * t) + (t * t) * t
}

/// `B` at `t`, in units of a thousandth cubed.
pub open spec fn rise_b(t: int) -> int {
    3000 * (t * t) - 2 * ((t * t) * t)
}

/// `C` at `t`, in units of a thousandth cubed.
pub open spec fn rise_c(t: int) -> int {
    (t * t) * t
}

/// The curve before it is brought back to thousandths.
pub open spec fn cubic_numerator(t: int, y1: int, y2: int) -> int {
    3 * (1000 - t) * (1000 - t) * t * y1 + 3 * (1000 - t) * t * t * y2 + t * t * t * 1000
}

/// Whether an easing never moves backwards: the named easings do not, and
/// a cubic curve does not when its control values rise from 0 to 1000.
pub open spec fn never_backwards(easing: EasingFunction) -> bool {
    match easing {
        EasingFunction::Cubic(_, y1, _, y2) => 0 <= y1 <= y2 <= 1000,
        _ => true,
    }
}

/// The curve is `y1·A + (y2 - y1)·B + (1000 - y2)·C`.
proof fn lemma_regroup(t: int, y1: int, y2: int)
    ensures
        cubic_numerator(t, y1, y2) == y1 * rise_a(t) + (y2 - y1) * rise_b(t) + (1000 - y2)
            * rise_c(t),
{
    let m = 1000 - t;
    let q = t * t;
    let c = q * t;
    let mm = m * m;
    assert(mm == 1_000_000 - 2000 * t + q) by (nonlinear_arith)
        requires
            mm == m * m,
            m == 1000 - t,
            q == t * t,
    ;
    let three_m = 3 * m;
    let k0 = three_m * m;
    assert(k0 == 3 * mm) by (nonlinear_arith)
        requires
            k0 == three_m * m,
            three_m == 3 * m,
            mm == m * m,
    ;
    let k1 = k0 * t;
    assert(k1 == 3_000_000 * t - 6000 * q + 3 * c) by (nonlinear_arith)
        requires
            k1 == k0 * t,
            k0 == 3 * mm,
            mm == 1_000_000 - 2000 * t + q,
            q == t * t,
            c == q * t,
    ;
    let h0 = three_m * t;
    assert(h0 == 3000 * t - 3 * q) by (nonlinear_arith)
        requires
            h0 == three_m * t,
            three_m == 3 * m,
            m == 1000 - t,
            q == t * t,
    ;
    let k2 = h0 * t;
    assert(k2 == 3000 * q - 3 * c) by (nonlinear_arith)
        requires
            k2 == h0 * t,
            h0 == 3000 * t - 3 * q,
            q == t * t,
            c == q * t,
    ;
    let a = rise_a(t);
    let b = rise_b(t);
    assert(k1 == a - b);
    assert(k2 == b - c);
    assert(y1 * a + (y2 - y1) * b + (1000 - y2) * c == (a - b) * y1 + (b - c) * y2 + c * 1000)
        by (nonlinear_arith);
    assert(cubic_numerator(t, y1, y2) == k1 * y1 + k2 * y2 + c * 1000);
}

/// `A`, `B` and `C` rise with `t`.
proof fn lemma_pieces_rise(p: int, r: int)
    requires
        0 <= p <= r <= 1000,
    ensures
        rise_a(p) <= rise_a(r),
        rise_b(p) <= rise_b(r),
        rise_c(p) <= rise_c(r),
{
    let pp = p * p;
    let rr = r * r;
    let rp = r * p;
    let ppp = pp * p;
    let rrr = rr * r;
    let d = r - p;
    // The differences of squares and of cubes.
    assert(d * (r + p) == rr - pp) by (nonlinear_arith)
        requires
            d == r - p,
            rr == r * r,
            pp == p * p,
    ;
    let s = rr + rp + pp;
    assert(d * s == rrr - ppp) by (nonlinear_arith)
        requires
            d == r - p,
            s == rr + rp + pp,
            rr == r * r,
            pp == p * p,
            rp == r * p,
            rrr == rr * r,
            ppp == pp * p,
    ;
    assert(0 <= pp <= 1000 * p && 0 <= rr <= 1000 * r && 0 <= rp <= 1000 * p && rp <= 1000 * r)
        by (nonlinear_arith)
        requires
            0 <= p <= r <= 1000,
            pp == p * p,
            rr == r * r,
            rp == r * p,
    ;
    // C rises.
    assert(d * s >= 0) by (nonlinear_arith)
        requires
            d >= 0,
            s >= 0,
    ;
    // B rises: its difference is d·(3000·(r + p) - 2·s).
    let sb = 3000 * (r + p) - 2 * s;
    assert(sb >= 0);
    assert(d * sb == 3000 * (d * (r + p)) - 2 * (d * s)) by (nonlinear_arith)
        requires
            sb == 3000 * (r + p) - 2 * s,
    ;
    assert(d * sb >= 0) by (nonlinear_arith)
        requires
            d >= 0,
            sb >= 0,
    ;
    // A rises: its difference is d·((1000-r)² + (1000-r)(1000-p) + (1000-p)²).
    let mr = 1000 - r;
    let mp = 1000 - p;
    let sa = 3_000_000 - 3000 * (r + p) + s;
    assert(sa == mr * mr + mr * mp + mp * mp) by (nonlinear_arith)
        requires
            sa == 3_000_000 - 3000 * (r + p) + s,
            s == rr + rp + pp,
            rr == r * r,
            pp == p * p,
            rp == r * p,
            mr == 1000 - r,
            mp == 1000 - p,
    ;
    assert(mr * mr + mr * mp + mp * mp >= 0) by (nonlinear_arith)
        requires
            mr >= 0,
            mp >= 0,
    ;
    assert(d * sa == 3_000_000 * d - 3000 * (d * (r + p)) + d * s) by (nonlinear_arith)
        requires
            sa == 3_000_000 - 3000 * (r + p) + s,
    ;
    assert(d * sa >= 0) by (nonlinear_arith)
        requires
            d >= 0,
            sa >= 0,
    ;
}

/// With control values that rise from 0 to 1000, the curve before it is
/// brought back to thousandths rises with `t`.
proof fn lemma_numerator_rises(p: int, r: int, y1: int, y2: int)
    requires
        0 <= p <= r <= 1000,
        0 <= y1 <= y2 <= 1000,
    ensures
        cubic_numerator(p, y1, y2) <= cubic_numerator(r, y1, y2),
{
    lemma_regroup(p, y1, y2);
    lemma_regroup(r, y1, y2);
    lemma_pieces_rise(p, r);
    let w1 = y1;
    let w2 = y2 - y1;
    let w3 = 1000 - y2;
    assert(w1 * rise_a(p) <= w1 * rise_a(r)) by (nonlinear_arith)
        requires
            w1 >= 0,
            rise_a(p) <= rise_a(r),
    ;
    assert(w2 * rise_b(p) <= w2 * rise_b(r)) by (nonlinear_arith)
        requires
            w2 >= 0,
            rise_b(p) <= rise_b(r),
    ;
    assert(w3 * rise_c(p) <= w3 * rise_c(r)) by (nonlinear_arith)
        requires
            w3 >= 0,
            rise_c(p) <= rise_c(r),
    ;
}

/// Truncating division by a positive number keeps the order.
pub proof fn lemma_trunc_div_monotone(a: int, b: int, d: int)
    requires
        a <= b,
        d > 0,
    ensures
        trunc_div(a, d) <= trunc_div(b, d),
{
    if a >= 0 {
        vstd::arithmetic::div_mod::lemma_div_is_ordered(a, b, d);
    } else if b < 0 {
        vstd::arithmetic::div_mod::lemma_div_is_ordered(-b, -a, d);
    } else {
        vstd::arithmetic::div_mod::lemma_div_pos_is_pos(-a, d);
        vstd::arithmetic::div_mod::lemma_div_pos_is_pos(b, d);
    }
}

/// An easing that never moves backwards gives no less eased progress for
/// more raw progress.
pub proof fn lemma_eased_progress_rises(p: int, r: int, easing: EasingFunction)
    requires
        0 <= p <= r <= 1000,
        never_backwards(easing),
    ensures
        eased(p, easing) <= eased(r, easing),
{
    match easing {
        EasingFunction::Cubic(_, y1, _, y2) => {
            lemma_numerator_rises(p, r, y1 as int, y2 as int);
            lemma_trunc_div_monotone(
                cubic_numerator(p, y1 as int, y2 as int),
                cubic_numerator(r, y1 as int, y2 as int),
                1_000_000_000,
            );
        },
        _ => {
            lemma_easing_monotone(p, r, easing);
        },
    }
}

/// A cubic curve whose control values rise from 0 to 1000 starts at 0 and
/// ends at 1000.
pub proof fn lemma_cubic_ends(y1: int, y2: int)
    ensures
        cubic_curve(0, y1, y2) == 0,
        cubic_curve(1000, y1, y2) == 1000,
{
    assert(3 * (1000 - 0) * (1000 - 0) * 0 * y1 == 0) by (nonlinear_arith);
    assert(3 * (1000 - 0) * 0 * 0 * y2 == 0) by (nonlinear_arith);
    assert(3 * (1000 - 1000) * (1000 - 1000) * 1000 * y1 == 0) by (nonlinear_arith);
    assert(3 * (1000 - 1000) * 1000 * 1000 * y2 == 0) by (nonlinear_arith);
}


/// An easing that never moves backwards starts at 0 and ends at 1000.
pub proof fn lemma_eased_ends(easing: EasingFunction)
    requires
        never_backwards(easing),
    ensures
        eased(0, easing) == 0,
        eased(1000, easing) == 1000,
{
    match easing {
        EasingFunction::Cubic(_, y1, _, y2) => {
            lemma_cubic_ends(y1 as int, y2 as int);
        },
        _ => {
            lemma_easing_ends(easing);
        },
    }
}

/// An animation with a single iteration, sampled at rising timestamps:
/// with an easing that never moves backwards its eased progress never
/// falls and never passes 1000; its raw progress is 1000 exactly from the
/// end of the iteration on, and its eased progress is 1000 then; and the
/// tick that sees the end takes the animation out of the running set,
/// while every earlier tick leaves it as it is.
pub proof fn lemma_single_run(running: ActiveAnimation, earlier: u64, later: u64)
    requires
        earlier <= later,
        never_backwards(running.animation.easing),
        running.animation.loop_count == 1,
        running.current_iteration == 0,
    ensures
        0 <= eased(progress_at(running, earlier), running.animation.easing) <= eased(
            progress_at(running, later),
            running.animation.easing,
        ) <= 1000,
        progress_at(running, later) == 1000 <==> elapsed_since(running.start_time, later)
            >= running.animation.duration,
        progress_at(running, later) == 1000 ==> eased(
            progress_at(running, later),
            running.animation.easing,
        ) == 1000 && advanced(seq![running], later) == Seq::<ActiveAnimation>::empty(),
        progress_at(running, later) < 1000 ==> advanced(seq![running], later) == seq![running],
{
    let start = running.start_time;
    let duration = running.animation.duration;
    let easing = running.animation.easing;
    lemma_raw_progress_monotone(start, duration, earlier, later);
    lemma_raw_progress_monotone(start, duration, later, later);
    lemma_raw_progress_complete(elapsed_since(start, later), duration as int);
    lemma_eased_progress_rises(progress_at(running, earlier), progress_at(running, later), easing);
    lemma_eased_progress_rises(0, progress_at(running, earlier), easing);
    lemma_eased_progress_rises(progress_at(running, later), 1000, easing);
    lemma_eased_ends(easing);
    let one = seq![running];
    assert(one.drop_last() =~= Seq::<ActiveAnimation>::empty());
    assert(one.last() == running);
    assert(advanced(one.drop_last(), later) =~= Seq::<ActiveAnimation>::empty());
    if progress_at(running, later) < 1000 {
        assert(advanced(one, later) =~= one);
    } else {
        assert(!repeats(running));
        assert(advanced(one, later) =~= Seq::<ActiveAnimation>::empty());
    }
}

/// Among running animations with distinct ids, the tick that sees the end
/// of an animation with a single iteration finds its progress at 1000 and
/// takes it out: whatever else runs, nothing runs under its id afterwards.
pub proof fn lemma_finished_run_leaves(active: Seq<ActiveAnimation>, k: int, timestamp: u64)
    requires
        distinct_ids(active),
        0 <= k < active.len(),
        active[k].animation.loop_count == 1,
        active[k].current_iteration == 0,
        elapsed_since(active[k].start_time, timestamp) >= active[k].animation.duration,
    ensures
        progress_at(active[k], timestamp) == 1000,
        advance_one(active[k], timestamp) is None,
        !is_running(advanced(active, timestamp), active[k].animation.id@),
{
    lemma_raw_progress_complete(
        elapsed_since(active[k].start_time, timestamp),
        active[k].animation.duration as int,
    );
    assert(!repeats(active[k]));
    lemma_finished_is_gone(active, timestamp, k);
}

} // verus!
