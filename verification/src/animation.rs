//! Keyframe animations: easing, interpolation and the set of running
//! animations.
//!
//! Progress and keyframe times are thousandths of the length of one
//! iteration: 0 is the start and 1000 the end.

use crate::changes::ElementChange;
use crate::clock::get_current_timestamp;
use crate::error::WASMError;
use crate::numeric::{clamp_int, div_trunc, lemma_trunc_div_bounded, saturate_i64, trunc_div};
use crate::properties::{find_property, position_of, Property, PropertyValue};
use crate::seqs::{lemma_pass_end, lemma_pass_start, lemma_pass_step};
use vstd::prelude::*;
use vstd::string::*;

verus! {

/// What an animation changes.
#[derive(Clone, Copy, Debug, PartialEq, Eq, Structural)]
pub enum AnimationType {
    Transform,
    Style,
    Path,
    Morph,
}

/// The kind of animation that the host calls `name`, if it calls one so.
pub open spec fn animation_type_called(name: Seq<char>) -> Option<AnimationType> {
    if name == "transform"@ {
        Some(AnimationType::Transform)
    } else if name == "style"@ {
        Some(AnimationType::Style)
    } else if name == "path"@ {
        Some(AnimationType::Path)
    } else if name == "morph"@ {
        Some(AnimationType::Morph)
    } else {
        None
    }
}

impl AnimationType {
    /// The kind of animation that the host calls `name`, if it calls one so.
    pub fn from_host_name(name: &str) -> (r: Option<AnimationType>)
        ensures
            r == animation_type_called(name@),
    {
        if crate::properties::same_text(name, "transform") {
            Some(AnimationType::Transform)
        } else if crate::properties::same_text(name, "style") {
            Some(AnimationType::Style)
        } else if crate::properties::same_text(name, "path") {
            Some(AnimationType::Path)
        } else if crate::properties::same_text(name, "morph") {
            Some(AnimationType::Morph)
        } else {
            None
        }
    }
}

/// How progress in time becomes progress in value.
#[derive(Clone, Copy, Debug, PartialEq, Eq, Structural)]
pub enum EasingFunction {
    Linear,
    EaseIn,
    EaseOut,
    EaseInOut,
    /// The control values `x1, y1, x2, y2` of a cubic curve, in thousandths.
    /// Only `y1` and `y2` shape the curve.
    Cubic(i32, i32, i32, i32),
}

/// The way in which an animation plays its iterations.
#[derive(Clone, Copy, Debug, PartialEq, Eq, Structural)]
pub enum AnimationDirection {
    Normal,
    Reverse,
    Alternate,
    AlternateReverse,
}

/// The values of some properties at one point of an iteration.
#[derive(Debug)]
pub struct Keyframe {
    /// Thousandths of the iteration, 0 to 1000.
    pub time: u32,
    pub properties: Vec<Property>,
}

/// The timeline of some properties of one element.
#[derive(Debug)]
pub struct Animation {
    pub id: String,
    pub target_element: String,
    pub animation_type: AnimationType,
    /// Milliseconds for one iteration.
    pub duration: u64,
    pub easing: EasingFunction,
    pub keyframes: Vec<Keyframe>,
    /// The number of iterations, or -1 for no end.
    pub loop_count: i32,
    pub direction: AnimationDirection,
}

/// An animation that is running.
#[derive(Debug)]
pub struct ActiveAnimation {
    pub animation: Animation,
    pub start_time: u64,
    pub current_iteration: i32,
}

/// The time from `start` to `timestamp`; none when `timestamp` is earlier.
pub open spec fn elapsed_since(start: u64, timestamp: u64) -> int {
    if timestamp >= start {
        timestamp - start
    } else {
        0
    }
}

/// The part of an iteration that has passed, in thousandths, at most 1000.
/// An iteration of no length is over at once.
pub open spec fn raw_progress(elapsed: int, duration: int) -> int {
    if duration <= 0 {
        1000
    } else if elapsed >= duration {
        1000
    } else {
        elapsed * 1000 / duration
    }
}

/// The value of the cubic curve with control values `y1` and `y2` at `t`,
/// all in thousandths: `3(1-t)²t·y1 + 3(1-t)t²·y2 + t³`.
pub open spec fn cubic_curve(t: int, y1: int, y2: int) -> int {
    trunc_div(
        3 * (1000 - t) * (1000 - t) * t * y1 + 3 * (1000 - t) * t * t * y2 + t * t * t * 1000,
        1_000_000_000,
    )
}

/// Eased progress for the raw progress `progress`, both in thousandths.
pub open spec fn eased(progress: int, easing: EasingFunction) -> int {
    match easing {
        EasingFunction::Linear => progress,
        EasingFunction::EaseIn => progress * progress / 1000,
        EasingFunction::EaseOut => 1000 - (1000 - progress) * (1000 - progress) / 1000,
        EasingFunction::EaseInOut => if progress < 500 {
            2 * (progress * progress) / 1000
        } else {
            1000 - 2 * ((1000 - progress) * (1000 - progress)) / 1000
        },
        EasingFunction::Cubic(_, y1, _, y2) => cubic_curve(progress, y1 as int, y2 as int),
    }
}


/// Computes eased progress.
pub fn apply_easing(progress: u32, easing: &EasingFunction) -> (r: i64)
    requires
        progress <= 1000,
    ensures
        r == eased(progress as int, *easing),
{
    let p: i64 = progress as i64;
    let q: i64 = 1000 - p;
    assert(0 <= p * p <= 1_000_000 && 0 <= q * q <= 1_000_000) by (nonlinear_arith)
        requires
            0 <= p <= 1000,
            0 <= q <= 1000,
    ;
    match easing {
        EasingFunction::Linear => p,
        EasingFunction::EaseIn => p * p / 1000,
        EasingFunction::EaseOut => 1000 - q * q / 1000,
        EasingFunction::EaseInOut => {
            if p < 500 {
                2 * (p * p) / 1000
            } else {
                1000 - 2 * (q * q) / 1000
            }
        },
        EasingFunction::Cubic(_, y1, _, y2) => {
            let t: i128 = p as i128;
            let mt: i128 = q as i128;
            let a: i128 = *y1 as i128;
            let b: i128 = *y2 as i128;
            proof {
                lemma_cubic_terms_bounded(t as int, a as int, b as int);
            }
            let first: i128 = 3 * mt * mt * t * a;
            let second: i128 = 3 * mt * t * t * b;
            let third: i128 = t * t * t * 1000;
            let curve: i128 = div_trunc(first + second + third, 1_000_000_000);
            proof {
                lemma_cubic_curve_bounded(t as int, a as int, b as int);
            }
            curve as i64
        },
    }
}

/// The terms of the cubic curve stay far inside 128 bits.
pub proof fn lemma_cubic_terms_bounded(t: int, y1: int, y2: int)
    requires
        0 <= t <= 1000,
        -0x8000_0000 <= y1 <= 0x8000_0000,
        -0x8000_0000 <= y2 <= 0x8000_0000,
    ensures
        0 <= 3 * (1000 - t) <= 3000,
        0 <= 3 * (1000 - t) * (1000 - t) <= 3_000_000,
        0 <= 3 * (1000 - t) * (1000 - t) * t <= 3_000_000_000,
        -3_000_000_000 * 0x8000_0000 <= 3 * (1000 - t) * (1000 - t) * t * y1 <= 3_000_000_000
            * 0x8000_0000,
        0 <= 3 * (1000 - t) * t <= 3_000_000,
        0 <= 3 * (1000 - t) * t * t <= 3_000_000_000,
        -3_000_000_000 * 0x8000_0000 <= 3 * (1000 - t) * t * t * y2 <= 3_000_000_000 * 0x8000_0000,
        0 <= t * t <= 1_000_000,
        0 <= t * t * t <= 1_000_000_000,
        0 <= t * t * t * 1000 <= 1_000_000_000_000,
{
    let m = 1000 - t;
    assert(0 <= 3 * m * m <= 3_000_000) by (nonlinear_arith)
        requires
            0 <= m <= 1000,
    ;
    assert(0 <= 3 * m * m * t <= 3_000_000_000) by (nonlinear_arith)
        requires
            0 <= 3 * m * m <= 3_000_000,
            0 <= t <= 1000,
    ;
    let u = 3 * m * m * t;
    assert(-3_000_000_000 * 0x8000_0000 <= u * y1 <= 3_000_000_000 * 0x8000_0000)
        by (nonlinear_arith)
        requires
            0 <= u <= 3_000_000_000,
            -0x8000_0000 <= y1 <= 0x8000_0000,
    ;
    assert(0 <= 3 * m * t <= 3_000_000) by (nonlinear_arith)
        requires
            0 <= m <= 1000,
            0 <= t <= 1000,
    ;
    assert(0 <= 3 * m * t * t <= 3_000_000_000) by (nonlinear_arith)
        requires
            0 <= 3 * m * t <= 3_000_000,
            0 <= t <= 1000,
    ;
    let v = 3 * m * t * t;
    assert(-3_000_000_000 * 0x8000_0000 <= v * y2 <= 3_000_000_000 * 0x8000_0000)
        by (nonlinear_arith)
        requires
            0 <= v <= 3_000_000_000,
            -0x8000_0000 <= y2 <= 0x8000_0000,
    ;
    assert(0 <= t * t <= 1_000_000) by (nonlinear_arith)
        requires
            0 <= t <= 1000,
    ;
    assert(0 <= t * t * t <= 1_000_000_000) by (nonlinear_arith)
        requires
            0 <= t * t <= 1_000_000,
            0 <= t <= 1000,
    ;
}

/// The cubic curve fits in 64 bits.
pub proof fn lemma_cubic_curve_bounded(t: int, y1: int, y2: int)
    requires
        0 <= t <= 1000,
        -0x8000_0000 <= y1 <= 0x8000_0000,
        -0x8000_0000 <= y2 <= 0x8000_0000,
    ensures
        -0x4000_0000_0000 <= cubic_curve(t, y1, y2) <= 0x4000_0000_0000,
{
    lemma_cubic_terms_bounded(t, y1, y2);
}

/// Raw progress never moves backwards as time passes.
pub proof fn lemma_raw_progress_monotone(start: u64, duration: u64, earlier: u64, later: u64)
    requires
        earlier <= later,
    ensures
        0 <= raw_progress(elapsed_since(start, earlier), duration as int) <= raw_progress(
            elapsed_since(start, later),
            duration as int,
        ) <= 1000,
{
    let e1 = elapsed_since(start, earlier);
    let e2 = elapsed_since(start, later);
    let d = duration as int;
    if d > 0 {
        if e1 < d {
            assert(0 <= e1 * 1000 / d < 1000) by (nonlinear_arith)
                requires
                    0 <= e1 < d,
            ;
        }
        if e2 < d {
            assert(e1 * 1000 / d <= e2 * 1000 / d) by (nonlinear_arith)
                requires
                    0 <= e1 <= e2,
                    d > 0,
            ;
            assert(0 <= e2 * 1000 / d < 1000) by (nonlinear_arith)
                requires
                    0 <= e2 < d,
            ;
        }
    }
}

/// Raw progress is 1000 exactly when a whole iteration has passed.
pub proof fn lemma_raw_progress_complete(elapsed: int, duration: int)
    requires
        elapsed >= 0,
    ensures
        raw_progress(elapsed, duration) == 1000 <==> (duration <= 0 || elapsed >= duration),
{
    if duration > 0 && elapsed < duration {
        assert(elapsed * 1000 / duration < 1000) by (nonlinear_arith)
            requires
                0 <= elapsed < duration,
        ;
    }
}

/// Every named easing starts at 0 and ends at 1000.
pub proof fn lemma_easing_ends(easing: EasingFunction)
    requires
        !(easing is Cubic),
    ensures
        eased(0, easing) == 0,
        eased(1000, easing) == 1000,
{
}


/// Dividing by a thousand keeps the order.
proof fn lemma_div_thousand_monotone(a: int, b: int)
    requires
        a <= b,
    ensures
        a / 1000 <= b / 1000,
{
    vstd::arithmetic::div_mod::lemma_div_is_ordered(a, b, 1000);
}

/// With a named easing, eased progress never moves backwards as raw
/// progress rises.
pub proof fn lemma_easing_monotone(p: int, q: int, easing: EasingFunction)
    requires
        0 <= p <= q <= 1000,
        !(easing is Cubic),
    ensures
        eased(p, easing) <= eased(q, easing),
{
    assert(p * p <= q * q) by (nonlinear_arith)
        requires
            0 <= p <= q,
    ;
    assert((1000 - q) * (1000 - q) <= (1000 - p) * (1000 - p)) by (nonlinear_arith)
        requires
            0 <= 1000 - q <= 1000 - p,
    ;
    match easing {
        EasingFunction::Linear => {},
        EasingFunction::EaseIn => {
            lemma_div_thousand_monotone(p * p, q * q);
        },
        EasingFunction::EaseOut => {
            lemma_div_thousand_monotone((1000 - q) * (1000 - q), (1000 - p) * (1000 - p));
        },
        EasingFunction::EaseInOut => {
            if q < 500 {
                lemma_div_thousand_monotone(2 * (p * p), 2 * (q * q));
            } else if p >= 500 {
                lemma_div_thousand_monotone(
                    2 * ((1000 - q) * (1000 - q)),
                    2 * ((1000 - p) * (1000 - p)),
                );
            } else {
                // p < 500 <= q: the first half stays under 500, the second
                // half at or over it.
                assert(p * p <= 499 * 499) by (nonlinear_arith)
                    requires
                        0 <= p <= 499,
                ;
                assert((1000 - q) * (1000 - q) <= 500 * 500) by (nonlinear_arith)
                    requires
                        0 <= 1000 - q <= 500,
                ;
                lemma_div_thousand_monotone(2 * (p * p), 498_002int);
                lemma_div_thousand_monotone(2 * ((1000 - q) * (1000 - q)), 500_000int);
            }
        },
        EasingFunction::Cubic(_, _, _, _) => {},
    }
}


/// How far `progress` is on the way from a keyframe at `prev_time` to one at
/// `next_time`, in thousandths; zero where the two keyframes coincide.
pub open spec fn local_progress(progress: int, prev_time: int, next_time: int) -> int {
    if next_time > prev_time {
        clamp_int(
            trunc_div((progress - prev_time) * 1000, next_time - prev_time),
            i64::MIN as int,
            i64::MAX as int,
        )
    } else {
        0
    }
}

/// The number `local` thousandths of the way from `prev` to `next`.
pub open spec fn lerp(prev: int, next: int, local: int) -> int {
    clamp_int(prev + trunc_div((next - prev) * local, 1000), i64::MIN as int, i64::MAX as int)
}

/// The value `local` thousandths of the way from `prev` to `next`: numbers
/// move in a straight line, anything else jumps to `next` past the middle.
pub open spec fn interpolated_value(
    prev: PropertyValue,
    next: PropertyValue,
    local: int,
) -> PropertyValue {
    match (prev, next) {
        (PropertyValue::Number(p), PropertyValue::Number(n)) => PropertyValue::Number(
            lerp(p as int, n as int, local) as i64,
        ),
        _ => if local > 500 {
            next
        } else {
            prev
        },
    }
}

/// Computes the value `progress` thousandths of the way from `prev` to
/// `next`.
pub fn interpolate_values(prev: &PropertyValue, next: &PropertyValue, progress: i64) -> (r:
    PropertyValue)
    ensures
        r == interpolated_value(*prev, *next, progress as int),
{
    match (prev, next) {
        (PropertyValue::Number(p), PropertyValue::Number(n)) => {
            let span: i128 = *n as i128 - *p as i128;
            assert(-0x8000_0000_0000_0000_0000_0000_0000_0000 < span * (progress as i128)
                < 0x8000_0000_0000_0000_0000_0000_0000_0000) by (nonlinear_arith)
                requires
                    -0x1_0000_0000_0000_0000 < span < 0x1_0000_0000_0000_0000,
                    -0x8000_0000_0000_0000 <= (progress as i128) < 0x8000_0000_0000_0000,
            ;
            let moved: i128 = div_trunc(span * (progress as i128), 1000);
            proof {
                lemma_trunc_div_bounded(span * (progress as i128), 1000);
            }
            PropertyValue::Number(saturate_i64(*p as i128 + moved))
        },
        _ => {
            if progress > 500 {
                next.duplicate()
            } else {
                prev.duplicate()
            }
        },
    }
}

/// The index of the first keyframe at or after `from` that brackets
/// `progress` with its successor, or the index of the last keyframe when no
/// pair does.
pub open spec fn bracket_from(keyframes: Seq<Keyframe>, progress: int, from: int) -> int
    decreases keyframes.len() - from,
{
    if from + 1 >= keyframes.len() {
        keyframes.len() - 1
    } else if keyframes[from].time <= progress && progress <= keyframes[from + 1].time {
        from
    } else {
        bracket_from(keyframes, progress, from + 1)
    }
}

/// The index of the keyframe that interpolation starts from: the first of
/// the bracketing pair, or the first keyframe when no pair brackets.
pub open spec fn previous_index(keyframes: Seq<Keyframe>, progress: int) -> int {
    let found = bracket_from(keyframes, progress, 0);
    if found + 1 < keyframes.len() {
        found
    } else {
        0
    }
}

/// The index of the keyframe that interpolation moves toward: the second
/// of the bracketing pair, or the last keyframe when no pair brackets.
pub open spec fn next_index(keyframes: Seq<Keyframe>, progress: int) -> int {
    let found = bracket_from(keyframes, progress, 0);
    if found + 1 < keyframes.len() {
        found + 1
    } else {
        keyframes.len() - 1
    }
}

/// The property `prev` moved toward the property of the same name among
/// `next`, or unchanged when `next` has none of that name.
pub open spec fn interpolated_property(prev: Property, next: Seq<Property>, local: int) -> Property {
    let at = position_of(next, prev.name@);
    if at < next.len() {
        Property { name: prev.name, value: interpolated_value(prev.value, next[at].value, local) }
    } else {
        prev
    }
}

/// The properties of an animation at eased progress `progress`.
pub open spec fn interpolated(keyframes: Seq<Keyframe>, progress: int) -> Seq<Property> {
    if keyframes.len() == 0 {
        Seq::empty()
    } else {
        let prev = keyframes[previous_index(keyframes, progress)];
        let next = keyframes[next_index(keyframes, progress)];
        let local = local_progress(progress, prev.time as int, next.time as int);
        Seq::new(
            prev.properties@.len(),
            |j: int| interpolated_property(prev.properties@[j], next.properties@, local),
        )
    }
}

/// The search for a bracketing pair stays inside the keyframes.
pub proof fn lemma_bracket_from(keyframes: Seq<Keyframe>, progress: int, from: int)
    requires
        0 <= from,
        from < keyframes.len(),
    ensures
        from <= bracket_from(keyframes, progress, from) < keyframes.len(),
    decreases keyframes.len() - from,
{
    if from + 1 < keyframes.len() && !(keyframes[from].time <= progress && progress
        <= keyframes[from + 1].time) {
        lemma_bracket_from(keyframes, progress, from + 1);
    }
}

/// Computes the properties of an animation at eased progress `progress`.
pub fn interpolate_keyframes(keyframes: &Vec<Keyframe>, progress: i64) -> (r: Vec<Property>)
    ensures
        r@ == interpolated(keyframes@, progress as int),
{
    let mut result: Vec<Property> = Vec::new();
    if keyframes.len() == 0 {
        assert(result@ =~= interpolated(keyframes@, progress as int));
        return result;
    }
    let mut prev_at: usize = 0;
    let mut next_at: usize = keyframes.len() - 1;
    let mut i: usize = 0;
    proof {
        lemma_bracket_from(keyframes@, progress as int, 0);
    }
    while i + 1 < keyframes.len()
        invariant_except_break
            prev_at == 0,
            next_at == keyframes.len() - 1,
            bracket_from(keyframes@, progress as int, 0) == bracket_from(
                keyframes@,
                progress as int,
                i as int,
            ),
        invariant
            keyframes.len() > 0,
            i < keyframes.len(),
        ensures
            prev_at == previous_index(keyframes@, progress as int),
            next_at == next_index(keyframes@, progress as int),
            prev_at < keyframes.len(),
            next_at < keyframes.len(),
        decreases keyframes.len() - i,
    {
        if keyframes[i].time as i64 <= progress && progress <= keyframes[i + 1].time as i64 {
            prev_at = i;
            next_at = i + 1;
            break ;
        }
        i += 1;
    }
    let prev = &keyframes[prev_at];
    let next = &keyframes[next_at];
    let local: i64 = if next.time > prev.time {
        let span: i128 = (next.time - prev.time) as i128;
        let ahead: i128 = (progress as i128 - prev.time as i128) * 1000;
        saturate_i64(div_trunc(ahead, span))
    } else {
        0
    };
    let mut j: usize = 0;
    while j < prev.properties.len()
        invariant
            j <= prev.properties.len(),
            result@.len() == j,
            forall|k: int|
                0 <= k < j ==> result@[k] == interpolated_property(
                    prev.properties@[k],
                    next.properties@,
                    local as int,
                ),
        decreases prev.properties.len() - j,
    {
        let source = &prev.properties[j];
        let at = find_property(&next.properties, &source.name);
        let moved = if at < next.properties.len() {
            Property {
                name: source.name.clone(),
                value: interpolate_values(&source.value, &next.properties[at].value, local),
            }
        } else {
            source.duplicate()
        };
        result.push(moved);
        j += 1;
    }
    assert(result@ =~= interpolated(keyframes@, progress as int));
    result
}

/// Raw progress of a running animation at `timestamp`, in thousandths.
pub open spec fn progress_at(running: ActiveAnimation, timestamp: u64) -> int {
    raw_progress(elapsed_since(running.start_time, timestamp), running.animation.duration as int)
}

/// The iteration count after one more iteration; it stops at the top of
/// its range.
pub open spec fn next_iteration(running: ActiveAnimation) -> i32 {
    if running.current_iteration < i32::MAX {
        (running.current_iteration + 1) as i32
    } else {
        running.current_iteration
    }
}

/// Whether an animation that has finished an iteration starts another.
pub open spec fn repeats(running: ActiveAnimation) -> bool {
    running.animation.loop_count == -1 || next_iteration(running) < running.animation.loop_count
}

/// A running animation after a tick at `timestamp`: unchanged while its
/// iteration lasts, restarted when it repeats, gone when it is over.
pub open spec fn advance_one(running: ActiveAnimation, timestamp: u64) -> Option<ActiveAnimation> {
    if progress_at(running, timestamp) < 1000 {
        Some(running)
    } else if repeats(running) {
        Some(
            ActiveAnimation {
                animation: running.animation,
                start_time: timestamp,
                current_iteration: next_iteration(running),
            },
        )
    } else {
        None
    }
}

/// The running animations after a tick at `timestamp`, in their order.
pub open spec fn advanced(active: Seq<ActiveAnimation>, timestamp: u64) -> Seq<ActiveAnimation>
    decreases active.len(),
{
    if active.len() == 0 {
        active
    } else {
        let rest = advanced(active.drop_last(), timestamp);
        match advance_one(active.last(), timestamp) {
            Some(running) => rest.push(running),
            None => rest,
        }
    }
}

/// The running animations without those whose id is `id`.
pub open spec fn stopped(active: Seq<ActiveAnimation>, id: Seq<char>) -> Seq<ActiveAnimation>
    decreases active.len(),
{
    if active.len() == 0 {
        active
    } else {
        let rest = stopped(active.drop_last(), id);
        if active.last().animation.id@ == id {
            rest
        } else {
            rest.push(active.last())
        }
    }
}

/// The index of the first running animation whose id is `id`, or the number
/// of running animations when there is none.
pub open spec fn index_of_animation(active: Seq<ActiveAnimation>, id: Seq<char>) -> int
    decreases active.len(),
{
    if active.len() == 0 {
        0
    } else if active[0].animation.id@ == id {
        0
    } else {
        1 + index_of_animation(active.drop_first(), id)
    }
}

/// The running animations after `animation` starts at `now`: it takes the
/// place of a running animation with its id, or joins at the end.
pub open spec fn started(active: Seq<ActiveAnimation>, animation: Animation, now: u64) -> Seq<
    ActiveAnimation,
> {
    let entry = ActiveAnimation { animation, start_time: now, current_iteration: 0 };
    let at = index_of_animation(active, animation.id@);
    if at < active.len() {
        active.update(at, entry)
    } else {
        active.push(entry)
    }
}

/// Whether `change` reports the running animation `running` at `timestamp`:
/// its id, its eased progress and its interpolated properties.
pub open spec fn reports(change: ElementChange, running: ActiveAnimation, timestamp: u64) -> bool {
    match change {
        ElementChange::AnimationUpdate { animation_id, progress, values } => {
            &&& animation_id == running.animation.id
            &&& progress == eased(progress_at(running, timestamp), running.animation.easing)
            &&& values@ == interpolated(running.animation.keyframes@, progress as int)
        },
        _ => false,
    }
}

/// `index_of_animation` gives the first index that holds the id, or the
/// length.
pub proof fn lemma_index_of_animation(active: Seq<ActiveAnimation>, id: Seq<char>)
    ensures
        0 <= index_of_animation(active, id) <= active.len(),
        index_of_animation(active, id) < active.len() ==> active[index_of_animation(
            active,
            id,
        )].animation.id@ == id,
        forall|j: int|
            0 <= j < index_of_animation(active, id) ==> (#[trigger] active[j]).animation.id@ != id,
    decreases active.len(),
{
    if active.len() > 0 && active[0].animation.id@ != id {
        let rest = active.drop_first();
        lemma_index_of_animation(rest, id);
        let p = index_of_animation(rest, id);
        assert forall|j: int| 0 <= j < 1 + p implies (#[trigger] active[j]).animation.id@
            != id by {
            if j > 0 {
                assert(active[j] == rest[j - 1]);
            }
        }
        if p < rest.len() {
            assert(active[1 + p] == rest[p]);
        }
    }
}

/// Whether no two running animations have the same id.
pub open spec fn distinct_ids(active: Seq<ActiveAnimation>) -> bool {
    forall|i: int, j: int|
        #![trigger active[i], active[j]]
        0 <= i < j < active.len() ==> active[i].animation.id@ != active[j].animation.id@
}

/// Whether an animation with the id `id` is among the running ones.
pub open spec fn is_running(active: Seq<ActiveAnimation>, id: Seq<char>) -> bool {
    exists|j: int| 0 <= j < active.len() && (#[trigger] active[j]).animation.id@ == id
}

/// Starting an animation keeps the ids of the running animations distinct,
/// and the animation is running afterwards.
pub proof fn lemma_started_distinct(active: Seq<ActiveAnimation>, animation: Animation, now: u64)
    requires
        distinct_ids(active),
    ensures
        distinct_ids(started(active, animation, now)),
        is_running(started(active, animation, now), animation.id@),
{
    lemma_index_of_animation(active, animation.id@);
    let at = index_of_animation(active, animation.id@);
    let after = started(active, animation, now);
    if at < active.len() {
        assert(after[at].animation.id@ == animation.id@);
        assert forall|i: int, j: int| 0 <= i < j < after.len() implies after[i].animation.id@
            != after[j].animation.id@ by {
            assert(after[i].animation.id@ == active[i].animation.id@);
            assert(after[j].animation.id@ == active[j].animation.id@);
        }
    } else {
        assert(after[active.len() as int].animation.id@ == animation.id@);
        assert forall|i: int, j: int| 0 <= i < j < after.len() implies after[i].animation.id@
            != after[j].animation.id@ by {
            assert(after[i] == active[i]);
            if j < active.len() {
                assert(after[j] == active[j]);
            }
        }
    }
}

/// Whatever runs after a tick ran before it, under the same id.
pub proof fn lemma_advanced_ids(active: Seq<ActiveAnimation>, timestamp: u64)
    ensures
        forall|i: int|
            0 <= i < advanced(active, timestamp).len() ==> is_running(
                active,
                (#[trigger] advanced(active, timestamp)[i]).animation.id@,
            ),
    decreases active.len(),
{
    if active.len() > 0 {
        let fewer = active.drop_last();
        let rest = advanced(fewer, timestamp);
        lemma_advanced_ids(fewer, timestamp);
        let after = advanced(active, timestamp);
        assert forall|i: int| 0 <= i < after.len() implies is_running(
            active,
            (#[trigger] after[i]).animation.id@,
        ) by {
            if i < rest.len() {
                assert(after[i] == rest[i]);
                let j = choose|j: int|
                    0 <= j < fewer.len() && (#[trigger] fewer[j]).animation.id@
                        == rest[i].animation.id@;
                assert(active[j] == fewer[j]);
            } else {
                assert(after[i].animation.id@ == active[active.len() - 1].animation.id@);
            }
        }
    }
}

/// A tick keeps the ids of the running animations distinct.
pub proof fn lemma_advanced_distinct(active: Seq<ActiveAnimation>, timestamp: u64)
    requires
        distinct_ids(active),
    ensures
        distinct_ids(advanced(active, timestamp)),
    decreases active.len(),
{
    if active.len() > 0 {
        let fewer = active.drop_last();
        let rest = advanced(fewer, timestamp);
        assert forall|i: int, j: int| 0 <= i < j < fewer.len() implies fewer[i].animation.id@
            != fewer[j].animation.id@ by {
            assert(fewer[i] == active[i] && fewer[j] == active[j]);
        }
        lemma_advanced_distinct(fewer, timestamp);
        lemma_advanced_ids(fewer, timestamp);
        let after = advanced(active, timestamp);
        assert forall|i: int, j: int| 0 <= i < j < after.len() implies after[i].animation.id@
            != after[j].animation.id@ by {
            assert(after[i] == rest[i]);
            if j < rest.len() {
                assert(after[j] == rest[j]);
            } else {
                assert(after[j].animation.id@ == active[active.len() - 1].animation.id@);
                let k = choose|k: int|
                    0 <= k < fewer.len() && (#[trigger] fewer[k]).animation.id@
                        == rest[i].animation.id@;
                assert(active[k] == fewer[k]);
                assert(active[k].animation.id@ != active[active.len() - 1].animation.id@);
            }
        }
    }
}

/// An animation that a tick takes out of the running set is gone: where
/// the ids of the running animations are distinct, no animation runs under
/// its id afterwards.
pub proof fn lemma_finished_is_gone(active: Seq<ActiveAnimation>, timestamp: u64, k: int)
    requires
        distinct_ids(active),
        0 <= k < active.len(),
        advance_one(active[k], timestamp) is None,
    ensures
        !is_running(advanced(active, timestamp), active[k].animation.id@),
    decreases active.len(),
{
    let fewer = active.drop_last();
    let rest = advanced(fewer, timestamp);
    let after = advanced(active, timestamp);
    let last = active.len() - 1;
    let gone = active[k].animation.id@;
    assert forall|i: int, j: int| 0 <= i < j < fewer.len() implies fewer[i].animation.id@
        != fewer[j].animation.id@ by {
        assert(fewer[i] == active[i] && fewer[j] == active[j]);
    }
    lemma_advanced_ids(fewer, timestamp);
    if k < last {
        assert(fewer[k] == active[k]);
        lemma_finished_is_gone(fewer, timestamp, k);
    }
    assert forall|i: int| 0 <= i < after.len() implies (#[trigger] after[i]).animation.id@
        != gone by {
        if i < rest.len() {
            assert(after[i] == rest[i]);
            if k == last {
                let j = choose|j: int|
                    0 <= j < fewer.len() && (#[trigger] fewer[j]).animation.id@
                        == rest[i].animation.id@;
                assert(active[j] == fewer[j]);
                assert(active[j].animation.id@ != active[last].animation.id@);
            }
        } else {
            assert(after[i].animation.id@ == active[last].animation.id@);
            assert(active[k].animation.id@ != active[last].animation.id@);
        }
    }
}

/// Whatever runs after an animation is stopped ran before, and nothing
/// runs under the id that was stopped.
pub proof fn lemma_stopped_ids(active: Seq<ActiveAnimation>, id: Seq<char>)
    ensures
        !is_running(stopped(active, id), id),
        forall|i: int|
            0 <= i < stopped(active, id).len() ==> is_running(
                active,
                (#[trigger] stopped(active, id)[i]).animation.id@,
            ),
    decreases active.len(),
{
    if active.len() > 0 {
        let fewer = active.drop_last();
        let rest = stopped(fewer, id);
        lemma_stopped_ids(fewer, id);
        let after = stopped(active, id);
        assert forall|i: int| 0 <= i < after.len() implies (#[trigger] after[i]).animation.id@
            != id && is_running(active, after[i].animation.id@) by {
            if i < rest.len() {
                assert(after[i] == rest[i]);
                let j = choose|j: int|
                    0 <= j < fewer.len() && (#[trigger] fewer[j]).animation.id@
                        == rest[i].animation.id@;
                assert(active[j] == fewer[j]);
            } else {
                assert(after[i] == active[active.len() - 1]);
            }
        }
    }
}

/// Stopping an animation keeps the ids of the running animations distinct.
pub proof fn lemma_stopped_distinct(active: Seq<ActiveAnimation>, id: Seq<char>)
    requires
        distinct_ids(active),
    ensures
        distinct_ids(stopped(active, id)),
    decreases active.len(),
{
    if active.len() > 0 {
        let fewer = active.drop_last();
        let rest = stopped(fewer, id);
        assert forall|i: int, j: int| 0 <= i < j < fewer.len() implies fewer[i].animation.id@
            != fewer[j].animation.id@ by {
            assert(fewer[i] == active[i] && fewer[j] == active[j]);
        }
        lemma_stopped_distinct(fewer, id);
        lemma_stopped_ids(fewer, id);
        let after = stopped(active, id);
        assert forall|i: int, j: int| 0 <= i < j < after.len() implies after[i].animation.id@
            != after[j].animation.id@ by {
            assert(after[i] == rest[i]);
            if j < rest.len() {
                assert(after[j] == rest[j]);
            } else {
                assert(after[j] == active[active.len() - 1]);
                let k = choose|k: int|
                    0 <= k < fewer.len() && (#[trigger] fewer[k]).animation.id@
                        == rest[i].animation.id@;
                assert(active[k] == fewer[k]);
                assert(active[k].animation.id@ != active[active.len() - 1].animation.id@);
            }
        }
    }
}

/// Finds the first of `active` with the id `id`.
fn find_animation(active: &Vec<ActiveAnimation>, id: &String) -> (r: usize)
    ensures
        r == index_of_animation(active@, id@),
        r <= active@.len(),
{
    let mut i: usize = 0;
    proof {
        lemma_index_of_animation(active@, id@);
    }
    let ghost target = index_of_animation(active@, id@);
    while i < active.len()
        invariant
            i <= active.len(),
            target == index_of_animation(active@, id@),
            forall|j: int| 0 <= j < i ==> (#[trigger] active@[j]).animation.id@ != id@,
            0 <= target <= active.len(),
            target < active.len() ==> active@[target].animation.id@ == id@,
            forall|j: int| 0 <= j < target ==> (#[trigger] active@[j]).animation.id@ != id@,
        decreases active.len() - i,
    {
        if active[i].animation.id == *id {
            return i;
        }
        i += 1;
    }
    i
}

/// Takes the animations with the id `id` out of `active`.
fn stop_among(active: &mut Vec<ActiveAnimation>, id: &String)
    ensures
        final(active)@ == stopped(old(active)@, id@),
{
    let ghost before = active@;
    let ghost mut seen: int = 0;
    let mut i: usize = 0;
    proof {
        lemma_pass_start(before);
    }
    while i < active.len()
        invariant
            0 <= seen <= before.len(),
            i <= active.len(),
            active@.take(i as int) == stopped(before.take(seen), id@),
            active@.skip(i as int) == before.skip(seen),
        decreases before.len() - seen,
    {
        let ghost current = active@;
        proof {
            lemma_pass_step(current, i as int, before, seen);
        }
        if active[i].animation.id == *id {
            active.remove(i);
        } else {
            i += 1;
        }
        proof {
            seen = seen + 1;
        }
    }
    proof {
        lemma_pass_end(active@, i as int, before, seen);
    }
}

/// Advances every animation of `active` to `timestamp` and reports each.
fn advance_among(active: &mut Vec<ActiveAnimation>, timestamp: u64) -> (changes: Vec<
    ElementChange,
>)
    ensures
        changes@.len() == old(active)@.len(),
        forall|k: int|
            0 <= k < old(active)@.len() ==> reports(
                #[trigger] changes@[k],
                old(active)@[k],
                timestamp,
            ),
        final(active)@ == advanced(old(active)@, timestamp),
{
    let mut changes: Vec<ElementChange> = Vec::new();
    let ghost before = active@;
    let ghost mut seen: int = 0;
    let mut i: usize = 0;
    proof {
        lemma_pass_start(before);
    }
    while i < active.len()
        invariant
            0 <= seen <= before.len(),
            i <= active.len(),
            active@.take(i as int) == advanced(before.take(seen), timestamp),
            active@.skip(i as int) == before.skip(seen),
            changes@.len() == seen,
            forall|k: int| 0 <= k < seen ==> reports(#[trigger] changes@[k], before[k], timestamp),
        decreases before.len() - seen,
    {
        let ghost current = active@;
        proof {
            lemma_pass_step(current, i as int, before, seen);
        }
        let running = &active[i];
        let progress: u32 = progress_of(running, timestamp);
        let eased_progress = apply_easing(progress, &running.animation.easing);
        let values = interpolate_keyframes(&running.animation.keyframes, eased_progress);
        let iteration: i32 = if running.current_iteration < i32::MAX {
            running.current_iteration + 1
        } else {
            running.current_iteration
        };
        let again = running.animation.loop_count == -1 || iteration
            < running.animation.loop_count;
        changes.push(
            ElementChange::AnimationUpdate {
                animation_id: running.animation.id.clone(),
                progress: eased_progress,
                values,
            },
        );
        if progress < 1000 {
            i += 1;
        } else if again {
            active[i].start_time = timestamp;
            active[i].current_iteration = iteration;
            let ghost updated = active@;
            assert(updated[i as int] == advance_one(before[seen], timestamp)->Some_0);
            assert(updated =~= current.update(i as int, updated[i as int]));
            assert(updated.take(i as int + 1) =~= updated.take(i as int).push(
                updated[i as int],
            ));
            i += 1;
        } else {
            active.remove(i);
        }
        proof {
            seen = seen + 1;
        }
    }
    proof {
        lemma_pass_end(active@, i as int, before, seen);
    }
    changes
}

/// The set of running animations. No two of them have the same id.
pub struct AnimationController {
    active_animations: Vec<ActiveAnimation>,
}

impl AnimationController {
    /// No two running animations have the same id.
    #[verifier::type_invariant]
    pub closed spec fn ids_are_distinct(&self) -> bool {
        distinct_ids(self.active_animations@)
    }

    /// The running animations, in the order in which they started.
    pub closed spec fn active(&self) -> Seq<ActiveAnimation> {
        self.active_animations@
    }

    /// A controller with no running animation.
    pub fn new() -> (r: Self)
        ensures
            r.active() == Seq::<ActiveAnimation>::empty(),
    {
        AnimationController { active_animations: Vec::new() }
    }

    /// The number of running animations, no two of which have the same
    /// id.
    pub fn active_count(&self) -> (r: usize)
        ensures
            r == self.active().len(),
            distinct_ids(self.active()),
    {
        proof {
            use_type_invariant(self);
        }
        self.active_animations.len()
    }

    /// Whether an animation with the id `animation_id` is running.
    pub fn is_active(&self, animation_id: &str) -> (r: bool)
        ensures
            r == is_running(self.active(), animation_id@),
            r == (index_of_animation(self.active(), animation_id@) < self.active().len()),
    {
        let wanted = String::from_str(animation_id);
        proof {
            lemma_index_of_animation(self.active_animations@, animation_id@);
        }
        find_animation(&self.active_animations, &wanted) < self.active_animations.len()
    }

    /// Starts `animation` now.
    pub fn start_animation(&mut self, animation: Animation)
        ensures
            exists|now: u64| final(self).active() == started(old(self).active(), animation, now),
            distinct_ids(old(self).active()),
            distinct_ids(final(self).active()),
            is_running(final(self).active(), animation.id@),
    {
        let now = get_current_timestamp();
        self.start_animation_at(animation, now);
    }

    /// Starts `animation` at `now`, in its first iteration. A running
    /// animation with the same id is replaced, so that no two running
    /// animations have the same id.
    pub fn start_animation_at(&mut self, animation: Animation, now: u64)
        ensures
            final(self).active() == started(old(self).active(), animation, now),
            distinct_ids(old(self).active()),
            distinct_ids(final(self).active()),
            is_running(final(self).active(), animation.id@),
    {
        proof {
            use_type_invariant(&*self);
            lemma_started_distinct(self.active_animations@, animation, now);
        }
        let mut active: Vec<ActiveAnimation> = Vec::new();
        core::mem::swap(&mut active, &mut self.active_animations);
        let at = find_animation(&active, &animation.id);
        let entry = ActiveAnimation { animation, start_time: now, current_iteration: 0 };
        if at < active.len() {
            active[at] = entry;
        } else {
            active.push(entry);
        }
        self.active_animations = active;
    }

    /// Stops the animation with the id `animation_id`, if it is running.
    /// No animation runs under that id afterwards.
    pub fn stop_animation(&mut self, animation_id: &str)
        ensures
            final(self).active() == stopped(old(self).active(), animation_id@),
            distinct_ids(old(self).active()),
            distinct_ids(final(self).active()),
            !is_running(final(self).active(), animation_id@),
    {
        proof {
            use_type_invariant(&*self);
            lemma_stopped_distinct(self.active_animations@, animation_id@);
            lemma_stopped_ids(self.active_animations@, animation_id@);
        }
        let wanted = String::from_str(animation_id);
        let mut active: Vec<ActiveAnimation> = Vec::new();
        core::mem::swap(&mut active, &mut self.active_animations);
        stop_among(&mut active, &wanted);
        self.active_animations = active;
    }

    /// Advances every running animation to `timestamp`.
    ///
    /// Each running animation is reported once, in order, with its eased
    /// progress and interpolated properties. An animation that has finished
    /// an iteration then starts the next one at `timestamp`, or leaves the
    /// set when it has no iteration left; no animation runs under its id
    /// afterwards.
    pub fn update_animations(&mut self, timestamp: u64) -> (r: Result<Vec<ElementChange>, WASMError>)
        ensures
            r is Ok,
            r->Ok_0@.len() == old(self).active().len(),
            forall|k: int|
                0 <= k < old(self).active().len() ==> reports(
                    #[trigger] r->Ok_0@[k],
                    old(self).active()[k],
                    timestamp,
                ),
            final(self).active() == advanced(old(self).active(), timestamp),
            distinct_ids(old(self).active()),
            distinct_ids(final(self).active()),
            forall|k: int|
                0 <= k < old(self).active().len() && advance_one(
                    #[trigger] old(self).active()[k],
                    timestamp,
                ) is None ==> !is_running(
                    final(self).active(),
                    old(self).active()[k].animation.id@,
                ),
    {
        proof {
            use_type_invariant(&*self);
            lemma_advanced_distinct(self.active_animations@, timestamp);
            let before = self.active_animations@;
            assert forall|k: int|
                0 <= k < before.len() && advance_one(#[trigger] before[k], timestamp)
                    is None implies !is_running(
                advanced(before, timestamp),
                before[k].animation.id@,
            ) by {
                lemma_finished_is_gone(before, timestamp, k);
            }
        }
        let mut active: Vec<ActiveAnimation> = Vec::new();
        core::mem::swap(&mut active, &mut self.active_animations);
        let changes = advance_among(&mut active, timestamp);
        self.active_animations = active;
        Ok(changes)
    }
}

/// A tick that sees no animation at the end of its iteration leaves the
/// running set as it is.
pub proof fn lemma_quiet_tick(active: Seq<ActiveAnimation>, timestamp: u64)
    requires
        forall|k: int| 0 <= k < active.len() ==> progress_at(#[trigger] active[k], timestamp) < 1000,
    ensures
        advanced(active, timestamp) == active,
    decreases active.len(),
{
    if active.len() > 0 {
        let rest = active.drop_last();
        assert forall|k: int| 0 <= k < rest.len() implies progress_at(
            #[trigger] rest[k],
            timestamp,
        ) < 1000 by {
            assert(rest[k] == active[k]);
        }
        lemma_quiet_tick(rest, timestamp);
        assert(active.last() == active[active.len() - 1]);
        assert(rest.push(active.last()) =~= active);
    }
}

/// Two ticks at one timestamp, with nothing happening in between, report
/// the same of every animation, as long as the first tick sees no animation
/// at the end of its iteration: `first` and `second` stand for what the two
/// ticks hand back.
pub proof fn lemma_repeated_tick(
    active: Seq<ActiveAnimation>,
    timestamp: u64,
    first: Seq<ElementChange>,
    second: Seq<ElementChange>,
)
    requires
        forall|k: int| 0 <= k < active.len() ==> progress_at(#[trigger] active[k], timestamp) < 1000,
        first.len() == active.len(),
        forall|k: int| 0 <= k < active.len() ==> reports(#[trigger] first[k], active[k], timestamp),
        second.len() == advanced(active, timestamp).len(),
        forall|k: int|
            0 <= k < second.len() ==> reports(
                #[trigger] second[k],
                advanced(active, timestamp)[k],
                timestamp,
            ),
    ensures
        first.len() == second.len(),
        forall|k: int|
            0 <= k < first.len() ==> {
                &&& (#[trigger] first[k])->AnimationUpdate_animation_id
                    == second[k]->AnimationUpdate_animation_id
                &&& first[k]->AnimationUpdate_progress == second[k]->AnimationUpdate_progress
                &&& first[k]->AnimationUpdate_values@ == second[k]->AnimationUpdate_values@
            },
{
    lemma_quiet_tick(active, timestamp);
    assert forall|k: int| 0 <= k < first.len() implies {
        &&& (#[trigger] first[k])->AnimationUpdate_animation_id
            == second[k]->AnimationUpdate_animation_id
        &&& first[k]->AnimationUpdate_progress == second[k]->AnimationUpdate_progress
        &&& first[k]->AnimationUpdate_values@ == second[k]->AnimationUpdate_values@
    } by {
        assert(reports(first[k], active[k], timestamp));
        assert(reports(second[k], active[k], timestamp));
    }
}

/// Computes the raw progress of a running animation at `timestamp`.
pub fn progress_of(running: &ActiveAnimation, timestamp: u64) -> (r: u32)
    ensures
        r == progress_at(*running, timestamp),
        r <= 1000,
{
    let elapsed: u64 = if timestamp >= running.start_time {
        timestamp - running.start_time
    } else {
        0
    };
    let duration = running.animation.duration;
    if duration == 0 || elapsed >= duration {
        1000
    } else {
        let scaled: u128 = (elapsed as u128) * 1000;
        assert(scaled / (duration as u128) < 1000) by (nonlinear_arith)
            requires
                scaled == (elapsed as u128) * 1000,
                0 <= elapsed < duration,
        ;
        (scaled / (duration as u128)) as u32
    }
}

} // verus!
