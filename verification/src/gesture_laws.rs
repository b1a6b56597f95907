//! What the recogniser makes of the simplest touches: a short slow one is a
//! tap, a long fast one a swipe.

use crate::events::{distance_sq, GestureType, Position, TouchPoint};
use crate::gesture::{
    admits, completed, confidence_of, config_of, default_configs, direction_of, first_admitting,
    fresh_only, fresh_single, index_of_key, lemma_index_of_key, next_sample, priority_order,
    single_touch_step, touch_input_step, ConfiguredGesture, GestureProperties, RecognitionKey,
    RecognitionView,
};
use crate::motion::{
    mean_speed, moves, moving_pairs, pair_velocity, speed_of, speed_sum, velocity_between,
    velocity_component, GestureSample,
};
use crate::numeric::{
    floor_sqrt, is_floor_sqrt, lemma_floor_sqrt_monotone,
    lemma_floor_sqrt_under, norm_sq, trunc_div,
};
use vstd::prelude::*;

verus! {

/// Every number that is not negative has a floor square root.
pub proof fn lemma_floor_sqrt_exists(n: int)
    requires
        n >= 0,
    ensures
        is_floor_sqrt(n, floor_sqrt(n)),
    decreases n,
{
    if n == 0 {
        assert(is_floor_sqrt(0, 0));
    } else {
        lemma_floor_sqrt_exists(n - 1);
        let r = floor_sqrt(n - 1);
        if n < (r + 1) * (r + 1) {
            assert(is_floor_sqrt(n, r));
        } else {
            assert((r + 2) * (r + 2) > (r + 1) * (r + 1)) by (nonlinear_arith)
                requires
                    r >= 0,
            ;
            assert(is_floor_sqrt(n, r + 1));
        }
    }
}

/// With the default configurations, a run of at most 10 units, 50 to 300
/// milliseconds and at most 100 units per millisecond is a tap.
pub proof fn lemma_tap_comes_first(distance_sq: int, duration: int, speed: int)
    requires
        0 <= distance_sq <= 100,
        50 <= duration <= 300,
        0 <= speed <= 100_000,
    ensures
        first_admitting(default_configs(), distance_sq, duration, speed) == Some(GestureType::Tap),
{
    let configs = default_configs();
    assert(configs[0].config == config_of(GestureType::Tap));
    let tap = configs[0].config;
    assert(tap.min_distance * tap.min_distance == 0 && tap.max_distance->Some_0
        * tap.max_distance->Some_0 == 100) by (nonlinear_arith)
        requires
            tap.min_distance == 0,
            tap.max_distance->Some_0 == 10,
    ;
    assert(tap.max_velocity == Some(100_000u32));
    assert(admits(tap, distance_sq, duration, speed));
}

/// With the default configurations, a run of at least 50 units, 50 to 500
/// milliseconds and at least 100 units per second is a swipe.
pub proof fn lemma_swipe_comes_first(distance_sq: int, duration: int, speed: int)
    requires
        distance_sq >= 2500,
        50 <= duration <= 500,
        speed >= 100,
    ensures
        first_admitting(default_configs(), distance_sq, duration, speed) == Some(
            GestureType::Swipe,
        ),
{
    let c0 = default_configs();
    let c1 = c0.drop_first();
    let c2 = c1.drop_first();
    let c3 = c2.drop_first();
    assert(c0[0].config == config_of(GestureType::Tap));
    assert(c1[0] == c0[1]);
    assert(c1[0].config == config_of(GestureType::DoubleTap));
    assert(c2[0] == c0[2]);
    assert(c2[0].config == config_of(GestureType::LongPress));
    assert(c3[0] == c0[3]);
    assert(c3[0].config == config_of(GestureType::Swipe));
    let tap = c0[0].config;
    let double_tap = c1[0].config;
    let long_press = c2[0].config;
    let swipe = c3[0].config;
    assert(tap.max_distance->Some_0 * tap.max_distance->Some_0 == 100
        && double_tap.max_distance->Some_0 * double_tap.max_distance->Some_0 == 400
        && long_press.max_distance->Some_0 * long_press.max_distance->Some_0 == 225
        && swipe.min_distance * swipe.min_distance == 2500) by (nonlinear_arith)
        requires
            tap.max_distance->Some_0 == 10,
            double_tap.max_distance->Some_0 == 20,
            long_press.max_distance->Some_0 == 15,
            swipe.min_distance == 50,
    ;
    assert(!admits(tap, distance_sq, duration, speed));
    assert(!admits(double_tap, distance_sq, duration, speed));
    assert(!admits(long_press, distance_sq, duration, speed));
    assert(admits(swipe, distance_sq, duration, speed));
    assert(first_admitting(c3, distance_sq, duration, speed) == Some(GestureType::Swipe));
    assert(first_admitting(c2, distance_sq, duration, speed) == Some(GestureType::Swipe));
    assert(first_admitting(c1, distance_sq, duration, speed) == Some(GestureType::Swipe));
}

/// The measures of a run of two samples between which time passes: one
/// moving pair, whose speed is the mean speed.
pub proof fn lemma_two_samples(a: GestureSample, b: GestureSample)
    requires
        b.timestamp > a.timestamp,
    ensures
        moving_pairs(seq![a, b]) == 1,
        mean_speed(seq![a, b]) == speed_of(pair_velocity(a, b)),
        confidence_of(seq![a, b]) == 1000,
{
    let run = seq![a, b];
    assert(run.drop_last().len() == 1);
    assert(run[0] == a && run[1] == b);
    assert(moving_pairs(run.drop_last()) == 0);
    assert(speed_sum(run.drop_last()) == 0);
    assert(moves(a, b));
    assert(moving_pairs(run) == 1);
    assert(speed_sum(run) == speed_of(pair_velocity(a, b)));
}

/// One coordinate of the velocity of a short move is at most a thousand
/// times the move, whenever time passes.
proof fn lemma_slow_component(delta: int, elapsed: int)
    requires
        elapsed >= 1,
        -10 <= delta <= 10,
    ensures
        velocity_component(delta, elapsed) * velocity_component(delta, elapsed) <= 1_000_000 * (
        delta * delta),
{
    let size = if delta >= 0 {
        delta
    } else {
        -delta
    };
    assert(0 <= size * 1000 / elapsed <= size * 1000) by (nonlinear_arith)
        requires
            0 <= size <= 10,
            elapsed >= 1,
    {
        assert(size * 1000 <= size * 1000 * elapsed);
    }
    let v = velocity_component(delta, elapsed) as int;
    assert(v == trunc_div(delta * 1000, elapsed));
    assert(v == size * 1000 / elapsed || v == -(size * 1000 / elapsed));
    let w = size * 1000 / elapsed;
    assert(v * v == w * w) by (nonlinear_arith)
        requires
            v == w || v == -w,
    ;
    assert(w * w <= (size * 1000) * (size * 1000)) by (nonlinear_arith)
        requires
            0 <= w <= size * 1000,
    ;
    assert((size * 1000) * (size * 1000) == 1_000_000 * (delta * delta)) by (nonlinear_arith)
        requires
            size == delta || size == -delta,
    ;
}

/// A move of at most 10 units is slower than 10 units per millisecond,
/// however short a time it takes.
pub proof fn lemma_short_move_is_slow(from: Position, earlier: u64, to: Position, later: u64)
    requires
        later > earlier,
        distance_sq(from, to) <= 100,
    ensures
        0 <= speed_of(velocity_between(from, earlier, to, later)) <= 10_000,
{
    let dx = to.x - from.x;
    let dy = to.y - from.y;
    assert(-10 <= dx <= 10 && -10 <= dy <= 10) by (nonlinear_arith)
        requires
            dx * dx + dy * dy <= 100,
    ;
    let elapsed = later - earlier;
    lemma_slow_component(dx, elapsed);
    lemma_slow_component(dy, elapsed);
    let v = velocity_between(from, earlier, to, later);
    let n = norm_sq(v.x as int, v.y as int);
    assert(0 <= n) by (nonlinear_arith)
        requires
            n == (v.x as int) * (v.x as int) + (v.y as int) * (v.y as int),
    ;
    assert(n <= 100_000_000) by {
        assert(1_000_000 * (dx * dx) + 1_000_000 * (dy * dy) == 1_000_000 * (dx * dx + dy * dy));
    }
    lemma_floor_sqrt_exists(n);
    lemma_floor_sqrt_under(n, floor_sqrt(n), 10_001);
}

/// A move of at least 150 units to the right that takes from 50 to 400
/// milliseconds is faster than 100 units per second.
pub proof fn lemma_long_move_is_fast(from: Position, earlier: u64, to: Position, later: u64)
    requires
        50 <= later - earlier <= 400,
        to.x - from.x >= 150,
    ensures
        speed_of(velocity_between(from, earlier, to, later)) >= 100,
        distance_sq(from, to) >= 2500,
{
    let dx = to.x - from.x;
    let dy = to.y - from.y;
    let elapsed = later - earlier;
    assert(dx * 1000 / elapsed >= 375) by (nonlinear_arith)
        requires
            dx >= 150,
            50 <= elapsed <= 400,
    {
        assert(dx * 1000 >= 375 * elapsed);
    }
    let v = velocity_between(from, earlier, to, later);
    assert(v.x >= 375);
    let n = norm_sq(v.x as int, v.y as int);
    let base = (v.x as int) * (v.x as int);
    assert(n >= base) by (nonlinear_arith)
        requires
            n == (v.x as int) * (v.x as int) + (v.y as int) * (v.y as int),
            base == (v.x as int) * (v.x as int),
    ;
    assert(is_floor_sqrt(base, v.x as int)) by (nonlinear_arith)
        requires
            base == (v.x as int) * (v.x as int),
            v.x >= 375,
    ;
    lemma_floor_sqrt_exists(n);
    lemma_floor_sqrt_monotone(base, v.x as int, n, floor_sqrt(n));
    assert(distance_sq(from, to) >= 2500) by (nonlinear_arith)
        requires
            distance_sq(from, to) == dx * dx + dy * dy,
            dx >= 150,
    ;
}

/// A recognition that joins at the end of a list that does not follow its
/// key is found at the end.
pub proof fn lemma_index_of_key_after_push(
    recognitions: Seq<RecognitionView>,
    added: RecognitionView,
)
    requires
        index_of_key(recognitions, added.key) == recognitions.len(),
    ensures
        index_of_key(recognitions.push(added), added.key) == recognitions.len(),
    decreases recognitions.len(),
{
    let grown = recognitions.push(added);
    if recognitions.len() == 0 {
        assert(grown[0] == added);
    } else {
        lemma_index_of_key(recognitions, added.key);
        assert(grown[0] == recognitions[0]);
        assert(grown.drop_first() =~= recognitions.drop_first().push(added));
        lemma_index_of_key(recognitions.drop_first(), added.key);
        lemma_index_of_key_after_push(recognitions.drop_first(), added);
    }
}

/// What the first two samples of a touch that was not followed before do:
/// the first starts a recognition, and the second holds the run of the two
/// against the configurations.
pub proof fn lemma_first_two_samples(
    recognitions: Seq<RecognitionView>,
    down: TouchPoint,
    start: u64,
    up: TouchPoint,
    end: u64,
)
    requires
        down.identifier == up.identifier,
        index_of_key(recognitions, RecognitionKey::Single(down.identifier)) == recognitions.len(),
    ensures
        single_touch_step(default_configs(), recognitions, down, start) == (
            recognitions.push(fresh_single(down, start)),
            None::<crate::gesture::GestureEvent>,
        ),
        ({
            let first = next_sample(Seq::empty(), down, start);
            let run = seq![first, next_sample(seq![first], up, end)];
            let after = single_touch_step(
                default_configs(),
                recognitions.push(fresh_single(down, start)),
                up,
                end,
            );
            &&& after.1 == completed(default_configs(), start, run, end)
            &&& after.1 is Some ==> after.0 == recognitions
        }),
{
    let key = RecognitionKey::Single(down.identifier);
    let fresh = fresh_single(down, start);
    let followed = recognitions.push(fresh);
    lemma_index_of_key_after_push(recognitions, fresh);
    let first = next_sample(Seq::empty(), down, start);
    let second = next_sample(seq![first], up, end);
    assert(followed[recognitions.len() as int] == fresh);
    assert(fresh.samples.push(next_sample(fresh.samples, up, end)) =~= seq![first, second]);
    assert(followed.remove(recognitions.len() as int) =~= recognitions);
}

/// A touch that comes down, and is seen again from 50 to 300 milliseconds
/// later no more than 10 units away, is a tap, made out with
/// full confidence, and its recognition ends.
pub proof fn lemma_short_touch_is_a_tap(
    recognitions: Seq<RecognitionView>,
    down: TouchPoint,
    start: u64,
    up: TouchPoint,
    end: u64,
)
    requires
        down.identifier == up.identifier,
        index_of_key(recognitions, RecognitionKey::Single(down.identifier)) == recognitions.len(),
        50 <= end - start <= 300,
        distance_sq(down.position, up.position) <= 100,
    ensures
        ({
            let after = single_touch_step(
                default_configs(),
                recognitions.push(fresh_single(down, start)),
                up,
                end,
            );
            &&& after.0 == recognitions
            &&& after.1 is Some
            &&& after.1->Some_0.gesture_type == GestureType::Tap
            &&& after.1->Some_0.confidence == 1000
            &&& after.1->Some_0.confidence > 500
            &&& after.1->Some_0.start_position == down.position
            &&& after.1->Some_0.end_position == up.position
            &&& after.1->Some_0.duration == end - start
        }),
{
    lemma_first_two_samples(recognitions, down, start, up, end);
    let first = next_sample(Seq::empty(), down, start);
    let second = next_sample(seq![first], up, end);
    let run = seq![first, second];
    lemma_two_samples(first, second);
    lemma_short_move_is_slow(down.position, start, up.position, end);
    assert(run[0] == first && run.last() == second);
    assert(distance_sq(down.position, up.position) >= 0) by (nonlinear_arith)
        requires
            distance_sq(down.position, up.position) == (up.position.x - down.position.x) * (
            up.position.x - down.position.x) + (up.position.y - down.position.y) * (up.position.y
                - down.position.y),
    ;
    lemma_tap_comes_first(
        distance_sq(down.position, up.position),
        end - start,
        mean_speed(run),
    );
}

/// A touch that comes down, and is seen again from 50 to 400 milliseconds
/// later at least 150 units to the right, is a swipe that tells its
/// direction, and its recognition ends. Where it has moved less far up or
/// down than to the right, the direction is to the right.
pub proof fn lemma_long_touch_is_a_swipe(
    recognitions: Seq<RecognitionView>,
    down: TouchPoint,
    start: u64,
    up: TouchPoint,
    end: u64,
)
    requires
        down.identifier == up.identifier,
        index_of_key(recognitions, RecognitionKey::Single(down.identifier)) == recognitions.len(),
        50 <= end - start <= 400,
        up.position.x - down.position.x >= 150,
    ensures
        ({
            let after = single_touch_step(
                default_configs(),
                recognitions.push(fresh_single(down, start)),
                up,
                end,
            );
            let dx = up.position.x - down.position.x;
            let dy = up.position.y - down.position.y;
            &&& after.0 == recognitions
            &&& after.1 is Some
            &&& after.1->Some_0.gesture_type == GestureType::Swipe
            &&& after.1->Some_0.confidence == 1000
            &&& after.1->Some_0.properties == (GestureProperties::Swipe {
                direction: direction_of(dx, dy),
            })
            &&& (-dx <= dy < dx ==> direction_of(dx, dy) == 0)
        }),
{
    lemma_first_two_samples(recognitions, down, start, up, end);
    let first = next_sample(Seq::empty(), down, start);
    let second = next_sample(seq![first], up, end);
    let run = seq![first, second];
    lemma_two_samples(first, second);
    lemma_long_move_is_fast(down.position, start, up.position, end);
    assert(run[0] == first && run.last() == second);
    lemma_swipe_comes_first(
        distance_sq(down.position, up.position),
        end - start,
        mean_speed(run),
    );
}

/// The default configurations hold each kind of gesture once, in the
/// order of priority.
pub proof fn lemma_each_kind_once()
    ensures
        default_configs().len() == priority_order().len(),
        forall|i: int|
            0 <= i < default_configs().len() ==> (#[trigger] default_configs()[i]).gesture_type
                == priority_order()[i],
        forall|i: int, j: int|
            #![trigger default_configs()[i], default_configs()[j]]
            0 <= i < j < default_configs().len() ==> default_configs()[i].gesture_type
                != default_configs()[j].gesture_type,
{
    let order = priority_order();
    assert(order.len() == 7);
    assert(order[0] == GestureType::Tap);
    assert(order[1] == GestureType::DoubleTap);
    assert(order[2] == GestureType::LongPress);
    assert(order[3] == GestureType::Swipe);
    assert(order[4] == GestureType::Pan);
    assert(order[5] == GestureType::Pinch);
    assert(order[6] == GestureType::Rotate);
}

/// Whether no two recognitions follow the same key.
pub open spec fn keys_distinct(recognitions: Seq<RecognitionView>) -> bool {
    forall|i: int, j: int|
        #![trigger recognitions[i], recognitions[j]]
        0 <= i < j < recognitions.len() ==> recognitions[i].key != recognitions[j].key
}

/// Whether a recognition follows `key`.
pub open spec fn is_followed(recognitions: Seq<RecognitionView>, key: RecognitionKey) -> bool {
    exists|j: int| 0 <= j < recognitions.len() && (#[trigger] recognitions[j]).key == key
}

/// The touches of one event leave no two recognitions with the same key.
pub proof fn lemma_step_keeps_keys_distinct(
    configs: Seq<ConfiguredGesture>,
    recognitions: Seq<RecognitionView>,
    touches: Seq<TouchPoint>,
    timestamp: u64,
)
    requires
        keys_distinct(recognitions),
    ensures
        keys_distinct(touch_input_step(configs, recognitions, touches, timestamp).0),
{
    let after = touch_input_step(configs, recognitions, touches, timestamp).0;
    if touches.len() == 1 || touches.len() == 2 {
        let key = if touches.len() == 1 {
            RecognitionKey::Single(touches[0].identifier)
        } else {
            RecognitionKey::Multi
        };
        lemma_index_of_key(recognitions, key);
        let at = index_of_key(recognitions, key);
        assert forall|i: int, j: int| 0 <= i < j < after.len() implies after[i].key
            != after[j].key by {
            if at < recognitions.len() {
                if after.len() < recognitions.len() {
                    let from_i = if i < at {
                        i
                    } else {
                        i + 1
                    };
                    let from_j = if j < at {
                        j
                    } else {
                        j + 1
                    };
                    assert(after[i] == recognitions[from_i]);
                    assert(after[j] == recognitions[from_j]);
                } else {
                    assert(after[i].key == recognitions[i].key);
                    assert(after[j].key == recognitions[j].key);
                }
            } else {
                assert(after[i] == recognitions[i]);
                if j < recognitions.len() {
                    assert(after[j] == recognitions[j]);
                } else {
                    assert(after[j].key == key);
                }
            }
        }
    }
}

/// Whatever is kept when the stale recognitions are dropped was there
/// before.
pub proof fn lemma_fresh_only_followed(recognitions: Seq<RecognitionView>, now: u64)
    ensures
        forall|i: int|
            0 <= i < fresh_only(recognitions, now).len() ==> is_followed(
                recognitions,
                (#[trigger] fresh_only(recognitions, now)[i]).key,
            ),
    decreases recognitions.len(),
{
    if recognitions.len() > 0 {
        let fewer = recognitions.drop_last();
        let rest = fresh_only(fewer, now);
        lemma_fresh_only_followed(fewer, now);
        let after = fresh_only(recognitions, now);
        assert forall|i: int| 0 <= i < after.len() implies is_followed(
            recognitions,
            (#[trigger] after[i]).key,
        ) by {
            if i < rest.len() {
                assert(after[i] == rest[i]);
                let j = choose|j: int|
                    0 <= j < fewer.len() && (#[trigger] fewer[j]).key == rest[i].key;
                assert(recognitions[j] == fewer[j]);
            } else {
                assert(after[i] == recognitions[recognitions.len() - 1]);
            }
        }
    }
}

/// Dropping the stale recognitions leaves no two with the same key.
pub proof fn lemma_fresh_only_keeps_keys_distinct(recognitions: Seq<RecognitionView>, now: u64)
    requires
        keys_distinct(recognitions),
    ensures
        keys_distinct(fresh_only(recognitions, now)),
    decreases recognitions.len(),
{
    if recognitions.len() > 0 {
        let fewer = recognitions.drop_last();
        let rest = fresh_only(fewer, now);
        assert forall|i: int, j: int| 0 <= i < j < fewer.len() implies fewer[i].key
            != fewer[j].key by {
            assert(fewer[i] == recognitions[i] && fewer[j] == recognitions[j]);
        }
        lemma_fresh_only_keeps_keys_distinct(fewer, now);
        lemma_fresh_only_followed(fewer, now);
        let after = fresh_only(recognitions, now);
        assert forall|i: int, j: int| 0 <= i < j < after.len() implies after[i].key
            != after[j].key by {
            assert(after[i] == rest[i]);
            if j < rest.len() {
                assert(after[j] == rest[j]);
            } else {
                assert(after[j] == recognitions[recognitions.len() - 1]);
                let k = choose|k: int|
                    0 <= k < fewer.len() && (#[trigger] fewer[k]).key == rest[i].key;
                assert(recognitions[k] == fewer[k]);
                assert(recognitions[k].key != recognitions[recognitions.len() - 1].key);
            }
        }
    }
}

} // verus!
