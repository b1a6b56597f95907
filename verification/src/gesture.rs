//! Recognition of gestures from raw touch samples.
//!
//! A touch that is alone on the surface is followed sample by sample; each
//! new sample is held against the gesture configurations in their order of
//! priority, and the first configuration that admits the run names the
//! gesture. Two touches together are watched for a pinch.
//!
//! Distances are layout units, durations milliseconds, speeds units per
//! second, and confidence and scale are thousandths.

use crate::clock::get_current_timestamp;
use crate::events::{distance_sq, position_distance_sq, GestureType, Position, TouchData, TouchPoint};
use crate::gesture_laws::{
    keys_distinct, lemma_fresh_only_keeps_keys_distinct, lemma_step_keeps_keys_distinct,
};
use crate::motion::{
    calculate_average_speed, calculate_average_velocity, calculate_total_path_distance,
    calculate_velocity, calculate_velocity_variance, mean_speed, mean_velocity, path_length,
    speed_spread, velocity_between, GestureSample,
};
use crate::numeric::{clamp_int, floor_sqrt, isqrt};
use crate::seqs::{lemma_pass_end, lemma_pass_start, lemma_pass_step};
use vstd::prelude::*;

verus! {

/// The runs that one kind of gesture admits: distances in units, durations
/// in milliseconds, speeds in units per second. A bound that is `None` is
/// no bound.
#[derive(Clone, Copy, Debug, PartialEq, Eq, Structural)]
pub struct GestureConfig {
    pub min_distance: u32,
    pub max_distance: Option<u32>,
    pub min_duration: u64,
    pub max_duration: Option<u64>,
    pub min_velocity: u32,
    pub max_velocity: Option<u32>,
    /// Degrees.
    pub angle_tolerance: u32,
    /// Thousandths.
    pub scale_threshold: u32,
    /// Degrees.
    pub rotation_threshold: u32,
}

/// A kind of gesture with its configuration.
#[derive(Clone, Copy, Debug, PartialEq, Eq, Structural)]
pub struct ConfiguredGesture {
    pub gesture_type: GestureType,
    pub config: GestureConfig,
}

/// The configuration of each kind of gesture. A touch that rests (a tap, a
/// double tap, a long press) may move at up to 100, 150 and 50 units per
/// millisecond; a swipe moves at 100 units per second or more.
pub open spec fn config_of(kind: GestureType) -> GestureConfig {
    match kind {
        GestureType::Tap => GestureConfig {
            min_distance: 0,
            max_distance: Some(10),
            min_duration: 50,
            max_duration: Some(300),
            min_velocity: 0,
            max_velocity: Some(100_000),
            angle_tolerance: 0,
            scale_threshold: 0,
            rotation_threshold: 0,
        },
        GestureType::DoubleTap => GestureConfig {
            min_distance: 0,
            max_distance: Some(20),
            min_duration: 50,
            max_duration: Some(600),
            min_velocity: 0,
            max_velocity: Some(150_000),
            angle_tolerance: 0,
            scale_threshold: 0,
            rotation_threshold: 0,
        },
        GestureType::LongPress => GestureConfig {
            min_distance: 0,
            max_distance: Some(15),
            min_duration: 500,
            max_duration: None,
            min_velocity: 0,
            max_velocity: Some(50_000),
            angle_tolerance: 0,
            scale_threshold: 0,
            rotation_threshold: 0,
        },
        GestureType::Swipe => GestureConfig {
            min_distance: 50,
            max_distance: None,
            min_duration: 50,
            max_duration: Some(500),
            min_velocity: 100,
            max_velocity: None,
            angle_tolerance: 30,
            scale_threshold: 0,
            rotation_threshold: 0,
        },
        GestureType::Pan => GestureConfig {
            min_distance: 10,
            max_distance: None,
            min_duration: 100,
            max_duration: None,
            min_velocity: 0,
            max_velocity: None,
            angle_tolerance: 0,
            scale_threshold: 0,
            rotation_threshold: 0,
        },
        GestureType::Pinch => GestureConfig {
            min_distance: 0,
            max_distance: None,
            min_duration: 100,
            max_duration: None,
            min_velocity: 0,
            max_velocity: None,
            angle_tolerance: 0,
            scale_threshold: 100,
            rotation_threshold: 0,
        },
        GestureType::Rotate => GestureConfig {
            min_distance: 0,
            max_distance: None,
            min_duration: 100,
            max_duration: None,
            min_velocity: 0,
            max_velocity: None,
            angle_tolerance: 0,
            scale_threshold: 0,
            rotation_threshold: 5,
        },
    }
}

/// The kinds of gesture in their order of priority: the narrow kinds come
/// before the broad ones.
pub open spec fn priority_order() -> Seq<GestureType> {
    seq![
        GestureType::Tap,
        GestureType::DoubleTap,
        GestureType::LongPress,
        GestureType::Swipe,
        GestureType::Pan,
        GestureType::Pinch,
        GestureType::Rotate,
    ]
}

/// The configurations that every recogniser starts with, in the order of
/// priority.
pub open spec fn default_configs() -> Seq<ConfiguredGesture> {
    Seq::new(
        7,
        |i: int|
            ConfiguredGesture {
                gesture_type: priority_order()[i],
                config: config_of(priority_order()[i]),
            },
    )
}

/// Whether `config` admits a run with the squared displacement
/// `distance_sq`, the duration `duration` and the mean speed `speed`.
pub open spec fn admits(config: GestureConfig, distance_sq: int, duration: int, speed: int) -> bool {
    &&& config.min_distance * config.min_distance <= distance_sq
    &&& (config.max_distance is Some ==> distance_sq <= config.max_distance->Some_0
        * config.max_distance->Some_0)
    &&& config.min_duration <= duration
    &&& (config.max_duration is Some ==> duration <= config.max_duration->Some_0)
    &&& config.min_velocity <= speed
    &&& (config.max_velocity is Some ==> speed <= config.max_velocity->Some_0)
}

/// The kind of the first configuration that admits the run, if any does.
pub open spec fn first_admitting(
    configs: Seq<ConfiguredGesture>,
    distance_sq: int,
    duration: int,
    speed: int,
) -> Option<GestureType>
    decreases configs.len(),
{
    if configs.len() == 0 {
        None
    } else if admits(configs[0].config, distance_sq, duration, speed) {
        Some(configs[0].gesture_type)
    } else {
        first_admitting(configs.drop_first(), distance_sq, duration, speed)
    }
}

/// The direction of a move by `(dx, dy)`, the vertical axis pointing down:
/// 0 is right, 1 down, 2 left, 3 up. The quarter turns are cut at the
/// diagonals; a diagonal belongs to the quarter that follows it clockwise.
pub open spec fn direction_of(dx: int, dy: int) -> u8 {
    if dx > 0 && -dx <= dy && dy < dx {
        0
    } else if dy > 0 && -dy < dx && dx <= dy {
        1
    } else if dx < 0 && dx < dy && dy <= -dx {
        2
    } else if dy < 0 && dy <= dx && dx < -dy {
        3
    } else {
        0
    }
}

/// What a gesture of some kind says beyond what every gesture says.
#[derive(Clone, Copy, Debug, PartialEq, Eq, Structural)]
pub enum GestureProperties {
    Plain,
    /// The direction of a swipe: 0 is right, 1 down, 2 left, 3 up.
    Swipe { direction: u8 },
    /// The length of the path of a pan.
    Pan { total_distance: u64 },
    /// The distance between the two touches, and its ratio to the distance
    /// at the sample before in thousandths; no ratio where that was zero.
    Pinch { scale: Option<u64>, distance: u64 },
}

/// A gesture that the recogniser has made out.
#[derive(Clone, Copy, Debug, PartialEq, Eq, Structural)]
pub struct GestureEvent {
    pub gesture_type: GestureType,
    pub confidence: u32,
    pub start_position: Position,
    pub end_position: Position,
    pub duration: u64,
    pub velocity: Position,
    pub properties: GestureProperties,
    pub timestamp: u64,
}

/// What a recognition follows: one touch, or the touches that are on the
/// surface together.
#[derive(Clone, Copy, Debug, PartialEq, Eq, Structural)]
pub enum RecognitionKey {
    Single(u32),
    Multi,
}

/// A gesture in the making.
#[derive(Debug)]
pub struct GestureRecognition {
    pub key: RecognitionKey,
    pub gesture_type: GestureType,
    pub start_time: u64,
    pub touch_points: Vec<TouchPoint>,
    pub samples: Vec<GestureSample>,
    pub confidence: u32,
    /// The squared distance between the two touches at the last sample.
    pub span_sq: u128,
}

/// What a recognition holds.
pub struct RecognitionView {
    pub key: RecognitionKey,
    pub gesture_type: GestureType,
    pub start_time: u64,
    pub touch_points: Seq<TouchPoint>,
    pub samples: Seq<GestureSample>,
    pub confidence: u32,
    pub span_sq: u128,
}

impl View for GestureRecognition {
    type V = RecognitionView;

    open spec fn view(&self) -> RecognitionView {
        RecognitionView {
            key: self.key,
            gesture_type: self.gesture_type,
            start_time: self.start_time,
            touch_points: self.touch_points@,
            samples: self.samples@,
            confidence: self.confidence,
            span_sq: self.span_sq,
        }
    }
}

/// The longest time, in milliseconds, that a recognition is kept without a
/// new sample.
pub const RECOGNITION_TIMEOUT: u64 = 1000;

/// The number of gestures that the history keeps.
pub const HISTORY_LIMIT: usize = 100;

/// How sure a gesture made out of `samples` is: 1000 less the unevenness of
/// the speeds, and never under zero.
pub open spec fn confidence_of(samples: Seq<GestureSample>) -> u32 {
    if samples.len() > 2 {
        (1000 - clamp_int(speed_spread(samples), 0, 1000)) as u32
    } else {
        1000
    }
}

/// What a gesture of kind `kind` made out of `samples` says of itself.
pub open spec fn properties_of(kind: GestureType, samples: Seq<GestureSample>) -> GestureProperties {
    match kind {
        GestureType::Swipe => if samples.len() > 0 {
            GestureProperties::Swipe {
                direction: direction_of(
                    samples.last().position.x - samples[0].position.x,
                    samples.last().position.y - samples[0].position.y,
                ),
            }
        } else {
            GestureProperties::Plain
        },
        GestureType::Pan => GestureProperties::Pan {
            total_distance: clamp_int(path_length(samples), 0, u64::MAX as int) as u64,
        },
        _ => GestureProperties::Plain,
    }
}

/// The time from `start` to `timestamp`; none when `timestamp` is earlier.
pub open spec fn duration_since(start: u64, timestamp: u64) -> u64 {
    if timestamp >= start {
        (timestamp - start) as u64
    } else {
        0
    }
}

/// The sample that a touch at `timestamp` adds to `samples`.
pub open spec fn next_sample(samples: Seq<GestureSample>, touch: TouchPoint, timestamp: u64) -> GestureSample {
    GestureSample {
        timestamp,
        position: touch.position,
        velocity: if samples.len() > 0 {
            velocity_between(
                samples.last().position,
                samples.last().timestamp,
                touch.position,
                timestamp,
            )
        } else {
            Position { x: 0, y: 0 }
        },
        pressure: touch.force,
    }
}

/// The gesture that a run of samples amounts to at `timestamp`, if the run
/// has two samples or more and a configuration admits it.
pub open spec fn completed(
    configs: Seq<ConfiguredGesture>,
    start_time: u64,
    samples: Seq<GestureSample>,
    timestamp: u64,
) -> Option<GestureEvent> {
    if samples.len() < 2 {
        None
    } else {
        let duration = duration_since(start_time, timestamp);
        let start = samples[0].position;
        let end = samples.last().position;
        match first_admitting(
            configs,
            distance_sq(start, end),
            duration as int,
            mean_speed(samples),
        ) {
            Some(kind) => Some(
                GestureEvent {
                    gesture_type: kind,
                    confidence: confidence_of(samples),
                    start_position: start,
                    end_position: end,
                    duration,
                    velocity: mean_velocity(samples),
                    properties: properties_of(kind, samples),
                    timestamp,
                },
            ),
            None => None,
        }
    }
}

/// The index of the first recognition that follows `key`, or the number of
/// recognitions when none does.
pub open spec fn index_of_key(recognitions: Seq<RecognitionView>, key: RecognitionKey) -> int
    decreases recognitions.len(),
{
    if recognitions.len() == 0 {
        0
    } else if recognitions[0].key == key {
        0
    } else {
        1 + index_of_key(recognitions.drop_first(), key)
    }
}

/// The recognition that the first sample of a single touch starts.
pub open spec fn fresh_single(touch: TouchPoint, timestamp: u64) -> RecognitionView {
    RecognitionView {
        key: RecognitionKey::Single(touch.identifier),
        gesture_type: GestureType::Tap,
        start_time: timestamp,
        touch_points: seq![touch],
        samples: seq![next_sample(Seq::empty(), touch, timestamp)],
        confidence: 0,
        span_sq: 0,
    }
}

/// What one sample of a single touch does: the recognitions after it, and
/// the gesture that it completes, if any. The sample joins the recognition
/// of its touch, which ends when the run is a gesture; a touch that is not
/// followed yet starts a recognition.
pub open spec fn single_touch_step(
    configs: Seq<ConfiguredGesture>,
    recognitions: Seq<RecognitionView>,
    touch: TouchPoint,
    timestamp: u64,
) -> (Seq<RecognitionView>, Option<GestureEvent>) {
    let at = index_of_key(recognitions, RecognitionKey::Single(touch.identifier));
    if at < recognitions.len() {
        let found = recognitions[at];
        let samples = found.samples.push(next_sample(found.samples, touch, timestamp));
        match completed(configs, found.start_time, samples, timestamp) {
            Some(gesture) => (recognitions.remove(at), Some(gesture)),
            None => (recognitions.update(at, RecognitionView { samples, ..found }), None),
        }
    } else {
        (recognitions.push(fresh_single(touch, timestamp)), None)
    }
}

/// The point half way between two points, each coordinate rounded toward
/// zero.
pub open spec fn midpoint(a: Position, b: Position) -> Position {
    Position {
        x: crate::numeric::trunc_div(a.x + b.x, 2) as i32,
        y: crate::numeric::trunc_div(a.y + b.y, 2) as i32,
    }
}

/// Whether a distance whose square is `now_sq` differs by more than a tenth
/// from one whose square is `before_sq`.
pub open spec fn span_changed(before_sq: int, now_sq: int) -> bool {
    100 * now_sq > 121 * before_sq || 100 * now_sq < 81 * before_sq
}

/// The ratio of a distance whose square is `now_sq` to one whose square is
/// `before_sq`, in thousandths and rounded down; none where the latter is
/// zero.
pub open spec fn span_ratio(before_sq: int, now_sq: int) -> Option<u64> {
    if before_sq > 0 {
        Some(clamp_int(floor_sqrt(now_sq * 1_000_000 / before_sq), 0, u64::MAX as int) as u64)
    } else {
        None
    }
}

/// The sample that two touches at `timestamp` add: it sits half way between
/// them.
pub open spec fn center_sample(first: TouchPoint, second: TouchPoint, timestamp: u64) -> GestureSample {
    GestureSample {
        timestamp,
        position: midpoint(first.position, second.position),
        velocity: Position { x: 0, y: 0 },
        pressure: None,
    }
}

/// The pinch that two touches at `timestamp` make out of the recognition
/// `found`, whose last sample saw them `found.span_sq` apart.
pub open spec fn pinch_of(
    found: RecognitionView,
    first: TouchPoint,
    second: TouchPoint,
    timestamp: u64,
) -> GestureEvent {
    let now_sq = distance_sq(first.position, second.position);
    GestureEvent {
        gesture_type: GestureType::Pinch,
        confidence: 900,
        start_position: found.samples[0].position,
        end_position: midpoint(first.position, second.position),
        duration: duration_since(found.start_time, timestamp),
        velocity: Position { x: 0, y: 0 },
        properties: GestureProperties::Pinch {
            scale: span_ratio(found.span_sq as int, now_sq),
            distance: floor_sqrt(now_sq) as u64,
        },
        timestamp,
    }
}

/// What one sample of several touches does. Exactly two touches are
/// followed: their first sample starts the recognition, and every later one
/// joins it and is a pinch when the distance between the touches has
/// changed by more than a tenth since the sample before.
pub open spec fn multi_touch_step(
    recognitions: Seq<RecognitionView>,
    touches: Seq<TouchPoint>,
    timestamp: u64,
) -> (Seq<RecognitionView>, Option<GestureEvent>) {
    if touches.len() != 2 {
        (recognitions, None)
    } else {
        let now_sq = distance_sq(touches[0].position, touches[1].position);
        let sample = center_sample(touches[0], touches[1], timestamp);
        let at = index_of_key(recognitions, RecognitionKey::Multi);
        if at < recognitions.len() {
            let found = recognitions[at];
            let grown = RecognitionView {
                samples: found.samples.push(sample),
                span_sq: now_sq as u128,
                ..found
            };
            (
                recognitions.update(at, grown),
                if found.samples.len() > 0 && span_changed(found.span_sq as int, now_sq) {
                    Some(pinch_of(found, touches[0], touches[1], timestamp))
                } else {
                    None
                },
            )
        } else {
            (
                recognitions.push(
                    RecognitionView {
                        key: RecognitionKey::Multi,
                        gesture_type: GestureType::Pinch,
                        start_time: timestamp,
                        touch_points: touches,
                        samples: seq![sample],
                        confidence: 0,
                        span_sq: now_sq as u128,
                    },
                ),
                None,
            )
        }
    }
}

/// What the touches of one event do: one touch is a sample of a single
/// touch, two or more are a sample of several, none does nothing.
pub open spec fn touch_input_step(
    configs: Seq<ConfiguredGesture>,
    recognitions: Seq<RecognitionView>,
    touches: Seq<TouchPoint>,
    timestamp: u64,
) -> (Seq<RecognitionView>, Option<GestureEvent>) {
    if touches.len() == 1 {
        single_touch_step(configs, recognitions, touches[0], timestamp)
    } else if touches.len() >= 2 {
        multi_touch_step(recognitions, touches, timestamp)
    } else {
        (recognitions, None)
    }
}

/// The history after `gesture` is made out: it joins at the end, and the
/// oldest entry leaves when more than the limit are kept.
pub open spec fn recorded(history: Seq<GestureEvent>, gesture: Option<GestureEvent>) -> Seq<
    GestureEvent,
> {
    match gesture {
        Some(g) => if history.len() + 1 > HISTORY_LIMIT {
            history.push(g).drop_first()
        } else {
            history.push(g)
        },
        None => history,
    }
}

/// The gestures that a call hands back: the one that was made out, or none.
pub open spec fn detected(gesture: Option<GestureEvent>) -> Seq<GestureEvent> {
    match gesture {
        Some(g) => seq![g],
        None => Seq::empty(),
    }
}

/// Whether a recognition whose last sample was taken at `last` is still
/// kept at `now`.
pub open spec fn is_fresh(recognition: RecognitionView, now: u64) -> bool {
    recognition.samples.len() > 0 && now - recognition.samples.last().timestamp
        <= RECOGNITION_TIMEOUT
}

/// The recognitions that are still kept at `now`, in their order.
pub open spec fn fresh_only(recognitions: Seq<RecognitionView>, now: u64) -> Seq<RecognitionView>
    decreases recognitions.len(),
{
    if recognitions.len() == 0 {
        recognitions
    } else {
        let rest = fresh_only(recognitions.drop_last(), now);
        if is_fresh(recognitions.last(), now) {
            rest.push(recognitions.last())
        } else {
            rest
        }
    }
}

/// What each of a list of recognitions holds.
pub open spec fn views_of(recognitions: Seq<GestureRecognition>) -> Seq<RecognitionView> {
    recognitions.map_values(|r: GestureRecognition| r@)
}

/// `index_of_key` gives the first index that follows the key, or the
/// length.
pub proof fn lemma_index_of_key(recognitions: Seq<RecognitionView>, key: RecognitionKey)
    ensures
        0 <= index_of_key(recognitions, key) <= recognitions.len(),
        index_of_key(recognitions, key) < recognitions.len() ==> recognitions[index_of_key(
            recognitions,
            key,
        )].key == key,
        forall|j: int|
            0 <= j < index_of_key(recognitions, key) ==> (#[trigger] recognitions[j]).key != key,
    decreases recognitions.len(),
{
    if recognitions.len() > 0 && recognitions[0].key != key {
        let rest = recognitions.drop_first();
        lemma_index_of_key(rest, key);
        let p = index_of_key(rest, key);
        assert forall|j: int| 0 <= j < 1 + p implies (#[trigger] recognitions[j]).key != key by {
            if j > 0 {
                assert(recognitions[j] == rest[j - 1]);
            }
        }
        if p < rest.len() {
            assert(recognitions[1 + p] == rest[p]);
        }
    }
}

/// Tells whether a configuration admits a run.
pub fn matches_gesture_config(
    config: &GestureConfig,
    distance_sq: u128,
    duration: u64,
    speed: u64,
) -> (r: bool)
    ensures
        r == admits(*config, distance_sq as int, duration as int, speed as int),
{
    let least: u128 = config.min_distance as u128;
    assert(least * least <= 0x1_0000_0000 * 0x1_0000_0000) by (nonlinear_arith)
        requires
            least <= 0x1_0000_0000,
    ;
    if least * least > distance_sq {
        return false;
    }
    match config.max_distance {
        Some(most) => {
            let most: u128 = most as u128;
            assert(most * most <= 0x1_0000_0000 * 0x1_0000_0000) by (nonlinear_arith)
                requires
                    most <= 0x1_0000_0000,
            ;
            if distance_sq > most * most {
                return false;
            }
        },
        None => {},
    }
    if duration < config.min_duration {
        return false;
    }
    match config.max_duration {
        Some(most) => {
            if duration > most {
                return false;
            }
        },
        None => {},
    }
    if speed < config.min_velocity as u64 {
        return false;
    }
    match config.max_velocity {
        Some(most) => {
            if speed > most as u64 {
                return false;
            }
        },
        None => {},
    }
    true
}

/// Finds the first configuration that admits a run.
pub fn classify_motion(
    configs: &Vec<ConfiguredGesture>,
    distance_sq: u128,
    duration: u64,
    speed: u64,
) -> (r: Option<GestureType>)
    ensures
        r == first_admitting(configs@, distance_sq as int, duration as int, speed as int),
{
    let mut i: usize = 0;
    assert(configs@.skip(0) =~= configs@);
    while i < configs.len()
        invariant
            i <= configs.len(),
            first_admitting(configs@, distance_sq as int, duration as int, speed as int)
                == first_admitting(
                configs@.skip(i as int),
                distance_sq as int,
                duration as int,
                speed as int,
            ),
        decreases configs.len() - i,
    {
        assert(configs@.skip(i as int)[0] == configs@[i as int]);
        assert(configs@.skip(i as int).drop_first() =~= configs@.skip(i as int + 1));
        if matches_gesture_config(&configs[i].config, distance_sq, duration, speed) {
            return Some(configs[i].gesture_type);
        }
        i += 1;
    }
    assert(configs@.skip(configs.len() as int).len() == 0);
    None
}

/// Tells the direction of a move.
pub fn angle_to_direction(dx: i64, dy: i64) -> (r: u8)
    ensures
        r == direction_of(dx as int, dy as int),
        r < 4,
{
    let x: i128 = dx as i128;
    let y: i128 = dy as i128;
    if x > 0 && -x <= y && y < x {
        0
    } else if y > 0 && -y < x && x <= y {
        1
    } else if x < 0 && x < y && y <= -x {
        2
    } else if y < 0 && y <= x && x < -y {
        3
    } else {
        0
    }
}

/// Tells how sure a gesture made out of `samples` is.
pub fn calculate_confidence(samples: &Vec<GestureSample>) -> (r: u32)
    ensures
        r == confidence_of(samples@),
        r <= 1000,
{
    if samples.len() > 2 {
        let spread = calculate_velocity_variance(samples);
        if spread >= 1000 {
            0
        } else {
            1000 - spread as u32
        }
    } else {
        1000
    }
}

/// Tells what a gesture of kind `kind` made out of `samples` says of
/// itself.
pub fn extract_gesture_properties(samples: &Vec<GestureSample>, kind: GestureType) -> (r:
    GestureProperties)
    ensures
        r == properties_of(kind, samples@),
{
    match kind {
        GestureType::Swipe => {
            if samples.len() > 0 {
                let first = samples[0].position;
                let last = samples[samples.len() - 1].position;
                GestureProperties::Swipe {
                    direction: angle_to_direction(
                        last.x as i64 - first.x as i64,
                        last.y as i64 - first.y as i64,
                    ),
                }
            } else {
                GestureProperties::Plain
            }
        },
        GestureType::Pan => GestureProperties::Pan {
            total_distance: calculate_total_path_distance(samples),
        },
        _ => GestureProperties::Plain,
    }
}

/// Tells the gesture that a run of samples amounts to at `timestamp`.
pub fn check_gesture_completion(
    configs: &Vec<ConfiguredGesture>,
    start_time: u64,
    samples: &Vec<GestureSample>,
    timestamp: u64,
) -> (r: Option<GestureEvent>)
    ensures
        r == completed(configs@, start_time, samples@, timestamp),
{
    if samples.len() < 2 {
        return None;
    }
    let duration: u64 = if timestamp >= start_time {
        timestamp - start_time
    } else {
        0
    };
    let start = samples[0].position;
    let end = samples[samples.len() - 1].position;
    let distance = position_distance_sq(start, end);
    let speed = calculate_average_speed(samples);
    match classify_motion(configs, distance, duration, speed) {
        Some(kind) => Some(
            GestureEvent {
                gesture_type: kind,
                confidence: calculate_confidence(samples),
                start_position: start,
                end_position: end,
                duration,
                velocity: calculate_average_velocity(samples),
                properties: extract_gesture_properties(samples, kind),
                timestamp,
            },
        ),
        None => None,
    }
}

/// Computes the point half way between two points.
fn center_of(a: Position, b: Position) -> (r: Position)
    ensures
        r == midpoint(a, b),
{
    let x: i64 = a.x as i64 + b.x as i64;
    let y: i64 = a.y as i64 + b.y as i64;
    Position { x: (x / 2) as i32, y: (y / 2) as i32 }
}

/// Computes the ratio of two distances from their squares.
fn ratio_of_spans(before_sq: u128, now_sq: u128) -> (r: Option<u64>)
    requires
        now_sq <= 0x2_0000_0000_0000_0000,
    ensures
        r == span_ratio(before_sq as int, now_sq as int),
{
    if before_sq > 0 {
        assert(now_sq * 1_000_000 <= 0x2_0000_0000_0000_0000 * 1_000_000) by (nonlinear_arith)
            requires
                now_sq <= 0x2_0000_0000_0000_0000,
        ;
        Some(isqrt(now_sq * 1_000_000 / before_sq))
    } else {
        None
    }
}

/// The recogniser of gestures.
pub struct GestureRecognizer {
    gesture_configs: Vec<ConfiguredGesture>,
    active_recognizers: Vec<GestureRecognition>,
    gesture_history: Vec<GestureEvent>,
}

impl GestureRecognizer {
    /// The configurations, in their order of priority.
    pub closed spec fn configs(&self) -> Seq<ConfiguredGesture> {
        self.gesture_configs@
    }

    /// The gestures in the making.
    pub closed spec fn recognitions(&self) -> Seq<RecognitionView> {
        views_of(self.active_recognizers@)
    }

    /// The gestures made out so far, oldest first.
    pub closed spec fn history(&self) -> Seq<GestureEvent> {
        self.gesture_history@
    }

    /// A recogniser with the default configurations, no gesture in the
    /// making and an empty history.
    pub fn new() -> (r: Self)
        ensures
            r.configs() == default_configs(),
            r.recognitions() == Seq::<RecognitionView>::empty(),
            r.history() == Seq::<GestureEvent>::empty(),
    {
        let mut recognizer = GestureRecognizer {
            gesture_configs: Vec::new(),
            active_recognizers: Vec::new(),
            gesture_history: Vec::new(),
        };
        recognizer.init_default_configs();
        assert(recognizer.recognitions() =~= Seq::<RecognitionView>::empty());
        recognizer
    }

    /// Sets the configurations to the defaults, in their order of priority.
    fn init_default_configs(&mut self)
        ensures
            final(self).configs() == default_configs(),
            final(self).active_recognizers == old(self).active_recognizers,
            final(self).gesture_history == old(self).gesture_history,
    {
        let mut configs: Vec<ConfiguredGesture> = Vec::new();
        configs.push(
            ConfiguredGesture {
                gesture_type: GestureType::Tap,
                config: GestureConfig {
                    min_distance: 0,
                    max_distance: Some(10),
                    min_duration: 50,
                    max_duration: Some(300),
                    min_velocity: 0,
                    max_velocity: Some(100_000),
                    angle_tolerance: 0,
                    scale_threshold: 0,
                    rotation_threshold: 0,
                },
            },
        );
        configs.push(
            ConfiguredGesture {
                gesture_type: GestureType::DoubleTap,
                config: GestureConfig {
                    min_distance: 0,
                    max_distance: Some(20),
                    min_duration: 50,
                    max_duration: Some(600),
                    min_velocity: 0,
                    max_velocity: Some(150_000),
                    angle_tolerance: 0,
                    scale_threshold: 0,
                    rotation_threshold: 0,
                },
            },
        );
        configs.push(
            ConfiguredGesture {
                gesture_type: GestureType::LongPress,
                config: GestureConfig {
                    min_distance: 0,
                    max_distance: Some(15),
                    min_duration: 500,
                    max_duration: None,
                    min_velocity: 0,
                    max_velocity: Some(50_000),
                    angle_tolerance: 0,
                    scale_threshold: 0,
                    rotation_threshold: 0,
                },
            },
        );
        configs.push(
            ConfiguredGesture {
                gesture_type: GestureType::Swipe,
                config: GestureConfig {
                    min_distance: 50,
                    max_distance: None,
                    min_duration: 50,
                    max_duration: Some(500),
                    min_velocity: 100,
                    max_velocity: None,
                    angle_tolerance: 30,
                    scale_threshold: 0,
                    rotation_threshold: 0,
                },
            },
        );
        configs.push(
            ConfiguredGesture {
                gesture_type: GestureType::Pan,
                config: GestureConfig {
                    min_distance: 10,
                    max_distance: None,
                    min_duration: 100,
                    max_duration: None,
                    min_velocity: 0,
                    max_velocity: None,
                    angle_tolerance: 0,
                    scale_threshold: 0,
                    rotation_threshold: 0,
                },
            },
        );
        configs.push(
            ConfiguredGesture {
                gesture_type: GestureType::Pinch,
                config: GestureConfig {
                    min_distance: 0,
                    max_distance: None,
                    min_duration: 100,
                    max_duration: None,
                    min_velocity: 0,
                    max_velocity: None,
                    angle_tolerance: 0,
                    scale_threshold: 100,
                    rotation_threshold: 0,
                },
            },
        );
        configs.push(
            ConfiguredGesture {
                gesture_type: GestureType::Rotate,
                config: GestureConfig {
                    min_distance: 0,
                    max_distance: None,
                    min_duration: 100,
                    max_duration: None,
                    min_velocity: 0,
                    max_velocity: None,
                    angle_tolerance: 0,
                    scale_threshold: 0,
                    rotation_threshold: 5,
                },
            },
        );
        assert(configs@ =~= default_configs());
        self.gesture_configs = configs;
    }

    /// Finds the first recognition that follows `key`.
    fn find(&self, key: RecognitionKey) -> (r: usize)
        ensures
            r == index_of_key(self.recognitions(), key),
            r <= self.active_recognizers@.len(),
            self.recognitions().len() == self.active_recognizers@.len(),
    {
        let ghost views = views_of(self.active_recognizers@);
        proof {
            lemma_index_of_key(views, key);
        }
        let ghost target = index_of_key(views, key);
        let mut i: usize = 0;
        while i < self.active_recognizers.len()
            invariant
                i <= self.active_recognizers.len(),
                views == views_of(self.active_recognizers@),
                target == index_of_key(views, key),
                forall|j: int| 0 <= j < i ==> (#[trigger] views[j]).key != key,
                0 <= target <= views.len(),
                target < views.len() ==> views[target].key == key,
                forall|j: int| 0 <= j < target ==> (#[trigger] views[j]).key != key,
            decreases self.active_recognizers.len() - i,
        {
            assert(views[i as int] == self.active_recognizers@[i as int]@);
            if self.active_recognizers[i].key == key {
                return i;
            }
            i += 1;
        }
        i
    }

    /// Takes the touches of one event at `timestamp` and hands back the
    /// gestures that they complete.
    pub fn process_touch_input(&mut self, touch_data: &TouchData, timestamp: u64) -> (r: Vec<
        GestureEvent,
    >)
        ensures
            final(self).configs() == old(self).configs(),
            final(self).recognitions() == touch_input_step(
                old(self).configs(),
                old(self).recognitions(),
                touch_data.touches@,
                timestamp,
            ).0,
            keys_distinct(old(self).recognitions()) ==> keys_distinct(final(self).recognitions()),
            r@ == detected(
                touch_input_step(
                    old(self).configs(),
                    old(self).recognitions(),
                    touch_data.touches@,
                    timestamp,
                ).1,
            ),
            final(self).history() == recorded(
                old(self).history(),
                touch_input_step(
                    old(self).configs(),
                    old(self).recognitions(),
                    touch_data.touches@,
                    timestamp,
                ).1,
            ),
    {
        proof {
            if keys_distinct(self.recognitions()) {
                lemma_step_keeps_keys_distinct(
                    self.configs(),
                    self.recognitions(),
                    touch_data.touches@,
                    timestamp,
                );
            }
        }
        let gesture = if touch_data.touches.len() == 1 {
            self.process_single_touch(&touch_data.touches[0], timestamp)
        } else if touch_data.touches.len() >= 2 {
            self.process_multi_touch(&touch_data.touches, timestamp)
        } else {
            None
        };
        let mut detected_gestures: Vec<GestureEvent> = Vec::new();
        match gesture {
            Some(g) => {
                detected_gestures.push(g);
                self.gesture_history.push(g);
                if self.gesture_history.len() > HISTORY_LIMIT {
                    self.gesture_history.remove(0);
                    assert(self.gesture_history@ =~= old(self).gesture_history@.push(
                        g,
                    ).drop_first());
                }
                assert(detected_gestures@ =~= seq![g]);
            },
            None => {},
        }
        detected_gestures
    }

    /// Takes one sample of a single touch.
    fn process_single_touch(&mut self, touch: &TouchPoint, timestamp: u64) -> (r: Option<
        GestureEvent,
    >)
        ensures
            final(self).configs() == old(self).configs(),
            final(self).history() == old(self).history(),
            (final(self).recognitions(), r) == single_touch_step(
                old(self).configs(),
                old(self).recognitions(),
                *touch,
                timestamp,
            ),
    {
        let key = RecognitionKey::Single(touch.identifier);
        let at = self.find(key);
        let ghost before = self.recognitions();
        if at < self.active_recognizers.len() {
            assert(before[at as int] == self.active_recognizers@[at as int]@);
            let velocity = {
                let samples = &self.active_recognizers[at].samples;
                if samples.len() > 0 {
                    let last = samples[samples.len() - 1];
                    calculate_velocity(last.position, last.timestamp, touch.position, timestamp)
                } else {
                    Position { x: 0, y: 0 }
                }
            };
            self.active_recognizers[at].samples.push(
                GestureSample {
                    timestamp,
                    position: touch.position,
                    velocity,
                    pressure: touch.force,
                },
            );
            let ghost grown = self.active_recognizers@[at as int]@;
            assert(grown == (RecognitionView {
                samples: before[at as int].samples.push(
                    next_sample(before[at as int].samples, *touch, timestamp),
                ),
                ..before[at as int]
            }));
            let gesture = check_gesture_completion(
                &self.gesture_configs,
                self.active_recognizers[at].start_time,
                &self.active_recognizers[at].samples,
                timestamp,
            );
            match gesture {
                Some(g) => {
                    self.active_recognizers.remove(at);
                    assert(self.recognitions() =~= before.remove(at as int));
                    Some(g)
                },
                None => {
                    assert(self.recognitions() =~= before.update(at as int, grown));
                    None
                },
            }
        } else {
            let mut touch_points: Vec<TouchPoint> = Vec::new();
            touch_points.push(*touch);
            let mut samples: Vec<GestureSample> = Vec::new();
            samples.push(
                GestureSample {
                    timestamp,
                    position: touch.position,
                    velocity: Position { x: 0, y: 0 },
                    pressure: touch.force,
                },
            );
            let recognition = GestureRecognition {
                key,
                gesture_type: GestureType::Tap,
                start_time: timestamp,
                touch_points,
                samples,
                confidence: 0,
                span_sq: 0,
            };
            assert(recognition@.touch_points =~= seq![*touch]);
            assert(recognition@.samples =~= seq![
                next_sample(Seq::empty(), *touch, timestamp),
            ]);
            assert(recognition@ == fresh_single(*touch, timestamp));
            self.active_recognizers.push(recognition);
            assert(self.recognitions() =~= before.push(fresh_single(*touch, timestamp)));
            None
        }
    }

    /// Takes one sample of several touches.
    fn process_multi_touch(&mut self, touches: &Vec<TouchPoint>, timestamp: u64) -> (r: Option<
        GestureEvent,
    >)
        ensures
            final(self).configs() == old(self).configs(),
            final(self).history() == old(self).history(),
            (final(self).recognitions(), r) == multi_touch_step(
                old(self).recognitions(),
                touches@,
                timestamp,
            ),
    {
        if touches.len() != 2 {
            return None;
        }
        let first = touches[0];
        let second = touches[1];
        let now_sq = position_distance_sq(first.position, second.position);
        let center = center_of(first.position, second.position);
        let sample = GestureSample {
            timestamp,
            position: center,
            velocity: Position { x: 0, y: 0 },
            pressure: None,
        };
        let at = self.find(RecognitionKey::Multi);
        let ghost before = self.recognitions();
        if at < self.active_recognizers.len() {
            assert(before[at as int] == self.active_recognizers@[at as int]@);
            let found = &self.active_recognizers[at];
            let before_sq = found.span_sq;
            // A distance this large was never measured; whatever is
            // measured now is far less.
            let moved = if before_sq > 0x4_0000_0000_0000_0000 {
                true
            } else {
                100 * now_sq > 121 * before_sq || 100 * now_sq < 81 * before_sq
            };
            let changed = found.samples.len() > 0 && moved;
            let gesture = if changed {
                let distance = isqrt(now_sq);
                Some(
                    GestureEvent {
                        gesture_type: GestureType::Pinch,
                        confidence: 900,
                        start_position: found.samples[0].position,
                        end_position: center,
                        duration: if timestamp >= found.start_time {
                            timestamp - found.start_time
                        } else {
                            0
                        },
                        velocity: Position { x: 0, y: 0 },
                        properties: GestureProperties::Pinch {
                            scale: ratio_of_spans(before_sq, now_sq),
                            distance,
                        },
                        timestamp,
                    },
                )
            } else {
                None
            };
            self.active_recognizers[at].samples.push(sample);
            self.active_recognizers[at].span_sq = now_sq;
            let ghost grown = self.active_recognizers@[at as int]@;
            assert(self.recognitions() =~= before.update(at as int, grown));
            gesture
        } else {
            let mut samples: Vec<GestureSample> = Vec::new();
            samples.push(sample);
            let mut touch_points: Vec<TouchPoint> = Vec::new();
            touch_points.push(first);
            touch_points.push(second);
            let recognition = GestureRecognition {
                key: RecognitionKey::Multi,
                gesture_type: GestureType::Pinch,
                start_time: timestamp,
                touch_points,
                samples,
                confidence: 0,
                span_sq: now_sq,
            };
            assert(recognition@.touch_points =~= touches@);
            assert(recognition@.samples =~= seq![sample]);
            self.active_recognizers.push(recognition);
            assert(self.recognitions() =~= before.push(recognition@));
            None
        }
    }

    /// Drops the recognitions that have had no sample for too long, as of
    /// now.
    pub fn clear_completed_recognitions(&mut self)
        ensures
            final(self).configs() == old(self).configs(),
            final(self).history() == old(self).history(),
            exists|now: u64| final(self).recognitions() == fresh_only(old(self).recognitions(), now),
            keys_distinct(old(self).recognitions()) ==> keys_distinct(final(self).recognitions()),
    {
        let now = get_current_timestamp();
        self.clear_completed_recognitions_at(now);
    }

    /// Drops the recognitions whose last sample is more than the timeout
    /// before `now`.
    pub fn clear_completed_recognitions_at(&mut self, now: u64)
        ensures
            final(self).configs() == old(self).configs(),
            final(self).history() == old(self).history(),
            final(self).recognitions() == fresh_only(old(self).recognitions(), now),
            keys_distinct(old(self).recognitions()) ==> keys_distinct(final(self).recognitions()),
    {
        proof {
            if keys_distinct(self.recognitions()) {
                lemma_fresh_only_keeps_keys_distinct(self.recognitions(), now);
            }
        }
        let ghost before = self.active_recognizers@;
        let ghost mut seen: int = 0;
        let mut i: usize = 0;
        proof {
            lemma_pass_start(before);
            assert(views_of(before.take(0)) =~= Seq::<RecognitionView>::empty());
        }
        while i < self.active_recognizers.len()
            invariant
                0 <= seen <= before.len(),
                i <= self.active_recognizers.len(),
                self.gesture_configs == old(self).gesture_configs,
                self.gesture_history == old(self).gesture_history,
                views_of(self.active_recognizers@.take(i as int)) == fresh_only(
                    views_of(before.take(seen)),
                    now,
                ),
                self.active_recognizers@.skip(i as int) == before.skip(seen),
            decreases before.len() - seen,
        {
            let ghost current = self.active_recognizers@;
            proof {
                lemma_pass_step(current, i as int, before, seen);
                assert(views_of(before.take(seen + 1)).drop_last() =~= views_of(before.take(seen)));
                assert(views_of(before.take(seen + 1)).last() == before[seen]@);
                assert(views_of(current.take(i as int + 1)) =~= views_of(
                    current.take(i as int),
                ).push(current[i as int]@));
            }
            let samples = &self.active_recognizers[i].samples;
            let fresh = samples.len() > 0 && (now <= samples[samples.len() - 1].timestamp || now
                - samples[samples.len() - 1].timestamp <= RECOGNITION_TIMEOUT);
            if fresh {
                i += 1;
            } else {
                self.active_recognizers.remove(i);
            }
            proof {
                seen = seen + 1;
            }
        }
        proof {
            lemma_pass_end(self.active_recognizers@, i as int, before, seen);
        }
    }

    /// The gestures made out so far, oldest first.
    pub fn get_gesture_history(&self) -> (r: &Vec<GestureEvent>)
        ensures
            r@ == self.history(),
    {
        &self.gesture_history
    }

    /// The number of gestures in the making.
    pub fn active_count(&self) -> (r: usize)
        ensures
            r == self.recognitions().len(),
    {
        self.active_recognizers.len()
    }
}

} // verus!
