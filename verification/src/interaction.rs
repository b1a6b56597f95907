//! The interaction manager: what each kind of event does to the state of
//! the pointer, the keyboard, the touches and the elements, and what it
//! answers.

use crate::clock::get_current_timestamp;
use crate::error::WASMError;
use crate::events::{
    copy_text, copy_touches, distance_sq, position_distance_sq, EventModifiers, InteractionEvent,
    Position, TouchPoint,
};
use crate::kinds::{family_of, EventFamily, InteractionType};
use crate::motion::{calculate_velocity, velocity_between};
use crate::numeric::{bump, clamp_int};
use crate::responses::{
    all_meet, lemma_all_meet_concat, lemma_all_meet_push, meets, response, Expected,
    InteractionResponse, InteractionStateType, ResponseData, ResponseType,
};
use crate::seqs::{lemma_pass_end, lemma_pass_start, lemma_pass_step};
use std::collections::HashMap;
use vstd::hash_map::StringHashMap;
use vstd::prelude::*;
use vstd::string::*;

verus! {

broadcast use vstd::std_specs::hash::group_hash_axioms;

/// The state of one element: what it is, since when, and when it was last
/// set.
#[derive(Clone, Copy, Debug, PartialEq, Eq, Structural)]
pub struct StateRecord {
    pub state_type: InteractionStateType,
    pub start_time: u64,
    pub last_update: u64,
}

/// The state of an element, with the element that it belongs to.
#[derive(Debug)]
pub struct InteractionState {
    pub element_id: String,
    pub state_type: InteractionStateType,
    pub start_time: u64,
    pub last_update: u64,
}

/// A rule that makes events on one element known to a handler of another.
#[derive(Debug)]
pub struct EventDelegate {
    /// The element whose handler is told.
    pub element_id: String,
    pub event_types: Vec<InteractionType>,
    pub handler_id: String,
    pub capture: bool,
    pub priority: i32,
}

/// A delegate with the element that it listens on.
#[derive(Debug)]
pub struct DelegateBinding {
    pub target: String,
    pub delegate: EventDelegate,
}

/// What is known of one touch that is on the surface.
#[derive(Debug)]
pub struct TouchTracker {
    pub touch_id: u32,
    pub start_position: Position,
    pub current_position: Position,
    pub start_time: u64,
    pub last_update: u64,
    /// Units per second.
    pub velocity: Position,
    pub target_element: Option<String>,
}

/// The pointer.
#[derive(Debug)]
pub struct MouseState {
    pub position: Position,
    pub buttons: u16,
    pub last_click_time: u64,
    pub click_count: u32,
    pub target_element: Option<String>,
    pub dragging: bool,
    pub drag_start_position: Option<Position>,
}

/// The keyboard.
pub struct KeyboardState {
    pub pressed_keys: StringHashMap<u64>,
    pub modifiers: EventModifiers,
    pub focused_element: Option<String>,
    pub composition_active: bool,
}

/// Counters of the events handled.
#[derive(Clone, Copy, Debug, PartialEq, Eq, Structural)]
pub struct InteractionMetrics {
    pub total_events: u32,
    /// Events per second since the epoch, in thousandths.
    pub events_per_second: u64,
    /// Microseconds.
    pub average_response_time: u64,
    pub gesture_recognition_time: u64,
    pub touch_points_processed: u32,
    pub mouse_events_processed: u32,
    pub keyboard_events_processed: u32,
}

/// The manager of interactions.
pub struct InteractionManager {
    interaction_states: StringHashMap<StateRecord>,
    event_delegates: Vec<DelegateBinding>,
    touch_tracking: HashMap<u32, TouchTracker>,
    mouse_state: MouseState,
    keyboard_state: KeyboardState,
    performance_metrics: InteractionMetrics,
}

/// What a manager holds.
pub struct ManagerView {
    /// The state of each element that has one, by the id of the element.
    pub states: Map<Seq<char>, StateRecord>,
    /// The touches on the surface, by their identifier.
    pub trackers: Map<u32, TouchTracker>,
    /// The delegates, in the order in which they were added.
    pub delegates: Seq<DelegateBinding>,
    pub mouse: MouseState,
    /// The keys that are held, each with the time at which it went down.
    pub pressed_keys: Map<Seq<char>, u64>,
    pub modifiers: EventModifiers,
    pub focused_element: Option<String>,
    pub composition_active: bool,
    pub metrics: InteractionMetrics,
}

/// The distance, squared, that the pointer must leave the origin of a drag
/// behind before the drag starts.
pub const DRAG_THRESHOLD_SQ: u128 = 25;

/// The longest time, in milliseconds, between two clicks of a series.
pub const DOUBLE_CLICK_INTERVAL: u64 = 500;

/// The distance, squared, under which a touch that ends is a tap.
pub const TAP_DISTANCE_SQ: u128 = 100;

/// The time, in milliseconds, under which a touch that ends is a tap.
pub const TAP_DURATION: u64 = 300;

/// A counter after `more` more counts; it stops at the top of its range.
pub open spec fn counted_by(count: u32, more: int) -> u32 {
    if count + more <= u32::MAX {
        (count + more) as u32
    } else {
        u32::MAX
    }
}

/// The record of a state set at `timestamp`.
pub open spec fn record_at(state_type: InteractionStateType, timestamp: u64) -> StateRecord {
    StateRecord { state_type, start_time: timestamp, last_update: timestamp }
}

/// The states after the element `target`, if there is one, is set to
/// `state_type` at `timestamp`. A state that an element had is overwritten.
pub open spec fn with_state(
    states: Map<Seq<char>, StateRecord>,
    target: Option<String>,
    state_type: InteractionStateType,
    timestamp: u64,
) -> Map<Seq<char>, StateRecord> {
    match target {
        Some(t) => states.insert(t@, record_at(state_type, timestamp)),
        None => states,
    }
}

/// The answer that tells the new state of `target`, if there is a target.
pub open spec fn state_changed(
    target: Option<String>,
    state: InteractionStateType,
    now: u64,
) -> Seq<Expected> {
    match target {
        Some(t) => seq![
            response(Some(t), ResponseType::StateChanged, ResponseData::State { state }, now),
        ],
        None => Seq::empty(),
    }
}

/// The modifiers after the key named `key` goes down or up: the four
/// modifier keys set or clear their flag, any other key changes nothing.
pub open spec fn with_modifier(modifiers: EventModifiers, key: Seq<char>, down: bool) -> EventModifiers {
    if key == "Control"@ {
        EventModifiers { ctrl: down, ..modifiers }
    } else if key == "Shift"@ {
        EventModifiers { shift: down, ..modifiers }
    } else if key == "Alt"@ {
        EventModifiers { alt: down, ..modifiers }
    } else if key == "Meta"@ {
        EventModifiers { meta: down, ..modifiers }
    } else {
        modifiers
    }
}

/// What a mouse event does. Without pointer data it does nothing. With
/// it, the position and the buttons are taken over, and
/// - a button going down makes the target of the event the target of the
///   pointer, sets it to `Pressed`, and records where the pointer is as the
///   origin of a drag that may follow;
/// - a button going up sets the target of the pointer to `Hover` and
///   leaves the pointer without a target;
/// - a move with a button held starts a drag once the pointer is more than
///   five units from the recorded origin of the drag, and every move during
///   a drag reports the position and the movement.
pub open spec fn mouse_step(v: ManagerView, event: InteractionEvent, now: u64) -> (
    ManagerView,
    Seq<Expected>,
) {
    match event.mouse_data {
        None => (v, Seq::empty()),
        Some(m) => {
            let metrics = InteractionMetrics {
                mouse_events_processed: bump(v.metrics.mouse_events_processed),
                ..v.metrics
            };
            let moved = MouseState { position: m.position, buttons: m.buttons, ..v.mouse };
            match event.event_type {
                InteractionType::MouseDown => (
                    ManagerView {
                        mouse: MouseState {
                            target_element: event.target_element,
                            drag_start_position: Some(m.position),
                            ..moved
                        },
                        states: with_state(
                            v.states,
                            event.target_element,
                            InteractionStateType::Pressed,
                            event.timestamp,
                        ),
                        metrics,
                        ..v
                    },
                    state_changed(event.target_element, InteractionStateType::Pressed, now),
                ),
                InteractionType::MouseUp => (
                    ManagerView {
                        mouse: MouseState { target_element: None, ..moved },
                        states: with_state(
                            v.states,
                            v.mouse.target_element,
                            InteractionStateType::Hover,
                            event.timestamp,
                        ),
                        metrics,
                        ..v
                    },
                    state_changed(v.mouse.target_element, InteractionStateType::Hover, now),
                ),
                InteractionType::MouseMove => {
                    let starts = m.buttons > 0 && !v.mouse.dragging && v.mouse.drag_start_position
                        is Some && distance_sq(v.mouse.drag_start_position->Some_0, m.position)
                        > DRAG_THRESHOLD_SQ;
                    let dragging = v.mouse.dragging || starts;
                    let first = if starts {
                        seq![
                            response(
                                event.target_element,
                                ResponseType::DragStart,
                                ResponseData::DragStart {
                                    start_position: v.mouse.drag_start_position->Some_0,
                                },
                                now,
                            ),
                        ]
                    } else {
                        Seq::empty()
                    };
                    let second = if dragging {
                        seq![
                            response(
                                event.target_element,
                                ResponseType::Drag,
                                ResponseData::Drag { position: m.position, movement: m.movement },
                                now,
                            ),
                        ]
                    } else {
                        Seq::empty()
                    };
                    (
                        ManagerView { mouse: MouseState { dragging, ..moved }, metrics, ..v },
                        first + second,
                    )
                },
                _ => (ManagerView { mouse: moved, metrics, ..v }, Seq::empty()),
            }
        },
    }
}

/// What a click event does. Without pointer data it does nothing. A click
/// counts on from the click before when no more than half a second lies
/// between the two, and from one when more does; a double click leaves the
/// count as it is. Both are answered with the position, the button and the
/// count.
pub open spec fn click_step(v: ManagerView, event: InteractionEvent, now: u64) -> (
    ManagerView,
    Seq<Expected>,
) {
    match event.mouse_data {
        None => (v, Seq::empty()),
        Some(m) => match event.event_type {
            InteractionType::Click => {
                let click_count = if event.timestamp - v.mouse.last_click_time
                    <= DOUBLE_CLICK_INTERVAL {
                    bump(v.mouse.click_count)
                } else {
                    1
                };
                (
                    ManagerView {
                        mouse: MouseState {
                            click_count,
                            last_click_time: event.timestamp,
                            ..v.mouse
                        },
                        ..v
                    },
                    seq![
                        response(
                            event.target_element,
                            ResponseType::Click,
                            ResponseData::Click {
                                position: m.position,
                                button: m.button,
                                click_count,
                            },
                            now,
                        ),
                    ],
                )
            },
            InteractionType::DoubleClick => (
                v,
                seq![
                    response(
                        event.target_element,
                        ResponseType::DoubleClick,
                        ResponseData::DoubleClick {
                            position: m.position,
                            button: m.button,
                            click_count: v.mouse.click_count,
                        },
                        now,
                    ),
                ],
            ),
            _ => (v, Seq::empty()),
        },
    }
}

/// What a keyboard event does. Without key data it does nothing. A key
/// going down is held from the time of the event, a key going up is held
/// no more, and both set the modifiers; a key press changes nothing. Each
/// is answered with the key.
pub open spec fn keyboard_step(v: ManagerView, event: InteractionEvent, now: u64) -> (
    ManagerView,
    Seq<Expected>,
) {
    match event.keyboard_data {
        None => (v, Seq::empty()),
        Some(k) => {
            let metrics = InteractionMetrics {
                keyboard_events_processed: bump(v.metrics.keyboard_events_processed),
                ..v.metrics
            };
            match event.event_type {
                InteractionType::KeyDown => {
                    let modifiers = with_modifier(v.modifiers, k.key@, true);
                    (
                        ManagerView {
                            pressed_keys: v.pressed_keys.insert(k.key@, event.timestamp),
                            modifiers,
                            metrics,
                            ..v
                        },
                        seq![
                            response(
                                event.target_element,
                                ResponseType::KeyDown,
                                ResponseData::KeyDown { key: k.key, modifiers },
                                now,
                            ),
                        ],
                    )
                },
                InteractionType::KeyUp => (
                    ManagerView {
                        pressed_keys: v.pressed_keys.remove(k.key@),
                        modifiers: with_modifier(v.modifiers, k.key@, false),
                        metrics,
                        ..v
                    },
                    seq![
                        response(
                            event.target_element,
                            ResponseType::KeyUp,
                            ResponseData::KeyUp { key: k.key },
                            now,
                        ),
                    ],
                ),
                InteractionType::KeyPress => (
                    ManagerView { metrics, ..v },
                    seq![
                        response(
                            event.target_element,
                            ResponseType::KeyPress,
                            ResponseData::KeyPress { key: k.key, char_code: k.char_code },
                            now,
                        ),
                    ],
                ),
                _ => (ManagerView { metrics, ..v }, Seq::empty()),
            }
        },
    }
}

/// What a gesture event does: it changes nothing and is answered with the
/// gesture, if it carries one.
pub open spec fn gesture_step(v: ManagerView, event: InteractionEvent, now: u64) -> (
    ManagerView,
    Seq<Expected>,
) {
    match event.gesture_data {
        None => (v, Seq::empty()),
        Some(g) => (
            v,
            seq![
                response(
                    event.target_element,
                    ResponseType::Gesture,
                    ResponseData::Gesture {
                        gesture_type: g.gesture_type,
                        delta: g.delta,
                        scale: g.scale,
                        rotation: g.rotation,
                        velocity: g.velocity,
                    },
                    now,
                ),
            ],
        ),
    }
}

/// What a scroll event does: it changes nothing and is answered with the
/// distance scrolled.
pub open spec fn scroll_step(v: ManagerView, event: InteractionEvent, now: u64) -> (
    ManagerView,
    Seq<Expected>,
) {
    (
        v,
        seq![
            response(
                event.target_element,
                ResponseType::Scroll,
                ResponseData::Scroll { delta: event.scroll_delta },
                now,
            ),
        ],
    )
}

/// What a focus event does: focus makes the target the focused element
/// and sets it to `Focused`; blur sets the focused element to `Idle` and
/// leaves no element focused. Both are answered with what happened.
pub open spec fn focus_step(v: ManagerView, event: InteractionEvent, now: u64) -> (
    ManagerView,
    Seq<Expected>,
) {
    let answer = seq![
        response(
            event.target_element,
            ResponseType::FocusChanged,
            ResponseData::Focus { focused: event.event_type == InteractionType::Focus },
            now,
        ),
    ];
    match event.event_type {
        InteractionType::Focus => (
            ManagerView {
                focused_element: event.target_element,
                states: with_state(
                    v.states,
                    event.target_element,
                    InteractionStateType::Focused,
                    event.timestamp,
                ),
                ..v
            },
            answer,
        ),
        InteractionType::Blur => (
            ManagerView {
                focused_element: None,
                states: with_state(
                    v.states,
                    v.focused_element,
                    InteractionStateType::Idle,
                    event.timestamp,
                ),
                ..v
            },
            answer,
        ),
        _ => (v, answer),
    }
}

/// What a resize event does: it changes nothing and is answered, to no
/// element, with the new size.
pub open spec fn resize_step(v: ManagerView, event: InteractionEvent, now: u64) -> (
    ManagerView,
    Seq<Expected>,
) {
    (
        v,
        seq![
            response(
                None,
                ResponseType::Resize,
                ResponseData::Resize { size: event.viewport_size },
                now,
            ),
        ],
    )
}

/// What an event of any other kind does: it changes nothing and is
/// answered as handled.
pub open spec fn other_step(v: ManagerView, event: InteractionEvent, now: u64) -> (
    ManagerView,
    Seq<Expected>,
) {
    (
        v,
        seq![response(event.target_element, ResponseType::EventProcessed, ResponseData::Empty, now)],
    )
}

/// The tracker of a touch that comes down.
pub open spec fn tracker_of(touch: TouchPoint, event: InteractionEvent) -> TouchTracker {
    TouchTracker {
        touch_id: touch.identifier,
        start_position: touch.position,
        current_position: touch.position,
        start_time: event.timestamp,
        last_update: event.timestamp,
        velocity: Position { x: 0, y: 0 },
        target_element: event.target_element,
    }
}

/// The tracker of a touch that has moved to where `touch` is at
/// `timestamp`. The velocity is the one since the last update, and stays
/// as it was when no time has passed.
pub open spec fn tracker_moved(tracker: TouchTracker, touch: TouchPoint, timestamp: u64) -> TouchTracker {
    TouchTracker {
        velocity: if timestamp > tracker.last_update {
            velocity_between(
                tracker.current_position,
                tracker.last_update,
                touch.position,
                timestamp,
            )
        } else {
            tracker.velocity
        },
        current_position: touch.position,
        last_update: timestamp,
        ..tracker
    }
}

/// The trackers after the touches `changed` have come down, in order.
pub open spec fn trackers_started(
    trackers: Map<u32, TouchTracker>,
    changed: Seq<TouchPoint>,
    event: InteractionEvent,
) -> Map<u32, TouchTracker>
    decreases changed.len(),
{
    if changed.len() == 0 {
        trackers
    } else {
        trackers_started(trackers, changed.drop_last(), event).insert(
            changed.last().identifier,
            tracker_of(changed.last(), event),
        )
    }
}

/// The trackers after the touches `changed` have moved, in order. A touch
/// that is not tracked stays untracked.
pub open spec fn trackers_moved(
    trackers: Map<u32, TouchTracker>,
    changed: Seq<TouchPoint>,
    timestamp: u64,
) -> Map<u32, TouchTracker>
    decreases changed.len(),
{
    if changed.len() == 0 {
        trackers
    } else {
        let before = trackers_moved(trackers, changed.drop_last(), timestamp);
        let touch = changed.last();
        if before.contains_key(touch.identifier) {
            before.insert(
                touch.identifier,
                tracker_moved(before[touch.identifier], touch, timestamp),
            )
        } else {
            before
        }
    }
}

/// Whether a touch that ends where `touch` is at `timestamp` is a tap: it
/// ends less than ten units from where it came down, less than three tenths
/// of a second after.
pub open spec fn is_tap(tracker: TouchTracker, touch: TouchPoint, timestamp: u64) -> bool {
    distance_sq(tracker.start_position, touch.position) < TAP_DISTANCE_SQ && timestamp
        - tracker.start_time < TAP_DURATION
}

/// The time for which a touch was tracked when it ends at `timestamp`.
pub open spec fn tracked_for(tracker: TouchTracker, timestamp: u64) -> u64 {
    if timestamp >= tracker.start_time {
        (timestamp - tracker.start_time) as u64
    } else {
        0
    }
}

/// The trackers after the touches `changed` have ended, in order, and the
/// taps among them.
pub open spec fn trackers_ended(
    trackers: Map<u32, TouchTracker>,
    changed: Seq<TouchPoint>,
    event: InteractionEvent,
    now: u64,
) -> (Map<u32, TouchTracker>, Seq<Expected>)
    decreases changed.len(),
{
    if changed.len() == 0 {
        (trackers, Seq::empty())
    } else {
        let before = trackers_ended(trackers, changed.drop_last(), event, now);
        let touch = changed.last();
        if before.0.contains_key(touch.identifier) {
            let tracker = before.0[touch.identifier];
            (
                before.0.remove(touch.identifier),
                if is_tap(tracker, touch, event.timestamp) {
                    before.1.push(
                        response(
                            event.target_element,
                            ResponseType::Tap,
                            ResponseData::Tap {
                                position: touch.position,
                                duration: tracked_for(tracker, event.timestamp),
                            },
                            now,
                        ),
                    )
                } else {
                    before.1
                },
            )
        } else {
            before
        }
    }
}

/// What a touch event does. Without touch data it does nothing. With it,
/// - touches that come down are tracked from where and when they came down,
///   and the target is set to `Active`;
/// - touches that move have their tracker brought up to date, and the
///   answer carries every touch on the surface with the scale and the
///   rotation of the event;
/// - touches that end or are cancelled are tracked no more, each that was a
///   tap is answered with a tap, and the target is set to `Idle`.
/// The target is only set when the event is about at least one touch.
pub open spec fn touch_step(v: ManagerView, event: InteractionEvent, now: u64) -> (
    ManagerView,
    Seq<Expected>,
) {
    match event.touch_data {
        None => (v, Seq::empty()),
        Some(data) => {
            let changed = data.changed_touches@;
            let metrics = InteractionMetrics {
                touch_points_processed: counted_by(
                    v.metrics.touch_points_processed,
                    changed.len() as int,
                ),
                ..v.metrics
            };
            let target = if changed.len() > 0 {
                event.target_element
            } else {
                None
            };
            match event.event_type {
                InteractionType::TouchStart => (
                    ManagerView {
                        trackers: trackers_started(v.trackers, changed, event),
                        states: with_state(
                            v.states,
                            target,
                            InteractionStateType::Active,
                            event.timestamp,
                        ),
                        metrics,
                        ..v
                    },
                    seq![
                        response(
                            event.target_element,
                            ResponseType::TouchStart,
                            ResponseData::TouchStart { touch_count: data.touches@.len() as usize },
                            now,
                        ),
                    ],
                ),
                InteractionType::TouchMove => (
                    ManagerView {
                        trackers: trackers_moved(v.trackers, changed, event.timestamp),
                        metrics,
                        ..v
                    },
                    seq![
                        Expected::TouchMove {
                            target: event.target_element,
                            touches: data.touches@,
                            scale: data.scale,
                            rotation: data.rotation_angle,
                            timestamp: now,
                        },
                    ],
                ),
                InteractionType::TouchEnd | InteractionType::TouchCancel => {
                    let ended = trackers_ended(v.trackers, changed, event, now);
                    (
                        ManagerView {
                            trackers: ended.0,
                            states: with_state(
                                v.states,
                                target,
                                InteractionStateType::Idle,
                                event.timestamp,
                            ),
                            metrics,
                            ..v
                        },
                        ended.1.push(
                            response(
                                event.target_element,
                                ResponseType::TouchEnd,
                                ResponseData::TouchEnd {
                                    remaining_touches: data.touches@.len() as usize,
                                },
                                now,
                            ),
                        ),
                    )
                },
                _ => (ManagerView { metrics, ..v }, Seq::empty()),
            }
        },
    }
}

/// Whether the delegate bound by `binding` hears of events of kind `kind`
/// on the element `target`.
pub open spec fn hears(binding: DelegateBinding, target: Seq<char>, kind: InteractionType) -> bool {
    binding.target@ == target && binding.delegate.event_types@.contains(kind)
}

/// The answers of the delegates that hear of an event of kind `kind` on
/// `target`, in the order of the delegates.
pub open spec fn delegated(
    delegates: Seq<DelegateBinding>,
    target: String,
    kind: InteractionType,
    now: u64,
) -> Seq<Expected>
    decreases delegates.len(),
{
    if delegates.len() == 0 {
        Seq::empty()
    } else {
        let before = delegated(delegates.drop_last(), target, kind, now);
        let binding = delegates.last();
        if hears(binding, target@, kind) {
            before.push(
                response(
                    Some(binding.delegate.element_id),
                    ResponseType::Delegated,
                    ResponseData::Delegated {
                        handler_id: binding.delegate.handler_id,
                        original_target: target,
                    },
                    now,
                ),
            )
        } else {
            before
        }
    }
}

/// The delegates without those on `target` whose handler is `handler_id`.
pub open spec fn without_delegate(
    delegates: Seq<DelegateBinding>,
    target: Seq<char>,
    handler_id: Seq<char>,
) -> Seq<DelegateBinding>
    decreases delegates.len(),
{
    if delegates.len() == 0 {
        delegates
    } else {
        let before = without_delegate(delegates.drop_last(), target, handler_id);
        let binding = delegates.last();
        if binding.target@ == target && binding.delegate.handler_id@ == handler_id {
            before
        } else {
            before.push(binding)
        }
    }
}

/// What the handler of the family of the event does.
pub open spec fn family_step(v: ManagerView, event: InteractionEvent, now: u64) -> (
    ManagerView,
    Seq<Expected>,
) {
    match family_of(event.event_type) {
        EventFamily::Mouse => mouse_step(v, event, now),
        EventFamily::Click => click_step(v, event, now),
        EventFamily::Touch => touch_step(v, event, now),
        EventFamily::Keyboard => keyboard_step(v, event, now),
        EventFamily::Gesture => gesture_step(v, event, now),
        EventFamily::Scroll => scroll_step(v, event, now),
        EventFamily::Focus => focus_step(v, event, now),
        EventFamily::Resize => resize_step(v, event, now),
        EventFamily::Other => other_step(v, event, now),
    }
}

/// The metrics after one more event was handled in `processing_time`
/// milliseconds, as of `now`. The rate is the number of events over the
/// time since the epoch, and the mean response time takes the new time in
/// as one among as many as there were events.
pub open spec fn metrics_after(
    metrics: InteractionMetrics,
    processing_time: u64,
    now: u64,
) -> InteractionMetrics {
    InteractionMetrics {
        events_per_second: if now > 0 {
            (metrics.total_events as int * 1_000_000 / now as int) as u64
        } else {
            0
        },
        average_response_time: if metrics.total_events > 0 {
            clamp_int(
                (metrics.average_response_time as int * (metrics.total_events - 1)
                    + processing_time as int * 1000) / metrics.total_events as int,
                0,
                u64::MAX as int,
            ) as u64
        } else {
            metrics.average_response_time
        },
        ..metrics
    }
}

/// What an event does, handled from `started` to `finished`: the event is
/// counted, the handler of its family does its part, the metrics take the
/// time in, and the delegates on the target of the event answer after the
/// handler.
pub open spec fn event_step(
    v: ManagerView,
    event: InteractionEvent,
    started: u64,
    finished: u64,
) -> (ManagerView, Seq<Expected>) {
    let counted_view = ManagerView {
        metrics: InteractionMetrics { total_events: bump(v.metrics.total_events), ..v.metrics },
        ..v
    };
    let handled = family_step(counted_view, event, started);
    let measured = ManagerView {
        metrics: metrics_after(
            handled.0.metrics,
            if finished >= started {
                (finished - started) as u64
            } else {
                0
            },
            finished,
        ),
        ..handled.0
    };
    (
        measured,
        match event.target_element {
            Some(target) => handled.1 + delegated(v.delegates, target, event.event_type, started),
            None => handled.1,
        },
    )
}


/// What a manager holds before any event.
pub open spec fn initial_view() -> ManagerView {
    ManagerView {
        states: Map::empty(),
        trackers: Map::empty(),
        delegates: Seq::empty(),
        mouse: MouseState {
            position: Position { x: 0, y: 0 },
            buttons: 0,
            last_click_time: 0,
            click_count: 0,
            target_element: None,
            dragging: false,
            drag_start_position: None,
        },
        pressed_keys: Map::empty(),
        modifiers: EventModifiers { ctrl: false, shift: false, alt: false, meta: false },
        focused_element: None,
        composition_active: false,
        metrics: InteractionMetrics {
            total_events: 0,
            events_per_second: 0,
            average_response_time: 0,
            gesture_recognition_time: 0,
            touch_points_processed: 0,
            mouse_events_processed: 0,
            keyboard_events_processed: 0,
        },
    }
}

/// Tells whether `kind` is among `kinds`.
pub fn kinds_contain(kinds: &Vec<InteractionType>, kind: InteractionType) -> (r: bool)
    ensures
        r == kinds@.contains(kind),
{
    let mut i: usize = 0;
    while i < kinds.len()
        invariant
            i <= kinds.len(),
            forall|j: int| 0 <= j < i ==> kinds@[j] != kind,
        decreases kinds.len() - i,
    {
        if kinds[i] == kind {
            return true;
        }
        i += 1;
    }
    false
}

/// Adds one to a counter that stops at the top of its range.
fn count_one(count: u32) -> (r: u32)
    ensures
        r == bump(count),
{
    if count < u32::MAX {
        count + 1
    } else {
        count
    }
}

impl View for InteractionManager {
    type V = ManagerView;

    closed spec fn view(&self) -> ManagerView {
        ManagerView {
            states: self.interaction_states@,
            trackers: self.touch_tracking@,
            delegates: self.event_delegates@,
            mouse: self.mouse_state,
            pressed_keys: self.keyboard_state.pressed_keys@,
            modifiers: self.keyboard_state.modifiers,
            focused_element: self.keyboard_state.focused_element,
            composition_active: self.keyboard_state.composition_active,
            metrics: self.performance_metrics,
        }
    }
}

impl InteractionManager {
    /// A manager that has seen no event.
    pub fn new() -> (r: Self)
        ensures
            r@ == initial_view(),
    {
        InteractionManager {
            interaction_states: StringHashMap::new(),
            event_delegates: Vec::new(),
            touch_tracking: HashMap::new(),
            mouse_state: MouseState {
                position: Position { x: 0, y: 0 },
                buttons: 0,
                last_click_time: 0,
                click_count: 0,
                target_element: None,
                dragging: false,
                drag_start_position: None,
            },
            keyboard_state: KeyboardState {
                pressed_keys: StringHashMap::new(),
                modifiers: EventModifiers { ctrl: false, shift: false, alt: false, meta: false },
                focused_element: None,
                composition_active: false,
            },
            performance_metrics: InteractionMetrics {
                total_events: 0,
                events_per_second: 0,
                average_response_time: 0,
                gesture_recognition_time: 0,
                touch_points_processed: 0,
                mouse_events_processed: 0,
                keyboard_events_processed: 0,
            },
        }
    }

    /// Sets the element `target`, if there is one, to `state_type`.
    fn set_interaction_state(
        &mut self,
        target: &Option<String>,
        state_type: InteractionStateType,
        timestamp: u64,
    )
        ensures
            final(self)@ == (ManagerView {
                states: with_state(old(self)@.states, *target, state_type, timestamp),
                ..old(self)@
            }),
    {
        match target {
            Some(element_id) => {
                self.interaction_states.insert(
                    element_id.clone(),
                    StateRecord { state_type, start_time: timestamp, last_update: timestamp },
                );
            },
            None => {},
        }
    }

    /// The answer that tells the new state of `target`, if there is one.
    fn state_change_responses(
        target: &Option<String>,
        state: InteractionStateType,
        now: u64,
    ) -> (r: Vec<InteractionResponse>)
        ensures
            all_meet(r@, state_changed(*target, state, now)),
    {
        let mut responses: Vec<InteractionResponse> = Vec::new();
        match target {
            Some(t) => {
                responses.push(
                    InteractionResponse::new_at(
                        Some(t.clone()),
                        ResponseType::StateChanged,
                        ResponseData::State { state },
                        now,
                    ),
                );
                assert(meets(responses@[0], state_changed(*target, state, now)[0]));
            },
            None => {},
        }
        responses
    }

    /// Handles a mouse event.
    fn handle_mouse_event(&mut self, event: &InteractionEvent, now: u64) -> (r: Vec<
        InteractionResponse,
    >)
        ensures
            final(self)@ == mouse_step(old(self)@, *event, now).0,
            all_meet(r@, mouse_step(old(self)@, *event, now).1),
    {
        match event.mouse_data {
            None => Vec::new(),
            Some(m) => {
                self.mouse_state.position = m.position;
                self.mouse_state.buttons = m.buttons;
                self.performance_metrics.mouse_events_processed = count_one(
                    self.performance_metrics.mouse_events_processed,
                );
                match event.event_type {
                    InteractionType::MouseDown => {
                        self.mouse_state.target_element = copy_text(&event.target_element);
                        self.mouse_state.drag_start_position = Some(m.position);
                        self.set_interaction_state(
                            &event.target_element,
                            InteractionStateType::Pressed,
                            event.timestamp,
                        );
                        Self::state_change_responses(
                            &event.target_element,
                            InteractionStateType::Pressed,
                            now,
                        )
                    },
                    InteractionType::MouseUp => {
                        let target = copy_text(&self.mouse_state.target_element);
                        self.set_interaction_state(
                            &target,
                            InteractionStateType::Hover,
                            event.timestamp,
                        );
                        self.mouse_state.target_element = None;
                        Self::state_change_responses(&target, InteractionStateType::Hover, now)
                    },
                    InteractionType::MouseMove => {
                        let mut responses: Vec<InteractionResponse> = Vec::new();
                        let ghost mut expected: Seq<Expected> = Seq::empty();
                        if m.buttons > 0 && !self.mouse_state.dragging {
                            match self.mouse_state.drag_start_position {
                                Some(origin) => {
                                    if position_distance_sq(origin, m.position)
                                        > DRAG_THRESHOLD_SQ {
                                        self.mouse_state.dragging = true;
                                        responses.push(
                                            InteractionResponse::new_at(
                                                copy_text(&event.target_element),
                                                ResponseType::DragStart,
                                                ResponseData::DragStart { start_position: origin },
                                                now,
                                            ),
                                        );
                                        proof {
                                            expected = seq![
                                                response(
                                                    event.target_element,
                                                    ResponseType::DragStart,
                                                    ResponseData::DragStart {
                                                        start_position: origin,
                                                    },
                                                    now,
                                                ),
                                            ];
                                            assert(meets(responses@[0], expected[0]));
                                        }
                                    }
                                },
                                None => {},
                            }
                        }
                        assert(all_meet(responses@, expected));
                        if self.mouse_state.dragging {
                            let answer = InteractionResponse::new_at(
                                copy_text(&event.target_element),
                                ResponseType::Drag,
                                ResponseData::Drag { position: m.position, movement: m.movement },
                                now,
                            );
                            let ghost described = response(
                                event.target_element,
                                ResponseType::Drag,
                                ResponseData::Drag { position: m.position, movement: m.movement },
                                now,
                            );
                            proof {
                                lemma_all_meet_push(responses@, expected, answer, described);
                                assert(expected.push(described) =~= expected + seq![described]);
                                expected = expected.push(described);
                            }
                            responses.push(answer);
                        } else {
                            assert(expected + Seq::<Expected>::empty() =~= expected);
                        }
                        assert(expected == mouse_step(old(self)@, *event, now).1);
                        responses
                    },
                    _ => Vec::new(),
                }
            },
        }
    }

    /// Handles a click or a double click.
    fn handle_click_event(&mut self, event: &InteractionEvent, now: u64) -> (r: Vec<
        InteractionResponse,
    >)
        ensures
            final(self)@ == click_step(old(self)@, *event, now).0,
            all_meet(r@, click_step(old(self)@, *event, now).1),
    {
        let mut responses: Vec<InteractionResponse> = Vec::new();
        match event.mouse_data {
            None => {},
            Some(m) => match event.event_type {
                InteractionType::Click => {
                    let last = self.mouse_state.last_click_time;
                    let in_series = event.timestamp < last || event.timestamp - last
                        <= DOUBLE_CLICK_INTERVAL;
                    let click_count = if in_series {
                        count_one(self.mouse_state.click_count)
                    } else {
                        1
                    };
                    self.mouse_state.click_count = click_count;
                    self.mouse_state.last_click_time = event.timestamp;
                    responses.push(
                        InteractionResponse::new_at(
                            copy_text(&event.target_element),
                            ResponseType::Click,
                            ResponseData::Click {
                                position: m.position,
                                button: m.button,
                                click_count,
                            },
                            now,
                        ),
                    );
                    assert(meets(responses@[0], click_step(old(self)@, *event, now).1[0]));
                },
                InteractionType::DoubleClick => {
                    responses.push(
                        InteractionResponse::new_at(
                            copy_text(&event.target_element),
                            ResponseType::DoubleClick,
                            ResponseData::DoubleClick {
                                position: m.position,
                                button: m.button,
                                click_count: self.mouse_state.click_count,
                            },
                            now,
                        ),
                    );
                    assert(meets(responses@[0], click_step(old(self)@, *event, now).1[0]));
                },
                _ => {},
            },
        }
        responses
    }

    /// Sets or clears the modifier that the key named `key` stands for.
    fn update_modifiers(&mut self, key: &String, down: bool)
        ensures
            final(self)@ == (ManagerView {
                modifiers: with_modifier(old(self)@.modifiers, key@, down),
                ..old(self)@
            }),
    {
        let control = String::from_str("Control");
        let shift = String::from_str("Shift");
        let alt = String::from_str("Alt");
        let meta = String::from_str("Meta");
        if *key == control {
            self.keyboard_state.modifiers.ctrl = down;
        } else if *key == shift {
            self.keyboard_state.modifiers.shift = down;
        } else if *key == alt {
            self.keyboard_state.modifiers.alt = down;
        } else if *key == meta {
            self.keyboard_state.modifiers.meta = down;
        }
    }

    /// Handles a keyboard event.
    fn handle_keyboard_event(&mut self, event: &InteractionEvent, now: u64) -> (r: Vec<
        InteractionResponse,
    >)
        ensures
            final(self)@ == keyboard_step(old(self)@, *event, now).0,
            all_meet(r@, keyboard_step(old(self)@, *event, now).1),
    {
        let mut responses: Vec<InteractionResponse> = Vec::new();
        match &event.keyboard_data {
            None => {},
            Some(k) => {
                self.performance_metrics.keyboard_events_processed = count_one(
                    self.performance_metrics.keyboard_events_processed,
                );
                match event.event_type {
                    InteractionType::KeyDown => {
                        self.keyboard_state.pressed_keys.insert(k.key.clone(), event.timestamp);
                        self.update_modifiers(&k.key, true);
                        responses.push(
                            InteractionResponse::new_at(
                                copy_text(&event.target_element),
                                ResponseType::KeyDown,
                                ResponseData::KeyDown {
                                    key: k.key.clone(),
                                    modifiers: self.keyboard_state.modifiers,
                                },
                                now,
                            ),
                        );
                        assert(meets(responses@[0], keyboard_step(old(self)@, *event, now).1[0]));
                    },
                    InteractionType::KeyUp => {
                        self.keyboard_state.pressed_keys.remove(k.key.as_str());
                        self.update_modifiers(&k.key, false);
                        responses.push(
                            InteractionResponse::new_at(
                                copy_text(&event.target_element),
                                ResponseType::KeyUp,
                                ResponseData::KeyUp { key: k.key.clone() },
                                now,
                            ),
                        );
                        assert(meets(responses@[0], keyboard_step(old(self)@, *event, now).1[0]));
                    },
                    InteractionType::KeyPress => {
                        responses.push(
                            InteractionResponse::new_at(
                                copy_text(&event.target_element),
                                ResponseType::KeyPress,
                                ResponseData::KeyPress {
                                    key: k.key.clone(),
                                    char_code: k.char_code,
                                },
                                now,
                            ),
                        );
                        assert(meets(responses@[0], keyboard_step(old(self)@, *event, now).1[0]));
                    },
                    _ => {},
                }
            },
        }
        responses
    }

    /// Handles a gesture event.
    fn handle_gesture_event(&mut self, event: &InteractionEvent, now: u64) -> (r: Vec<
        InteractionResponse,
    >)
        ensures
            final(self)@ == gesture_step(old(self)@, *event, now).0,
            all_meet(r@, gesture_step(old(self)@, *event, now).1),
    {
        let mut responses: Vec<InteractionResponse> = Vec::new();
        match event.gesture_data {
            None => {},
            Some(g) => {
                responses.push(
                    InteractionResponse::new_at(
                        copy_text(&event.target_element),
                        ResponseType::Gesture,
                        ResponseData::Gesture {
                            gesture_type: g.gesture_type,
                            delta: g.delta,
                            scale: g.scale,
                            rotation: g.rotation,
                            velocity: g.velocity,
                        },
                        now,
                    ),
                );
                assert(meets(responses@[0], gesture_step(old(self)@, *event, now).1[0]));
            },
        }
        responses
    }

    /// Handles a scroll or a wheel event.
    fn handle_scroll_event(&mut self, event: &InteractionEvent, now: u64) -> (r: Vec<
        InteractionResponse,
    >)
        ensures
            final(self)@ == scroll_step(old(self)@, *event, now).0,
            all_meet(r@, scroll_step(old(self)@, *event, now).1),
    {
        let mut responses: Vec<InteractionResponse> = Vec::new();
        responses.push(
            InteractionResponse::new_at(
                copy_text(&event.target_element),
                ResponseType::Scroll,
                ResponseData::Scroll { delta: event.scroll_delta },
                now,
            ),
        );
        assert(meets(responses@[0], scroll_step(old(self)@, *event, now).1[0]));
        responses
    }

    /// Handles a focus or a blur event.
    fn handle_focus_event(&mut self, event: &InteractionEvent, now: u64) -> (r: Vec<
        InteractionResponse,
    >)
        ensures
            final(self)@ == focus_step(old(self)@, *event, now).0,
            all_meet(r@, focus_step(old(self)@, *event, now).1),
    {
        let mut focused = false;
        match event.event_type {
            InteractionType::Focus => {
                focused = true;
                self.keyboard_state.focused_element = copy_text(&event.target_element);
                self.set_interaction_state(
                    &event.target_element,
                    InteractionStateType::Focused,
                    event.timestamp,
                );
            },
            InteractionType::Blur => {
                let target = copy_text(&self.keyboard_state.focused_element);
                self.set_interaction_state(&target, InteractionStateType::Idle, event.timestamp);
                self.keyboard_state.focused_element = None;
            },
            _ => {},
        }
        let mut responses: Vec<InteractionResponse> = Vec::new();
        responses.push(
            InteractionResponse::new_at(
                copy_text(&event.target_element),
                ResponseType::FocusChanged,
                ResponseData::Focus { focused },
                now,
            ),
        );
        assert(meets(responses@[0], focus_step(old(self)@, *event, now).1[0]));
        responses
    }

    /// Handles a resize event.
    fn handle_resize_event(&mut self, event: &InteractionEvent, now: u64) -> (r: Vec<
        InteractionResponse,
    >)
        ensures
            final(self)@ == resize_step(old(self)@, *event, now).0,
            all_meet(r@, resize_step(old(self)@, *event, now).1),
    {
        let mut responses: Vec<InteractionResponse> = Vec::new();
        responses.push(
            InteractionResponse::new_at(
                None,
                ResponseType::Resize,
                ResponseData::Resize { size: event.viewport_size },
                now,
            ),
        );
        assert(meets(responses@[0], resize_step(old(self)@, *event, now).1[0]));
        responses
    }

    /// Adds a delegate that listens on the element `target`.
    pub fn add_event_delegate(&mut self, target: &str, delegate: EventDelegate)
        ensures
            final(self)@ == (ManagerView { delegates: final(self)@.delegates, ..old(self)@ }),
            final(self)@.delegates.len() == old(self)@.delegates.len() + 1,
            final(self)@.delegates.drop_last() == old(self)@.delegates,
            final(self)@.delegates.last().target@ == target@,
            final(self)@.delegates.last().delegate == delegate,
    {
        self.event_delegates.push(DelegateBinding { target: String::from_str(target), delegate });
        assert(self.event_delegates@.drop_last() =~= old(self).event_delegates@);
    }

    /// Removes the delegates on the element `target` whose handler is
    /// `handler_id`.
    pub fn remove_event_delegate(&mut self, target: &str, handler_id: &str)
        ensures
            final(self)@ == (ManagerView {
                delegates: without_delegate(old(self)@.delegates, target@, handler_id@),
                ..old(self)@
            }),
    {
        let wanted_target = String::from_str(target);
        let wanted_handler = String::from_str(handler_id);
        let ghost before = self.event_delegates@;
        let ghost mut seen: int = 0;
        let mut i: usize = 0;
        proof {
            lemma_pass_start(before);
        }
        while i < self.event_delegates.len()
            invariant
                0 <= seen <= before.len(),
                i <= self.event_delegates.len(),
                wanted_target@ == target@,
                wanted_handler@ == handler_id@,
                self.event_delegates@.take(i as int) == without_delegate(
                    before.take(seen),
                    target@,
                    handler_id@,
                ),
                self.event_delegates@.skip(i as int) == before.skip(seen),
                self.interaction_states == old(self).interaction_states,
                self.touch_tracking == old(self).touch_tracking,
                self.mouse_state == old(self).mouse_state,
                self.keyboard_state == old(self).keyboard_state,
                self.performance_metrics == old(self).performance_metrics,
            decreases before.len() - seen,
        {
            let ghost current = self.event_delegates@;
            proof {
                lemma_pass_step(current, i as int, before, seen);
            }
            if self.event_delegates[i].target == wanted_target
                && self.event_delegates[i].delegate.handler_id == wanted_handler {
                self.event_delegates.remove(i);
            } else {
                i += 1;
            }
            proof {
                seen = seen + 1;
            }
        }
        proof {
            lemma_pass_end(self.event_delegates@, i as int, before, seen);
        }
    }

    /// The state of the element `element_id`, if it has one.
    pub fn get_interaction_state(&self, element_id: &str) -> (r: Option<InteractionState>)
        ensures
            r is Some <==> self@.states.contains_key(element_id@),
            r is Some ==> r->Some_0.element_id@ == element_id@ && r->Some_0.state_type
                == self@.states[element_id@].state_type && r->Some_0.start_time
                == self@.states[element_id@].start_time && r->Some_0.last_update
                == self@.states[element_id@].last_update,
    {
        match self.interaction_states.get(element_id) {
            Some(record) => Some(
                InteractionState {
                    element_id: String::from_str(element_id),
                    state_type: record.state_type,
                    start_time: record.start_time,
                    last_update: record.last_update,
                },
            ),
            None => None,
        }
    }

    /// The counters of the events handled.
    pub fn get_performance_metrics(&self) -> (r: &InteractionMetrics)
        ensures
            *r == self@.metrics,
    {
        &self.performance_metrics
    }

    /// The pointer.
    pub fn get_mouse_state(&self) -> (r: &MouseState)
        ensures
            *r == self@.mouse,
    {
        &self.mouse_state
    }

    /// The modifier keys that are held.
    pub fn get_modifiers(&self) -> (r: EventModifiers)
        ensures
            r == self@.modifiers,
    {
        self.keyboard_state.modifiers
    }

    /// Whether the key named `key` is held.
    pub fn is_key_pressed(&self, key: &str) -> (r: bool)
        ensures
            r == self@.pressed_keys.contains_key(key@),
    {
        self.keyboard_state.pressed_keys.contains_key(key)
    }

    /// Whether the touch `touch_id` is on the surface.
    pub fn is_touch_tracked(&self, touch_id: u32) -> (r: bool)
        ensures
            r == self@.trackers.contains_key(touch_id),
    {
        self.touch_tracking.contains_key(&touch_id)
    }

    /// The number of delegates.
    pub fn delegate_count(&self) -> (r: usize)
        ensures
            r == self@.delegates.len(),
    {
        self.event_delegates.len()
    }
}


/// Adds `more` to a counter that stops at the top of its range.
fn count_many(count: u32, more: usize) -> (r: u32)
    ensures
        r == counted_by(count, more as int),
{
    if more <= (u32::MAX - count) as usize {
        count + more as u32
    } else {
        u32::MAX
    }
}

/// Tracks the touches that have come down.
fn start_trackers(
    trackers: &mut HashMap<u32, TouchTracker>,
    changed: &Vec<TouchPoint>,
    event: &InteractionEvent,
)
    ensures
        final(trackers)@ == trackers_started(old(trackers)@, changed@, *event),
{
    let mut i: usize = 0;
    assert(changed@.take(0) =~= Seq::<TouchPoint>::empty());
    while i < changed.len()
        invariant
            i <= changed.len(),
            trackers@ == trackers_started(old(trackers)@, changed@.take(i as int), *event),
        decreases changed.len() - i,
    {
        let touch = changed[i];
        proof {
            let grown = changed@.take(i as int + 1);
            assert(grown.drop_last() =~= changed@.take(i as int));
            assert(grown.last() == touch);
        }
        trackers.insert(
            touch.identifier,
            TouchTracker {
                touch_id: touch.identifier,
                start_position: touch.position,
                current_position: touch.position,
                start_time: event.timestamp,
                last_update: event.timestamp,
                velocity: Position { x: 0, y: 0 },
                target_element: copy_text(&event.target_element),
            },
        );
        i += 1;
    }
    assert(changed@.take(changed.len() as int) =~= changed@);
}

/// Brings the trackers of the touches that have moved up to date.
fn move_trackers(
    trackers: &mut HashMap<u32, TouchTracker>,
    changed: &Vec<TouchPoint>,
    timestamp: u64,
)
    ensures
        final(trackers)@ == trackers_moved(old(trackers)@, changed@, timestamp),
{
    let mut i: usize = 0;
    assert(changed@.take(0) =~= Seq::<TouchPoint>::empty());
    while i < changed.len()
        invariant
            i <= changed.len(),
            trackers@ == trackers_moved(old(trackers)@, changed@.take(i as int), timestamp),
        decreases changed.len() - i,
    {
        let touch = changed[i];
        proof {
            let grown = changed@.take(i as int + 1);
            assert(grown.drop_last() =~= changed@.take(i as int));
            assert(grown.last() == touch);
        }
        let updated = match trackers.get(&touch.identifier) {
            Some(tracker) => Some(
                TouchTracker {
                    touch_id: tracker.touch_id,
                    start_position: tracker.start_position,
                    current_position: touch.position,
                    start_time: tracker.start_time,
                    last_update: timestamp,
                    velocity: if timestamp > tracker.last_update {
                        calculate_velocity(
                            tracker.current_position,
                            tracker.last_update,
                            touch.position,
                            timestamp,
                        )
                    } else {
                        tracker.velocity
                    },
                    target_element: copy_text(&tracker.target_element),
                },
            ),
            None => None,
        };
        match updated {
            Some(tracker) => {
                trackers.insert(touch.identifier, tracker);
            },
            None => {},
        }
        i += 1;
    }
    assert(changed@.take(changed.len() as int) =~= changed@);
}

/// Stops tracking the touches that have ended and answers the taps among
/// them.
fn end_trackers(
    trackers: &mut HashMap<u32, TouchTracker>,
    changed: &Vec<TouchPoint>,
    event: &InteractionEvent,
    now: u64,
) -> (r: Vec<InteractionResponse>)
    ensures
        final(trackers)@ == trackers_ended(old(trackers)@, changed@, *event, now).0,
        all_meet(r@, trackers_ended(old(trackers)@, changed@, *event, now).1),
{
    let mut responses: Vec<InteractionResponse> = Vec::new();
    let mut i: usize = 0;
    assert(changed@.take(0) =~= Seq::<TouchPoint>::empty());
    while i < changed.len()
        invariant
            i <= changed.len(),
            trackers@ == trackers_ended(old(trackers)@, changed@.take(i as int), *event, now).0,
            all_meet(
                responses@,
                trackers_ended(old(trackers)@, changed@.take(i as int), *event, now).1,
            ),
        decreases changed.len() - i,
    {
        let touch = changed[i];
        proof {
            let grown = changed@.take(i as int + 1);
            assert(grown.drop_last() =~= changed@.take(i as int));
            assert(grown.last() == touch);
        }
        let ghost so_far = trackers_ended(old(trackers)@, changed@.take(i as int), *event, now);
        match trackers.remove(&touch.identifier) {
            Some(tracker) => {
                let near = position_distance_sq(tracker.start_position, touch.position)
                    < TAP_DISTANCE_SQ;
                let quick = event.timestamp < tracker.start_time || event.timestamp
                    - tracker.start_time < TAP_DURATION;
                if near && quick {
                    let duration: u64 = if event.timestamp >= tracker.start_time {
                        event.timestamp - tracker.start_time
                    } else {
                        0
                    };
                    let answer = InteractionResponse::new_at(
                        copy_text(&event.target_element),
                        ResponseType::Tap,
                        ResponseData::Tap { position: touch.position, duration },
                        now,
                    );
                    proof {
                        lemma_all_meet_push(
                            responses@,
                            so_far.1,
                            answer,
                            response(
                                event.target_element,
                                ResponseType::Tap,
                                ResponseData::Tap { position: touch.position, duration },
                                now,
                            ),
                        );
                    }
                    responses.push(answer);
                }
            },
            None => {},
        }
        i += 1;
    }
    assert(changed@.take(changed.len() as int) =~= changed@);
    responses
}

impl InteractionManager {
    /// Handles a touch event.
    fn handle_touch_event(&mut self, event: &InteractionEvent, now: u64) -> (r: Vec<
        InteractionResponse,
    >)
        ensures
            final(self)@ == touch_step(old(self)@, *event, now).0,
            all_meet(r@, touch_step(old(self)@, *event, now).1),
    {
        match &event.touch_data {
            None => Vec::new(),
            Some(data) => {
                self.performance_metrics.touch_points_processed = count_many(
                    self.performance_metrics.touch_points_processed,
                    data.changed_touches.len(),
                );
                match event.event_type {
                    InteractionType::TouchStart => {
                        start_trackers(&mut self.touch_tracking, &data.changed_touches, event);
                        if data.changed_touches.len() > 0 {
                            self.set_interaction_state(
                                &event.target_element,
                                InteractionStateType::Active,
                                event.timestamp,
                            );
                        }
                        let mut responses: Vec<InteractionResponse> = Vec::new();
                        responses.push(
                            InteractionResponse::new_at(
                                copy_text(&event.target_element),
                                ResponseType::TouchStart,
                                ResponseData::TouchStart { touch_count: data.touches.len() },
                                now,
                            ),
                        );
                        assert(meets(responses@[0], touch_step(old(self)@, *event, now).1[0]));
                        responses
                    },
                    InteractionType::TouchMove => {
                        move_trackers(
                            &mut self.touch_tracking,
                            &data.changed_touches,
                            event.timestamp,
                        );
                        let mut responses: Vec<InteractionResponse> = Vec::new();
                        responses.push(
                            InteractionResponse::new_at(
                                copy_text(&event.target_element),
                                ResponseType::TouchMove,
                                ResponseData::TouchMove {
                                    touches: copy_touches(&data.touches),
                                    scale: data.scale,
                                    rotation: data.rotation_angle,
                                },
                                now,
                            ),
                        );
                        assert(meets(responses@[0], touch_step(old(self)@, *event, now).1[0]));
                        responses
                    },
                    InteractionType::TouchEnd | InteractionType::TouchCancel => {
                        let mut responses = end_trackers(
                            &mut self.touch_tracking,
                            &data.changed_touches,
                            event,
                            now,
                        );
                        if data.changed_touches.len() > 0 {
                            self.set_interaction_state(
                                &event.target_element,
                                InteractionStateType::Idle,
                                event.timestamp,
                            );
                        }
                        let answer = InteractionResponse::new_at(
                            copy_text(&event.target_element),
                            ResponseType::TouchEnd,
                            ResponseData::TouchEnd { remaining_touches: data.touches.len() },
                            now,
                        );
                        proof {
                            lemma_all_meet_push(
                                responses@,
                                trackers_ended(
                                    old(self)@.trackers,
                                    data.changed_touches@,
                                    *event,
                                    now,
                                ).1,
                                answer,
                                response(
                                    event.target_element,
                                    ResponseType::TouchEnd,
                                    ResponseData::TouchEnd {
                                        remaining_touches: data.touches@.len() as usize,
                                    },
                                    now,
                                ),
                            );
                        }
                        responses.push(answer);
                        responses
                    },
                    _ => Vec::new(),
                }
            },
        }
    }

    /// The answers of the delegates on `target` that hear of the event.
    fn delegate_event(&self, target: &String, event: &InteractionEvent, now: u64) -> (r: Vec<
        InteractionResponse,
    >)
        ensures
            all_meet(r@, delegated(self@.delegates, *target, event.event_type, now)),
    {
        let mut responses: Vec<InteractionResponse> = Vec::new();
        let mut i: usize = 0;
        assert(self.event_delegates@.take(0) =~= Seq::<DelegateBinding>::empty());
        while i < self.event_delegates.len()
            invariant
                i <= self.event_delegates.len(),
                all_meet(
                    responses@,
                    delegated(
                        self.event_delegates@.take(i as int),
                        *target,
                        event.event_type,
                        now,
                    ),
                ),
            decreases self.event_delegates.len() - i,
        {
            let binding = &self.event_delegates[i];
            proof {
                let grown = self.event_delegates@.take(i as int + 1);
                assert(grown.drop_last() =~= self.event_delegates@.take(i as int));
                assert(grown.last() == *binding);
            }
            if binding.target == *target && kinds_contain(
                &binding.delegate.event_types,
                event.event_type,
            ) {
                let answer = InteractionResponse::new_at(
                    Some(binding.delegate.element_id.clone()),
                    ResponseType::Delegated,
                    ResponseData::Delegated {
                        handler_id: binding.delegate.handler_id.clone(),
                        original_target: target.clone(),
                    },
                    now,
                );
                proof {
                    lemma_all_meet_push(
                        responses@,
                        delegated(
                            self.event_delegates@.take(i as int),
                            *target,
                            event.event_type,
                            now,
                        ),
                        answer,
                        response(
                            Some(binding.delegate.element_id),
                            ResponseType::Delegated,
                            ResponseData::Delegated {
                                handler_id: binding.delegate.handler_id,
                                original_target: *target,
                            },
                            now,
                        ),
                    );
                }
                responses.push(answer);
            }
            i += 1;
        }
        assert(self.event_delegates@.take(self.event_delegates.len() as int)
            =~= self.event_delegates@);
        responses
    }

    /// Takes the time that an event took into the metrics.
    fn update_performance_metrics(&mut self, processing_time: u64, now: u64)
        ensures
            final(self)@ == (ManagerView {
                metrics: metrics_after(old(self)@.metrics, processing_time, now),
                ..old(self)@
            }),
    {
        let total = self.performance_metrics.total_events;
        self.performance_metrics.events_per_second = if now > 0 {
            let rate: u128 = (total as u128) * 1_000_000 / (now as u128);
            assert(rate <= total * 1_000_000) by (nonlinear_arith)
                requires
                    rate == (total as int) * 1_000_000 / (now as int),
                    now > 0,
                    total >= 0,
            ;
            rate as u64
        } else {
            0
        };
        if total > 0 {
            let average = self.performance_metrics.average_response_time;
            assert((average as u128) * ((total - 1) as u128) <= 0x1_0000_0000_0000_0000
                * 0x1_0000_0000) by (nonlinear_arith)
                requires
                    average <= 0x1_0000_0000_0000_0000,
                    total - 1 <= 0x1_0000_0000,
                    total >= 1,
            ;
            let weighed: u128 = (average as u128) * ((total - 1) as u128) + (processing_time
                as u128) * 1000;
            let mean: u128 = weighed / (total as u128);
            self.performance_metrics.average_response_time = if mean > u64::MAX as u128 {
                u64::MAX
            } else {
                mean as u64
            };
        }
    }

    /// Counts the event and lets the handler of its family do its part.
    fn begin_event(&mut self, event: &InteractionEvent, started: u64) -> (r: Vec<
        InteractionResponse,
    >)
        ensures
            final(self)@ == family_step(
                ManagerView {
                    metrics: InteractionMetrics {
                        total_events: bump(old(self)@.metrics.total_events),
                        ..old(self)@.metrics
                    },
                    ..old(self)@
                },
                *event,
                started,
            ).0,
            all_meet(
                r@,
                family_step(
                    ManagerView {
                        metrics: InteractionMetrics {
                            total_events: bump(old(self)@.metrics.total_events),
                            ..old(self)@.metrics
                        },
                        ..old(self)@
                    },
                    *event,
                    started,
                ).1,
            ),
            final(self)@.delegates == old(self)@.delegates,
    {
        self.performance_metrics.total_events = count_one(self.performance_metrics.total_events);
        match event.event_type.family() {
            EventFamily::Mouse => self.handle_mouse_event(event, started),
            EventFamily::Click => self.handle_click_event(event, started),
            EventFamily::Touch => self.handle_touch_event(event, started),
            EventFamily::Keyboard => self.handle_keyboard_event(event, started),
            EventFamily::Gesture => self.handle_gesture_event(event, started),
            EventFamily::Scroll => self.handle_scroll_event(event, started),
            EventFamily::Focus => self.handle_focus_event(event, started),
            EventFamily::Resize => self.handle_resize_event(event, started),
            EventFamily::Other => {
                let mut responses: Vec<InteractionResponse> = Vec::new();
                responses.push(
                    InteractionResponse::new_at(
                        copy_text(&event.target_element),
                        ResponseType::EventProcessed,
                        ResponseData::Empty,
                        started,
                    ),
                );
                assert(meets(responses@[0], other_step(self@, *event, started).1[0]));
                responses
            },
        }
    }

    /// Takes the time into the metrics and lets the delegates answer.
    fn finish_event(
        &mut self,
        event: &InteractionEvent,
        responses: Vec<InteractionResponse>,
        started: u64,
        finished: u64,
    ) -> (r: Vec<InteractionResponse>)
        ensures
            final(self)@ == (ManagerView {
                metrics: metrics_after(
                    old(self)@.metrics,
                    if finished >= started {
                        (finished - started) as u64
                    } else {
                        0
                    },
                    finished,
                ),
                ..old(self)@
            }),
            forall|expected: Seq<Expected>|
                all_meet(responses@, expected) ==> all_meet(
                    r@,
                    #[trigger] after_delegation(
                        expected,
                        old(self)@.delegates,
                        *event,
                        started,
                    ),
                ),
    {
        let processing_time: u64 = if finished >= started {
            finished - started
        } else {
            0
        };
        self.update_performance_metrics(processing_time, finished);
        let mut responses = responses;
        match &event.target_element {
            Some(target) => {
                let mut more = self.delegate_event(target, event, started);
                let ghost handled = responses@;
                let ghost told = more@;
                responses.append(&mut more);
                assert forall|expected: Seq<Expected>|
                    all_meet(handled, expected) implies all_meet(
                    responses@,
                    #[trigger] after_delegation(expected, old(self)@.delegates, *event, started),
                ) by {
                    lemma_all_meet_concat(
                        handled,
                        expected,
                        told,
                        delegated(old(self)@.delegates, *target, event.event_type, started),
                    );
                }
            },
            None => {},
        }
        responses
    }

    /// Handles an event now and hands back the answers.
    pub fn process_event(&mut self, event: &InteractionEvent) -> (r: Result<
        Vec<InteractionResponse>,
        WASMError,
    >)
        ensures
            r is Ok,
            exists|started: u64, finished: u64|
                final(self)@ == event_step(old(self)@, *event, started, finished).0 && all_meet(
                    r->Ok_0@,
                    event_step(old(self)@, *event, started, finished).1,
                ),
    {
        let started = get_current_timestamp();
        let handled = self.begin_event(event, started);
        let finished = get_current_timestamp();
        let responses = self.finish_event(event, handled, started, finished);
        proof {
            lemma_event_step(old(self)@, *event, started, finished);
            assert(final(self)@ == event_step(old(self)@, *event, started, finished).0);
        }
        Ok(responses)
    }

    /// Handles an event whose handling runs from `started` to `finished`,
    /// and hands back the answers.
    pub fn process_event_at(&mut self, event: &InteractionEvent, started: u64, finished: u64) -> (r:
        Result<Vec<InteractionResponse>, WASMError>)
        ensures
            r is Ok,
            final(self)@ == event_step(old(self)@, *event, started, finished).0,
            all_meet(r->Ok_0@, event_step(old(self)@, *event, started, finished).1),
    {
        let handled = self.begin_event(event, started);
        let responses = self.finish_event(event, handled, started, finished);
        proof {
            lemma_event_step(old(self)@, *event, started, finished);
        }
        Ok(responses)
    }
}

/// The answers to an event once the delegates have answered after the
/// handler.
pub open spec fn after_delegation(
    handled: Seq<Expected>,
    delegates: Seq<DelegateBinding>,
    event: InteractionEvent,
    now: u64,
) -> Seq<Expected> {
    match event.target_element {
        Some(target) => handled + delegated(delegates, target, event.event_type, now),
        None => handled,
    }
}

/// No handler adds or removes a delegate.
pub proof fn lemma_family_step_keeps_delegates(v: ManagerView, event: InteractionEvent, now: u64)
    ensures
        family_step(v, event, now).0.delegates == v.delegates,
{
}

/// An event is handled in the steps that `event_step` names.
pub proof fn lemma_event_step(v: ManagerView, event: InteractionEvent, started: u64, finished: u64)
    ensures
        ({
            let counted_view = ManagerView {
                metrics: InteractionMetrics {
                    total_events: bump(v.metrics.total_events),
                    ..v.metrics
                },
                ..v
            };
            let handled = family_step(counted_view, event, started);
            &&& event_step(v, event, started, finished).1 == after_delegation(
                handled.1,
                v.delegates,
                event,
                started,
            )
            &&& handled.0.delegates == v.delegates
        }),
{
    let counted_view = ManagerView {
        metrics: InteractionMetrics { total_events: bump(v.metrics.total_events), ..v.metrics },
        ..v
    };
    lemma_family_step_keeps_delegates(counted_view, event, started);
}

} // verus!
