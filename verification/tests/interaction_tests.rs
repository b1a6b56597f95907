use interactive_engine::events::{
    EventModifiers, GestureData, GestureType, InteractionEvent, KeyboardData, MouseButton,
    MouseData, Position, Size, TouchData, TouchPoint,
};
use interactive_engine::interaction::{kinds_contain, EventDelegate, InteractionManager};
use interactive_engine::kinds::InteractionType;
use interactive_engine::responses::{
    InteractionResponse, InteractionStateType, ResponseData, ResponseType,
};

fn event(kind: InteractionType, target: Option<&str>, timestamp: u64) -> InteractionEvent {
    InteractionEvent {
        event_type: kind,
        target_element: target.map(|t| t.to_string()),
        position: None,
        timestamp,
        touch_data: None,
        mouse_data: None,
        keyboard_data: None,
        gesture_data: None,
        scroll_delta: None,
        viewport_size: None,
        modifiers: EventModifiers { ctrl: false, shift: false, alt: false, meta: false },
        hints: None,
    }
}

fn mouse(kind: InteractionType, target: Option<&str>, timestamp: u64, x: i32, y: i32, buttons: u16) -> InteractionEvent {
    let mut e = event(kind, target, timestamp);
    e.mouse_data = Some(MouseData {
        button: MouseButton::Left,
        buttons,
        position: Position { x, y },
        movement: Some(Position { x: 1, y: 2 }),
        wheel_delta: None,
    });
    e
}

fn key(kind: InteractionType, name: &str, timestamp: u64) -> InteractionEvent {
    let mut e = event(kind, Some("field"), timestamp);
    e.keyboard_data = Some(KeyboardData {
        key: name.to_string(),
        code: name.to_string(),
        char_code: Some(97),
        key_code: None,
        repeat: false,
    });
    e
}

fn point(identifier: u32, x: i32, y: i32) -> TouchPoint {
    TouchPoint { identifier, position: Position { x, y }, radius: None, rotation_angle: None, force: None }
}

fn touch(kind: InteractionType, timestamp: u64, all: Vec<TouchPoint>, changed: Vec<TouchPoint>) -> InteractionEvent {
    let mut e = event(kind, Some("pad"), timestamp);
    e.touch_data = Some(TouchData {
        touches: all,
        changed_touches: changed,
        target_touches: vec![],
        force: None,
        rotation_angle: Some(15),
        scale: Some(1100),
    });
    e
}

fn handle(manager: &mut InteractionManager, e: &InteractionEvent, now: u64) -> Vec<InteractionResponse> {
    manager.process_event_at(e, now, now).unwrap()
}

#[test]
fn a_button_going_down_presses_the_target() {
    let mut manager = InteractionManager::new();
    let answers = handle(&mut manager, &mouse(InteractionType::MouseDown, Some("btn"), 500, 10, 20, 1), 9000);
    assert_eq!(answers.len(), 1);
    assert_eq!(answers[0].target_element, Some("btn".to_string()));
    assert_eq!(answers[0].response_type, ResponseType::StateChanged);
    assert!(matches!(answers[0].data, ResponseData::State { state: InteractionStateType::Pressed }));
    assert_eq!(answers[0].timestamp, 9000);
    let state = manager.get_interaction_state("btn").unwrap();
    assert_eq!(state.element_id, "btn");
    assert_eq!(state.state_type, InteractionStateType::Pressed);
    assert_eq!(state.start_time, 500);
    assert_eq!(state.last_update, 500);
    assert_eq!(manager.get_mouse_state().position, Position { x: 10, y: 20 });
    assert_eq!(manager.get_mouse_state().buttons, 1);
    assert_eq!(manager.get_mouse_state().target_element, Some("btn".to_string()));
    assert!(manager.get_interaction_state("other").is_none());
}

#[test]
fn a_button_going_up_leaves_the_target_hovered() {
    let mut manager = InteractionManager::new();
    handle(&mut manager, &mouse(InteractionType::MouseDown, Some("btn"), 500, 10, 20, 1), 1);
    let answers = handle(&mut manager, &mouse(InteractionType::MouseUp, Some("elsewhere"), 600, 11, 21, 0), 2);
    assert_eq!(answers.len(), 1);
    assert_eq!(answers[0].target_element, Some("btn".to_string()));
    assert!(matches!(answers[0].data, ResponseData::State { state: InteractionStateType::Hover }));
    assert_eq!(manager.get_interaction_state("btn").unwrap().state_type, InteractionStateType::Hover);
    assert_eq!(manager.get_interaction_state("btn").unwrap().start_time, 600);
    assert_eq!(manager.get_mouse_state().target_element, None);
    // With no target left, a second release answers nothing.
    assert!(handle(&mut manager, &mouse(InteractionType::MouseUp, Some("btn"), 700, 11, 21, 0), 3).is_empty());
    assert_eq!(manager.get_performance_metrics().mouse_events_processed, 3);
}

#[test]
fn a_drag_starts_past_five_units_from_its_origin() {
    let mut manager = InteractionManager::new();
    let pressed = handle(&mut manager, &mouse(InteractionType::MouseDown, Some("box"), 5, 100, 100, 1), 1);
    assert_eq!(pressed.len(), 1);
    assert_eq!(manager.get_mouse_state().drag_start_position, Some(Position { x: 100, y: 100 }));
    // Three and four units away: exactly five, not more.
    assert!(handle(&mut manager, &mouse(InteractionType::MouseMove, Some("box"), 10, 103, 104, 1), 1).is_empty());
    assert!(!manager.get_mouse_state().dragging);
    // No button held: no drag however far.
    assert!(handle(&mut manager, &mouse(InteractionType::MouseMove, Some("box"), 20, 200, 200, 0), 2).is_empty());
    let answers = handle(&mut manager, &mouse(InteractionType::MouseMove, Some("box"), 30, 104, 104, 1), 3);
    assert_eq!(answers.len(), 2);
    assert_eq!(answers[0].response_type, ResponseType::DragStart);
    assert!(matches!(answers[0].data, ResponseData::DragStart { start_position: Position { x: 100, y: 100 } }));
    assert_eq!(answers[1].response_type, ResponseType::Drag);
    assert!(matches!(
        answers[1].data,
        ResponseData::Drag { position: Position { x: 104, y: 104 }, movement: Some(Position { x: 1, y: 2 }) }
    ));
    assert!(manager.get_mouse_state().dragging);
    let more = handle(&mut manager, &mouse(InteractionType::MouseMove, Some("box"), 40, 101, 101, 0), 4);
    assert_eq!(more.len(), 1);
    assert_eq!(more[0].response_type, ResponseType::Drag);
}

#[test]
fn without_an_origin_no_drag_starts() {
    let mut manager = InteractionManager::new();
    assert!(handle(&mut manager, &mouse(InteractionType::MouseMove, None, 10, 500, 500, 1), 1).is_empty());
    assert!(!manager.get_mouse_state().dragging);
}

#[test]
fn clicks_count_on_within_half_a_second() {
    let mut manager = InteractionManager::new();
    let counts: Vec<u32> = [1000u64, 1500, 2000, 2501, 2600]
        .iter()
        .map(|t| {
            let answers = handle(&mut manager, &mouse(InteractionType::Click, Some("btn"), *t, 5, 5, 0), 1);
            assert_eq!(answers.len(), 1);
            assert_eq!(answers[0].response_type, ResponseType::Click);
            match answers[0].data {
                ResponseData::Click { position, button, click_count } => {
                    assert_eq!(position, Position { x: 5, y: 5 });
                    assert_eq!(button, MouseButton::Left);
                    click_count
                }
                _ => panic!("not a click"),
            }
        })
        .collect();
    assert_eq!(counts, vec![1, 2, 3, 1, 2]);
    let double = handle(&mut manager, &mouse(InteractionType::DoubleClick, Some("btn"), 2700, 5, 6, 0), 1);
    assert_eq!(double[0].response_type, ResponseType::DoubleClick);
    assert!(matches!(
        double[0].data,
        ResponseData::DoubleClick { position: Position { x: 5, y: 6 }, button: MouseButton::Left, click_count: 2 }
    ));
    assert_eq!(manager.get_mouse_state().click_count, 2);
    assert!(handle(&mut manager, &event(InteractionType::Click, None, 2800), 1).is_empty());
}

#[test]
fn a_click_half_a_second_after_the_last_counts_on() {
    let mut manager = InteractionManager::new();
    handle(&mut manager, &mouse(InteractionType::Click, Some("btn"), 1000, 5, 5, 0), 1);
    let second = handle(&mut manager, &mouse(InteractionType::Click, Some("btn"), 1500, 5, 5, 0), 1);
    assert!(matches!(second[0].data, ResponseData::Click { click_count: 2, .. }));
    let third = handle(&mut manager, &mouse(InteractionType::Click, Some("btn"), 2001, 5, 5, 0), 1);
    assert!(matches!(third[0].data, ResponseData::Click { click_count: 1, .. }));
}

#[test]
fn keys_are_held_and_set_the_modifiers() {
    let mut manager = InteractionManager::new();
    let down = handle(&mut manager, &key(InteractionType::KeyDown, "Shift", 100), 1);
    assert_eq!(down.len(), 1);
    assert_eq!(down[0].response_type, ResponseType::KeyDown);
    assert!(matches!(
        &down[0].data,
        ResponseData::KeyDown { key, modifiers: EventModifiers { ctrl: false, shift: true, alt: false, meta: false } }
            if key == "Shift"
    ));
    handle(&mut manager, &key(InteractionType::KeyDown, "Control", 110), 1);
    handle(&mut manager, &key(InteractionType::KeyDown, "Alt", 120), 1);
    handle(&mut manager, &key(InteractionType::KeyDown, "Meta", 130), 1);
    handle(&mut manager, &key(InteractionType::KeyDown, "a", 140), 1);
    assert_eq!(manager.get_modifiers(), EventModifiers { ctrl: true, shift: true, alt: true, meta: true });
    assert!(manager.is_key_pressed("a"));
    assert!(manager.is_key_pressed("Shift"));
    assert!(!manager.is_key_pressed("b"));
    let press = handle(&mut manager, &key(InteractionType::KeyPress, "a", 141), 1);
    assert!(matches!(&press[0].data, ResponseData::KeyPress { key, char_code: Some(97) } if key == "a"));
    let up = handle(&mut manager, &key(InteractionType::KeyUp, "Shift", 150), 1);
    assert_eq!(up[0].response_type, ResponseType::KeyUp);
    assert!(matches!(&up[0].data, ResponseData::KeyUp { key } if key == "Shift"));
    handle(&mut manager, &key(InteractionType::KeyUp, "a", 160), 1);
    assert_eq!(manager.get_modifiers(), EventModifiers { ctrl: true, shift: false, alt: true, meta: true });
    assert!(!manager.is_key_pressed("a"));
    assert!(!manager.is_key_pressed("Shift"));
    assert!(manager.is_key_pressed("Meta"));
    assert_eq!(manager.get_performance_metrics().keyboard_events_processed, 8);
    assert!(handle(&mut manager, &event(InteractionType::KeyDown, None, 170), 1).is_empty());
}

#[test]
fn touches_are_tracked_from_start_to_end() {
    let mut manager = InteractionManager::new();
    let a = point(1, 100, 100);
    let b = point(2, 300, 300);
    let start = handle(&mut manager, &touch(InteractionType::TouchStart, 1000, vec![a, b], vec![a, b]), 1);
    assert_eq!(start.len(), 1);
    assert_eq!(start[0].response_type, ResponseType::TouchStart);
    assert!(matches!(start[0].data, ResponseData::TouchStart { touch_count: 2 }));
    assert!(manager.is_touch_tracked(1));
    assert!(manager.is_touch_tracked(2));
    assert_eq!(manager.get_interaction_state("pad").unwrap().state_type, InteractionStateType::Active);
    let moved_b = point(2, 350, 300);
    let moved = handle(&mut manager, &touch(InteractionType::TouchMove, 1100, vec![a, moved_b], vec![moved_b]), 2);
    assert_eq!(moved.len(), 1);
    assert_eq!(moved[0].response_type, ResponseType::TouchMove);
    assert!(matches!(
        &moved[0].data,
        ResponseData::TouchMove { touches, scale: Some(1100), rotation: Some(15) } if *touches == vec![a, moved_b]
    ));
    // The first touch ends where it began after 200 ms: a tap. The second
    // has moved 50 units: no tap.
    let end_a = point(1, 103, 104);
    let ended = handle(&mut manager, &touch(InteractionType::TouchEnd, 1200, vec![moved_b], vec![end_a]), 3);
    assert_eq!(ended.len(), 2);
    assert_eq!(ended[0].response_type, ResponseType::Tap);
    assert_eq!(ended[0].target_element, Some("pad".to_string()));
    assert!(matches!(ended[0].data, ResponseData::Tap { position: Position { x: 103, y: 104 }, duration: 200 }));
    assert_eq!(ended[1].response_type, ResponseType::TouchEnd);
    assert!(matches!(ended[1].data, ResponseData::TouchEnd { remaining_touches: 1 }));
    assert!(!manager.is_touch_tracked(1));
    assert_eq!(manager.get_interaction_state("pad").unwrap().state_type, InteractionStateType::Idle);
    let cancelled = handle(&mut manager, &touch(InteractionType::TouchCancel, 1250, vec![], vec![moved_b]), 4);
    assert_eq!(cancelled.len(), 1);
    assert_eq!(cancelled[0].response_type, ResponseType::TouchEnd);
    assert!(!manager.is_touch_tracked(2));
    assert_eq!(manager.get_performance_metrics().touch_points_processed, 5);
}

#[test]
fn a_touch_that_ends_late_or_far_is_no_tap() {
    let mut manager = InteractionManager::new();
    let a = point(1, 0, 0);
    handle(&mut manager, &touch(InteractionType::TouchStart, 0, vec![a], vec![a]), 1);
    let late = handle(&mut manager, &touch(InteractionType::TouchEnd, 300, vec![], vec![a]), 2);
    assert_eq!(late.len(), 1);
    handle(&mut manager, &touch(InteractionType::TouchStart, 1000, vec![a], vec![a]), 3);
    let far = handle(&mut manager, &touch(InteractionType::TouchEnd, 1100, vec![], vec![point(1, 6, 8)]), 4);
    assert_eq!(far.len(), 1);
    handle(&mut manager, &touch(InteractionType::TouchStart, 2000, vec![a], vec![a]), 5);
    let near = handle(&mut manager, &touch(InteractionType::TouchEnd, 2299, vec![], vec![point(1, 9, 4)]), 6);
    assert_eq!(near.len(), 2);
    // A touch that was never seen to start ends without a tap.
    let unknown = handle(&mut manager, &touch(InteractionType::TouchEnd, 2300, vec![], vec![point(9, 0, 0)]), 7);
    assert_eq!(unknown.len(), 1);
}

#[test]
fn gestures_scrolls_and_resizes_are_passed_through() {
    let mut manager = InteractionManager::new();
    let mut swipe = event(InteractionType::Swipe, Some("list"), 10);
    swipe.gesture_data = Some(GestureData {
        gesture_type: GestureType::Swipe,
        start_position: Position { x: 0, y: 0 },
        current_position: Position { x: 100, y: 0 },
        delta: Position { x: 100, y: 0 },
        velocity: Some(Position { x: 500, y: 0 }),
        scale: None,
        rotation: None,
        distance: Some(100),
        duration: 200,
    });
    let answers = handle(&mut manager, &swipe, 1);
    assert_eq!(answers.len(), 1);
    assert!(matches!(
        answers[0].data,
        ResponseData::Gesture { gesture_type: GestureType::Swipe, delta: Position { x: 100, y: 0 }, scale: None, rotation: None, velocity: Some(Position { x: 500, y: 0 }) }
    ));
    assert!(handle(&mut manager, &event(InteractionType::Pinch, Some("list"), 11), 1).is_empty());
    let mut scroll = event(InteractionType::Scroll, Some("list"), 12);
    scroll.scroll_delta = Some(Position { x: 0, y: -40 });
    let scrolled = handle(&mut manager, &scroll, 1);
    assert_eq!(scrolled[0].response_type, ResponseType::Scroll);
    assert!(matches!(scrolled[0].data, ResponseData::Scroll { delta: Some(Position { x: 0, y: -40 }) }));
    let mut resize = event(InteractionType::Resize, Some("window"), 13);
    resize.viewport_size = Some(Size { width: 800, height: 600 });
    let resized = handle(&mut manager, &resize, 1);
    assert_eq!(resized[0].response_type, ResponseType::Resize);
    assert_eq!(resized[0].target_element, None);
    assert!(matches!(resized[0].data, ResponseData::Resize { size: Some(Size { width: 800, height: 600 }) }));
    let other = handle(&mut manager, &event(InteractionType::Hover, Some("list"), 14), 1);
    assert_eq!(other[0].response_type, ResponseType::EventProcessed);
    assert!(matches!(other[0].data, ResponseData::Empty));
}

#[test]
fn focus_moves_between_elements() {
    let mut manager = InteractionManager::new();
    let focused = handle(&mut manager, &event(InteractionType::Focus, Some("name"), 100), 1);
    assert_eq!(focused.len(), 1);
    assert_eq!(focused[0].response_type, ResponseType::FocusChanged);
    assert!(matches!(focused[0].data, ResponseData::Focus { focused: true }));
    assert_eq!(manager.get_interaction_state("name").unwrap().state_type, InteractionStateType::Focused);
    let blurred = handle(&mut manager, &event(InteractionType::Blur, Some("other"), 200), 1);
    assert!(matches!(blurred[0].data, ResponseData::Focus { focused: false }));
    assert_eq!(blurred[0].target_element, Some("other".to_string()));
    assert_eq!(manager.get_interaction_state("name").unwrap().state_type, InteractionStateType::Idle);
    assert_eq!(manager.get_interaction_state("name").unwrap().start_time, 200);
    assert!(manager.get_interaction_state("other").is_none());
}

#[test]
fn delegates_answer_after_the_handler() {
    let mut manager = InteractionManager::new();
    let delegate = |element: &str, kinds: Vec<InteractionType>, handler: &str| EventDelegate {
        element_id: element.to_string(),
        event_types: kinds,
        handler_id: handler.to_string(),
        capture: false,
        priority: 0,
    };
    manager.add_event_delegate("btn", delegate("panel", vec![InteractionType::Click, InteractionType::Hover], "h1"));
    manager.add_event_delegate("btn", delegate("log", vec![InteractionType::KeyDown], "h2"));
    manager.add_event_delegate("other", delegate("panel", vec![InteractionType::Click], "h3"));
    manager.add_event_delegate("btn", delegate("log", vec![InteractionType::Click], "h4"));
    assert_eq!(manager.delegate_count(), 4);
    let answers = handle(&mut manager, &mouse(InteractionType::Click, Some("btn"), 10, 1, 1, 0), 77);
    assert_eq!(answers.len(), 3);
    assert_eq!(answers[0].response_type, ResponseType::Click);
    assert_eq!(answers[1].response_type, ResponseType::Delegated);
    assert_eq!(answers[1].target_element, Some("panel".to_string()));
    assert!(matches!(
        &answers[1].data,
        ResponseData::Delegated { handler_id, original_target } if handler_id == "h1" && original_target == "btn"
    ));
    assert_eq!(answers[2].target_element, Some("log".to_string()));
    assert!(matches!(&answers[2].data, ResponseData::Delegated { handler_id, .. } if handler_id == "h4"));
    assert_eq!(answers[2].timestamp, 77);
    manager.remove_event_delegate("btn", "h1");
    manager.remove_event_delegate("other", "h4");
    assert_eq!(manager.delegate_count(), 3);
    let fewer = handle(&mut manager, &mouse(InteractionType::Click, Some("btn"), 1000, 1, 1, 0), 78);
    assert_eq!(fewer.len(), 2);
    // An event without a target reaches no delegate.
    assert_eq!(handle(&mut manager, &mouse(InteractionType::Click, None, 2000, 1, 1, 0), 79).len(), 1);
    assert!(kinds_contain(&vec![InteractionType::Click, InteractionType::Hover], InteractionType::Hover));
    assert!(!kinds_contain(&vec![InteractionType::Click], InteractionType::Hover));
}

#[test]
fn every_event_is_counted_and_timed() {
    let mut manager = InteractionManager::new();
    manager.process_event_at(&event(InteractionType::Hover, None, 0), 2000, 2004).unwrap();
    let metrics = *manager.get_performance_metrics();
    assert_eq!(metrics.total_events, 1);
    // One event in 2.004 seconds since the epoch is 0.499 per second.
    assert_eq!(metrics.events_per_second, 499);
    assert_eq!(metrics.average_response_time, 4000);
    manager.process_event_at(&event(InteractionType::Hover, None, 0), 3000, 3001).unwrap();
    let metrics = *manager.get_performance_metrics();
    assert_eq!(metrics.total_events, 2);
    assert_eq!(metrics.events_per_second, 666);
    assert_eq!(metrics.average_response_time, 2500);
    assert!(manager.process_event(&event(InteractionType::Hover, None, 0)).is_ok());
    assert_eq!(manager.get_performance_metrics().total_events, 3);
}
