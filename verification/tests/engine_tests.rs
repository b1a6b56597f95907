use interactive_engine::animation::{AnimationType, Keyframe};
use interactive_engine::changes::{ElementChange, ElementType};
use interactive_engine::document::{
    set_properties, DataSourceType, DocumentState, InteractiveElement, Transform,
};
use interactive_engine::engine::{InteractiveEngine, PerformanceMonitor};
use interactive_engine::events::{
    EventModifiers, InteractionEvent, MouseButton, MouseData, Position, Size, TouchData, TouchPoint,
};
use interactive_engine::gesture::GestureEvent;
use interactive_engine::interaction::EventDelegate;
use interactive_engine::keyframes::merge_keyframes;
use interactive_engine::kinds::InteractionType;
use interactive_engine::properties::{fraction_property, number_property, text_property, Property, PropertyValue};
use interactive_engine::render::{
    build_render_update, collect_changes, convert_interaction_response_to_changes,
    process_gesture_event, DOMOperation, RenderUpdate,
};
use interactive_engine::responses::{InteractionResponse, InteractionStateType, ResponseData, ResponseType};
use interactive_engine::responsive::{DeviceInfo, DeviceType};
use interactive_engine::security::WASMPermissions;

fn permissions(allowed: &[&str], max_elements: u32) -> WASMPermissions {
    WASMPermissions {
        memory_limit: 1024 * 1024,
        allowed_imports: vec!["console".to_string()],
        cpu_time_limit: 5000,
        allow_networking: false,
        allow_file_system: false,
        allowed_interactions: allowed.iter().map(|s| s.to_string()).collect(),
        max_data_size: 32,
        max_elements,
    }
}

fn engine(allowed: &[&str], max_elements: u32) -> InteractiveEngine {
    InteractiveEngine::new_at(permissions(allowed, max_elements), 1000).unwrap()
}

fn click(target: &str, timestamp: u64) -> InteractionEvent {
    InteractionEvent {
        event_type: InteractionType::Click,
        target_element: Some(target.to_string()),
        position: Some(Position { x: 5, y: 5 }),
        timestamp,
        touch_data: None,
        mouse_data: Some(MouseData {
            button: MouseButton::Left,
            buttons: 0,
            position: Position { x: 5, y: 5 },
            movement: None,
            wheel_delta: None,
        }),
        keyboard_data: None,
        gesture_data: None,
        scroll_delta: None,
        viewport_size: None,
        modifiers: EventModifiers { ctrl: false, shift: false, alt: false, meta: false },
        hints: None,
    }
}

fn attribute(operation: &DOMOperation) -> (&str, &str, &PropertyValue) {
    match operation {
        DOMOperation::Update { element_id, attribute } => (element_id, &attribute.name, &attribute.value),
        _ => panic!("not an update"),
    }
}

#[test]
fn elements_are_created_up_to_the_limit() {
    let mut engine = engine(&["create_element"], 3);
    let mut created = Vec::new();
    let mut refused = Vec::new();
    for _ in 0..10 {
        match engine.create_element(ElementType::Container, Vec::new()) {
            Ok(id) => created.push(id),
            Err(error) => refused.push(error.code),
        }
        assert!(engine.allocated_memory() <= 1024 * 1024);
    }
    assert_eq!(created, vec!["element_0", "element_1", "element_2"]);
    assert_eq!(refused.len(), 7);
    assert!(refused.iter().all(|code| code == "ELEMENT_LIMIT_EXCEEDED"));
    assert_eq!(engine.element_count(), 3);
}

#[test]
fn a_refused_creation_changes_nothing() {
    let mut engine = engine(&["create_element", "modify_element"], 1);
    engine.create_element(ElementType::Text, vec![text_property("textContent", "hi")]).unwrap();
    let refused = engine.create_element(ElementType::Text, Vec::new());
    assert_eq!(refused.unwrap_err().code, "ELEMENT_LIMIT_EXCEEDED");
    assert_eq!(engine.element_count(), 1);
    assert_eq!(engine.query_elements_by_type(ElementType::Text), vec!["element_0"]);
    // Room that a deletion makes is taken by the next creation, under a new id.
    engine.delete_element("element_0").unwrap();
    assert_eq!(engine.create_element(ElementType::Image, Vec::new()).unwrap(), "element_1");
    assert_eq!(engine.element_count(), 1);
    let mut forbidden = self::engine(&[], 5);
    assert_eq!(
        forbidden.create_element(ElementType::Text, Vec::new()).unwrap_err().code,
        "ELEMENT_CREATION_NOT_ALLOWED"
    );
    assert_eq!(forbidden.element_count(), 0);
}

#[test]
fn elements_are_modified_and_deleted_by_id() {
    let mut engine = engine(&["create_element", "modify_element", "create_event_handler"], 10);
    let a = engine.create_element(ElementType::Chart, vec![fraction_property("width", 10)]).unwrap();
    let b = engine.create_element(ElementType::Vector, Vec::new()).unwrap();
    let c = engine.create_element(ElementType::Chart, Vec::new()).unwrap();
    assert_eq!(engine.query_elements_by_type(ElementType::Chart), vec![a.clone(), c.clone()]);
    assert!(engine.update_element_properties(&a, vec![fraction_property("width", 20), fraction_property("height", 5)]).is_ok());
    assert_eq!(engine.update_element_properties("nothing", Vec::new()).unwrap_err().code, "ELEMENT_NOT_FOUND");
    assert!(engine.add_event_handler(&b, "click", "toggle_visibility").is_ok());
    assert_eq!(engine.add_event_handler("nothing", "click", "h").unwrap_err().code, "ELEMENT_NOT_FOUND");
    assert!(engine.delete_element(&a).is_ok());
    assert_eq!(engine.delete_element(&a).unwrap_err().code, "ELEMENT_NOT_FOUND");
    assert_eq!(engine.query_elements_by_type(ElementType::Chart), vec![c]);
    assert_eq!(engine.element_count(), 2);
    let mut read_only = self::engine(&["create_element"], 10);
    let id = read_only.create_element(ElementType::Text, Vec::new()).unwrap();
    assert_eq!(read_only.delete_element(&id).unwrap_err().code, "ELEMENT_MODIFICATION_NOT_ALLOWED");
    assert_eq!(
        read_only.update_element_properties(&id, Vec::new()).unwrap_err().code,
        "ELEMENT_MODIFICATION_NOT_ALLOWED"
    );
    assert_eq!(read_only.add_event_handler(&id, "click", "h").unwrap_err().code, "EVENT_HANDLER_CREATION_NOT_ALLOWED");
    assert_eq!(read_only.element_count(), 1);
}

#[test]
fn a_click_that_is_not_permitted_is_refused() {
    let mut engine = engine(&["Hover"], 10);
    let refused = engine.process_interaction_at(click("btn", 10), 2000);
    assert_eq!(refused.unwrap_err().code, "INTERACTION_NOT_ALLOWED");
    assert_eq!(engine.get_interaction_metrics().total_events, 0);
    assert_eq!(engine.get_performance_stats_at(2000).total_interactions, 0);
}

#[test]
fn a_permitted_click_is_handled() {
    let mut engine = engine(&["Click"], 10);
    let update = engine.process_interaction_at(click("btn", 10), 2000).unwrap();
    assert_eq!(update.timestamp, 2000);
    assert_eq!(update.dom_operations.len(), 2);
    let (id, name, value) = attribute(&update.dom_operations[0]);
    assert_eq!((id, name), ("btn", "interaction_feedback"));
    assert!(matches!(value, PropertyValue::Text(t) if t == "active"));
    let (id, name, value) = attribute(&update.dom_operations[1]);
    assert_eq!((id, name), ("btn", "last_interaction"));
    // Numbers count thousandths: the time 2000 is 2000000.
    assert!(matches!(value, PropertyValue::Number(2_000_000)));
    assert!(update.style_changes.is_empty());
    assert!(update.animation_updates.is_empty());
    assert_eq!(engine.get_interaction_metrics().total_events, 1);
    assert_eq!(engine.get_performance_stats_at(3000).total_interactions, 1);
    assert_eq!(engine.get_performance_stats_at(3000).interactions_per_second, 500);
    assert_eq!(engine.get_performance_stats_at(3000).uptime_ms, 2000);
}

#[test]
fn interactions_over_the_rate_are_refused() {
    let mut engine = engine(&["Click"], 10);
    assert!(engine.process_interaction_at(click("btn", 1), 1010).is_ok());
    let refused = engine.process_interaction_at(click("btn", 2), 1010);
    assert_eq!(refused.unwrap_err().code, "INTERACTION_RATE_EXCEEDED");
    assert_eq!(engine.get_interaction_metrics().total_events, 1);
    for k in 2..=200u64 {
        assert!(engine.process_interaction_at(click("btn", k), 1000 + 20 * k).is_ok());
    }
    assert_eq!(engine.get_interaction_metrics().total_events, 200);
}

#[test]
fn touches_reach_the_manager_and_the_recogniser() {
    let mut engine = engine(&["TouchStart", "TouchEnd"], 10);
    let touch = |kind: InteractionType, timestamp: u64, x: i32| {
        let point = TouchPoint { identifier: 1, position: Position { x, y: 100 }, radius: Some(40), rotation_angle: None, force: None };
        let mut event = click("pad", timestamp);
        event.event_type = kind;
        event.mouse_data = None;
        event.touch_data = Some(TouchData {
            touches: vec![point],
            changed_touches: vec![point],
            target_touches: vec![],
            force: None,
            rotation_angle: None,
            scale: None,
        });
        event
    };
    let first = engine.process_interaction_at(touch(InteractionType::TouchStart, 5000, 100), 5000).unwrap();
    assert!(first.dom_operations.is_empty());
    assert_eq!(engine.get_interaction_state("pad").unwrap().state_type, InteractionStateType::Active);
    let second = engine.process_interaction_at(touch(InteractionType::TouchEnd, 5150, 102), 5150).unwrap();
    // The manager answers with a tap on the target, the recogniser with a
    // tap gesture.
    let mut named: Vec<(String, String)> = Vec::new();
    for operation in &second.dom_operations {
        let (id, name, _) = attribute(operation);
        named.push((id.to_string(), name.to_string()));
    }
    let expected: Vec<(String, String)> = [
        ("pad", "interaction_feedback"),
        ("pad", "last_interaction"),
        ("gesture_system", "last_gesture"),
        ("gesture_system", "gesture_confidence"),
        ("gesture_system", "gesture_duration"),
        ("gesture_system", "gesture_x"),
        ("gesture_system", "gesture_y"),
        ("gesture_system", "gesture_velocity_x"),
        ("gesture_system", "gesture_velocity_y"),
        ("gesture_system", "gesture_start_x"),
        ("gesture_system", "gesture_start_y"),
        ("gesture_system", "gesture_delta_x"),
        ("gesture_system", "gesture_delta_y"),
        ("gesture_system", "gesture_distance"),
        ("gesture_system", "gesture_timestamp"),
    ]
    .iter()
    .map(|(a, b)| (a.to_string(), b.to_string()))
    .collect();
    assert_eq!(named, expected);
    assert!(matches!(attribute(&second.dom_operations[2]).2, PropertyValue::Text(t) if t == "Tap"));
    assert!(matches!(attribute(&second.dom_operations[3]).2, PropertyValue::Number(1000)));
    assert!(matches!(attribute(&second.dom_operations[4]).2, PropertyValue::Number(150_000)));
    assert!(matches!(attribute(&second.dom_operations[9]).2, PropertyValue::Number(100_000)));
    assert!(matches!(attribute(&second.dom_operations[11]).2, PropertyValue::Number(2_000)));
    assert!(matches!(attribute(&second.dom_operations[13]).2, PropertyValue::Number(2_000)));
    assert!(matches!(attribute(&second.dom_operations[14]).2, PropertyValue::Number(5_150_000)));
    assert_eq!(engine.get_gesture_history().len(), 1);
    assert_eq!(engine.get_interaction_state("pad").unwrap().state_type, InteractionStateType::Idle);
}

#[test]
fn a_resize_has_the_device_classified_anew() {
    let mut engine = engine(&["Resize"], 10);
    assert_eq!(engine.get_device_info().device_type, DeviceType::Desktop);
    let mut resize = click("window", 1);
    resize.event_type = InteractionType::Resize;
    resize.mouse_data = None;
    resize.viewport_size = Some(Size { width: 320, height: 480 });
    let update = engine.process_interaction_at(resize, 1100).unwrap();
    assert!(update.is_empty());
    assert_eq!(engine.get_device_info().device_type, DeviceType::Mobile);
    assert_eq!(engine.get_interaction_settings().touch_target_size, 44);
    let tv = DeviceInfo {
        device_type: DeviceType::TV,
        screen_size: Size { width: 1, height: 1 },
        pixel_density: 1000,
        touch_support: false,
        mouse_support: false,
        keyboard_support: false,
        max_touch_points: 0,
        has_force_touch: false,
        has_hover_support: false,
    };
    engine.update_device_capabilities(tv).unwrap();
    // The viewport of the document is 1920 by 1080: a desktop.
    assert_eq!(engine.get_device_info().device_type, DeviceType::Desktop);
    assert_eq!(engine.get_device_info().screen_size, Size { width: 1920, height: 1080 });
    assert_eq!(engine.get_interaction_settings().touch_target_size, 32);
}

#[test]
fn delegates_need_the_permission_to_modify() {
    let delegate = || EventDelegate {
        element_id: "panel".to_string(),
        event_types: vec![InteractionType::Click],
        handler_id: "h".to_string(),
        capture: true,
        priority: 1,
    };
    let mut engine = engine(&["Click", "modify_element"], 10);
    engine.add_interaction_delegate("btn", delegate()).unwrap();
    let update = engine.process_interaction_at(click("btn", 1), 1100).unwrap();
    assert_eq!(update.dom_operations.len(), 2);
    engine.remove_interaction_delegate("btn", "h").unwrap();
    let mut locked = self::engine(&["Click"], 10);
    assert_eq!(
        locked.add_interaction_delegate("btn", delegate()).unwrap_err().code,
        "ELEMENT_MODIFICATION_NOT_ALLOWED"
    );
    assert_eq!(
        locked.remove_interaction_delegate("btn", "h").unwrap_err().code,
        "ELEMENT_MODIFICATION_NOT_ALLOWED"
    );
}

#[test]
fn animations_run_from_creation_to_their_end() {
    let mut engine = engine(&["create_element", "create_animation"], 10);
    let target = engine.create_element(ElementType::Vector, Vec::new()).unwrap();
    let keyframes = || {
        vec![
            Keyframe { time: 0, properties: vec![fraction_property("style.opacity", 0)] },
            Keyframe { time: 1000, properties: vec![fraction_property("style.opacity", 1000)] },
        ]
    };
    assert_eq!(
        engine.create_animation_at("nothing", AnimationType::Style, 1000, keyframes(), 2000).unwrap_err().code,
        "TARGET_NOT_FOUND"
    );
    let id = engine.create_animation_at(&target, AnimationType::Style, 1000, keyframes(), 2000).unwrap();
    assert_eq!(id, "anim_0");
    assert_eq!(engine.active_animation_count(), 1);
    let first = engine.render_frame_at(2250, 2250).unwrap();
    let again = engine.render_frame_at(2250, 2251).unwrap();
    assert_eq!(first.animation_updates.len(), 1);
    assert_eq!(first.animation_updates[0].animation_id, "anim_0");
    // A quarter of the way, eased in and out: 2 · 0.25².
    assert_eq!(first.animation_updates[0].progress, 125);
    assert_eq!(again.animation_updates[0].progress, 125);
    assert!(matches!(
        &first.animation_updates[0].current_values[0],
        Property { name, value: PropertyValue::Number(125) } if name == "style.opacity"
    ));
    let mut last = 0;
    for timestamp in [2300u64, 2500, 2700, 2900] {
        let update = engine.render_frame_at(timestamp, timestamp).unwrap();
        assert!(update.animation_updates[0].progress >= last);
        last = update.animation_updates[0].progress;
    }
    let end = engine.render_frame_at(3000, 3000).unwrap();
    assert_eq!(end.animation_updates[0].progress, 1000);
    assert_eq!(engine.active_animation_count(), 0);
    assert!(engine.render_frame_at(3016, 3016).unwrap().is_empty());
    let second = engine.create_animation_at(&target, AnimationType::Style, 1000, keyframes(), 3000).unwrap();
    assert_eq!(second, "anim_1");
    engine.stop_animation(&second).unwrap();
    assert_eq!(engine.active_animation_count(), 0);
    let mut still = self::engine(&["create_element"], 10);
    let target = still.create_element(ElementType::Vector, Vec::new()).unwrap();
    assert_eq!(
        still.create_animation(&target, AnimationType::Style, 1000, keyframes()).unwrap_err().code,
        "ANIMATION_CREATION_NOT_ALLOWED"
    );
}

#[test]
fn rendering_stops_at_the_time_limit() {
    let mut engine = engine(&[], 10);
    assert!(engine.render_frame_at(0, 6000).is_ok());
    assert_eq!(engine.render_frame_at(0, 6001).unwrap_err().code, "CPU_TIME_EXCEEDED");
}

#[test]
fn payloads_are_checked_before_they_are_stored() {
    let mut engine = engine(&[], 10);
    engine.create_data_source("sales", DataSourceType::Dynamic, b"[1, 2, 3]", 1500).unwrap();
    assert_eq!(
        engine.create_data_source("broken", DataSourceType::Static, b"[1, 2", 1500).unwrap_err().code,
        "INVALID_DATA"
    );
    assert!(engine.update_data_at("sales", b"{\"q1\": [4, 5]}", 1600).is_ok());
    assert!(engine.update_data_at("unknown", b"null", 1600).is_ok());
    assert_eq!(engine.update_data_at("sales", b"{\"q1\": [4, 5]", 1600).unwrap_err().code, "INVALID_DATA");
    assert_eq!(engine.update_data_at("sales", b"", 1600).unwrap_err().code, "INVALID_DATA");
    assert_eq!(engine.update_data_at("sales", b"1 2", 1600).unwrap_err().code, "INVALID_DATA");
    let long = vec![b' '; 33];
    assert_eq!(engine.update_data_at("sales", &long, 1600).unwrap_err().code, "DATA_SIZE_EXCEEDED");
    let fits = [vec![b' '; 31], vec![b'7']].concat();
    assert!(engine.update_data(&"sales", &fits).is_ok());
    let parsed: Result<serde_json::Value, serde_json::Error> = serde_json::from_slice(b"true");
    assert!(engine.store_parsed_data("sales", parsed, 1700).is_ok());
    let failed: Result<serde_json::Value, serde_json::Error> = serde_json::from_slice(b"tru");
    assert_eq!(engine.store_parsed_data("sales", failed, 1700).unwrap_err().code, "INVALID_DATA");
}

#[test]
fn the_viewport_is_taken_over() {
    let mut engine = engine(&["create_element"], 10);
    engine.create_element(ElementType::Text, Vec::new()).unwrap();
    assert!(engine.update_viewport(800, 600, 2000).is_ok());
    engine.update_device_capabilities(DeviceInfo {
        device_type: DeviceType::Unknown,
        screen_size: Size { width: 0, height: 0 },
        pixel_density: 1000,
        touch_support: true,
        mouse_support: true,
        keyboard_support: true,
        max_touch_points: 5,
        has_force_touch: false,
        has_hover_support: true,
    })
    .unwrap();
    // 800 by 600 has a diagonal of 1000 units.
    assert_eq!(engine.get_device_info().device_type, DeviceType::Tablet);
}

#[test]
fn answers_and_gestures_become_changes() {
    let pressed = InteractionResponse::new_at(
        Some("btn".to_string()),
        ResponseType::StateChanged,
        ResponseData::State { state: InteractionStateType::Pressed },
        5,
    );
    let changes = convert_interaction_response_to_changes(&pressed);
    assert_eq!(changes.len(), 1);
    assert!(matches!(
        &changes[0],
        ElementChange::Update { element_id, properties }
            if element_id == "btn" && properties.len() == 1 && properties[0].name == "state"
                && matches!(&properties[0].value, PropertyValue::Text(t) if t == "pressed")
    ));
    let drag = InteractionResponse::new_at(
        Some("box".to_string()),
        ResponseType::Drag,
        ResponseData::Drag { position: Position { x: 3, y: -4 }, movement: None },
        5,
    );
    let dragged = convert_interaction_response_to_changes(&drag);
    assert!(matches!(
        &dragged[0],
        ElementChange::Update { properties, .. }
            if properties.len() == 2 && properties[1].name == "position_y"
                && matches!(properties[1].value, PropertyValue::Number(-4000))
    ));
    let untargeted = InteractionResponse::new_at(None, ResponseType::Click, ResponseData::Empty, 5);
    assert!(convert_interaction_response_to_changes(&untargeted).is_empty());
    let scrolled = InteractionResponse::new_at(
        Some("list".to_string()),
        ResponseType::Scroll,
        ResponseData::Scroll { delta: None },
        5,
    );
    assert!(convert_interaction_response_to_changes(&scrolled).is_empty());
    let gesture = GestureEvent {
        gesture_type: interactive_engine::events::GestureType::Swipe,
        confidence: 900,
        start_position: Position { x: 0, y: 0 },
        end_position: Position { x: 200, y: 10 },
        duration: 120,
        velocity: Position { x: 1666, y: 83 },
        properties: interactive_engine::gesture::GestureProperties::Swipe { direction: 0 },
        timestamp: 9,
    };
    match process_gesture_event(&gesture) {
        ElementChange::Update { element_id, properties } => {
            assert_eq!(element_id, "gesture_system");
            let names: Vec<&str> = properties.iter().map(|p| p.name.as_str()).collect();
            assert_eq!(
                names,
                vec![
                    "last_gesture",
                    "gesture_confidence",
                    "gesture_duration",
                    "gesture_x",
                    "gesture_y",
                    "gesture_velocity_x",
                    "gesture_velocity_y",
                    "gesture_start_x",
                    "gesture_start_y",
                    "gesture_delta_x",
                    "gesture_delta_y",
                    "gesture_distance",
                    "gesture_timestamp",
                    "direction",
                ]
            );
            let numbers: Vec<i64> = properties[1..]
                .iter()
                .map(|p| match p.value {
                    PropertyValue::Number(n) => n,
                    _ => panic!("not a number"),
                })
                .collect();
            // The square root of 200² + 10² is 200 and a fraction.
            assert_eq!(
                numbers,
                vec![900, 120_000, 200_000, 10_000, 1_666_000, 83_000, 0, 0, 200_000, 10_000, 200_000, 9_000, 0]
            );
        }
        _ => panic!("not an update"),
    }
    let all = collect_changes(&vec![pressed, scrolled, drag], &vec![gesture, gesture]);
    assert_eq!(all.len(), 4);
}

#[test]
fn changes_become_the_operations_of_an_update() {
    let changes = vec![
        ElementChange::Create { element_id: "a".to_string(), element_type: ElementType::Vector, parent_id: Some("root".to_string()) },
        ElementChange::Update {
            element_id: "a".to_string(),
            properties: vec![
                text_property("style.cursor", "pointer"),
                text_property("textContent", "hi"),
                fraction_property("style.opacity", 800),
            ],
        },
        ElementChange::AnimationUpdate { animation_id: "anim_3".to_string(), progress: 500, values: vec![fraction_property("x", 1)] },
        ElementChange::Remove { element_id: "b".to_string() },
    ];
    let update: RenderUpdate = build_render_update(&changes, 77);
    assert_eq!(update.timestamp, 77);
    assert_eq!(update.dom_operations.len(), 3);
    assert!(matches!(
        &update.dom_operations[0],
        DOMOperation::Create { element_id, tag, parent_id: Some(parent) } if element_id == "a" && tag == "svg" && parent == "root"
    ));
    assert_eq!(attribute(&update.dom_operations[1]).1, "textContent");
    assert!(matches!(&update.dom_operations[2], DOMOperation::Remove { element_id } if element_id == "b"));
    assert_eq!(update.style_changes.len(), 2);
    assert_eq!(update.style_changes[0].element_id, "a");
    assert_eq!(update.style_changes[0].property, "cursor");
    assert!(matches!(&update.style_changes[0].value, PropertyValue::Text(t) if t == "pointer"));
    assert_eq!(update.style_changes[1].property, "opacity");
    assert!(matches!(update.style_changes[1].value, PropertyValue::Number(800)));
    assert_eq!(update.animation_updates.len(), 1);
    assert_eq!(update.animation_updates[0].animation_id, "anim_3");
    assert_eq!(update.animation_updates[0].progress, 500);
    assert!(!update.is_empty());
    assert!(RenderUpdate::empty_at(5).is_empty());
    assert!(RenderUpdate::empty().is_empty());
}

#[test]
fn the_document_keeps_its_elements_by_id() {
    let element = |id: &str| InteractiveElement {
        id: id.to_string(),
        element_type: ElementType::Text,
        properties: vec![fraction_property("width", 1)],
        children: Vec::new(),
        event_handlers: Vec::new(),
        transform: Transform::default(),
        visible: true,
    };
    let mut document = DocumentState::new();
    assert!(document.add_element(element("a")).is_ok());
    assert!(document.add_element(element("b")).is_ok());
    assert_eq!(document.add_element(element("a")).unwrap_err().code, "ELEMENT_EXISTS");
    assert_eq!(document.elements.len(), 2);
    assert_eq!(document.dirty_nodes, vec!["a", "b"]);
    assert_eq!(document.get_element("b").unwrap().id, "b");
    assert!(document.get_element("c").is_none());
    document.update_element("a", vec![fraction_property("width", 2), text_property("label", "x"), fraction_property("width", 3)]).unwrap();
    let updated = document.get_element("a").unwrap();
    assert_eq!(updated.properties.len(), 2);
    assert!(matches!(updated.properties[0].value, PropertyValue::Number(3)));
    let mut names: Vec<&str> = updated.properties.iter().map(|p| p.name.as_str()).collect();
    names.dedup();
    assert_eq!(names, vec!["width", "label"]);
    assert_eq!(updated.properties[1].name, "label");
    assert_eq!(document.dirty_nodes, vec!["a", "b"]);
    assert_eq!(document.update_element("c", Vec::new()).unwrap_err().code, "ELEMENT_NOT_FOUND");
    document.remove_element("a").unwrap();
    assert_eq!(document.dirty_nodes, vec!["b"]);
    assert_eq!(document.remove_element("a").unwrap_err().code, "ELEMENT_NOT_FOUND");
    assert_eq!(document.viewport.width, 1920);
    assert_eq!(Transform::default().scale_x, 1000);
}

#[test]
fn the_counters_of_the_engine() {
    let mut monitor = PerformanceMonitor::new_at(1000);
    monitor.record_interaction();
    monitor.record_interaction();
    monitor.record_render();
    let stats = monitor.get_stats_at(3000);
    assert_eq!(stats.total_interactions, 2);
    assert_eq!(stats.total_renders, 1);
    assert_eq!(stats.interactions_per_second, 1000);
    assert_eq!(stats.renders_per_second, 500);
    assert_eq!(stats.uptime_ms, 2000);
    assert_eq!(monitor.get_stats_at(500).interactions_per_second, 0);
    assert_eq!(PerformanceMonitor::new().get_stats().total_renders, 0);
    let started_now = InteractiveEngine::new(permissions(&[], 1)).unwrap();
    assert_eq!(started_now.get_performance_stats().total_interactions, 0);
    assert_eq!(started_now.element_count(), 0);
}

#[test]
fn a_new_element_gets_an_id_that_no_element_has() {
    let mut engine = engine(&["create_element", "modify_element"], 10);
    let a = engine.create_element(ElementType::Chart, Vec::new()).unwrap();
    let b = engine.create_element(ElementType::Chart, Vec::new()).unwrap();
    assert_ne!(a, b);
    engine.delete_element(&a).unwrap();
    let c = engine.create_element(ElementType::Chart, Vec::new()).unwrap();
    assert_ne!(c, a);
    assert_ne!(c, b);
    assert_eq!(engine.query_elements_by_type(ElementType::Chart), vec![b, c]);
}

#[test]
fn of_two_properties_with_one_name_the_last_counts() {
    let mut properties: Vec<Property> = Vec::new();
    set_properties(
        &mut properties,
        vec![
            number_property("width", 1),
            text_property("label", "x"),
            number_property("width", 7),
            text_property("label", "y"),
        ],
    );
    assert_eq!(properties.len(), 2);
    assert!(matches!(
        &properties[0],
        Property { name, value: PropertyValue::Number(7000) } if name == "width"
    ));
    assert!(matches!(
        &properties[1],
        Property { name, value: PropertyValue::Text(t) } if name == "label" && t == "y"
    ));
}

#[test]
fn a_keyframe_names_each_property_once() {
    let given = vec![
        Keyframe {
            time: 0,
            properties: vec![
                fraction_property("style.opacity", 900),
                fraction_property("x", 4),
                fraction_property("style.opacity", 0),
            ],
        },
        Keyframe { time: 1000, properties: vec![fraction_property("style.opacity", 1000)] },
    ];
    let merged = merge_keyframes(&given);
    assert_eq!(merged.len(), 2);
    assert_eq!(merged[0].time, 0);
    assert_eq!(merged[1].time, 1000);
    assert_eq!(merged[0].properties.len(), 2);
    assert!(matches!(
        &merged[0].properties[0],
        Property { name, value: PropertyValue::Number(0) } if name == "style.opacity"
    ));
    assert!(matches!(
        &merged[0].properties[1],
        Property { name, value: PropertyValue::Number(4) } if name == "x"
    ));
    assert_eq!(merged[1].properties.len(), 1);
    // The engine merges what it is given: a frame reports two values.
    let mut engine = engine(&["create_element", "create_animation"], 10);
    let target = engine.create_element(ElementType::Vector, Vec::new()).unwrap();
    engine.create_animation_at(&target, AnimationType::Style, 1000, given, 2000).unwrap();
    let update = engine.render_frame_at(2500, 2500).unwrap();
    let values = &update.animation_updates[0].current_values;
    assert_eq!(values.len(), 2);
    assert!(matches!(
        &values[0],
        Property { name, value: PropertyValue::Number(500) } if name == "style.opacity"
    ));
    assert!(matches!(&values[1], Property { name, value: PropertyValue::Number(4) } if name == "x"));
}

#[test]
fn a_drag_is_reported_through_the_engine() {
    let mut engine = engine(&["MouseDown", "MouseMove"], 10);
    let mouse = |kind: InteractionType, timestamp: u64, x: i32| {
        let mut event = click("box", timestamp);
        event.event_type = kind;
        event.position = Some(Position { x, y: 100 });
        event.mouse_data = Some(MouseData {
            button: MouseButton::Left,
            buttons: 1,
            position: Position { x, y: 100 },
            movement: None,
            wheel_delta: None,
        });
        event
    };
    let pressed = engine.process_interaction_at(mouse(InteractionType::MouseDown, 1100, 100), 1100).unwrap();
    assert_eq!(pressed.dom_operations.len(), 1);
    assert!(matches!(attribute(&pressed.dom_operations[0]).2, PropertyValue::Text(t) if t == "pressed"));
    // Five units from the origin is not yet a drag.
    let near = engine.process_interaction_at(mouse(InteractionType::MouseMove, 1200, 105), 1200).unwrap();
    assert!(near.dom_operations.is_empty());
    let moved = engine.process_interaction_at(mouse(InteractionType::MouseMove, 1300, 106), 1300).unwrap();
    let named: Vec<(&str, &str)> = moved
        .dom_operations
        .iter()
        .map(|operation| {
            let (id, name, _) = attribute(operation);
            (id, name)
        })
        .collect();
    assert_eq!(
        named,
        vec![
            ("box", "dragging"),
            ("box", "drag_start_x"),
            ("box", "drag_start_y"),
            ("box", "position_x"),
            ("box", "position_y"),
        ]
    );
    assert!(matches!(attribute(&moved.dom_operations[0]).2, PropertyValue::Flag(true)));
    assert!(matches!(attribute(&moved.dom_operations[1]).2, PropertyValue::Number(100_000)));
    assert!(matches!(attribute(&moved.dom_operations[3]).2, PropertyValue::Number(106_000)));
}
