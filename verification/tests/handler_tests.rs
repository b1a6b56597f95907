use interactive_engine::changes::{ElementChange, ElementType};
use interactive_engine::document::{AnimationEntry, DocumentState, EventHandler, InteractiveElement, Transform};
use interactive_engine::engine::InteractiveEngine;
use interactive_engine::events::{EventModifiers, InteractionEvent};
use interactive_engine::handlers::{
    animation_exists, find_text_parameter, plan_handler, EventProcessor, HandlerPlan,
};
use interactive_engine::kinds::InteractionType;
use interactive_engine::properties::{fraction_property, text_property, Property, PropertyValue};
use interactive_engine::security::WASMPermissions;

fn event(kind: InteractionType, target: Option<&str>) -> InteractionEvent {
    InteractionEvent {
        event_type: kind,
        target_element: target.map(|t| t.to_string()),
        position: None,
        timestamp: 10,
        touch_data: None,
        mouse_data: None,
        keyboard_data: None,
        gesture_data: None,
        scroll_delta: None,
        viewport_size: None,
        modifiers: EventModifiers { ctrl: false, shift: false, alt: false, meta: false },
        hints: None,
    }
}

fn handler(event_type: &str, handler_id: &str, parameters: Vec<Property>) -> EventHandler {
    EventHandler { event_type: event_type.to_string(), handler_id: handler_id.to_string(), parameters }
}

fn element(id: &str, handlers: Vec<EventHandler>) -> InteractiveElement {
    InteractiveElement {
        id: id.to_string(),
        element_type: ElementType::Interactive,
        properties: Vec::new(),
        children: Vec::new(),
        event_handlers: handlers,
        transform: Transform::default(),
        visible: true,
    }
}

fn text_updates(changes: &[ElementChange]) -> Vec<(String, String, String)> {
    let mut found = Vec::new();
    for change in changes {
        if let ElementChange::Update { element_id, properties } = change {
            for property in properties {
                if let PropertyValue::Text(t) = &property.value {
                    found.push((element_id.clone(), property.name.clone(), t.clone()));
                }
            }
        }
    }
    found
}

fn triple(a: &str, b: &str, c: &str) -> (String, String, String) {
    (a.to_string(), b.to_string(), c.to_string())
}

#[test]
fn handlers_are_planned_from_their_id_and_parameters() {
    let toggle = handler("click", "toggle_visibility", vec![text_property("target", "panel")]);
    assert!(matches!(plan_handler(&toggle), HandlerPlan::Toggle { target } if target == "panel"));
    let no_target = handler("click", "toggle_visibility", vec![fraction_property("target", 1)]);
    assert!(matches!(plan_handler(&no_target), HandlerPlan::Nothing));
    let color = handler("click", "change_color", vec![text_property("target", "a")]);
    assert!(matches!(plan_handler(&color), HandlerPlan::ChangeColor { target, color } if target == "a" && color == "#ff0000"));
    let text = handler("hover", "update_text", vec![text_property("text", "hi"), text_property("target", "a")]);
    assert!(matches!(plan_handler(&text), HandlerPlan::UpdateText { target, text } if target == "a" && text == "hi"));
    let animation = handler("click", "trigger_animation", vec![text_property("animation_id", "anim_0")]);
    assert!(matches!(plan_handler(&animation), HandlerPlan::TriggerAnimation { animation_id } if animation_id == "anim_0"));
    let navigate = handler("click", "navigate_to", vec![text_property("url", "/next")]);
    assert!(matches!(plan_handler(&navigate), HandlerPlan::NavigateTo { url } if url == "/next"));
    assert!(matches!(plan_handler(&handler("click", "navigate_to", Vec::new())), HandlerPlan::Nothing));
    assert!(matches!(plan_handler(&handler("click", "explode", Vec::new())), HandlerPlan::Unknown));
    assert_eq!(find_text_parameter(&toggle.parameters, "target"), Some("panel".to_string()));
    assert_eq!(find_text_parameter(&toggle.parameters, "color"), None);
}

#[test]
fn a_click_runs_the_click_handlers_of_its_target() {
    let mut document = DocumentState::new();
    document
        .add_element(element(
            "btn",
            vec![
                handler("click", "toggle_visibility", vec![text_property("target", "panel")]),
                handler("hover", "explode", Vec::new()),
                handler("click", "update_text", vec![text_property("target", "title")]),
                handler("click", "toggle_visibility", vec![text_property("target", "panel")]),
                handler("click", "toggle_visibility", vec![text_property("target", "nothing")]),
                handler("click", "trigger_animation", vec![text_property("animation_id", "anim_7")]),
                handler("click", "trigger_animation", vec![text_property("animation_id", "anim_8")]),
                handler("click", "navigate_to", vec![text_property("url", "/next")]),
                handler("click", "change_color", vec![text_property("target", "panel"), text_property("color", "#00f")]),
            ],
        ))
        .unwrap();
    document.add_element(element("panel", Vec::new())).unwrap();
    document.animations.push(AnimationEntry { id: "anim_7".to_string(), target_element: "panel".to_string() });
    let processor = EventProcessor::new();
    let changes = processor.process_event(&mut document, &event(InteractionType::Click, Some("btn"))).unwrap();
    assert_eq!(
        text_updates(&changes),
        vec![
            triple("panel", "style.display", "none"),
            triple("title", "textContent", "Updated text"),
            triple("panel", "style.display", "block"),
            triple("navigation", "navigate_to", "/next"),
            triple("panel", "style.backgroundColor", "#00f"),
            triple("btn", "style.transform", "scale(0.95)"),
            triple("btn", "style.transform", "scale(1.0)"),
        ]
    );
    assert_eq!(changes.len(), 8);
    assert!(matches!(
        &changes[3],
        ElementChange::AnimationUpdate { animation_id, progress: 0, values } if animation_id == "anim_7" && values.is_empty()
    ));
    assert!(document.get_element("panel").unwrap().visible);
    assert!(animation_exists(&document.animations, &"anim_7".to_string()));
    assert!(!animation_exists(&document.animations, &"anim_8".to_string()));
}

#[test]
fn a_handler_that_is_not_known_stops_the_event() {
    let mut document = DocumentState::new();
    document
        .add_element(element(
            "btn",
            vec![
                handler("click", "toggle_visibility", vec![text_property("target", "btn")]),
                handler("click", "explode", Vec::new()),
            ],
        ))
        .unwrap();
    let processor = EventProcessor::new();
    let refused = processor.process_event(&mut document, &event(InteractionType::Click, Some("btn")));
    assert_eq!(refused.unwrap_err().code, "UNKNOWN_HANDLER");
    assert!(document.get_element("btn").unwrap().visible);
    assert_eq!(processor.check_event(&document, &event(InteractionType::Click, Some("btn"))).unwrap_err().code, "UNKNOWN_HANDLER");
    // Only click handlers run on a click; a hover has none to run here.
    let hovered = processor.process_event(&mut document, &event(InteractionType::Hover, Some("btn"))).unwrap();
    assert_eq!(
        text_updates(&hovered),
        vec![triple("btn", "style.opacity", "0.8"), triple("btn", "style.cursor", "pointer")]
    );
    assert!(processor.check_event(&document, &event(InteractionType::KeyDown, Some("btn"))).is_ok());
    assert!(processor.process_event(&mut document, &event(InteractionType::KeyDown, Some("btn"))).unwrap().is_empty());
    assert!(processor.process_event(&mut document, &event(InteractionType::Click, Some("other"))).unwrap().is_empty());
    assert!(processor.process_event(&mut document, &event(InteractionType::Click, None)).unwrap().is_empty());
}

#[test]
fn toggling_hides_and_shows() {
    let mut document = DocumentState::new();
    document
        .add_element(element("btn", vec![handler("click", "toggle_visibility", vec![text_property("target", "btn")])]))
        .unwrap();
    let processor = EventProcessor::new();
    let click = event(InteractionType::Click, Some("btn"));
    let first = processor.process_event(&mut document, &click).unwrap();
    assert_eq!(text_updates(&first)[0], triple("btn", "style.display", "none"));
    assert!(!document.get_element("btn").unwrap().visible);
    let second = processor.process_event(&mut document, &click).unwrap();
    assert_eq!(text_updates(&second)[0], triple("btn", "style.display", "block"));
    assert!(document.get_element("btn").unwrap().visible);
}

#[test]
fn the_engine_runs_handlers_before_it_counts() {
    let permissions = WASMPermissions {
        memory_limit: 1024,
        allowed_imports: Vec::new(),
        cpu_time_limit: 5000,
        allow_networking: false,
        allow_file_system: false,
        allowed_interactions: ["Click", "create_element", "create_event_handler"].iter().map(|s| s.to_string()).collect(),
        max_data_size: 64,
        max_elements: 5,
    };
    let mut engine = InteractiveEngine::new_at(permissions, 0).unwrap();
    let button = engine.create_element(ElementType::Interactive, Vec::new()).unwrap();
    engine
        .add_event_handler_with_parameters(&button, "click", "change_color", vec![text_property("target", "element_0")])
        .unwrap();
    let update = engine.process_interaction_at(event(InteractionType::Click, Some(&button)), 1000).unwrap();
    let styles: Vec<(String, String)> =
        update.style_changes.iter().map(|c| (c.element_id.clone(), c.property.clone())).collect();
    assert_eq!(
        styles,
        vec![
            ("element_0".to_string(), "backgroundColor".to_string()),
            ("element_0".to_string(), "transform".to_string()),
            ("element_0".to_string(), "transform".to_string()),
        ]
    );
    assert_eq!(engine.get_interaction_metrics().total_events, 1);
    engine.add_event_handler(&button, "click", "explode").unwrap();
    let refused = engine.process_interaction_at(event(InteractionType::Click, Some(&button)), 2000);
    assert_eq!(refused.unwrap_err().code, "UNKNOWN_HANDLER");
    assert_eq!(engine.get_interaction_metrics().total_events, 1);
    assert_eq!(engine.get_performance_stats_at(2000).total_interactions, 1);
    // A kind that is not permitted is refused for that, whatever its handlers.
    let mut hover = event(InteractionType::Hover, Some(&button));
    hover.timestamp = 3000;
    assert_eq!(engine.process_interaction_at(hover, 3000).unwrap_err().code, "INTERACTION_NOT_ALLOWED");
}

#[test]
fn of_two_parameters_with_one_name_the_last_counts() {
    let permissions = WASMPermissions {
        memory_limit: 1024,
        allowed_imports: Vec::new(),
        cpu_time_limit: 5000,
        allow_networking: false,
        allow_file_system: false,
        allowed_interactions: ["Click", "create_element", "create_event_handler"].iter().map(|s| s.to_string()).collect(),
        max_data_size: 64,
        max_elements: 5,
    };
    let mut engine = InteractiveEngine::new_at(permissions, 0).unwrap();
    let button = engine.create_element(ElementType::Interactive, Vec::new()).unwrap();
    engine
        .add_event_handler_with_parameters(
            &button,
            "click",
            "change_color",
            vec![
                text_property("target", "element_0"),
                text_property("color", "#00ff00"),
                text_property("color", "#0000ff"),
            ],
        )
        .unwrap();
    let update = engine.process_interaction_at(event(InteractionType::Click, Some(&button)), 1000).unwrap();
    assert_eq!(update.style_changes[0].property, "backgroundColor");
    assert!(matches!(&update.style_changes[0].value, PropertyValue::Text(t) if t == "#0000ff"));
}
