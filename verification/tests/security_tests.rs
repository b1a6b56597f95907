use interactive_engine::events::{EventModifiers, InteractionEvent};
use interactive_engine::kinds::InteractionType;
use interactive_engine::security::{SecurityContext, WASMPermissions};

fn permissions(allowed: &[&str]) -> WASMPermissions {
    WASMPermissions {
        memory_limit: 1000,
        allowed_imports: vec!["console".to_string()],
        cpu_time_limit: 5000,
        allow_networking: false,
        allow_file_system: false,
        allowed_interactions: allowed.iter().map(|s| s.to_string()).collect(),
        max_data_size: 64,
        max_elements: 3,
    }
}

fn event(kind: InteractionType, timestamp: u64) -> InteractionEvent {
    InteractionEvent {
        event_type: kind,
        target_element: None,
        position: None,
        timestamp,
        touch_data: None,
        mouse_data: None,
        keyboard_data: None,
        gesture_data: None,
        scroll_delta: None,
        viewport_size: None,
        modifiers: EventModifiers { ctrl: false, shift: false, alt: false, meta: false },
        hints: None,
    }
}

#[test]
fn a_new_context_has_the_limits_of_its_permissions() {
    let context = SecurityContext::new_at(permissions(&["Click"]), 42).unwrap();
    let limits = context.resource_limits();
    assert_eq!(limits.max_memory, 1000);
    assert_eq!(limits.max_cpu_time, 5000);
    assert_eq!(limits.max_interactions_per_second, 100);
    assert_eq!(limits.max_elements, 3);
    assert_eq!(context.allocated_memory(), 0);
    assert_eq!(context.interaction_count(), 0);
    assert_eq!(context.start_time(), 42);
    assert_eq!(context.max_data_size(), 64);
}

#[test]
fn an_interaction_that_is_not_named_is_refused() {
    let mut context = SecurityContext::new_at(permissions(&["Click"]), 0).unwrap();
    let refused = context.check_interaction_permission_at(&event(InteractionType::KeyDown, 5), 5);
    let error = refused.unwrap_err();
    assert_eq!(error.code, "INTERACTION_NOT_ALLOWED");
    assert_eq!(error.message, "Interaction type 'KeyDown' is not permitted");
    assert_eq!(context.interaction_count(), 0);
    assert!(context.check_interaction_permission_at(&event(InteractionType::Click, 5), 20).is_ok());
    assert_eq!(context.interaction_count(), 1);
}

#[test]
fn a_flood_of_interactions_is_refused() {
    let mut context = SecurityContext::new_at(permissions(&["Click"]), 1000).unwrap();
    // One interaction in ten milliseconds is a hundred per second: admitted.
    assert!(context.check_interaction_permission_at(&event(InteractionType::Click, 0), 1010).is_ok());
    // A second one in the same ten milliseconds is two hundred per second.
    let refused = context.check_interaction_permission_at(&event(InteractionType::Click, 0), 1010);
    assert_eq!(refused.unwrap_err().code, "INTERACTION_RATE_EXCEEDED");
    assert_eq!(context.interaction_count(), 1);
    // Ten milliseconds later there is room for it.
    assert!(context.check_interaction_permission_at(&event(InteractionType::Click, 0), 1020).is_ok());
    assert_eq!(context.interaction_count(), 2);
}

#[test]
fn interactions_well_under_the_limit_are_never_refused() {
    let mut context = SecurityContext::new_at(permissions(&["Click"]), 0).unwrap();
    for k in 1..=500u64 {
        // One interaction every twenty milliseconds: fifty per second.
        let admitted = context.check_interaction_permission_at(&event(InteractionType::Click, 0), 20 * k);
        assert!(admitted.is_ok());
    }
    assert_eq!(context.interaction_count(), 500);
}

#[test]
fn no_rate_is_held_against_the_first_instant() {
    let mut context = SecurityContext::new_at(permissions(&["Click"]), 1000).unwrap();
    for _ in 0..10 {
        assert!(context.check_interaction_permission_at(&event(InteractionType::Click, 0), 1000).is_ok());
    }
    assert_eq!(context.interaction_count(), 10);
}

#[test]
fn rendering_is_refused_past_the_time_limit() {
    let context = SecurityContext::new_at(permissions(&[]), 100).unwrap();
    assert!(context.check_render_permission_at(100).is_ok());
    assert!(context.check_render_permission_at(5100).is_ok());
    assert_eq!(context.check_render_permission_at(5101).unwrap_err().code, "CPU_TIME_EXCEEDED");
    assert!(context.check_render_permission_at(0).is_ok());
}

#[test]
fn memory_is_accounted_for_up_to_the_limit() {
    let mut context = SecurityContext::new_at(permissions(&[]), 0).unwrap();
    assert!(context.allocate_memory(600).is_ok());
    assert_eq!(context.allocated_memory(), 600);
    let refused = context.allocate_memory(401);
    assert_eq!(refused.unwrap_err().code, "MEMORY_LIMIT_EXCEEDED");
    assert_eq!(context.allocated_memory(), 600);
    assert!(context.allocate_memory(400).is_ok());
    assert_eq!(context.allocated_memory(), 1000);
    assert_eq!(context.allocate_memory(usize::MAX).unwrap_err().code, "MEMORY_LIMIT_EXCEEDED");
    assert_eq!(context.allocated_memory(), 1000);
}

#[test]
fn releasing_memory_stops_at_zero() {
    let mut context = SecurityContext::new_at(permissions(&[]), 0).unwrap();
    context.allocate_memory(100).unwrap();
    context.deallocate_memory(30);
    assert_eq!(context.allocated_memory(), 70);
    context.deallocate_memory(500);
    assert_eq!(context.allocated_memory(), 0);
}

#[test]
fn each_operation_needs_its_name_in_the_permissions() {
    let none = SecurityContext::new_at(permissions(&[]), 0).unwrap();
    assert_eq!(none.check_element_creation().unwrap_err().code, "ELEMENT_CREATION_NOT_ALLOWED");
    assert_eq!(
        none.check_element_modification("e").unwrap_err().code,
        "ELEMENT_MODIFICATION_NOT_ALLOWED"
    );
    assert_eq!(none.check_animation_creation().unwrap_err().code, "ANIMATION_CREATION_NOT_ALLOWED");
    assert_eq!(
        none.check_event_handler_creation().unwrap_err().code,
        "EVENT_HANDLER_CREATION_NOT_ALLOWED"
    );
    assert!(none.check_data_permission("source").is_ok());
    let all = SecurityContext::new_at(
        permissions(&["create_element", "modify_element", "create_animation", "create_event_handler"]),
        0,
    )
    .unwrap();
    assert!(all.check_element_creation().is_ok());
    assert!(all.check_element_modification("e").is_ok());
    assert!(all.check_animation_creation().is_ok());
    assert!(all.check_event_handler_creation().is_ok());
    assert!(all.is_allowed("modify_element"));
    assert!(!all.is_allowed("modify"));
}

#[test]
fn the_element_limit_is_held_against_the_count() {
    let context = SecurityContext::new_at(permissions(&[]), 0).unwrap();
    assert!(context.check_element_capacity(0).is_ok());
    assert!(context.check_element_capacity(2).is_ok());
    assert_eq!(context.check_element_capacity(3).unwrap_err().code, "ELEMENT_LIMIT_EXCEEDED");
}

#[test]
fn the_clock_variants_agree_with_the_timed_ones() {
    let mut context = SecurityContext::new(permissions(&["Click"])).unwrap();
    assert_eq!(context.interaction_count(), 0);
    assert!(context.check_render_permission().is_ok());
    let refused = context.check_interaction_permission(&event(InteractionType::Hover, 0));
    assert_eq!(refused.unwrap_err().code, "INTERACTION_NOT_ALLOWED");
}
