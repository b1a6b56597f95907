use interactive_engine::events::{
    DeliveryHints, EventModifiers, InteractionEvent, MouseButton, MouseData, Position, Size,
    TouchData, TouchPoint, Viewport,
};
use interactive_engine::kinds::InteractionType;
use interactive_engine::responsive::{
    AdaptiveThresholds, DeviceInfo, DeviceType, InteractionSettings, PerformanceProfile,
    ResponsiveAdapter,
};

fn viewport(width: u32, height: u32) -> Viewport {
    Viewport { width, height, scale: 1000, offset_x: 0, offset_y: 0 }
}

fn event(kind: InteractionType) -> InteractionEvent {
    InteractionEvent {
        event_type: kind,
        target_element: Some("test_element".to_string()),
        position: Some(Position { x: 100, y: 100 }),
        timestamp: 777,
        touch_data: None,
        mouse_data: None,
        keyboard_data: None,
        gesture_data: None,
        scroll_delta: None,
        viewport_size: None,
        modifiers: EventModifiers { ctrl: false, shift: true, alt: false, meta: false },
        hints: None,
    }
}

#[test]
fn devices_are_classified_by_the_diagonal_of_the_viewport() {
    let mut adapter = ResponsiveAdapter::new();
    adapter.initialize_device_detection(&viewport(320, 480)).unwrap();
    assert_eq!(adapter.get_device_info().device_type, DeviceType::Mobile);
    assert_eq!(adapter.get_device_info().screen_size, Size { width: 320, height: 480 });
    assert_eq!(adapter.get_interaction_settings().touch_target_size, 44);
    // 375 by 667 has a diagonal of 765 units: over 600, under 1200.
    adapter.initialize_device_detection(&viewport(375, 667)).unwrap();
    assert_eq!(adapter.get_device_info().device_type, DeviceType::Tablet);
    assert_eq!(adapter.get_interaction_settings().touch_target_size, 48);
    adapter.initialize_device_detection(&viewport(1920, 1080)).unwrap();
    assert_eq!(adapter.get_device_info().device_type, DeviceType::Desktop);
    assert_eq!(adapter.get_interaction_settings().touch_target_size, 32);
}

#[test]
fn the_classes_meet_at_600_and_1200() {
    let mut adapter = ResponsiveAdapter::new();
    adapter.initialize_device_detection(&viewport(360, 479)).unwrap();
    assert_eq!(adapter.get_device_info().device_type, DeviceType::Mobile);
    adapter.initialize_device_detection(&viewport(360, 480)).unwrap();
    assert_eq!(adapter.get_device_info().device_type, DeviceType::Tablet);
    adapter.initialize_device_detection(&viewport(720, 959)).unwrap();
    assert_eq!(adapter.get_device_info().device_type, DeviceType::Tablet);
    adapter.initialize_device_detection(&viewport(720, 960)).unwrap();
    assert_eq!(adapter.get_device_info().device_type, DeviceType::Desktop);
    adapter.initialize_device_detection(&viewport(u32::MAX, u32::MAX)).unwrap();
    assert_eq!(adapter.get_device_info().device_type, DeviceType::Desktop);
    adapter.initialize_device_detection(&viewport(0, 0)).unwrap();
    assert_eq!(adapter.get_device_info().device_type, DeviceType::Mobile);
}

#[test]
fn all_tables_follow_from_the_class() {
    let mut adapter = ResponsiveAdapter::new();
    adapter.initialize_device_detection(&viewport(320, 480)).unwrap();
    assert_eq!(
        *adapter.get_interaction_settings(),
        InteractionSettings {
            touch_target_size: 44,
            tap_timeout: 300,
            double_tap_timeout: 500,
            long_press_timeout: 500,
            drag_threshold: 10,
            scroll_sensitivity: 1000,
            gesture_sensitivity: 1000,
            hover_delay: 0,
        }
    );
    assert_eq!(
        *adapter.get_performance_profile(),
        PerformanceProfile {
            target_fps: 60,
            max_event_frequency: 120,
            throttle_threshold: 100,
            batch_events: true,
            use_passive_listeners: true,
            debounce_scroll: true,
            optimize_animations: true,
        }
    );
    assert_eq!(
        *adapter.get_adaptive_thresholds(),
        AdaptiveThresholds {
            min_touch_target: 35,
            max_touch_target: 66,
            min_drag_distance: 10,
            max_drag_distance: 100,
            velocity_scaling: 1200,
            pressure_sensitivity: 0,
        }
    );
    adapter.initialize_device_detection(&viewport(1920, 1080)).unwrap();
    assert_eq!(adapter.get_interaction_settings().scroll_sensitivity, 600);
    assert_eq!(adapter.get_performance_profile().max_event_frequency, 240);
    assert_eq!(
        *adapter.get_adaptive_thresholds(),
        AdaptiveThresholds {
            min_touch_target: 25,
            max_touch_target: 48,
            min_drag_distance: 5,
            max_drag_distance: 50,
            velocity_scaling: 800,
            pressure_sensitivity: 0,
        }
    );
}

#[test]
fn what_the_host_knows_of_the_device_is_taken_over() {
    let mut adapter = ResponsiveAdapter::new();
    let watch = DeviceInfo {
        device_type: DeviceType::Watch,
        screen_size: Size { width: 200, height: 200 },
        pixel_density: 2000,
        touch_support: true,
        mouse_support: false,
        keyboard_support: false,
        max_touch_points: 2,
        has_force_touch: true,
        has_hover_support: false,
    };
    adapter.update_device_info(watch);
    assert_eq!(*adapter.get_device_info(), watch);
    // A watch has no table of its own: it gets the general settings, and the
    // thresholds follow the density.
    assert_eq!(adapter.get_interaction_settings().touch_target_size, 44);
    assert_eq!(adapter.get_performance_profile().max_event_frequency, 120);
    assert_eq!(
        *adapter.get_adaptive_thresholds(),
        AdaptiveThresholds {
            min_touch_target: 70,
            max_touch_target: 132,
            min_drag_distance: 20,
            max_drag_distance: 200,
            velocity_scaling: 1000,
            pressure_sensitivity: 1000,
        }
    );
}

#[test]
fn touches_are_adapted_to_the_thresholds() {
    let mut adapter = ResponsiveAdapter::new();
    adapter.initialize_device_detection(&viewport(320, 480)).unwrap();
    let mut touch_event = event(InteractionType::TouchStart);
    let small = TouchPoint { identifier: 1, position: Position { x: 100, y: 100 }, radius: Some(5), rotation_angle: None, force: Some(300) };
    let large = TouchPoint { identifier: 2, position: Position { x: 5, y: 6 }, radius: Some(500), rotation_angle: Some(3), force: None };
    let plain = TouchPoint { identifier: 3, position: Position { x: 7, y: 8 }, radius: Some(40), rotation_angle: None, force: None };
    touch_event.touch_data = Some(TouchData {
        touches: vec![small, large, plain],
        changed_touches: vec![small],
        target_touches: vec![],
        force: Some(300),
        rotation_angle: None,
        scale: Some(1500),
    });
    adapter.adapt_event(&mut touch_event).unwrap();
    let data = touch_event.touch_data.unwrap();
    assert_eq!(data.touches[0], TouchPoint { radius: Some(35), force: Some(0), ..small });
    assert_eq!(data.touches[1], TouchPoint { radius: Some(66), ..large });
    assert_eq!(data.touches[2], plain);
    assert_eq!(data.changed_touches, vec![small]);
    assert_eq!(data.force, Some(300));
    assert_eq!(data.scale, Some(1600));
    assert_eq!(touch_event.event_type, InteractionType::TouchStart);
    assert_eq!(touch_event.target_element, Some("test_element".to_string()));
    assert_eq!(touch_event.timestamp, 777);
    assert_eq!(
        touch_event.hints,
        Some(DeliveryHints { throttle_threshold: 8333, batch_events: true, use_passive: true })
    );
}

#[test]
fn cancelled_touches_are_left_as_they_are() {
    let mut adapter = ResponsiveAdapter::new();
    adapter.initialize_device_detection(&viewport(320, 480)).unwrap();
    let mut cancelled = event(InteractionType::TouchCancel);
    let small = TouchPoint { identifier: 1, position: Position { x: 1, y: 1 }, radius: Some(5), rotation_angle: None, force: Some(300) };
    cancelled.touch_data = Some(TouchData {
        touches: vec![small],
        changed_touches: vec![small],
        target_touches: vec![],
        force: None,
        rotation_angle: None,
        scale: Some(2000),
    });
    adapter.adapt_event(&mut cancelled).unwrap();
    let data = cancelled.touch_data.unwrap();
    assert_eq!(data.touches, vec![small]);
    assert_eq!(data.scale, Some(2000));
    assert!(cancelled.hints.is_some());
}

#[test]
fn pointer_movement_and_scrolling_are_scaled() {
    let adapter = ResponsiveAdapter::new();
    let mut desktop = ResponsiveAdapter::new();
    desktop.initialize_device_detection(&viewport(1920, 1080)).unwrap();
    let mouse = MouseData {
        button: MouseButton::Left,
        buttons: 1,
        position: Position { x: 10, y: 20 },
        movement: Some(Position { x: 10, y: -10 }),
        wheel_delta: Some(Position { x: 0, y: 100 }),
    };
    let mut moved = event(InteractionType::MouseMove);
    moved.mouse_data = Some(mouse);
    desktop.adapt_event(&mut moved).unwrap();
    assert_eq!(
        moved.mouse_data,
        Some(MouseData { movement: Some(Position { x: 8, y: -8 }), wheel_delta: Some(Position { x: 0, y: 60 }), ..mouse })
    );
    let mut clicked = event(InteractionType::Click);
    clicked.mouse_data = Some(mouse);
    desktop.adapt_event(&mut clicked).unwrap();
    assert_eq!(clicked.mouse_data, Some(mouse));
    let mut scrolled = event(InteractionType::Wheel);
    scrolled.scroll_delta = Some(Position { x: -5, y: 101 });
    desktop.adapt_event(&mut scrolled).unwrap();
    assert_eq!(scrolled.scroll_delta, Some(Position { x: -3, y: 60 }));
    let mut unscaled = event(InteractionType::Scroll);
    unscaled.scroll_delta = Some(Position { x: -5, y: 101 });
    adapter.adapt_event(&mut unscaled).unwrap();
    assert_eq!(unscaled.scroll_delta, Some(Position { x: -5, y: 101 }));
    assert_eq!(
        unscaled.hints,
        Some(DeliveryHints { throttle_threshold: 8333, batch_events: false, use_passive: false })
    );
}

#[test]
fn only_events_that_come_too_soon_are_throttled() {
    let adapter = ResponsiveAdapter::new();
    // 120 events per second: one every 8.33 milliseconds.
    assert!(adapter.should_throttle_event_at(&InteractionType::MouseMove, 1000, 1003));
    assert!(adapter.should_throttle_event_at(&InteractionType::TouchMove, 1000, 1008));
    assert!(!adapter.should_throttle_event_at(&InteractionType::Scroll, 1000, 1009));
    assert!(adapter.should_throttle_event_at(&InteractionType::Wheel, 1000, 1000));
    assert!(adapter.should_throttle_event_at(&InteractionType::Wheel, 1000, 900));
    assert!(!adapter.should_throttle_event_at(&InteractionType::Click, 1000, 1000));
    assert!(!adapter.should_throttle_event_at(&InteractionType::TouchStart, 1000, 1001));
    assert!(!adapter.should_throttle_event(&InteractionType::KeyDown, 0));
    assert!(!adapter.should_throttle_event(&InteractionType::MouseMove, 0));
}

#[test]
fn touch_targets_are_at_least_the_smallest_target() {
    let adapter = ResponsiveAdapter::new();
    let size = adapter.get_optimal_touch_target_size(&Size { width: 10, height: 100 });
    assert_eq!(size, Size { width: 32, height: 100 });
}

#[test]
fn the_tables_depend_on_the_device_alone() {
    for device_type in [
        DeviceType::Desktop,
        DeviceType::Tablet,
        DeviceType::Mobile,
        DeviceType::TV,
        DeviceType::Watch,
        DeviceType::Unknown,
    ] {
        for has_force_touch in [false, true] {
            let device = DeviceInfo {
                device_type,
                screen_size: Size { width: 800, height: 600 },
                pixel_density: 1500,
                touch_support: true,
                mouse_support: true,
                keyboard_support: true,
                max_touch_points: 5,
                has_force_touch,
                has_hover_support: true,
            };
            let mut fresh = ResponsiveAdapter::new();
            let mut used = ResponsiveAdapter::new();
            used.initialize_device_detection(&viewport(1920, 1080));
            assert_eq!(used.get_interaction_settings().touch_target_size, 32);
            fresh.update_device_info(device);
            used.update_device_info(device);
            assert_eq!(fresh.get_interaction_settings(), used.get_interaction_settings());
            assert_eq!(fresh.get_performance_profile(), used.get_performance_profile());
            assert_eq!(fresh.get_adaptive_thresholds(), used.get_adaptive_thresholds());
            assert_eq!(
                used.get_adaptive_thresholds().pressure_sensitivity,
                if has_force_touch { 1000 } else { 0 }
            );
        }
    }
}

#[test]
fn a_television_after_a_desktop_gets_the_general_tables() {
    let mut adapter = ResponsiveAdapter::new();
    adapter.initialize_device_detection(&viewport(1920, 1080));
    let device = DeviceInfo { device_type: DeviceType::TV, ..*adapter.get_device_info() };
    adapter.update_device_info(device);
    assert_eq!(adapter.get_interaction_settings().touch_target_size, 44);
    assert_eq!(*adapter.get_interaction_settings(), InteractionSettings::default());
    assert_eq!(*adapter.get_performance_profile(), PerformanceProfile::default());
}
