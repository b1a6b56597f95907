use interactive_engine::animation::{
    apply_easing, interpolate_keyframes, interpolate_values, progress_of, ActiveAnimation,
    Animation, AnimationController, AnimationDirection, AnimationType, EasingFunction, Keyframe,
};
use interactive_engine::changes::ElementChange;
use interactive_engine::properties::{fraction_property, text_property, Property, PropertyValue};

fn animation(id: &str, duration: u64, easing: EasingFunction, loop_count: i32) -> Animation {
    Animation {
        id: id.to_string(),
        target_element: "box".to_string(),
        animation_type: AnimationType::Transform,
        duration,
        easing,
        keyframes: vec![
            Keyframe { time: 0, properties: vec![fraction_property("x", 0), text_property("label", "start")] },
            Keyframe { time: 1000, properties: vec![fraction_property("x", 200), text_property("label", "end")] },
        ],
        loop_count,
        direction: AnimationDirection::Normal,
    }
}

fn progress_of_change(change: &ElementChange) -> i64 {
    match change {
        ElementChange::AnimationUpdate { progress, .. } => *progress,
        _ => panic!("not an animation update"),
    }
}

fn number_in(properties: &[Property], name: &str) -> i64 {
    for property in properties {
        if property.name == name {
            if let PropertyValue::Number(n) = property.value {
                return n;
            }
        }
    }
    panic!("no number named {}", name);
}

fn text_in(properties: &[Property], name: &str) -> String {
    for property in properties {
        if property.name == name {
            if let PropertyValue::Text(t) = &property.value {
                return t.clone();
            }
        }
    }
    panic!("no text named {}", name);
}

#[test]
fn easing_follows_its_formulas() {
    assert_eq!(apply_easing(0, &EasingFunction::Linear), 0);
    assert_eq!(apply_easing(500, &EasingFunction::Linear), 500);
    assert_eq!(apply_easing(1000, &EasingFunction::Linear), 1000);
    assert_eq!(apply_easing(500, &EasingFunction::EaseIn), 250);
    assert_eq!(apply_easing(100, &EasingFunction::EaseIn), 10);
    assert_eq!(apply_easing(500, &EasingFunction::EaseOut), 750);
    assert_eq!(apply_easing(100, &EasingFunction::EaseOut), 190);
    assert_eq!(apply_easing(250, &EasingFunction::EaseInOut), 125);
    assert_eq!(apply_easing(499, &EasingFunction::EaseInOut), 498);
    assert_eq!(apply_easing(500, &EasingFunction::EaseInOut), 500);
    assert_eq!(apply_easing(750, &EasingFunction::EaseInOut), 875);
    for easing in [EasingFunction::EaseIn, EasingFunction::EaseOut, EasingFunction::EaseInOut] {
        assert_eq!(apply_easing(0, &easing), 0);
        assert_eq!(apply_easing(1000, &easing), 1000);
    }
}

#[test]
fn cubic_easing_is_the_curve_through_its_control_values() {
    let straight = EasingFunction::Cubic(333, 333, 667, 667);
    assert_eq!(apply_easing(0, &straight), 0);
    assert_eq!(apply_easing(1000, &straight), 1000);
    let late = EasingFunction::Cubic(0, 0, 1000, 1000);
    // 3·(1-t)·t²·1 + t³ at t = 0.5 is 0.375 + 0.125.
    assert_eq!(apply_easing(500, &late), 500);
    let overshooting = EasingFunction::Cubic(0, 2000, 0, -1000);
    // 3·0.25·0.5·2 - 3·0.5·0.25·1 + 0.125 = 0.75 - 0.375 + 0.125.
    assert_eq!(apply_easing(500, &overshooting), 500);
    // At t = 0.25: 3·0.5625·0.25·2 - 3·0.75·0.0625·1 + 0.015625 = 0.71875.
    assert_eq!(apply_easing(250, &overshooting), 718);
    // At t = 0.75: 3·0.0625·0.75·2 - 3·0.25·0.5625·1 + 0.421875 = 0.28125.
    assert_eq!(apply_easing(750, &overshooting), 281);
}

#[test]
fn named_easings_never_move_backwards() {
    for easing in [
        EasingFunction::Linear,
        EasingFunction::EaseIn,
        EasingFunction::EaseOut,
        EasingFunction::EaseInOut,
    ] {
        let mut last = apply_easing(0, &easing);
        for p in 1..=1000u32 {
            let next = apply_easing(p, &easing);
            assert!(next >= last);
            last = next;
        }
    }
}

#[test]
fn numbers_move_in_a_straight_line_and_the_rest_jumps() {
    let moved = interpolate_values(&PropertyValue::Number(10), &PropertyValue::Number(20), 250);
    assert!(matches!(moved, PropertyValue::Number(12)));
    let back = interpolate_values(&PropertyValue::Number(20), &PropertyValue::Number(10), 250);
    assert!(matches!(back, PropertyValue::Number(18)));
    let beyond = interpolate_values(&PropertyValue::Number(0), &PropertyValue::Number(100), 1500);
    assert!(matches!(beyond, PropertyValue::Number(150)));
    let cut = interpolate_values(&PropertyValue::Number(i64::MAX), &PropertyValue::Number(0), -1000);
    assert!(matches!(cut, PropertyValue::Number(i64::MAX)));
    let a = PropertyValue::Text("a".to_string());
    let b = PropertyValue::Text("b".to_string());
    assert!(matches!(interpolate_values(&a, &b, 500), PropertyValue::Text(t) if t == "a"));
    assert!(matches!(interpolate_values(&a, &b, 501), PropertyValue::Text(t) if t == "b"));
    let mixed = interpolate_values(&PropertyValue::Number(1), &PropertyValue::Flag(true), 900);
    assert!(matches!(mixed, PropertyValue::Flag(true)));
}

#[test]
fn keyframes_are_interpolated_between_the_bracketing_pair() {
    let keyframes = vec![
        Keyframe { time: 0, properties: vec![fraction_property("x", 0), text_property("label", "a")] },
        Keyframe { time: 500, properties: vec![fraction_property("x", 100), fraction_property("y", 7)] },
        Keyframe { time: 1000, properties: vec![fraction_property("x", 300), fraction_property("y", 9)] },
    ];
    let early = interpolate_keyframes(&keyframes, 250);
    assert_eq!(early.len(), 2);
    assert_eq!(number_in(&early, "x"), 50);
    assert_eq!(text_in(&early, "label"), "a");
    let late = interpolate_keyframes(&keyframes, 750);
    assert_eq!(late.len(), 2);
    assert_eq!(number_in(&late, "x"), 200);
    assert_eq!(number_in(&late, "y"), 8);
    // At a keyframe the earlier pair is taken, at its very end.
    let middle = interpolate_keyframes(&keyframes, 500);
    assert_eq!(number_in(&middle, "x"), 100);
    assert_eq!(text_in(&middle, "label"), "a");
    // Outside every pair the first and the last keyframe are taken.
    let beyond = interpolate_keyframes(&keyframes, 1100);
    assert_eq!(number_in(&beyond, "x"), 330);
    assert!(interpolate_keyframes(&Vec::new(), 500).is_empty());
    let single = vec![Keyframe { time: 300, properties: vec![fraction_property("x", 4)] }];
    assert_eq!(number_in(&interpolate_keyframes(&single, 900), "x"), 4);
}

#[test]
fn raw_progress_is_the_part_of_the_iteration_that_has_passed() {
    let running = ActiveAnimation {
        animation: animation("a", 1000, EasingFunction::Linear, 1),
        start_time: 5000,
        current_iteration: 0,
    };
    assert_eq!(progress_of(&running, 4000), 0);
    assert_eq!(progress_of(&running, 5000), 0);
    assert_eq!(progress_of(&running, 5333), 333);
    assert_eq!(progress_of(&running, 5999), 999);
    assert_eq!(progress_of(&running, 6000), 1000);
    assert_eq!(progress_of(&running, 9000), 1000);
    let instant = ActiveAnimation {
        animation: animation("b", 0, EasingFunction::Linear, 1),
        start_time: 5000,
        current_iteration: 0,
    };
    assert_eq!(progress_of(&instant, 5000), 1000);
}

#[test]
fn a_single_run_rises_to_the_end_and_then_leaves() {
    let mut controller = AnimationController::new();
    controller.start_animation_at(animation("fade", 1000, EasingFunction::EaseInOut, 1), 10_000);
    assert!(controller.is_active("fade"));
    let mut last = -1;
    for timestamp in [10_000u64, 10_100, 10_250, 10_400, 10_500, 10_750, 10_999] {
        let changes = controller.update_animations(timestamp).unwrap();
        assert_eq!(changes.len(), 1);
        let progress = progress_of_change(&changes[0]);
        assert!(progress >= last);
        assert!(progress <= 1000);
        last = progress;
        assert_eq!(controller.active_count(), 1);
    }
    let changes = controller.update_animations(11_000).unwrap();
    assert_eq!(changes.len(), 1);
    assert_eq!(progress_of_change(&changes[0]), 1000);
    assert_eq!(controller.active_count(), 0);
    assert!(!controller.is_active("fade"));
    assert!(controller.update_animations(11_016).unwrap().is_empty());
}

#[test]
fn a_tick_reports_id_progress_and_values() {
    let mut controller = AnimationController::new();
    controller.start_animation_at(animation("move", 2000, EasingFunction::Linear, 1), 0);
    let changes = controller.update_animations(500).unwrap();
    match &changes[0] {
        ElementChange::AnimationUpdate { animation_id, progress, values } => {
            assert_eq!(animation_id, "move");
            assert_eq!(*progress, 250);
            assert_eq!(number_in(values, "x"), 50);
            assert_eq!(text_in(values, "label"), "start");
        }
        _ => panic!("not an animation update"),
    }
}

#[test]
fn two_ticks_at_one_timestamp_report_the_same() {
    let mut controller = AnimationController::new();
    controller.start_animation_at(animation("a", 1000, EasingFunction::EaseIn, 1), 0);
    controller.start_animation_at(animation("b", 4000, EasingFunction::EaseOut, -1), 100);
    let first = controller.update_animations(600).unwrap();
    let second = controller.update_animations(600).unwrap();
    assert_eq!(first.len(), 2);
    assert_eq!(second.len(), 2);
    for k in 0..2 {
        assert_eq!(progress_of_change(&first[k]), progress_of_change(&second[k]));
    }
    assert_eq!(progress_of_change(&first[0]), 360);
    assert_eq!(progress_of_change(&first[1]), 235);
}

#[test]
fn a_looping_animation_starts_over() {
    let mut controller = AnimationController::new();
    controller.start_animation_at(animation("spin", 1000, EasingFunction::Linear, -1), 0);
    assert_eq!(progress_of_change(&controller.update_animations(1000).unwrap()[0]), 1000);
    assert_eq!(controller.active_count(), 1);
    assert_eq!(progress_of_change(&controller.update_animations(1500).unwrap()[0]), 500);
    let mut twice = AnimationController::new();
    twice.start_animation_at(animation("blink", 100, EasingFunction::Linear, 2), 0);
    twice.update_animations(100).unwrap();
    assert_eq!(twice.active_count(), 1);
    assert_eq!(progress_of_change(&twice.update_animations(150).unwrap()[0]), 500);
    twice.update_animations(200).unwrap();
    assert_eq!(twice.active_count(), 0);
}

#[test]
fn starting_replaces_and_stopping_removes() {
    let mut controller = AnimationController::new();
    controller.start_animation_at(animation("a", 1000, EasingFunction::Linear, 1), 0);
    controller.start_animation_at(animation("b", 1000, EasingFunction::Linear, 1), 0);
    controller.start_animation_at(animation("a", 1000, EasingFunction::Linear, 1), 400);
    assert_eq!(controller.active_count(), 2);
    let changes = controller.update_animations(500).unwrap();
    assert_eq!(progress_of_change(&changes[0]), 100);
    assert_eq!(progress_of_change(&changes[1]), 500);
    controller.stop_animation("a");
    assert_eq!(controller.active_count(), 1);
    assert!(!controller.is_active("a"));
    assert!(controller.is_active("b"));
    controller.stop_animation("none");
    assert_eq!(controller.active_count(), 1);
    controller.start_animation(animation("now", 1000, EasingFunction::Linear, 1));
    assert!(controller.is_active("now"));
}
