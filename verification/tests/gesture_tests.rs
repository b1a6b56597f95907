use interactive_engine::events::{GestureType, Position, TouchData, TouchPoint};
use interactive_engine::gesture::{
    angle_to_direction, calculate_confidence, check_gesture_completion, classify_motion,
    matches_gesture_config, ConfiguredGesture, GestureConfig, GestureProperties, GestureRecognizer,
};
use interactive_engine::motion::{
    calculate_average_speed, calculate_average_velocity, calculate_speed,
    calculate_total_path_distance, calculate_velocity, calculate_velocity_variance, GestureSample,
};

fn touch(identifier: u32, x: i32, y: i32) -> TouchPoint {
    TouchPoint { identifier, position: Position { x, y }, radius: Some(8), rotation_angle: None, force: Some(300) }
}

fn touches(points: Vec<TouchPoint>) -> TouchData {
    TouchData {
        touches: points.clone(),
        changed_touches: points,
        target_touches: vec![],
        force: None,
        rotation_angle: None,
        scale: None,
    }
}

fn sample(timestamp: u64, x: i32, y: i32) -> GestureSample {
    GestureSample { timestamp, position: Position { x, y }, velocity: Position { x: 0, y: 0 }, pressure: None }
}

#[test]
fn a_short_slow_touch_is_a_tap() {
    let mut recognizer = GestureRecognizer::new();
    let first = recognizer.process_touch_input(&touches(vec![touch(1, 100, 100)]), 50_000);
    assert!(first.is_empty());
    assert_eq!(recognizer.active_count(), 1);
    let second = recognizer.process_touch_input(&touches(vec![touch(1, 102, 101)]), 50_150);
    assert_eq!(second.len(), 1);
    let tap = second[0];
    assert_eq!(tap.gesture_type, GestureType::Tap);
    assert_eq!(tap.confidence, 1000);
    assert!(tap.confidence > 500);
    assert_eq!(tap.start_position, Position { x: 100, y: 100 });
    assert_eq!(tap.end_position, Position { x: 102, y: 101 });
    assert_eq!(tap.duration, 150);
    assert_eq!(tap.velocity, Position { x: 13, y: 6 });
    assert_eq!(tap.properties, GestureProperties::Plain);
    assert_eq!(tap.timestamp, 50_150);
    assert_eq!(recognizer.active_count(), 0);
    assert_eq!(recognizer.get_gesture_history().len(), 1);
}

#[test]
fn a_long_fast_touch_is_a_swipe_with_a_direction() {
    let mut recognizer = GestureRecognizer::new();
    assert!(recognizer.process_touch_input(&touches(vec![touch(1, 50, 100)]), 1000).is_empty());
    let gestures = recognizer.process_touch_input(&touches(vec![touch(1, 200, 105)]), 1200);
    assert_eq!(gestures.len(), 1);
    assert_eq!(gestures[0].gesture_type, GestureType::Swipe);
    assert_eq!(gestures[0].properties, GestureProperties::Swipe { direction: 0 });
    assert_eq!(gestures[0].velocity, Position { x: 750, y: 25 });
    assert_eq!(gestures[0].duration, 200);
    assert_eq!(gestures[0].confidence, 1000);
}

#[test]
fn swipes_in_all_four_directions() {
    for (dx, dy, direction) in [(150, 0, 0u8), (0, 150, 1), (-150, 0, 2), (0, -150, 3)] {
        let mut recognizer = GestureRecognizer::new();
        recognizer.process_touch_input(&touches(vec![touch(7, 500, 500)]), 0);
        let gestures = recognizer.process_touch_input(&touches(vec![touch(7, 500 + dx, 500 + dy)]), 400);
        assert_eq!(gestures.len(), 1);
        assert_eq!(gestures[0].gesture_type, GestureType::Swipe);
        assert_eq!(gestures[0].properties, GestureProperties::Swipe { direction });
    }
}

#[test]
fn directions_are_cut_at_the_diagonals() {
    assert_eq!(angle_to_direction(10, 0), 0);
    assert_eq!(angle_to_direction(10, 9), 0);
    assert_eq!(angle_to_direction(10, -10), 0);
    assert_eq!(angle_to_direction(10, 10), 1);
    assert_eq!(angle_to_direction(0, 10), 1);
    assert_eq!(angle_to_direction(-9, 10), 1);
    assert_eq!(angle_to_direction(-10, 10), 2);
    assert_eq!(angle_to_direction(-10, 0), 2);
    assert_eq!(angle_to_direction(-10, -9), 2);
    assert_eq!(angle_to_direction(-10, -10), 3);
    assert_eq!(angle_to_direction(0, -10), 3);
    assert_eq!(angle_to_direction(9, -10), 3);
    assert_eq!(angle_to_direction(0, 0), 0);
}

#[test]
fn a_touch_that_is_too_quick_is_no_gesture_yet() {
    let mut recognizer = GestureRecognizer::new();
    recognizer.process_touch_input(&touches(vec![touch(1, 0, 0)]), 0);
    // 150 units in 10 milliseconds: under the shortest duration of every kind.
    assert!(recognizer.process_touch_input(&touches(vec![touch(1, 150, 0)]), 10).is_empty());
    assert_eq!(recognizer.active_count(), 1);
}

#[test]
fn narrow_kinds_come_before_broad_ones() {
    let mut resting = GestureRecognizer::new();
    resting.process_touch_input(&touches(vec![touch(1, 10, 10)]), 0);
    let held = resting.process_touch_input(&touches(vec![touch(1, 10, 10)]), 600);
    assert_eq!(held[0].gesture_type, GestureType::DoubleTap);
    let mut longer = GestureRecognizer::new();
    longer.process_touch_input(&touches(vec![touch(1, 10, 10)]), 0);
    let held = longer.process_touch_input(&touches(vec![touch(1, 10, 10)]), 700);
    assert_eq!(held[0].gesture_type, GestureType::LongPress);
    let mut dragging = GestureRecognizer::new();
    dragging.process_touch_input(&touches(vec![touch(1, 0, 0)]), 0);
    let dragged = dragging.process_touch_input(&touches(vec![touch(1, 0, 30)]), 1000);
    assert_eq!(dragged[0].gesture_type, GestureType::Pan);
    assert_eq!(dragged[0].properties, GestureProperties::Pan { total_distance: 30 });
}

#[test]
fn a_quick_short_touch_is_a_tap() {
    // Nine units in 60 milliseconds: 150 units per second.
    let mut flick = GestureRecognizer::new();
    flick.process_touch_input(&touches(vec![touch(1, 0, 0)]), 0);
    let flicked = flick.process_touch_input(&touches(vec![touch(1, 9, 0)]), 60);
    assert_eq!(flicked.len(), 1);
    assert_eq!(flicked[0].gesture_type, GestureType::Tap);
    assert_eq!(flicked[0].confidence, 1000);
    assert_eq!(flicked[0].velocity, Position { x: 150, y: 0 });
    // Ten units in 50 milliseconds, the shortest that a tap takes.
    let mut shortest = GestureRecognizer::new();
    shortest.process_touch_input(&touches(vec![touch(1, 0, 0)]), 1000);
    let tapped = shortest.process_touch_input(&touches(vec![touch(1, 6, 8)]), 1050);
    assert_eq!(tapped[0].gesture_type, GestureType::Tap);
}

#[test]
fn uneven_speed_lowers_the_confidence() {
    let mut recognizer = GestureRecognizer::new();
    recognizer.process_touch_input(&touches(vec![touch(1, 0, 0)]), 0);
    assert!(recognizer.process_touch_input(&touches(vec![touch(1, 1, 0)]), 20).is_empty());
    let gestures = recognizer.process_touch_input(&touches(vec![touch(1, 2, 0)]), 60);
    assert_eq!(gestures.len(), 1);
    assert_eq!(gestures[0].gesture_type, GestureType::Tap);
    // Speeds 50 and 25: mean 37, deviation 12, and 12 / 37 is 0.324.
    assert_eq!(gestures[0].confidence, 676);
    assert_eq!(gestures[0].velocity, Position { x: 37, y: 0 });
}

#[test]
fn two_touches_that_move_apart_are_a_pinch() {
    let mut recognizer = GestureRecognizer::new();
    let start = recognizer.process_touch_input(&touches(vec![touch(1, 0, 0), touch(2, 100, 0)]), 0);
    assert!(start.is_empty());
    let wider = recognizer.process_touch_input(&touches(vec![touch(1, 0, 0), touch(2, 120, 0)]), 50);
    assert_eq!(wider.len(), 1);
    assert_eq!(wider[0].gesture_type, GestureType::Pinch);
    assert_eq!(wider[0].confidence, 900);
    assert_eq!(wider[0].start_position, Position { x: 50, y: 0 });
    assert_eq!(wider[0].end_position, Position { x: 60, y: 0 });
    assert_eq!(wider[0].duration, 50);
    assert_eq!(wider[0].properties, GestureProperties::Pinch { scale: Some(1200), distance: 120 });
    // From 120 to 125 is less than a tenth.
    let same = recognizer.process_touch_input(&touches(vec![touch(1, 0, 0), touch(2, 125, 0)]), 100);
    assert!(same.is_empty());
    let narrower = recognizer.process_touch_input(&touches(vec![touch(1, 0, 0), touch(2, 100, 0)]), 150);
    assert_eq!(narrower[0].properties, GestureProperties::Pinch { scale: Some(800), distance: 100 });
    // Exactly a tenth more is not more than a tenth.
    let edge = recognizer.process_touch_input(&touches(vec![touch(1, 0, 0), touch(2, 110, 0)]), 200);
    assert!(edge.is_empty());
    assert_eq!(recognizer.active_count(), 1);
}

#[test]
fn three_touches_and_no_touch_do_nothing() {
    let mut recognizer = GestureRecognizer::new();
    let three = touches(vec![touch(1, 0, 0), touch(2, 10, 0), touch(3, 20, 0)]);
    assert!(recognizer.process_touch_input(&three, 0).is_empty());
    assert!(recognizer.process_touch_input(&touches(vec![]), 10).is_empty());
    assert_eq!(recognizer.active_count(), 0);
}

#[test]
fn stale_recognitions_are_dropped() {
    let mut recognizer = GestureRecognizer::new();
    recognizer.process_touch_input(&touches(vec![touch(1, 0, 0)]), 1000);
    recognizer.process_touch_input(&touches(vec![touch(2, 0, 0)]), 1800);
    recognizer.clear_completed_recognitions_at(2000);
    assert_eq!(recognizer.active_count(), 2);
    recognizer.clear_completed_recognitions_at(2001);
    assert_eq!(recognizer.active_count(), 1);
    recognizer.clear_completed_recognitions_at(2800);
    assert_eq!(recognizer.active_count(), 1);
    recognizer.clear_completed_recognitions_at(2801);
    assert_eq!(recognizer.active_count(), 0);
}

#[test]
fn the_history_keeps_the_last_hundred_gestures() {
    let mut recognizer = GestureRecognizer::new();
    for k in 0..105u64 {
        recognizer.process_touch_input(&touches(vec![touch(1, 0, 0)]), 1000 * k);
        let gestures = recognizer.process_touch_input(&touches(vec![touch(1, 1, 0)]), 1000 * k + 100);
        assert_eq!(gestures.len(), 1);
    }
    let history = recognizer.get_gesture_history();
    assert_eq!(history.len(), 100);
    assert_eq!(history[0].timestamp, 5100);
    assert_eq!(history[99].timestamp, 104_100);
}

#[test]
fn velocities_are_units_per_second() {
    let v = calculate_velocity(Position { x: 0, y: 0 }, 0, Position { x: 150, y: -30 }, 200);
    assert_eq!(v, Position { x: 750, y: -150 });
    assert_eq!(calculate_velocity(Position { x: 0, y: 0 }, 5, Position { x: 9, y: 9 }, 5), Position { x: 0, y: 0 });
    assert_eq!(calculate_velocity(Position { x: 0, y: 0 }, 9, Position { x: 9, y: 9 }, 5), Position { x: 0, y: 0 });
    let cut = calculate_velocity(Position { x: i32::MIN, y: 0 }, 0, Position { x: i32::MAX, y: 0 }, 1);
    assert_eq!(cut, Position { x: i32::MAX, y: 0 });
    assert_eq!(calculate_speed(Position { x: 3, y: -4 }), 5);
    assert_eq!(calculate_speed(Position { x: 750, y: 25 }), 750);
    assert_eq!(calculate_speed(Position { x: i32::MIN, y: i32::MIN }), 3_037_000_499);
}

#[test]
fn the_measures_of_a_run() {
    let run = vec![sample(0, 0, 0), sample(100, 30, 40), sample(100, 35, 40), sample(300, 35, 100)];
    // Pairs: 50 units in 0.1 s; no time; 60 units in 0.2 s.
    assert_eq!(calculate_average_speed(&run), 400);
    assert_eq!(calculate_average_velocity(&run), Position { x: 150, y: 350 });
    assert_eq!(calculate_total_path_distance(&run), 115);
    // Speeds 500 and 300: deviation 100 over a mean of 400.
    assert_eq!(calculate_velocity_variance(&run), 250);
    assert_eq!(calculate_confidence(&run), 750);
    let short = vec![sample(0, 0, 0), sample(100, 30, 40)];
    assert_eq!(calculate_velocity_variance(&short), 0);
    assert_eq!(calculate_confidence(&short), 1000);
    assert_eq!(calculate_average_speed(&Vec::new()), 0);
    assert_eq!(calculate_total_path_distance(&vec![sample(0, 1, 1)]), 0);
}

#[test]
fn configurations_admit_runs_within_their_bounds() {
    let config = GestureConfig {
        min_distance: 10,
        max_distance: Some(20),
        min_duration: 100,
        max_duration: None,
        min_velocity: 5,
        max_velocity: Some(50),
        angle_tolerance: 0,
        scale_threshold: 0,
        rotation_threshold: 0,
    };
    assert!(matches_gesture_config(&config, 100, 100, 5));
    assert!(matches_gesture_config(&config, 400, u64::MAX, 50));
    assert!(!matches_gesture_config(&config, 99, 100, 5));
    assert!(!matches_gesture_config(&config, 401, 100, 5));
    assert!(!matches_gesture_config(&config, 100, 99, 5));
    assert!(!matches_gesture_config(&config, 100, 100, 4));
    assert!(!matches_gesture_config(&config, 100, 100, 51));
    let configs = vec![
        ConfiguredGesture { gesture_type: GestureType::Rotate, config },
        ConfiguredGesture { gesture_type: GestureType::Pan, config: GestureConfig { min_distance: 0, ..config } },
    ];
    assert_eq!(classify_motion(&configs, 100, 100, 5), Some(GestureType::Rotate));
    assert_eq!(classify_motion(&configs, 0, 100, 5), Some(GestureType::Pan));
    assert_eq!(classify_motion(&configs, 0, 1, 5), None);
    let done = check_gesture_completion(&configs, 0, &vec![sample(0, 0, 0), sample(1000, 12, 0)], 1000).unwrap();
    assert_eq!(done.gesture_type, GestureType::Rotate);
    assert_eq!(done.duration, 1000);
    assert!(check_gesture_completion(&configs, 0, &vec![sample(0, 0, 0)], 1000).is_none());
}
