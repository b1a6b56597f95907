use interactive_engine::animation::AnimationType;
use interactive_engine::changes::ElementType;
use interactive_engine::document::DataSourceType;
use interactive_engine::error::WASMError;
use interactive_engine::kinds::{EventFamily, InteractionType};
use interactive_engine::properties::{
    copy_properties, find_property, flag_property, fraction_property, number_of, number_property,
    same_text, starts_with,
    text_after, text_property, Property, PropertyValue,
};
use interactive_engine::text::{append_decimal, list_contains, make_numbered_name};

#[test]
fn numbered_names_are_written_in_decimal() {
    assert_eq!(make_numbered_name("element_", 0), "element_0");
    assert_eq!(make_numbered_name("element_", 7), "element_7");
    assert_eq!(make_numbered_name("anim_", 10), "anim_10");
    assert_eq!(make_numbered_name("", 9075), "9075");
    assert_eq!(make_numbered_name("n", u64::MAX), "n18446744073709551615");
}

#[test]
fn decimal_numerals_are_appended() {
    let mut text = String::from("x=");
    append_decimal(&mut text, 120);
    append_decimal(&mut text, 3);
    assert_eq!(text, "x=1203");
}

#[test]
fn lists_of_names_are_searched_for_whole_names() {
    let list = vec!["Click".to_string(), "KeyDown".to_string()];
    assert!(list_contains(&list, &"Click".to_string()));
    assert!(list_contains(&list, &"KeyDown".to_string()));
    assert!(!list_contains(&list, &"Key".to_string()));
    assert!(!list_contains(&Vec::new(), &"Click".to_string()));
}

#[test]
fn kinds_have_their_names_and_families() {
    assert_eq!(InteractionType::Click.name(), "Click");
    assert_eq!(InteractionType::TouchCancel.name(), "TouchCancel");
    assert_eq!(InteractionType::StateChange.name(), "StateChange");
    assert_eq!(InteractionType::MouseMove.family(), EventFamily::Mouse);
    assert_eq!(InteractionType::DoubleClick.family(), EventFamily::Click);
    assert_eq!(InteractionType::TouchCancel.family(), EventFamily::Touch);
    assert_eq!(InteractionType::KeyPress.family(), EventFamily::Keyboard);
    assert_eq!(InteractionType::Pinch.family(), EventFamily::Gesture);
    assert_eq!(InteractionType::Wheel.family(), EventFamily::Scroll);
    assert_eq!(InteractionType::Blur.family(), EventFamily::Focus);
    assert_eq!(InteractionType::Resize.family(), EventFamily::Resize);
    assert_eq!(InteractionType::Hover.family(), EventFamily::Other);
    assert_eq!(InteractionType::DragStart.family(), EventFamily::Other);
    assert!(InteractionType::Scroll.high_frequency());
    assert!(InteractionType::TouchMove.high_frequency());
    assert!(!InteractionType::TouchStart.high_frequency());
}

#[test]
fn errors_carry_code_and_message() {
    let error = WASMError::new("INVALID_DATA", "Failed to parse data");
    assert_eq!(error.code, "INVALID_DATA");
    assert_eq!(error.message, "Failed to parse data");
    assert_eq!(error.describe(), "INVALID_DATA: Failed to parse data");
}

#[test]
fn element_kinds_have_their_tags() {
    assert_eq!(ElementType::Chart.to_tag(), "div");
    assert_eq!(ElementType::Animation.to_tag(), "div");
    assert_eq!(ElementType::Interactive.to_tag(), "div");
    assert_eq!(ElementType::Vector.to_tag(), "svg");
    assert_eq!(ElementType::Text.to_tag(), "span");
    assert_eq!(ElementType::Image.to_tag(), "img");
    assert_eq!(ElementType::Container.to_tag(), "div");
}

#[test]
fn prefixes_are_told_and_cut_off() {
    assert!(starts_with("style.opacity", "style."));
    assert!(starts_with("style.", "style."));
    assert!(!starts_with("style", "style."));
    assert!(!starts_with("textContent", "style."));
    assert!(starts_with("anything", ""));
    assert_eq!(text_after("style.opacity", 6), "opacity");
    assert_eq!(text_after("style.", 6), "");
    assert_eq!(text_after("größe", 2), "öße");
}

#[test]
fn properties_are_found_by_their_first_name() {
    let properties = vec![
        number_property("x", 1),
        text_property("label", "a"),
        flag_property("x", true),
    ];
    assert_eq!(find_property(&properties, &"x".to_string()), 0);
    assert_eq!(find_property(&properties, &"label".to_string()), 1);
    assert_eq!(find_property(&properties, &"y".to_string()), 3);
    let copy = copy_properties(&properties);
    assert_eq!(copy.len(), 3);
    assert!(matches!(&copy[1], Property { name, value: PropertyValue::Text(t) } if name == "label" && t == "a"));
    assert!(matches!(&copy[2], Property { name, value: PropertyValue::Flag(true) } if name == "x"));
}

#[test]
fn large_counts_are_cut_off_as_numbers() {
    assert_eq!(number_of(0), 0);
    assert_eq!(number_of(i64::MAX as u64), i64::MAX);
    assert_eq!(number_of(u64::MAX), i64::MAX);
}

#[test]
fn the_names_of_the_host_are_understood() {
    assert_eq!(InteractionType::from_host_name("click"), Some(InteractionType::Click));
    assert_eq!(InteractionType::from_host_name("doubleclick"), Some(InteractionType::DoubleClick));
    assert_eq!(InteractionType::from_host_name("touchend"), Some(InteractionType::TouchEnd));
    assert_eq!(InteractionType::from_host_name("wheel"), Some(InteractionType::Wheel));
    assert_eq!(InteractionType::from_host_name("blur"), Some(InteractionType::Blur));
    assert_eq!(InteractionType::from_host_name("Click"), None);
    assert_eq!(InteractionType::from_host_name("clic"), None);
    assert_eq!(InteractionType::from_host_name("clicks"), None);
    assert_eq!(InteractionType::from_host_name(""), None);
    assert_eq!(ElementType::from_host_name("vector"), Some(ElementType::Vector));
    assert_eq!(ElementType::from_host_name("container"), Some(ElementType::Container));
    assert_eq!(ElementType::from_host_name("table"), None);
    assert_eq!(AnimationType::from_host_name("morph"), Some(AnimationType::Morph));
    assert_eq!(AnimationType::from_host_name("fade"), None);
    assert_eq!(DataSourceType::from_host_name("stream"), Some(DataSourceType::Stream));
    assert_eq!(DataSourceType::from_host_name("live"), None);
    assert!(same_text("größe", "größe"));
    assert!(!same_text("größe", "grösse"));
    assert!(!same_text("a", "ab"));
    assert!(!same_text("ab", "a"));
}

#[test]
fn property_numbers_count_thousandths() {
    assert!(matches!(number_property("x", 12).value, PropertyValue::Number(12_000)));
    assert!(matches!(number_property("x", -3).value, PropertyValue::Number(-3_000)));
    assert!(matches!(number_property("x", 0).value, PropertyValue::Number(0)));
    assert!(matches!(number_property("x", i64::MAX).value, PropertyValue::Number(i64::MAX)));
    assert!(matches!(number_property("x", i64::MIN).value, PropertyValue::Number(i64::MIN)));
    assert!(matches!(
        number_property("x", i64::MAX / 1000).value,
        PropertyValue::Number(9_223_372_036_854_775_000)
    ));
    assert!(matches!(fraction_property("opacity", 500).value, PropertyValue::Number(500)));
    assert_eq!(fraction_property("opacity", 500).name, "opacity");
}
