//! Tuning of input handling to the device that shows the document.
//!
//! The adapter classifies the device by the diagonal of the viewport, keeps
//! three tables of tuning constants that follow from the class, and rewrites
//! the fields of incoming events with them. Sensitivities and scale factors
//! are thousandths; sizes and distances are layout units.

use crate::clock::get_current_timestamp;
use crate::error::WASMError;
use crate::events::{
    DeliveryHints, InteractionEvent, MouseData, Position, Size, TouchData, TouchPoint, Viewport,
};
use crate::kinds::{is_high_frequency, InteractionType};
use crate::numeric::{clamp_int, saturate_i32, scale_by_milli, scale_value};
use vstd::prelude::*;

verus! {

/// The classes of device.
#[derive(Clone, Copy, Debug, PartialEq, Eq, Structural)]
pub enum DeviceType {
    Desktop,
    Tablet,
    Mobile,
    TV,
    Watch,
    Unknown,
}

/// What is known of the device.
#[derive(Clone, Copy, Debug, PartialEq, Eq, Structural)]
pub struct DeviceInfo {
    pub device_type: DeviceType,
    pub screen_size: Size,
    /// Device pixels per layout unit, in thousandths.
    pub pixel_density: u32,
    pub touch_support: bool,
    pub mouse_support: bool,
    pub keyboard_support: bool,
    pub max_touch_points: u32,
    pub has_force_touch: bool,
    pub has_hover_support: bool,
}

/// Sizes, timeouts and sensitivities of input handling.
#[derive(Clone, Copy, Debug, PartialEq, Eq, Structural)]
pub struct InteractionSettings {
    pub touch_target_size: u32,
    pub tap_timeout: u32,
    pub double_tap_timeout: u32,
    pub long_press_timeout: u32,
    pub drag_threshold: u32,
    pub scroll_sensitivity: u32,
    pub gesture_sensitivity: u32,
    pub hover_delay: u32,
}

/// How often and in what way events are delivered.
#[derive(Clone, Copy, Debug, PartialEq, Eq, Structural)]
pub struct PerformanceProfile {
    pub target_fps: u32,
    /// Events of a high-frequency kind per second.
    pub max_event_frequency: u32,
    pub throttle_threshold: u32,
    pub batch_events: bool,
    pub use_passive_listeners: bool,
    pub debounce_scroll: bool,
    pub optimize_animations: bool,
}

/// Bounds and factors that event fields are rewritten with.
#[derive(Clone, Copy, Debug, PartialEq, Eq, Structural)]
pub struct AdaptiveThresholds {
    pub min_touch_target: u32,
    pub max_touch_target: u32,
    pub min_drag_distance: u32,
    pub max_drag_distance: u32,
    pub velocity_scaling: u32,
    pub pressure_sensitivity: u32,
}

/// The device that is assumed until one is detected: a desktop.
pub open spec fn default_device() -> DeviceInfo {
    DeviceInfo {
        device_type: DeviceType::Desktop,
        screen_size: Size { width: 1920, height: 1080 },
        pixel_density: 1000,
        touch_support: false,
        mouse_support: true,
        keyboard_support: true,
        max_touch_points: 0,
        has_force_touch: false,
        has_hover_support: true,
    }
}

/// The settings that an adapter starts with.
pub open spec fn default_settings() -> InteractionSettings {
    InteractionSettings {
        touch_target_size: 44,
        tap_timeout: 300,
        double_tap_timeout: 500,
        long_press_timeout: 500,
        drag_threshold: 10,
        scroll_sensitivity: 1000,
        gesture_sensitivity: 1000,
        hover_delay: 200,
    }
}

/// The delivery profile that an adapter starts with.
pub open spec fn default_profile() -> PerformanceProfile {
    PerformanceProfile {
        target_fps: 60,
        max_event_frequency: 120,
        throttle_threshold: 100,
        batch_events: false,
        use_passive_listeners: false,
        debounce_scroll: false,
        optimize_animations: false,
    }
}

/// The thresholds that an adapter starts with.
pub open spec fn default_thresholds() -> AdaptiveThresholds {
    AdaptiveThresholds {
        min_touch_target: 32,
        max_touch_target: 64,
        min_drag_distance: 5,
        max_drag_distance: 50,
        velocity_scaling: 1000,
        pressure_sensitivity: 1000,
    }
}

/// The class of a device by the diagonal of its viewport: under 600 units a
/// phone, under 1200 a tablet, otherwise a desktop.
pub open spec fn classify_viewport(width: int, height: int) -> DeviceType {
    if width * width + height * height < 600 * 600 {
        DeviceType::Mobile
    } else if width * width + height * height < 1200 * 1200 {
        DeviceType::Tablet
    } else {
        DeviceType::Desktop
    }
}

/// The settings for a class of device; a class without settings of its own
/// has the settings that an adapter starts with.
pub open spec fn settings_for(device: DeviceType) -> InteractionSettings {
    match device {
        DeviceType::Mobile => InteractionSettings {
            touch_target_size: 44,
            tap_timeout: 300,
            double_tap_timeout: 500,
            long_press_timeout: 500,
            drag_threshold: 10,
            scroll_sensitivity: 1000,
            gesture_sensitivity: 1000,
            hover_delay: 0,
        },
        DeviceType::Tablet => InteractionSettings {
            touch_target_size: 48,
            tap_timeout: 250,
            double_tap_timeout: 400,
            long_press_timeout: 600,
            drag_threshold: 8,
            scroll_sensitivity: 800,
            gesture_sensitivity: 1200,
            hover_delay: 100,
        },
        DeviceType::Desktop => InteractionSettings {
            touch_target_size: 32,
            tap_timeout: 200,
            double_tap_timeout: 300,
            long_press_timeout: 800,
            drag_threshold: 5,
            scroll_sensitivity: 600,
            gesture_sensitivity: 800,
            hover_delay: 200,
        },
        _ => default_settings(),
    }
}

/// The delivery profile for a class of device; a class without a profile of
/// its own has the profile that an adapter starts with.
pub open spec fn profile_for(device: DeviceType) -> PerformanceProfile {
    match device {
        DeviceType::Mobile => PerformanceProfile {
            target_fps: 60,
            max_event_frequency: 120,
            throttle_threshold: 100,
            batch_events: true,
            use_passive_listeners: true,
            debounce_scroll: true,
            optimize_animations: true,
        },
        DeviceType::Tablet => PerformanceProfile {
            target_fps: 60,
            max_event_frequency: 144,
            throttle_threshold: 80,
            batch_events: true,
            use_passive_listeners: true,
            debounce_scroll: false,
            optimize_animations: false,
        },
        DeviceType::Desktop => PerformanceProfile {
            target_fps: 120,
            max_event_frequency: 240,
            throttle_threshold: 60,
            batch_events: false,
            use_passive_listeners: false,
            debounce_scroll: false,
            optimize_animations: false,
        },
        _ => default_profile(),
    }
}

/// `amount * thousandths * density / 1000000`, cut off at the top of `u32`.
pub open spec fn density_scaled(amount: int, thousandths: int, density: int) -> int {
    clamp_int(amount * thousandths * density / 1_000_000, 0, u32::MAX as int)
}

/// The thresholds that follow from a device and its settings: touch targets
/// from 0.8 to 1.5 times the target size and drags from 1 to 10 times the
/// drag threshold, both scaled by the pixel density; a velocity factor by
/// class; and pressure only where the device senses force.
pub open spec fn thresholds_for(device: DeviceInfo, settings: InteractionSettings) -> AdaptiveThresholds {
    AdaptiveThresholds {
        min_touch_target: density_scaled(
            settings.touch_target_size as int,
            800,
            device.pixel_density as int,
        ) as u32,
        max_touch_target: density_scaled(
            settings.touch_target_size as int,
            1500,
            device.pixel_density as int,
        ) as u32,
        min_drag_distance: density_scaled(
            settings.drag_threshold as int,
            1000,
            device.pixel_density as int,
        ) as u32,
        max_drag_distance: density_scaled(
            settings.drag_threshold as int,
            10_000,
            device.pixel_density as int,
        ) as u32,
        velocity_scaling: match device.device_type {
            DeviceType::Mobile => 1200,
            DeviceType::Tablet => 1000,
            DeviceType::Desktop => 800,
            _ => 1000,
        },
        pressure_sensitivity: if device.has_force_touch {
            1000
        } else {
            0
        },
    }
}

/// A coordinate multiplied by `factor` thousandths, rounded toward zero and
/// cut off at the ends of `i32`.
pub open spec fn scaled_coordinate(value: i32, factor: u32) -> i32 {
    clamp_int(scale_by_milli(value as int, factor as int), i32::MIN as int, i32::MAX as int) as i32
}

/// A displacement with both coordinates multiplied by `factor` thousandths.
pub open spec fn scaled_position(value: Position, factor: u32) -> Position {
    Position { x: scaled_coordinate(value.x, factor), y: scaled_coordinate(value.y, factor) }
}

/// A displacement, if there is one, with both coordinates multiplied by
/// `factor` thousandths.
pub open spec fn scaled_optional(value: Option<Position>, factor: u32) -> Option<Position> {
    match value {
        Some(p) => Some(scaled_position(p, factor)),
        None => None,
    }
}

/// A radius held between the smallest and the largest touch target; where
/// the two bounds cross, the largest wins.
pub open spec fn bounded_radius(radius: u32, thresholds: AdaptiveThresholds) -> u32 {
    let raised = if radius < thresholds.min_touch_target {
        thresholds.min_touch_target
    } else {
        radius
    };
    if raised > thresholds.max_touch_target {
        thresholds.max_touch_target
    } else {
        raised
    }
}

/// A force multiplied by the pressure sensitivity.
pub open spec fn scaled_force(force: u32, thresholds: AdaptiveThresholds) -> u32 {
    clamp_int(force * thresholds.pressure_sensitivity / 1000, 0, u32::MAX as int) as u32
}

/// A pinch scale whose distance from 1 is multiplied by the velocity
/// factor, held in the range of `u32`.
pub open spec fn adapted_scale(scale: u32, thresholds: AdaptiveThresholds) -> u32 {
    clamp_int(
        1000 + scale_by_milli(scale - 1000, thresholds.velocity_scaling as int),
        0,
        u32::MAX as int,
    ) as u32
}

/// A touch with its radius bounded and its force scaled.
pub open spec fn adapted_touch(touch: TouchPoint, thresholds: AdaptiveThresholds) -> TouchPoint {
    TouchPoint {
        identifier: touch.identifier,
        position: touch.position,
        radius: match touch.radius {
            Some(r) => Some(bounded_radius(r, thresholds)),
            None => None,
        },
        rotation_angle: touch.rotation_angle,
        force: match touch.force {
            Some(f) => Some(scaled_force(f, thresholds)),
            None => None,
        },
    }
}

/// Whether the touches of events of kind `kind` are adapted.
pub open spec fn adapts_touches(kind: InteractionType) -> bool {
    kind == InteractionType::TouchStart || kind == InteractionType::TouchMove || kind
        == InteractionType::TouchEnd
}

/// Whether the pointer data of events of kind `kind` is adapted.
pub open spec fn adapts_pointer(kind: InteractionType) -> bool {
    kind == InteractionType::MouseMove || kind == InteractionType::MouseDown || kind
        == InteractionType::MouseUp
}

/// Whether the scroll distance of events of kind `kind` is adapted.
pub open spec fn adapts_scroll(kind: InteractionType) -> bool {
    kind == InteractionType::Scroll || kind == InteractionType::Wheel
}

/// Pointer data with its movement multiplied by the velocity factor and its
/// wheel distance by the scroll sensitivity.
pub open spec fn adapted_mouse(
    mouse: MouseData,
    thresholds: AdaptiveThresholds,
    settings: InteractionSettings,
) -> MouseData {
    MouseData {
        button: mouse.button,
        buttons: mouse.buttons,
        position: mouse.position,
        movement: scaled_optional(mouse.movement, thresholds.velocity_scaling),
        wheel_delta: scaled_optional(mouse.wheel_delta, settings.scroll_sensitivity),
    }
}

/// Whether `after` is the touch data `before` adapted: every touch on the
/// surface has its radius bounded and its force scaled, the pinch scale is
/// adapted, and nothing else differs.
pub open spec fn touch_data_adapted(
    before: TouchData,
    after: TouchData,
    thresholds: AdaptiveThresholds,
) -> bool {
    &&& after.touches@ == before.touches@.map_values(
        |t: TouchPoint| adapted_touch(t, thresholds),
    )
    &&& after.changed_touches == before.changed_touches
    &&& after.target_touches == before.target_touches
    &&& after.force == before.force
    &&& after.rotation_angle == before.rotation_angle
    &&& after.scale == match before.scale {
        Some(s) => Some(adapted_scale(s, thresholds)),
        None => None,
    }
}

/// The shortest time between two events of a high-frequency kind, in
/// microseconds; a frequency of zero admits none.
pub open spec fn throttle_interval(frequency: u32) -> u32 {
    if frequency == 0 {
        u32::MAX
    } else {
        (1_000_000int / frequency as int) as u32
    }
}

/// Whether an event of kind `kind` at `now` comes too soon after one at
/// `last`: only high-frequency kinds do, when less than a second divided by
/// `frequency` has passed.
pub open spec fn throttled(kind: InteractionType, last: u64, now: u64, frequency: u32) -> bool {
    is_high_frequency(kind) && (frequency == 0 || (now - last) * frequency < 1000)
}

impl Default for DeviceInfo {
    fn default() -> (r: Self)
        ensures
            r == default_device(),
    {
        DeviceInfo {
            device_type: DeviceType::Desktop,
            screen_size: Size { width: 1920, height: 1080 },
            pixel_density: 1000,
            touch_support: false,
            mouse_support: true,
            keyboard_support: true,
            max_touch_points: 0,
            has_force_touch: false,
            has_hover_support: true,
        }
    }
}

impl Default for InteractionSettings {
    fn default() -> (r: Self)
        ensures
            r == default_settings(),
    {
        InteractionSettings {
            touch_target_size: 44,
            tap_timeout: 300,
            double_tap_timeout: 500,
            long_press_timeout: 500,
            drag_threshold: 10,
            scroll_sensitivity: 1000,
            gesture_sensitivity: 1000,
            hover_delay: 200,
        }
    }
}

impl Default for PerformanceProfile {
    fn default() -> (r: Self)
        ensures
            r == default_profile(),
    {
        PerformanceProfile {
            target_fps: 60,
            max_event_frequency: 120,
            throttle_threshold: 100,
            batch_events: false,
            use_passive_listeners: false,
            debounce_scroll: false,
            optimize_animations: false,
        }
    }
}

impl Default for AdaptiveThresholds {
    fn default() -> (r: Self)
        ensures
            r == default_thresholds(),
    {
        AdaptiveThresholds {
            min_touch_target: 32,
            max_touch_target: 64,
            min_drag_distance: 5,
            max_drag_distance: 50,
            velocity_scaling: 1000,
            pressure_sensitivity: 1000,
        }
    }
}

/// Computes `amount * thousandths * density / 1000000`, cut off at the top
/// of `u32`.
fn scale_by_density(amount: u32, thousandths: u32, density: u32) -> (r: u32)
    requires
        thousandths <= 10_000,
    ensures
        r == density_scaled(amount as int, thousandths as int, density as int),
{
    assert((amount as u128) * (thousandths as u128) <= 0x1_0000_0000 * 10_000)
        by (nonlinear_arith)
        requires
            amount <= 0x1_0000_0000,
            thousandths <= 10_000,
    ;
    let first: u128 = (amount as u128) * (thousandths as u128);
    assert(first * (density as u128) <= 0x1_0000_0000 * 10_000 * 0x1_0000_0000)
        by (nonlinear_arith)
        requires
            first <= 0x1_0000_0000 * 10_000,
            density <= 0x1_0000_0000,
    ;
    let scaled: u128 = first * (density as u128) / 1_000_000;
    if scaled > u32::MAX as u128 {
        u32::MAX
    } else {
        scaled as u32
    }
}

/// Multiplies a coordinate by `factor` thousandths.
fn scale_coordinate(value: i32, factor: u32) -> (r: i32)
    ensures
        r == scaled_coordinate(value, factor),
{
    saturate_i32(scale_value(value as i64, factor))
}

/// Multiplies both coordinates of an optional displacement by `factor`
/// thousandths.
fn scale_optional(value: Option<Position>, factor: u32) -> (r: Option<Position>)
    ensures
        r == scaled_optional(value, factor),
{
    match value {
        Some(p) => Some(
            Position { x: scale_coordinate(p.x, factor), y: scale_coordinate(p.y, factor) },
        ),
        None => None,
    }
}

/// Adapts one touch.
fn adapt_touch(touch: TouchPoint, thresholds: &AdaptiveThresholds) -> (r: TouchPoint)
    ensures
        r == adapted_touch(touch, *thresholds),
{
    let radius = match touch.radius {
        Some(r) => {
            let raised = if r < thresholds.min_touch_target {
                thresholds.min_touch_target
            } else {
                r
            };
            Some(
                if raised > thresholds.max_touch_target {
                    thresholds.max_touch_target
                } else {
                    raised
                },
            )
        },
        None => None,
    };
    let force = match touch.force {
        Some(f) => {
            assert((f as u64) * (thresholds.pressure_sensitivity as u64) <= 0xffff_ffff
                * 0xffff_ffff) by (nonlinear_arith)
                requires
                    f <= 0xffff_ffff,
                    thresholds.pressure_sensitivity <= 0xffff_ffff,
            ;
            let product: u64 = (f as u64) * (thresholds.pressure_sensitivity as u64);
            let scaled: u64 = product / 1000;
            Some(
                if scaled > u32::MAX as u64 {
                    u32::MAX
                } else {
                    scaled as u32
                },
            )
        },
        None => None,
    };
    TouchPoint {
        identifier: touch.identifier,
        position: touch.position,
        radius,
        rotation_angle: touch.rotation_angle,
        force,
    }
}

/// Adapts a pinch scale.
fn adapt_scale(scale: u32, thresholds: &AdaptiveThresholds) -> (r: u32)
    ensures
        r == adapted_scale(scale, *thresholds),
{
    let away: i64 = scale as i64 - 1000;
    let moved: i128 = 1000 + scale_value(away, thresholds.velocity_scaling);
    if moved < 0 {
        0
    } else if moved > u32::MAX as i128 {
        u32::MAX
    } else {
        moved as u32
    }
}

/// Whether `after` is the event `before` adapted to a device with the
/// given hints, thresholds and settings: the kind, the target, the position
/// and the time are those of `before`; the hints are attached; the pointer
/// data, the scroll distance and the touches are rewritten where the kind of
/// the event calls for it.
pub open spec fn event_adapted(
    before: InteractionEvent,
    after: InteractionEvent,
    hints: DeliveryHints,
    thresholds: AdaptiveThresholds,
    settings: InteractionSettings,
) -> bool {
    &&& after.event_type == before.event_type
    &&& after.target_element == before.target_element
    &&& after.position == before.position
    &&& after.timestamp == before.timestamp
    &&& after.keyboard_data == before.keyboard_data
    &&& after.gesture_data == before.gesture_data
    &&& after.viewport_size == before.viewport_size
    &&& after.modifiers == before.modifiers
    &&& after.hints == Some(hints)
    &&& after.mouse_data == if adapts_pointer(before.event_type) {
        match before.mouse_data {
            Some(m) => Some(adapted_mouse(m, thresholds, settings)),
            None => None,
        }
    } else {
        before.mouse_data
    }
    &&& after.scroll_delta == if adapts_scroll(before.event_type) {
        scaled_optional(before.scroll_delta, settings.scroll_sensitivity)
    } else {
        before.scroll_delta
    }
    &&& (before.touch_data is None ==> after.touch_data is None)
    &&& (before.touch_data is Some && !adapts_touches(before.event_type) ==> after.touch_data
        == before.touch_data)
    &&& (before.touch_data is Some && adapts_touches(before.event_type) ==> after.touch_data
        is Some && touch_data_adapted(
        before.touch_data->Some_0,
        after.touch_data->Some_0,
        thresholds,
    ))
}

/// The device after its class is read off a viewport of `width` by
/// `height`.
pub open spec fn detected_device(device: DeviceInfo, width: u32, height: u32) -> DeviceInfo {
    DeviceInfo {
        device_type: classify_viewport(width as int, height as int),
        screen_size: Size { width, height },
        ..device
    }
}

/// The tuning of input handling to one device.
pub struct ResponsiveAdapter {
    device_info: DeviceInfo,
    interaction_settings: InteractionSettings,
    performance_profile: PerformanceProfile,
    adaptive_thresholds: AdaptiveThresholds,
}

impl ResponsiveAdapter {
    /// What is known of the device.
    pub closed spec fn device(&self) -> DeviceInfo {
        self.device_info
    }

    /// The settings in force.
    pub closed spec fn settings(&self) -> InteractionSettings {
        self.interaction_settings
    }

    /// The delivery profile in force.
    pub closed spec fn profile(&self) -> PerformanceProfile {
        self.performance_profile
    }

    /// The thresholds in force.
    pub closed spec fn thresholds(&self) -> AdaptiveThresholds {
        self.adaptive_thresholds
    }

    /// The delivery hints that every adapted event carries.
    pub open spec fn delivery_hints(&self) -> DeliveryHints {
        DeliveryHints {
            throttle_threshold: throttle_interval(self.profile().max_event_frequency),
            batch_events: self.profile().batch_events,
            use_passive: self.profile().use_passive_listeners,
        }
    }

    /// An adapter for the default device with the default tables.
    pub fn new() -> (r: Self)
        ensures
            r.device() == default_device(),
            r.settings() == default_settings(),
            r.profile() == default_profile(),
            r.thresholds() == default_thresholds(),
    {
        ResponsiveAdapter {
            device_info: DeviceInfo::default(),
            interaction_settings: InteractionSettings::default(),
            performance_profile: PerformanceProfile::default(),
            adaptive_thresholds: AdaptiveThresholds::default(),
        }
    }

    /// Classifies the device by the viewport and computes all three tables
    /// anew.
    pub fn initialize_device_detection(&mut self, viewport: &Viewport) -> (r: Result<(), WASMError>)
        ensures
            r is Ok,
            final(self).device() == (DeviceInfo {
                device_type: classify_viewport(viewport.width as int, viewport.height as int),
                screen_size: Size { width: viewport.width, height: viewport.height },
                ..old(self).device()
            }),
            final(self).settings() == settings_for(final(self).device().device_type),
            final(self).profile() == profile_for(final(self).device().device_type),
            final(self).thresholds() == thresholds_for(final(self).device(), final(self).settings()),
    {
        self.device_info.screen_size = Size { width: viewport.width, height: viewport.height };
        let w: u64 = viewport.width as u64;
        let h: u64 = viewport.height as u64;
        // Squares of sides that reach 1200 are taken as 1200 squared: every
        // such viewport is a desktop.
        let diagonal_sq: u64 = if w >= 1200 || h >= 1200 {
            assert(w * w + h * h >= 1200 * 1200) by (nonlinear_arith)
                requires
                    w >= 1200 || h >= 1200,
                    w >= 0,
                    h >= 0,
            ;
            1200 * 1200
        } else {
            assert(w * w + h * h < 2 * 1200 * 1200) by (nonlinear_arith)
                requires
                    0 <= w < 1200,
                    0 <= h < 1200,
            ;
            w * w + h * h
        };
        self.device_info.device_type = if diagonal_sq < 600 * 600 {
            DeviceType::Mobile
        } else if diagonal_sq < 1200 * 1200 {
            DeviceType::Tablet
        } else {
            DeviceType::Desktop
        };
        self.adapt_interaction_settings();
        self.adapt_performance_profile();
        self.adapt_thresholds();
        Ok(())
    }

    /// Sets the settings that belong to the class of the device.
    fn adapt_interaction_settings(&mut self)
        ensures
            final(self).device() == old(self).device(),
            final(self).profile() == old(self).profile(),
            final(self).thresholds() == old(self).thresholds(),
            final(self).settings() == settings_for(old(self).device().device_type),
    {
        match self.device_info.device_type {
            DeviceType::Mobile => {
                self.interaction_settings = InteractionSettings {
                    touch_target_size: 44,
                    tap_timeout: 300,
                    double_tap_timeout: 500,
                    long_press_timeout: 500,
                    drag_threshold: 10,
                    scroll_sensitivity: 1000,
                    gesture_sensitivity: 1000,
                    hover_delay: 0,
                };
            },
            DeviceType::Tablet => {
                self.interaction_settings = InteractionSettings {
                    touch_target_size: 48,
                    tap_timeout: 250,
                    double_tap_timeout: 400,
                    long_press_timeout: 600,
                    drag_threshold: 8,
                    scroll_sensitivity: 800,
                    gesture_sensitivity: 1200,
                    hover_delay: 100,
                };
            },
            DeviceType::Desktop => {
                self.interaction_settings = InteractionSettings {
                    touch_target_size: 32,
                    tap_timeout: 200,
                    double_tap_timeout: 300,
                    long_press_timeout: 800,
                    drag_threshold: 5,
                    scroll_sensitivity: 600,
                    gesture_sensitivity: 800,
                    hover_delay: 200,
                };
            },
            _ => {
                self.interaction_settings = InteractionSettings::default();
            },
        }
    }

    /// Sets the delivery profile that belongs to the class of the device.
    fn adapt_performance_profile(&mut self)
        ensures
            final(self).device() == old(self).device(),
            final(self).settings() == old(self).settings(),
            final(self).thresholds() == old(self).thresholds(),
            final(self).profile() == profile_for(old(self).device().device_type),
    {
        match self.device_info.device_type {
            DeviceType::Mobile => {
                self.performance_profile = PerformanceProfile {
                    target_fps: 60,
                    max_event_frequency: 120,
                    throttle_threshold: 100,
                    batch_events: true,
                    use_passive_listeners: true,
                    debounce_scroll: true,
                    optimize_animations: true,
                };
            },
            DeviceType::Tablet => {
                self.performance_profile = PerformanceProfile {
                    target_fps: 60,
                    max_event_frequency: 144,
                    throttle_threshold: 80,
                    batch_events: true,
                    use_passive_listeners: true,
                    debounce_scroll: false,
                    optimize_animations: false,
                };
            },
            DeviceType::Desktop => {
                self.performance_profile = PerformanceProfile {
                    target_fps: 120,
                    max_event_frequency: 240,
                    throttle_threshold: 60,
                    batch_events: false,
                    use_passive_listeners: false,
                    debounce_scroll: false,
                    optimize_animations: false,
                };
            },
            _ => {
                self.performance_profile = PerformanceProfile::default();
            },
        }
    }

    /// Computes the thresholds from the device and the settings.
    fn adapt_thresholds(&mut self)
        ensures
            final(self).device() == old(self).device(),
            final(self).settings() == old(self).settings(),
            final(self).profile() == old(self).profile(),
            final(self).thresholds() == thresholds_for(old(self).device(), old(self).settings()),
    {
        let density = self.device_info.pixel_density;
        let target = self.interaction_settings.touch_target_size;
        let drag = self.interaction_settings.drag_threshold;
        self.adaptive_thresholds = AdaptiveThresholds {
            min_touch_target: scale_by_density(target, 800, density),
            max_touch_target: scale_by_density(target, 1500, density),
            min_drag_distance: scale_by_density(drag, 1000, density),
            max_drag_distance: scale_by_density(drag, 10_000, density),
            velocity_scaling: match self.device_info.device_type {
                DeviceType::Mobile => 1200,
                DeviceType::Tablet => 1000,
                DeviceType::Desktop => 800,
                _ => 1000,
            },
            pressure_sensitivity: if self.device_info.has_force_touch {
                1000
            } else {
                0
            },
        };
    }

    /// Takes over what the host knows of the device and computes all three
    /// tables anew.
    pub fn update_device_info(&mut self, device_info: DeviceInfo)
        ensures
            final(self).device() == device_info,
            final(self).settings() == settings_for(device_info.device_type),
            final(self).profile() == profile_for(device_info.device_type),
            final(self).thresholds() == thresholds_for(device_info, final(self).settings()),
    {
        self.device_info = device_info;
        self.adapt_interaction_settings();
        self.adapt_performance_profile();
        self.adapt_thresholds();
    }

    /// Rewrites the fields of `event` for the device. The kind, the target,
    /// the position and the time of the event stay as they are.
    pub fn adapt_event(&self, event: &mut InteractionEvent) -> (r: Result<(), WASMError>)
        ensures
            r is Ok,
            event_adapted(
                *old(event),
                *final(event),
                self.delivery_hints(),
                self.thresholds(),
                self.settings(),
            ),
    {
        match event.event_type {
            InteractionType::TouchStart | InteractionType::TouchMove | InteractionType::TouchEnd => {
                self.adapt_touch_event(event);
            },
            InteractionType::MouseMove | InteractionType::MouseDown | InteractionType::MouseUp => {
                self.adapt_mouse_event(event);
            },
            InteractionType::Scroll | InteractionType::Wheel => {
                self.adapt_scroll_event(event);
            },
            _ => {},
        }
        self.apply_performance_optimizations(event);
        Ok(())
    }

    /// Adapts the touches and the pinch scale of a touch event.
    fn adapt_touch_event(&self, event: &mut InteractionEvent)
        ensures
            final(event).event_type == old(event).event_type,
            final(event).target_element == old(event).target_element,
            final(event).position == old(event).position,
            final(event).timestamp == old(event).timestamp,
            final(event).keyboard_data == old(event).keyboard_data,
            final(event).gesture_data == old(event).gesture_data,
            final(event).viewport_size == old(event).viewport_size,
            final(event).modifiers == old(event).modifiers,
            final(event).hints == old(event).hints,
            final(event).mouse_data == old(event).mouse_data,
            final(event).scroll_delta == old(event).scroll_delta,
            old(event).touch_data is None ==> final(event).touch_data is None,
            old(event).touch_data is Some ==> final(event).touch_data is Some
                && touch_data_adapted(
                old(event).touch_data->Some_0,
                final(event).touch_data->Some_0,
                self.thresholds(),
            ),
    {
        match &mut event.touch_data {
            Some(touch_data) => {
                let ghost before = touch_data.touches@;
                let ghost untouched = *touch_data;
                let mut i: usize = 0;
                while i < touch_data.touches.len()
                    invariant
                        i <= touch_data.touches.len(),
                        touch_data.changed_touches == untouched.changed_touches,
                        touch_data.target_touches == untouched.target_touches,
                        touch_data.force == untouched.force,
                        touch_data.rotation_angle == untouched.rotation_angle,
                        touch_data.scale == untouched.scale,
                        touch_data.touches@.len() == before.len(),
                        forall|k: int|
                            0 <= k < i ==> touch_data.touches@[k] == adapted_touch(
                                before[k],
                                self.thresholds(),
                            ),
                        forall|k: int| i <= k < before.len() ==> touch_data.touches@[k] == before[k],
                    decreases touch_data.touches.len() - i,
                {
                    let adapted = adapt_touch(touch_data.touches[i], &self.adaptive_thresholds);
                    touch_data.touches[i] = adapted;
                    i += 1;
                }
                assert(touch_data.touches@ =~= before.map_values(
                    |t: TouchPoint| adapted_touch(t, self.thresholds()),
                ));
                touch_data.scale = match touch_data.scale {
                    Some(s) => Some(adapt_scale(s, &self.adaptive_thresholds)),
                    None => None,
                };
            },
            None => {},
        }
    }

    /// Adapts the movement and the wheel distance of a mouse event.
    fn adapt_mouse_event(&self, event: &mut InteractionEvent)
        ensures
            *final(event) == (InteractionEvent {
                mouse_data: match old(event).mouse_data {
                    Some(m) => Some(adapted_mouse(m, self.thresholds(), self.settings())),
                    None => None,
                },
                ..*old(event)
            }),
    {
        event.mouse_data = match event.mouse_data {
            Some(mouse) => Some(
                MouseData {
                    button: mouse.button,
                    buttons: mouse.buttons,
                    position: mouse.position,
                    movement: scale_optional(
                        mouse.movement,
                        self.adaptive_thresholds.velocity_scaling,
                    ),
                    wheel_delta: scale_optional(
                        mouse.wheel_delta,
                        self.interaction_settings.scroll_sensitivity,
                    ),
                },
            ),
            None => None,
        };
    }

    /// Adapts the distance of a scroll event.
    fn adapt_scroll_event(&self, event: &mut InteractionEvent)
        ensures
            *final(event) == (InteractionEvent {
                scroll_delta: scaled_optional(
                    old(event).scroll_delta,
                    self.settings().scroll_sensitivity,
                ),
                ..*old(event)
            }),
    {
        event.scroll_delta = scale_optional(
            event.scroll_delta,
            self.interaction_settings.scroll_sensitivity,
        );
    }

    /// Attaches the delivery hints to the event.
    fn apply_performance_optimizations(&self, event: &mut InteractionEvent)
        ensures
            *final(event) == (InteractionEvent {
                hints: Some(self.delivery_hints()),
                ..*old(event)
            }),
    {
        let frequency = self.performance_profile.max_event_frequency;
        let interval: u32 = if frequency == 0 {
            u32::MAX
        } else {
            1_000_000 / frequency
        };
        event.hints = Some(
            DeliveryHints {
                throttle_threshold: interval,
                batch_events: self.performance_profile.batch_events,
                use_passive: self.performance_profile.use_passive_listeners,
            },
        );
    }

    /// Whether an event of kind `event_type` now comes too soon after one at
    /// `last_event_time`.
    pub fn should_throttle_event(&self, event_type: &InteractionType, last_event_time: u64) -> (r:
        bool)
        ensures
            exists|now: u64|
                r == #[trigger] throttled(
                    *event_type,
                    last_event_time,
                    now,
                    self.profile().max_event_frequency,
                ),
    {
        let now = get_current_timestamp();
        let throttle = self.should_throttle_event_at(event_type, last_event_time, now);
        assert(throttle == throttled(
            *event_type,
            last_event_time,
            now,
            self.profile().max_event_frequency,
        ));
        throttle
    }

    /// Whether an event of kind `event_type` at `now` comes too soon after
    /// one at `last_event_time`.
    pub fn should_throttle_event_at(
        &self,
        event_type: &InteractionType,
        last_event_time: u64,
        now: u64,
    ) -> (r: bool)
        ensures
            r == throttled(*event_type, last_event_time, now, self.profile().max_event_frequency),
    {
        if !event_type.high_frequency() {
            return false;
        }
        let frequency = self.performance_profile.max_event_frequency;
        if frequency == 0 {
            return true;
        }
        if now <= last_event_time {
            assert((now - last_event_time) * frequency <= 0) by (nonlinear_arith)
                requires
                    now - last_event_time <= 0,
                    frequency >= 0,
            ;
            return true;
        }
        let passed: u128 = (now - last_event_time) as u128;
        assert(passed * (frequency as u128) <= 0x1_0000_0000_0000_0000 * 0x1_0000_0000)
            by (nonlinear_arith)
            requires
                passed <= 0x1_0000_0000_0000_0000,
                frequency <= 0x1_0000_0000,
        ;
        passed * (frequency as u128) < 1000
    }

    /// The size that an element of size `element_size` should offer to
    /// touch: no side shorter than the smallest touch target.
    pub fn get_optimal_touch_target_size(&self, element_size: &Size) -> (r: Size)
        ensures
            r.width == if element_size.width < self.thresholds().min_touch_target {
                self.thresholds().min_touch_target
            } else {
                element_size.width
            },
            r.height == if element_size.height < self.thresholds().min_touch_target {
                self.thresholds().min_touch_target
            } else {
                element_size.height
            },
    {
        let least = self.adaptive_thresholds.min_touch_target;
        Size {
            width: if element_size.width < least {
                least
            } else {
                element_size.width
            },
            height: if element_size.height < least {
                least
            } else {
                element_size.height
            },
        }
    }

    /// What is known of the device.
    pub fn get_device_info(&self) -> (r: &DeviceInfo)
        ensures
            *r == self.device(),
    {
        &self.device_info
    }

    /// The settings in force.
    pub fn get_interaction_settings(&self) -> (r: &InteractionSettings)
        ensures
            *r == self.settings(),
    {
        &self.interaction_settings
    }

    /// The delivery profile in force.
    pub fn get_performance_profile(&self) -> (r: &PerformanceProfile)
        ensures
            *r == self.profile(),
    {
        &self.performance_profile
    }

    /// The thresholds in force.
    pub fn get_adaptive_thresholds(&self) -> (r: &AdaptiveThresholds)
        ensures
            *r == self.thresholds(),
    {
        &self.adaptive_thresholds
    }
}

} // verus!
