//! The engine: one sandbox with its document, its budget, its running
//! animations, and the handling of input from permission check to render
//! update.

use crate::animation::{
    advanced, distinct_ids, eased, interpolated, progress_at, reports, started, stopped,
    ActiveAnimation, Animation, AnimationController, AnimationDirection, AnimationType,
    EasingFunction, Keyframe,
};
use crate::changes::{ElementChange, ElementType};
use crate::clock::get_current_timestamp;
use crate::document::{
    element_ids_distinct, element_removed, element_updated, has_element, index_of_element,
    index_of_source, lemma_has_element, lemma_index_of_element,
    lemma_source_added_distinct, lemma_sources_kept_distinct,
    lemma_with_properties_names_once, marked_dirty, merged, names_once, remove_animation,
    set_properties, source_ids_distinct, with_properties, without_animation,
    AnimationEntry, DataSource, DataSourceType, DocumentState, EventHandler, InteractiveElement,
    Transform,
};
use crate::events::DeliveryHints;
use crate::json::{is_json_text, parse_json};
use crate::keyframes::{
    all_named_once, lemma_advanced_named_once, lemma_started_named_once,
    lemma_stopped_named_once, merge_keyframes, merged_from,
};
use crate::error::{fails_with, WASMError};
use crate::events::{InteractionEvent, Viewport};
use crate::handlers::{blocked, processed, same_but_shown, EventProcessor};
use crate::gesture_laws::keys_distinct;
use crate::gesture::{
    detected, fresh_only, recorded, touch_input_step, ConfiguredGesture, GestureEvent,
    GestureRecognizer, RecognitionView,
};
use crate::interaction::{
    event_step, EventDelegate, InteractionManager, InteractionMetrics, InteractionState,
    ManagerView,
};
use crate::kinds::{interaction_name, InteractionType};
use crate::properties::{property_views, Property};
use crate::render::{
    build_render_update, change_views, changes_of_all_expected, changes_of_gestures,
    collect_changes, lemma_changes_meet, rendered, ChangeView, RenderUpdate,
};
use crate::responsive::{
    default_device, default_profile, default_settings, default_thresholds, detected_device,
    event_adapted, profile_for, settings_for, throttle_interval, thresholds_for,
    AdaptiveThresholds, DeviceInfo, InteractionSettings, PerformanceProfile, ResponsiveAdapter,
};
use crate::numeric::bump;
use crate::security::{
    default_budget, limits_of, rate_exceeded, BudgetView, SecurityContext, WASMPermissions,
};
use crate::text::{lemma_numbered_name_injective, make_numbered_name, numbered_name};
use vstd::prelude::*;
use vstd::string::*;

verus! {

/// Counters of what the engine has done.
#[derive(Clone, Copy, Debug, PartialEq, Eq, Structural)]
pub struct PerformanceMonitor {
    pub interaction_count: u32,
    pub render_count: u32,
    pub start_time: u64,
}

/// What the counters amount to at some time. Rates are thousandths per
/// second.
#[derive(Clone, Copy, Debug, PartialEq, Eq, Structural)]
pub struct PerformanceStats {
    pub interactions_per_second: u64,
    pub renders_per_second: u64,
    pub total_interactions: u32,
    pub total_renders: u32,
    pub uptime_ms: u64,
}

/// `count` per `elapsed` milliseconds as thousandths per second; zero when
/// no time has passed.
pub open spec fn rate_of(count: u32, elapsed: int) -> u64 {
    if elapsed > 0 {
        (count as int * 1_000_000 / elapsed) as u64
    } else {
        0
    }
}

/// What the counters amount to at `now`.
pub open spec fn stats_of(monitor: PerformanceMonitor, now: u64) -> PerformanceStats {
    let elapsed = if now >= monitor.start_time {
        now - monitor.start_time
    } else {
        0
    };
    PerformanceStats {
        interactions_per_second: rate_of(monitor.interaction_count, elapsed),
        renders_per_second: rate_of(monitor.render_count, elapsed),
        total_interactions: monitor.interaction_count,
        total_renders: monitor.render_count,
        uptime_ms: elapsed as u64,
    }
}

impl PerformanceMonitor {
    /// Counters at zero, started now.
    pub fn new() -> (r: Self)
        ensures
            r == (PerformanceMonitor {
                interaction_count: 0,
                render_count: 0,
                start_time: r.start_time,
            }),
    {
        Self::new_at(get_current_timestamp())
    }

    /// Counters at zero, started at `now`.
    pub fn new_at(now: u64) -> (r: Self)
        ensures
            r == (PerformanceMonitor { interaction_count: 0, render_count: 0, start_time: now }),
    {
        PerformanceMonitor { interaction_count: 0, render_count: 0, start_time: now }
    }

    /// Counts one interaction.
    pub fn record_interaction(&mut self)
        ensures
            *final(self) == (PerformanceMonitor {
                interaction_count: bump(old(self).interaction_count),
                ..*old(self)
            }),
    {
        if self.interaction_count < u32::MAX {
            self.interaction_count = self.interaction_count + 1;
        }
    }

    /// Counts one rendered frame.
    pub fn record_render(&mut self)
        ensures
            *final(self) == (PerformanceMonitor {
                render_count: bump(old(self).render_count),
                ..*old(self)
            }),
    {
        if self.render_count < u32::MAX {
            self.render_count = self.render_count + 1;
        }
    }

    /// What the counters amount to now.
    pub fn get_stats(&self) -> (r: PerformanceStats)
        ensures
            exists|now: u64| r == #[trigger] stats_of(*self, now),
    {
        let now = get_current_timestamp();
        let stats = self.get_stats_at(now);
        assert(stats == stats_of(*self, now));
        stats
    }

    /// What the counters amount to at `now`.
    pub fn get_stats_at(&self, now: u64) -> (r: PerformanceStats)
        ensures
            r == stats_of(*self, now),
    {
        let elapsed: u64 = if now >= self.start_time {
            now - self.start_time
        } else {
            0
        };
        PerformanceStats {
            interactions_per_second: rate(self.interaction_count, elapsed),
            renders_per_second: rate(self.render_count, elapsed),
            total_interactions: self.interaction_count,
            total_renders: self.render_count,
            uptime_ms: elapsed,
        }
    }
}

/// Computes a rate in thousandths per second.
fn rate(count: u32, elapsed: u64) -> (r: u64)
    ensures
        r == rate_of(count, elapsed as int),
{
    if elapsed > 0 {
        let scaled: u64 = (count as u64) * 1_000_000;
        scaled / elapsed
    } else {
        0
    }
}

/// The engine of one sandbox.
pub struct InteractiveEngine {
    document_state: DocumentState,
    security_context: SecurityContext,
    event_processor: EventProcessor,
    animation_controller: AnimationController,
    interaction_manager: InteractionManager,
    gesture_recognizer: GestureRecognizer,
    responsive_adapter: ResponsiveAdapter,
    performance_monitor: PerformanceMonitor,
    elements_created: u64,
    animations_created: u64,
}

/// What an engine holds.
pub struct EngineView {
    pub document: DocumentState,
    pub budget: BudgetView,
    /// The running animations, in the order in which they started.
    pub animations: Seq<ActiveAnimation>,
    pub manager: ManagerView,
    pub gesture_configs: Seq<ConfiguredGesture>,
    pub recognitions: Seq<RecognitionView>,
    pub gesture_history: Seq<GestureEvent>,
    pub device: DeviceInfo,
    pub settings: InteractionSettings,
    pub profile: PerformanceProfile,
    pub thresholds: AdaptiveThresholds,
    pub monitor: PerformanceMonitor,
    /// The number of element ids handed out.
    pub elements_created: u64,
    /// The number of animation ids handed out.
    pub animations_created: u64,
}

/// Whether `v` is what an engine holds that starts at `now` with the
/// permissions `permissions`: the document is empty, nothing is accounted
/// for, nothing runs and no event has been seen.
pub open spec fn starts_at(v: EngineView, permissions: WASMPermissions, now: u64) -> bool {
    &&& v.budget == default_budget(permissions, now)
    &&& v.document.elements@.len() == 0
    &&& v.document.animations@.len() == 0
    &&& v.document.data_sources@.len() == 0
    &&& v.document.dirty_nodes@.len() == 0
    &&& v.document.viewport == crate::document::default_viewport()
    &&& v.animations == Seq::<ActiveAnimation>::empty()
    &&& v.manager == crate::interaction::initial_view()
    &&& v.gesture_configs == crate::gesture::default_configs()
    &&& v.recognitions == Seq::<RecognitionView>::empty()
    &&& v.gesture_history == Seq::<GestureEvent>::empty()
    &&& v.device == default_device()
    &&& v.settings == default_settings()
    &&& v.profile == default_profile()
    &&& v.thresholds == default_thresholds()
    &&& v.monitor == (PerformanceMonitor { interaction_count: 0, render_count: 0, start_time: now })
    &&& v.elements_created == 0
    &&& v.animations_created == 0
}

/// The id of the element that is created after `created` others.
pub open spec fn element_id_for(created: u64) -> Seq<char> {
    numbered_name("element_"@, created as nat)
}

/// The id of the animation that is created after `created` others.
pub open spec fn animation_id_for(created: u64) -> Seq<char> {
    numbered_name("anim_"@, created as nat)
}

/// Whether an engine admits the creation of one more element: its
/// permissions name `create_element`, its document holds fewer elements
/// than the limit, and an id is left.
pub open spec fn creation_admitted(v: EngineView) -> bool {
    &&& v.budget.allowed.contains("create_element"@)
    &&& v.document.elements@.len() < v.budget.limits.max_elements
    &&& v.elements_created < u64::MAX
}

/// Whether `after` is the engine `before` with one more element, of kind
/// `element_type` and with the properties `properties`, whose id is `id`.
/// No element had that id before. Of several properties with one name the
/// last counts.
pub open spec fn element_created(
    before: EngineView,
    after: EngineView,
    element_type: ElementType,
    properties: Vec<Property>,
    id: Seq<char>,
) -> bool {
    &&& id == element_id_for(before.elements_created)
    &&& !has_element(before.document.elements@, id)
    &&& after == (EngineView {
        document: after.document,
        elements_created: (before.elements_created + 1) as u64,
        ..before
    })
    &&& after.document.elements@.len() == before.document.elements@.len() + 1
    &&& after.document.elements@.drop_last() == before.document.elements@
    &&& after.document.elements@.last().id@ == id
    &&& after.document.elements@.last().element_type == element_type
    &&& after.document.elements@.last().properties@ == merged(properties@)
    &&& after.document.elements@.last().children@.len() == 0
    &&& after.document.elements@.last().event_handlers@.len() == 0
    &&& after.document.elements@.last().transform == crate::document::identity_transform()
    &&& after.document.elements@.last().visible
    &&& after.document.dirty_nodes@ == before.document.dirty_nodes@.push(
        after.document.elements@.last().id,
    )
    &&& after.document.animations == before.document.animations
    &&& after.document.data_sources == before.document.data_sources
    &&& after.document.viewport == before.document.viewport
}

/// The outcomes of `calls` creations, one after the other, asked of an
/// engine that admits the creation of elements, whose document holds
/// `count` elements and which has handed out `created` ids: whether each
/// call creates an element.
pub open spec fn creation_outcomes(count: nat, created: nat, max_elements: nat, calls: nat) -> Seq<
    bool,
>
    decreases calls,
{
    if calls == 0 {
        Seq::empty()
    } else if count < max_elements && created < u64::MAX {
        seq![true] + creation_outcomes(count + 1, created + 1, max_elements, (calls - 1) as nat)
    } else {
        seq![false] + creation_outcomes(count, created, max_elements, (calls - 1) as nat)
    }
}

/// An engine that has handed out as many ids as its document holds
/// elements creates elements up to the limit and no further: of any number
/// of creations, exactly those that find the document short of the limit
/// succeed.
pub proof fn lemma_element_cap(count: nat, max_elements: u32, calls: nat)
    requires
        count <= max_elements,
    ensures
        creation_outcomes(count, count, max_elements as nat, calls).len() == calls,
        forall|k: int|
            0 <= k < calls ==> (#[trigger] creation_outcomes(
                count,
                count,
                max_elements as nat,
                calls,
            )[k] <==> count + k < max_elements),
    decreases calls,
{
    if calls > 0 {
        let run = creation_outcomes(count, count, max_elements as nat, calls);
        if count < max_elements {
            lemma_element_cap(count + 1, max_elements, (calls - 1) as nat);
            let rest = creation_outcomes(count + 1, count + 1, max_elements as nat, (calls - 1) as nat);
            assert forall|k: int| 0 <= k < calls implies (#[trigger] run[k] <==> count + k
                < max_elements) by {
                if k > 0 {
                    assert(run[k] == rest[k - 1]);
                }
            }
        } else {
            lemma_element_cap(count, max_elements, (calls - 1) as nat);
            let rest = creation_outcomes(count, count, max_elements as nat, (calls - 1) as nat);
            assert forall|k: int| 0 <= k < calls implies (#[trigger] run[k] <==> count + k
                < max_elements) by {
                if k > 0 {
                    assert(run[k] == rest[k - 1]);
                }
            }
        }
    }
}

/// Whether `id` is one of the first `created` element ids.
pub open spec fn handed_out(id: Seq<char>, created: u64) -> bool {
    exists|k: u64| k < created && id == #[trigger] element_id_for(k)
}

/// An id that was handed out stays handed out as more ids are.
proof fn lemma_handed_out_later(id: Seq<char>, created: u64, later: u64)
    requires
        handed_out(id, created),
        created <= later,
    ensures
        handed_out(id, later),
{
    let k = choose|k: u64| k < created && id == #[trigger] element_id_for(k);
    assert(k < later && id == element_id_for(k));
}

/// The id that is handed out next was not handed out before.
proof fn lemma_next_id_is_new(created: u64)
    ensures
        !handed_out(element_id_for(created), created),
        created < u64::MAX ==> handed_out(element_id_for(created), (created + 1) as u64),
{
    if handed_out(element_id_for(created), created) {
        let k = choose|k: u64|
            k < created && element_id_for(created) == #[trigger] element_id_for(k);
        lemma_numbered_name_injective("element_"@, k as nat, created as nat);
    }
    if created < u64::MAX {
        assert(created < created + 1 && element_id_for(created) == element_id_for(created));
    }
}

/// Whether the running animations are in order: no two have the same id,
/// and no keyframe names a property twice.
pub open spec fn running_in_order(active: Seq<ActiveAnimation>) -> bool {
    distinct_ids(active) && all_named_once(active)
}

/// Whether what an engine holds is in order:
/// - every element has an id that the engine has handed out, and no two
///   elements have the same id;
/// - no name occurs twice among the properties of an element;
/// - no two running animations have the same id, and no keyframe of a
///   running animation names a property twice;
/// - no two gestures in the making follow the same touch;
/// - no two data sources have the same id.
/// What `new` hands back is in order, and every operation keeps it so.
pub open spec fn in_order(v: EngineView) -> bool {
    &&& forall|i: int|
        0 <= i < v.document.elements@.len() ==> handed_out(
            (#[trigger] v.document.elements@[i]).id@,
            v.elements_created,
        ) && names_once(v.document.elements@[i].properties@)
    &&& element_ids_distinct(v.document.elements@)
    &&& running_in_order(v.animations)
    &&& keys_distinct(v.recognitions)
    &&& source_ids_distinct(v.document.data_sources@)
}

/// What is in order stays in order when the elements keep their ids and
/// their properties, no id that was handed out is taken back, the running
/// animations are in order, no two gestures in the making follow the same
/// touch, and no two data sources have the same id.
pub proof fn lemma_in_order_kept(before: EngineView, after: EngineView)
    requires
        in_order(before),
        after.document.elements@.len() == before.document.elements@.len(),
        forall|i: int|
            0 <= i < before.document.elements@.len() ==> (
            #[trigger] after.document.elements@[i]).id@ == before.document.elements@[i].id@
                && after.document.elements@[i].properties@
                == before.document.elements@[i].properties@,
        after.elements_created >= before.elements_created,
        running_in_order(after.animations),
        keys_distinct(after.recognitions),
        source_ids_distinct(after.document.data_sources@),
    ensures
        in_order(after),
{
    let was = before.document.elements@;
    let is = after.document.elements@;
    assert forall|i: int| 0 <= i < is.len() implies handed_out(
        (#[trigger] is[i]).id@,
        after.elements_created,
    ) && names_once(is[i].properties@) by {
        assert(handed_out(was[i].id@, before.elements_created));
        lemma_handed_out_later(was[i].id@, before.elements_created, after.elements_created);
        assert(names_once(was[i].properties@));
    }
    assert forall|i: int, j: int| 0 <= i < j < is.len() implies is[i].id@ != is[j].id@ by {
        assert(is[i].id@ == was[i].id@);
        assert(is[j].id@ == was[j].id@);
    }
}

/// What is in order stays in order when an element is taken out.
pub proof fn lemma_in_order_after_removal(before: EngineView, after: EngineView, at: int)
    requires
        in_order(before),
        0 <= at < before.document.elements@.len(),
        after.document.elements@ == before.document.elements@.remove(at),
        after.elements_created >= before.elements_created,
        running_in_order(after.animations),
        keys_distinct(after.recognitions),
        source_ids_distinct(after.document.data_sources@),
    ensures
        in_order(after),
{
    let was = before.document.elements@;
    let is = after.document.elements@;
    assert forall|i: int| 0 <= i < is.len() implies handed_out(
        (#[trigger] is[i]).id@,
        after.elements_created,
    ) && names_once(is[i].properties@) by {
        let source = if i < at {
            i
        } else {
            i + 1
        };
        assert(is[i] == was[source]);
        assert(handed_out(was[source].id@, before.elements_created));
        lemma_handed_out_later(was[source].id@, before.elements_created, after.elements_created);
    }
    assert forall|i: int, j: int| 0 <= i < j < is.len() implies is[i].id@ != is[j].id@ by {
        let from_i = if i < at {
            i
        } else {
            i + 1
        };
        let from_j = if j < at {
            j
        } else {
            j + 1
        };
        assert(is[i] == was[from_i]);
        assert(is[j] == was[from_j]);
        assert(was[from_i].id@ != was[from_j].id@);
    }
}

/// The id that an engine in order hands out next is the id of none of its
/// elements.
pub proof fn lemma_next_id_is_free(v: EngineView)
    requires
        in_order(v),
    ensures
        !has_element(v.document.elements@, element_id_for(v.elements_created)),
{
    let id = element_id_for(v.elements_created);
    lemma_has_element(v.document.elements@, id);
    lemma_next_id_is_new(v.elements_created);
    if has_element(v.document.elements@, id) {
        let j = choose|j: int|
            0 <= j < v.document.elements@.len() && (#[trigger] v.document.elements@[j]).id@
                == id;
        assert(handed_out(v.document.elements@[j].id@, v.elements_created));
    }
}

/// What is in order stays in order when an element joins under the id
/// that is handed out next, with no name twice among its properties.
pub proof fn lemma_in_order_after_creation(before: EngineView, after: EngineView)
    requires
        in_order(before),
        before.elements_created < u64::MAX,
        after.elements_created == before.elements_created + 1,
        after.document.elements@.len() == before.document.elements@.len() + 1,
        after.document.elements@.drop_last() == before.document.elements@,
        after.document.elements@.last().id@ == element_id_for(before.elements_created),
        names_once(after.document.elements@.last().properties@),
        running_in_order(after.animations),
        keys_distinct(after.recognitions),
        source_ids_distinct(after.document.data_sources@),
    ensures
        in_order(after),
{
    let was = before.document.elements@;
    let is = after.document.elements@;
    lemma_next_id_is_free(before);
    lemma_has_element(was, element_id_for(before.elements_created));
    lemma_next_id_is_new(before.elements_created);
    assert forall|i: int| 0 <= i < is.len() implies handed_out(
        (#[trigger] is[i]).id@,
        after.elements_created,
    ) && names_once(is[i].properties@) by {
        if i < was.len() {
            assert(is[i] == is.drop_last()[i]);
            assert(handed_out(was[i].id@, before.elements_created));
            lemma_handed_out_later(was[i].id@, before.elements_created, after.elements_created);
        } else {
            assert(is[i] == is.last());
        }
    }
    assert forall|i: int, j: int| 0 <= i < j < is.len() implies is[i].id@ != is[j].id@ by {
        assert(is[i] == is.drop_last()[i]);
        assert(was[i].id@ == is[i].id@);
        if j < was.len() {
            assert(is[j] == is.drop_last()[j]);
            assert(was[i].id@ != was[j].id@);
        } else {
            assert(is[j] == is.last());
        }
    }
}

/// What is in order stays in order when properties are set on one
/// element.
pub proof fn lemma_in_order_after_update(
    before: EngineView,
    after: EngineView,
    at: int,
    changes: Seq<Property>,
)
    requires
        in_order(before),
        0 <= at < before.document.elements@.len(),
        after.document.elements@.len() == before.document.elements@.len(),
        forall|j: int|
            0 <= j < before.document.elements@.len() && j != at ==> after.document.elements@[j]
                == before.document.elements@[j],
        after.document.elements@[at].id == before.document.elements@[at].id,
        after.document.elements@[at].properties@ == with_properties(
            before.document.elements@[at].properties@,
            changes,
        ),
        after.elements_created >= before.elements_created,
        running_in_order(after.animations),
        keys_distinct(after.recognitions),
        source_ids_distinct(after.document.data_sources@),
    ensures
        in_order(after),
{
    let was = before.document.elements@;
    let is = after.document.elements@;
    assert(names_once(was[at].properties@));
    lemma_with_properties_names_once(was[at].properties@, changes);
    assert forall|i: int| 0 <= i < is.len() implies handed_out(
        (#[trigger] is[i]).id@,
        after.elements_created,
    ) && names_once(is[i].properties@) by {
        assert(handed_out(was[i].id@, before.elements_created));
        lemma_handed_out_later(was[i].id@, before.elements_created, after.elements_created);
        assert(names_once(was[i].properties@));
        if i != at {
            assert(is[i] == was[i]);
        }
    }
    assert forall|i: int, j: int| 0 <= i < j < is.len() implies is[i].id@ != is[j].id@ by {
        assert(is[i].id@ == was[i].id@);
        assert(is[j].id@ == was[j].id@);
        assert(was[i].id@ != was[j].id@);
    }
}

/// An engine stays in order when its elements keep their ids and their
/// properties and no id that was handed out is taken back.
proof fn lemma_wf_kept(before: InteractiveEngine, after: InteractiveEngine)
    requires
        before.wf(),
        after@.document.elements@.len() == before@.document.elements@.len(),
        forall|i: int|
            0 <= i < before@.document.elements@.len() ==> (
            #[trigger] after@.document.elements@[i]).id@ == before@.document.elements@[i].id@
                && after@.document.elements@[i].properties@
                == before@.document.elements@[i].properties@,
        after@.elements_created >= before@.elements_created,
        after@.animations == before@.animations || running_in_order(after@.animations),
        after@.recognitions == before@.recognitions || keys_distinct(after@.recognitions),
        after@.document.data_sources@ == before@.document.data_sources@ || source_ids_distinct(
            after@.document.data_sources@,
        ),
    ensures
        after.wf(),
{
    lemma_in_order_kept(before@, after@);
}

impl View for InteractiveEngine {
    type V = EngineView;

    closed spec fn view(&self) -> EngineView {
        EngineView {
            document: self.document_state,
            budget: self.security_context@,
            animations: self.animation_controller.active(),
            manager: self.interaction_manager@,
            gesture_configs: self.gesture_recognizer.configs(),
            recognitions: self.gesture_recognizer.recognitions(),
            gesture_history: self.gesture_recognizer.history(),
            device: self.responsive_adapter.device(),
            settings: self.responsive_adapter.settings(),
            profile: self.responsive_adapter.profile(),
            thresholds: self.responsive_adapter.thresholds(),
            monitor: self.performance_monitor,
            elements_created: self.elements_created,
            animations_created: self.animations_created,
        }
    }
}

impl InteractiveEngine {
    /// Whether the engine is in order: see [`in_order`]. Every engine that
    /// `new` hands back is, and every operation keeps it so.
    pub open spec fn wf(&self) -> bool {
        in_order(self@)
    }

    /// An engine for a sandbox that starts now.
    pub fn new(permissions: WASMPermissions) -> (r: Result<Self, WASMError>)
        ensures
            r is Ok,
            r->Ok_0.wf(),
            exists|now: u64| #[trigger] starts_at(r->Ok_0@, permissions, now),
    {
        let now = get_current_timestamp();
        let engine = Self::new_at(permissions, now);
        assert(starts_at(engine->Ok_0@, permissions, now));
        engine
    }

    /// An engine for a sandbox that starts at `now`: the document is empty,
    /// nothing is accounted for, nothing runs and no event has been seen.
    pub fn new_at(permissions: WASMPermissions, now: u64) -> (r: Result<Self, WASMError>)
        ensures
            r is Ok,
            r->Ok_0.wf(),
            starts_at(r->Ok_0@, permissions, now),
    {
        match SecurityContext::new_at(permissions, now) {
            Ok(security_context) => Ok(
                InteractiveEngine {
                    document_state: DocumentState::new(),
                    security_context,
                    event_processor: EventProcessor::new(),
                    animation_controller: AnimationController::new(),
                    interaction_manager: InteractionManager::new(),
                    gesture_recognizer: GestureRecognizer::new(),
                    responsive_adapter: ResponsiveAdapter::new(),
                    performance_monitor: PerformanceMonitor::new_at(now),
                    elements_created: 0,
                    animations_created: 0,
                },
            ),
            Err(e) => Err(e),
        }
    }

    /// Creates an element of kind `element_type` with the properties
    /// `properties` and hands back its id.
    ///
    /// The creation is refused when the permissions do not name
    /// `create_element`, and when the document holds as many elements as the
    /// limit allows. A refusal changes nothing.
    pub fn create_element(&mut self, element_type: ElementType, properties: Vec<Property>) -> (r:
        Result<String, WASMError>)
        requires
            old(self).wf(),
        ensures
            final(self).wf(),
            !old(self)@.budget.allowed.contains("create_element"@) ==> fails_with(
                r,
                "ELEMENT_CREATION_NOT_ALLOWED"@,
            ),
            old(self)@.budget.allowed.contains("create_element"@) && !creation_admitted(
                old(self)@,
            ) ==> fails_with(r, "ELEMENT_LIMIT_EXCEEDED"@),
            r is Err ==> final(self)@ == old(self)@,
            creation_admitted(old(self)@) ==> r is Ok && element_created(
                old(self)@,
                final(self)@,
                element_type,
                properties,
                r->Ok_0@,
            ),
            final(self)@.budget.allocated <= final(self)@.budget.limits.max_memory,
    {
        proof {
            use_type_invariant(&self.security_context);
            self.security_context.lemma_within_budget();
        }
        match self.security_context.check_element_creation() {
            Err(e) => {
                return Err(e);
            },
            Ok(_) => {},
        }
        match self.security_context.check_element_capacity(self.document_state.elements.len()) {
            Err(e) => {
                return Err(e);
            },
            Ok(_) => {},
        }
        if self.elements_created == u64::MAX {
            return Err(WASMError::new("ELEMENT_LIMIT_EXCEEDED", "Element ids are used up"));
        }
        let serial = self.elements_created;
        let element_id = make_numbered_name("element_", serial);
        let mut merged_properties: Vec<Property> = Vec::new();
        set_properties(&mut merged_properties, properties);
        proof {
            lemma_with_properties_names_once(Seq::empty(), properties@);
            lemma_next_id_is_free(self@);
        }
        let element = InteractiveElement {
            id: element_id.clone(),
            element_type,
            properties: merged_properties,
            children: Vec::new(),
            event_handlers: Vec::new(),
            transform: Transform::default(),
            visible: true,
        };
        let ghost before = self.document_state.elements@;
        self.elements_created = serial + 1;
        let added = self.document_state.add_element(element);
        assert(added is Ok);
        proof {
            assert(self.document_state.elements@.drop_last() =~= before);
            lemma_in_order_after_creation(old(self)@, self@);
        }
        match added {
            Ok(_) => Ok(element_id),
            Err(e) => Err(e),
        }
    }

    /// The number of elements in the document.
    pub fn element_count(&self) -> (r: usize)
        ensures
            r == self@.document.elements@.len(),
    {
        self.document_state.elements.len()
    }

    /// The number of bytes accounted for.
    pub fn allocated_memory(&self) -> (r: usize)
        ensures
            r == self@.budget.allocated,
            r <= self@.budget.limits.max_memory,
    {
        self.security_context.allocated_memory()
    }

    /// The number of running animations.
    pub fn active_animation_count(&self) -> (r: usize)
        ensures
            r == self@.animations.len(),
    {
        self.animation_controller.active_count()
    }
}


/// The delivery hints that an engine attaches to the events that it adapts.
pub open spec fn hints_of(v: EngineView) -> DeliveryHints {
    DeliveryHints {
        throttle_threshold: throttle_interval(v.profile.max_event_frequency),
        batch_events: v.profile.batch_events,
        use_passive: v.profile.use_passive_listeners,
    }
}

/// What the touches of an event do to the gestures in the making, and the
/// gesture that they complete, if any. An event without touch data does
/// nothing.
pub open spec fn touched(v: EngineView, event: InteractionEvent) -> (
    Seq<RecognitionView>,
    Option<GestureEvent>,
) {
    match event.touch_data {
        Some(data) => touch_input_step(
            v.gesture_configs,
            v.recognitions,
            data.touches@,
            event.timestamp,
        ),
        None => (v.recognitions, None),
    }
}

/// Whether an event tells the engine a new size of the viewport.
pub open spec fn resizes(event: InteractionEvent) -> bool {
    event.event_type == InteractionType::Resize && event.viewport_size is Some
}

/// The device after the event, which tells a new size if it is a resize.
pub open spec fn device_after(v: EngineView, event: InteractionEvent) -> DeviceInfo {
    if resizes(event) {
        detected_device(
            v.device,
            event.viewport_size->Some_0.width,
            event.viewport_size->Some_0.height,
        )
    } else {
        v.device
    }
}

/// Whether `after` and `update` are what the engine `before` makes of the
/// event `event`, already admitted and adapted, at `now`:
/// - the handlers of the target of the event run, which changes nothing in
///   the document but which elements are shown;
/// - the interaction manager handles the event;
/// - the recogniser takes the touches of the event, records the gesture
///   that they complete, and drops what has gone stale;
/// - a resize has the device classified anew and all tables recomputed;
/// - the interaction is counted;
/// - the update holds what the handlers ask for, then what the answers of
///   the manager ask for, then what the gesture asks for.
pub open spec fn handled(
    before: EngineView,
    event: InteractionEvent,
    now: u64,
    after: EngineView,
    update: crate::render::RenderUpdateView,
) -> bool {
    let run = processed(before.document, event);
    let step = event_step(before.manager, event, now, now);
    let touch = touched(before, event);
    let device = device_after(before, event);
    let settings = if resizes(event) {
        settings_for(device.device_type)
    } else {
        before.settings
    };
    &&& after == (EngineView {
        document: after.document,
        manager: step.0,
        recognitions: fresh_only(touch.0, now),
        gesture_history: recorded(before.gesture_history, touch.1),
        device,
        settings,
        profile: if resizes(event) {
            profile_for(device.device_type)
        } else {
            before.profile
        },
        thresholds: if resizes(event) {
            thresholds_for(device, settings)
        } else {
            before.thresholds
        },
        monitor: PerformanceMonitor {
            interaction_count: bump(before.monitor.interaction_count),
            ..before.monitor
        },
        ..before
    })
    &&& same_but_shown(before.document.elements@, after.document.elements@, run.0)
    &&& after.document.animations == before.document.animations
    &&& after.document.data_sources == before.document.data_sources
    &&& after.document.dirty_nodes == before.document.dirty_nodes
    &&& after.document.viewport == before.document.viewport
    &&& update == rendered(
        run.1 + changes_of_all_expected(step.1) + changes_of_gestures(detected(touch.1)),
        now,
    )
}

/// Whether `after` and `outcome` are what the engine `before` makes of a
/// new handler of the element `element_id`: it is refused when the
/// permissions do not name `create_event_handler` and when the document has
/// no such element, and a refusal changes nothing; otherwise the handler
/// joins the handlers of the element at the end, with its parameters
/// merged: of several with one name the last counts.
pub open spec fn handler_added(
    before: EngineView,
    element_id: Seq<char>,
    event_type: Seq<char>,
    handler_id: Seq<char>,
    parameters: Vec<Property>,
    after: EngineView,
    outcome: Result<(), WASMError>,
) -> bool {
    if !before.budget.allowed.contains("create_event_handler"@) {
        fails_with(outcome, "EVENT_HANDLER_CREATION_NOT_ALLOWED"@) && after == before
    } else if !has_element(before.document.elements@, element_id) {
        fails_with(outcome, "ELEMENT_NOT_FOUND"@) && after == before
    } else {
        let was = before.document.elements@;
        let is = after.document.elements@;
        let at = index_of_element(was, element_id);
        &&& outcome is Ok
        &&& after == (EngineView { document: after.document, ..before })
        &&& is.len() == was.len()
        &&& forall|j: int| 0 <= j < was.len() && j != at ==> is[j] == was[j]
        &&& is[at].id == was[at].id
        &&& is[at].element_type == was[at].element_type
        &&& is[at].properties == was[at].properties
        &&& is[at].children == was[at].children
        &&& is[at].transform == was[at].transform
        &&& is[at].visible == was[at].visible
        &&& is[at].event_handlers@.len() == was[at].event_handlers@.len() + 1
        &&& is[at].event_handlers@.drop_last() == was[at].event_handlers@
        &&& is[at].event_handlers@.last().event_type@ == event_type
        &&& is[at].event_handlers@.last().handler_id@ == handler_id
        &&& is[at].event_handlers@.last().parameters@ == merged(parameters@)
        &&& after.document.animations == before.document.animations
        &&& after.document.data_sources == before.document.data_sources
        &&& after.document.dirty_nodes == before.document.dirty_nodes
        &&& after.document.viewport == before.document.viewport
    }
}

/// The engine once an interaction has been admitted: the interaction is
/// counted.
pub open spec fn admitted(v: EngineView) -> EngineView {
    EngineView {
        budget: BudgetView { interactions: bump(v.budget.interactions), ..v.budget },
        ..v
    }
}

/// Whether `after` and `outcome` are what the engine `before` makes of the
/// interaction `event` that arrives at `now`:
/// - an interaction whose kind the permissions do not name is refused;
/// - one that would run a handler that is not known is refused;
/// - one that would lift the rate of interactions over the limit is
///   refused;
/// - any other interaction is counted, adapted to the device and handled.
/// A refusal changes nothing.
pub open spec fn interaction_processed(
    before: EngineView,
    event: InteractionEvent,
    now: u64,
    after: EngineView,
    outcome: Result<RenderUpdate, WASMError>,
) -> bool {
    let named = before.budget.allowed.contains(interaction_name(event.event_type));
    let flooded = rate_exceeded(
        bump(before.budget.interactions) as int,
        now - before.budget.started_at,
        before.budget.limits.max_interactions_per_second as int,
    );
    if !named {
        fails_with(outcome, "INTERACTION_NOT_ALLOWED"@) && after == before
    } else if blocked(before.document, event) {
        fails_with(outcome, "UNKNOWN_HANDLER"@) && after == before
    } else if flooded {
        fails_with(outcome, "INTERACTION_RATE_EXCEEDED"@) && after == before
    } else {
        outcome is Ok && exists|adapted: InteractionEvent|
            #[trigger] event_adapted(
                event,
                adapted,
                hints_of(before),
                before.thresholds,
                before.settings,
            ) && handled(admitted(before), adapted, now, after, outcome->Ok_0@)
    }
}

/// Whether `after` and `outcome` are what the engine `before` makes of the
/// frame for `timestamp`, rendered at `now`: rendering is refused, with
/// nothing changed, once the sandbox has run for longer than its time
/// limit; otherwise every running animation is advanced to `timestamp` and
/// reported in the update.
pub open spec fn frame_rendered(
    before: EngineView,
    timestamp: u64,
    now: u64,
    after: EngineView,
    outcome: Result<RenderUpdate, WASMError>,
) -> bool {
    if now - before.budget.started_at > before.budget.limits.max_cpu_time {
        fails_with(outcome, "CPU_TIME_EXCEEDED"@) && after == before
    } else {
        &&& outcome is Ok
        &&& after == (EngineView { animations: advanced(before.animations, timestamp), ..before })
        &&& outcome->Ok_0@ == rendered(ticks(before.animations, timestamp), now)
    }
}

/// Whether `animation` is the animation that the engine makes for the
/// element `target`: it runs once, eases in and out, and has the given id,
/// kind and duration, and the given keyframes with the properties of each
/// merged.
pub open spec fn animation_made(
    animation: Animation,
    id: Seq<char>,
    target: Seq<char>,
    animation_type: AnimationType,
    duration: u64,
    keyframes: Vec<Keyframe>,
) -> bool {
    &&& animation.id@ == id
    &&& animation.target_element@ == target
    &&& animation.animation_type == animation_type
    &&& animation.duration == duration
    &&& animation.easing == EasingFunction::EaseInOut
    &&& merged_from(animation.keyframes@, keyframes@)
    &&& animation.loop_count == 1
    &&& animation.direction == AnimationDirection::Normal
}

/// Whether `after` and `outcome` are what the engine `before` makes of the
/// creation, at `now`, of an animation of the element `target`:
/// - it is refused when the permissions do not name `create_animation`;
/// - it is refused when the document has no such element;
/// - otherwise the animation gets the next id, joins the document and
///   starts at `now`.
/// A refusal changes nothing.
pub open spec fn animation_created(
    before: EngineView,
    target: Seq<char>,
    animation_type: AnimationType,
    duration: u64,
    keyframes: Vec<Keyframe>,
    now: u64,
    after: EngineView,
    outcome: Result<String, WASMError>,
) -> bool {
    if !before.budget.allowed.contains("create_animation"@) {
        fails_with(outcome, "ANIMATION_CREATION_NOT_ALLOWED"@) && after == before
    } else if !has_element(before.document.elements@, target) {
        fails_with(outcome, "TARGET_NOT_FOUND"@) && after == before
    } else if before.animations_created == u64::MAX {
        fails_with(outcome, "ANIMATION_LIMIT_EXCEEDED"@) && after == before
    } else {
        &&& outcome is Ok
        &&& outcome->Ok_0@ == animation_id_for(before.animations_created)
        &&& after == (EngineView {
            document: after.document,
            animations: after.animations,
            animations_created: (before.animations_created + 1) as u64,
            ..before
        })
        &&& exists|animation: Animation|
            animation_made(
                animation,
                outcome->Ok_0@,
                target,
                animation_type,
                duration,
                keyframes,
            ) && after.animations == #[trigger] started(before.animations, animation, now)
        &&& after.document.animations@.len() == before.document.animations@.len() + 1
        &&& after.document.animations@.drop_last() == before.document.animations@
        &&& after.document.animations@.last().id@ == outcome->Ok_0@
        &&& after.document.animations@.last().target_element@ == target
        &&& after.document.elements == before.document.elements
        &&& after.document.data_sources == before.document.data_sources
        &&& after.document.dirty_nodes == before.document.dirty_nodes
        &&& after.document.viewport == before.document.viewport
    }
}

/// Whether `after` and `outcome` are what the engine `before` makes of the
/// payload `data` for the data source `id` at `now`: a payload over the
/// size limit is refused, and so is one that is not JSON; a refusal changes
/// nothing. Any other payload is stored in the source, if the document has
/// it.
pub open spec fn data_updated(
    before: EngineView,
    id: Seq<char>,
    data: Seq<u8>,
    now: u64,
    after: EngineView,
    outcome: Result<(), WASMError>,
) -> bool {
    if data.len() > before.budget.data_size_limit {
        fails_with(outcome, "DATA_SIZE_EXCEEDED"@) && after == before
    } else if !is_json_text(data) {
        fails_with(outcome, "INVALID_DATA"@) && after == before
    } else {
        outcome is Ok && data_stored(before, after, id, now)
    }
}

/// What a tick at `timestamp` reports of a running animation.
pub open spec fn tick_of(running: ActiveAnimation, timestamp: u64) -> ChangeView {
    let progress = eased(progress_at(running, timestamp), running.animation.easing) as i64;
    ChangeView::AnimationUpdate {
        animation_id: running.animation.id@,
        progress,
        values: property_views(interpolated(running.animation.keyframes@, progress as int)),
    }
}

/// What a tick at `timestamp` reports of the running animations, in order.
pub open spec fn ticks(active: Seq<ActiveAnimation>, timestamp: u64) -> Seq<ChangeView> {
    Seq::new(active.len(), |k: int| tick_of(active[k], timestamp))
}

/// Whether `after` is the engine `before` once data for the source `id`
/// has been stored at `now`: the first source with that id is brought up to
/// date, and nothing happens when there is none.
pub open spec fn data_stored(before: EngineView, after: EngineView, id: Seq<char>, now: u64) -> bool {
    let sources = before.document.data_sources@;
    let at = index_of_source(sources, id);
    if at < sources.len() {
        &&& after == (EngineView { document: after.document, ..before })
        &&& after.document.elements == before.document.elements
        &&& after.document.animations == before.document.animations
        &&& after.document.dirty_nodes == before.document.dirty_nodes
        &&& after.document.viewport == before.document.viewport
        &&& after.document.data_sources@.len() == sources.len()
        &&& forall|j: int|
            0 <= j < sources.len() && j != at ==> after.document.data_sources@[j] == sources[j]
        &&& after.document.data_sources@[at].id == sources[at].id
        &&& after.document.data_sources@[at].source_type == sources[at].source_type
        &&& after.document.data_sources@[at].update_frequency == sources[at].update_frequency
        &&& after.document.data_sources@[at].last_updated == now
    } else {
        after == before
    }
}

/// The ids of the elements of kind `kind`, in the order of the elements.
pub open spec fn ids_of_kind(elements: Seq<InteractiveElement>, kind: ElementType) -> Seq<String>
    decreases elements.len(),
{
    if elements.len() == 0 {
        Seq::empty()
    } else {
        let before = ids_of_kind(elements.drop_last(), kind);
        if elements.last().element_type == kind {
            before.push(elements.last().id)
        } else {
            before
        }
    }
}

/// The ids that await a repaint after every element is marked, in the
/// order of the elements.
pub open spec fn all_marked(dirty: Seq<String>, elements: Seq<InteractiveElement>) -> Seq<String>
    decreases elements.len(),
{
    if elements.len() == 0 {
        dirty
    } else {
        marked_dirty(all_marked(dirty, elements.drop_last()), elements.last().id)
    }
}

/// Two frames rendered at one timestamp, with nothing happening in between,
/// show the same of every animation, as long as the first frame sees no
/// animation at the end of its iteration.
pub proof fn lemma_repeated_frame(active: Seq<ActiveAnimation>, timestamp: u64, now: u64)
    requires
        forall|k: int| 0 <= k < active.len() ==> progress_at(#[trigger] active[k], timestamp) < 1000,
    ensures
        advanced(active, timestamp) == active,
        rendered(ticks(advanced(active, timestamp), timestamp), now).animation_updates == rendered(
            ticks(active, timestamp),
            now,
        ).animation_updates,
{
    crate::animation::lemma_quiet_tick(active, timestamp);
}

/// Changes that report the running animations are what a tick reports of
/// them.
proof fn lemma_reports_are_ticks(
    changes: Seq<ElementChange>,
    active: Seq<ActiveAnimation>,
    timestamp: u64,
)
    requires
        changes.len() == active.len(),
        forall|k: int| 0 <= k < active.len() ==> reports(#[trigger] changes[k], active[k], timestamp),
    ensures
        change_views(changes) == ticks(active, timestamp),
{
    assert forall|k: int| 0 <= k < active.len() implies change_views(changes)[k] == ticks(
        active,
        timestamp,
    )[k] by {
        assert(reports(changes[k], active[k], timestamp));
    }
    assert(change_views(changes) =~= ticks(active, timestamp));
}

impl InteractiveEngine {
    /// Sets properties of the element `element_id`. Refused, with nothing
    /// changed, when the permissions do not name `modify_element` or the
    /// document has no such element.
    pub fn update_element_properties(&mut self, element_id: &str, properties: Vec<Property>) -> (r:
        Result<(), WASMError>)
        requires
            old(self).wf(),
        ensures
            final(self).wf(),
            !old(self)@.budget.allowed.contains("modify_element"@) ==> fails_with(
                r,
                "ELEMENT_MODIFICATION_NOT_ALLOWED"@,
            ),
            old(self)@.budget.allowed.contains("modify_element"@) && !has_element(
                old(self)@.document.elements@,
                element_id@,
            ) ==> fails_with(r, "ELEMENT_NOT_FOUND"@),
            r is Err ==> final(self)@ == old(self)@,
            old(self)@.budget.allowed.contains("modify_element"@) && has_element(
                old(self)@.document.elements@,
                element_id@,
            ) ==> r is Ok && final(self)@ == (EngineView {
                document: final(self)@.document,
                ..old(self)@
            }) && element_updated(
                old(self)@.document,
                final(self)@.document,
                element_id@,
                properties@,
            ),
    {
        match self.security_context.check_element_modification(element_id) {
            Err(e) => {
                return Err(e);
            },
            Ok(_) => {},
        }
        let ghost before = self.document_state.elements@;
        let ghost at = index_of_element(before, element_id@);
        let outcome = self.document_state.update_element(element_id, properties);
        proof {
            if outcome is Ok {
                lemma_index_of_element(before, element_id@);
                lemma_in_order_after_update(old(self)@, self@, at, properties@);
            }
        }
        outcome
    }

    /// Removes the element `element_id` with the animations that move it.
    /// Refused, with nothing changed, when the permissions do not name
    /// `modify_element` or the document has no such element.
    pub fn delete_element(&mut self, element_id: &str) -> (r: Result<(), WASMError>)
        requires
            old(self).wf(),
        ensures
            final(self).wf(),
            !old(self)@.budget.allowed.contains("modify_element"@) ==> fails_with(
                r,
                "ELEMENT_MODIFICATION_NOT_ALLOWED"@,
            ),
            old(self)@.budget.allowed.contains("modify_element"@) && !has_element(
                old(self)@.document.elements@,
                element_id@,
            ) ==> fails_with(r, "ELEMENT_NOT_FOUND"@),
            r is Err ==> final(self)@ == old(self)@,
            old(self)@.budget.allowed.contains("modify_element"@) && has_element(
                old(self)@.document.elements@,
                element_id@,
            ) ==> r is Ok && final(self)@ == (EngineView {
                document: final(self)@.document,
                ..old(self)@
            }) && element_removed(old(self)@.document, final(self)@.document, element_id@),
    {
        match self.security_context.check_element_modification(element_id) {
            Err(e) => {
                return Err(e);
            },
            Ok(_) => {},
        }
        let ghost before = self.document_state.elements@;
        let ghost at = index_of_element(before, element_id@);
        let outcome = self.document_state.remove_element(element_id);
        proof {
            if outcome is Ok {
                lemma_index_of_element(before, element_id@);
                lemma_in_order_after_removal(old(self)@, self@, at);
            }
        }
        outcome
    }

    /// Creates an animation of the element `target_element` and starts it
    /// now.
    pub fn create_animation(
        &mut self,
        target_element: &str,
        animation_type: AnimationType,
        duration: u64,
        keyframes: Vec<Keyframe>,
    ) -> (r: Result<String, WASMError>)
        requires
            old(self).wf(),
        ensures
            final(self).wf(),
            final(self)@.budget.allocated <= final(self)@.budget.limits.max_memory,
            exists|now: u64|
                #[trigger] animation_created(
                    old(self)@,
                    target_element@,
                    animation_type,
                    duration,
                    keyframes,
                    now,
                    final(self)@,
                    r,
                ),
    {
        let now = get_current_timestamp();
        let outcome = self.create_animation_at(
            target_element,
            animation_type,
            duration,
            keyframes,
            now,
        );
        assert(animation_created(
            old(self)@,
            target_element@,
            animation_type,
            duration,
            keyframes,
            now,
            self@,
            outcome,
        ));
        outcome
    }

    /// Creates an animation of the element `target_element` and starts it
    /// at `now`. The animation runs once, eases in and out, and lasts
    /// `duration` milliseconds.
    ///
    /// The creation is refused, with nothing changed, when the permissions
    /// do not name `create_animation` and when the document has no such
    /// element.
    pub fn create_animation_at(
        &mut self,
        target_element: &str,
        animation_type: AnimationType,
        duration: u64,
        keyframes: Vec<Keyframe>,
        now: u64,
    ) -> (r: Result<String, WASMError>)
        requires
            old(self).wf(),
        ensures
            final(self).wf(),
            final(self)@.budget.allocated <= final(self)@.budget.limits.max_memory,
            animation_created(
                old(self)@,
                target_element@,
                animation_type,
                duration,
                keyframes,
                now,
                final(self)@,
                r,
            ),
    {
        proof {
            use_type_invariant(&self.security_context);
            self.security_context.lemma_within_budget();
        }
        match self.security_context.check_animation_creation() {
            Err(e) => {
                return Err(e);
            },
            Ok(_) => {},
        }
        let target = String::from_str(target_element);
        if self.document_state.find_element(&target) >= self.document_state.elements.len() {
            return Err(WASMError::new("TARGET_NOT_FOUND", "Target element not found"));
        }
        if self.animations_created == u64::MAX {
            return Err(WASMError::new("ANIMATION_LIMIT_EXCEEDED", "Animation ids are used up"));
        }
        let serial = self.animations_created;
        let animation_id = make_numbered_name("anim_", serial);
        let animation = Animation {
            id: animation_id.clone(),
            target_element: target.clone(),
            animation_type,
            duration,
            easing: EasingFunction::EaseInOut,
            keyframes: merge_keyframes(&keyframes),
            loop_count: 1,
            direction: AnimationDirection::Normal,
        };
        self.animations_created = serial + 1;
        self.document_state.animations.push(
            AnimationEntry { id: animation_id.clone(), target_element: target },
        );
        assert(self.document_state.animations@.drop_last() =~= old(self).document_state.animations@);
        let ghost made = animation;
        self.animation_controller.start_animation_at(animation, now);
        proof {
            lemma_started_named_once(old(self)@.animations, made, now);
            lemma_wf_kept(*old(self), *self);
            assert(animation_made(
                made,
                animation_id@,
                target_element@,
                animation_type,
                duration,
                keyframes,
            ));
            assert(self@.animations == started(old(self)@.animations, made, now));
        }
        Ok(animation_id)
    }

    /// Stops the animation `animation_id` and takes it out of the
    /// document.
    pub fn stop_animation(&mut self, animation_id: &str) -> (r: Result<(), WASMError>)
        requires
            old(self).wf(),
        ensures
            final(self).wf(),
            r is Ok,
            final(self)@ == (EngineView {
                document: final(self)@.document,
                animations: stopped(old(self)@.animations, animation_id@),
                ..old(self)@
            }),
            final(self)@.document.animations@ == without_animation(
                old(self)@.document.animations@,
                animation_id@,
            ),
            final(self)@.document.elements == old(self)@.document.elements,
            final(self)@.document.data_sources == old(self)@.document.data_sources,
            final(self)@.document.dirty_nodes == old(self)@.document.dirty_nodes,
            final(self)@.document.viewport == old(self)@.document.viewport,
    {
        self.animation_controller.stop_animation(animation_id);
        let id = String::from_str(animation_id);
        remove_animation(&mut self.document_state.animations, &id);
        proof {
            lemma_stopped_named_once(old(self)@.animations, animation_id@);
            lemma_wf_kept(*old(self), *self);
        }
        Ok(())
    }

    /// Gives the element `element_id` a handler without parameters for
    /// events of the kind named `event_type`.
    pub fn add_event_handler(&mut self, element_id: &str, event_type: &str, handler_id: &str) -> (r:
        Result<(), WASMError>)
        requires
            old(self).wf(),
        ensures
            final(self).wf(),
            exists|parameters: Vec<Property>|
                parameters@.len() == 0 && #[trigger] handler_added(
                    old(self)@,
                    element_id@,
                    event_type@,
                    handler_id@,
                    parameters,
                    final(self)@,
                    r,
                ),
    {
        let parameters: Vec<Property> = Vec::new();
        let ghost none = parameters;
        let outcome = self.add_event_handler_with_parameters(
            element_id,
            event_type,
            handler_id,
            parameters,
        );
        assert(handler_added(
            old(self)@,
            element_id@,
            event_type@,
            handler_id@,
            none,
            self@,
            outcome,
        ));
        outcome
    }

    /// Gives the element `element_id` a handler for events of the kind
    /// named `event_type`. Refused, with nothing changed, when the
    /// permissions do not name `create_event_handler` or the document has no
    /// such element.
    pub fn add_event_handler_with_parameters(
        &mut self,
        element_id: &str,
        event_type: &str,
        handler_id: &str,
        parameters: Vec<Property>,
    ) -> (r: Result<(), WASMError>)
        requires
            old(self).wf(),
        ensures
            final(self).wf(),
            handler_added(
                old(self)@,
                element_id@,
                event_type@,
                handler_id@,
                parameters,
                final(self)@,
                r,
            ),
    {
        match self.security_context.check_event_handler_creation() {
            Err(e) => {
                return Err(e);
            },
            Ok(_) => {},
        }
        let id = String::from_str(element_id);
        let at = self.document_state.find_element(&id);
        if at >= self.document_state.elements.len() {
            return Err(WASMError::new("ELEMENT_NOT_FOUND", "Element not found"));
        }
        let ghost before = self.document_state.elements@;
        let mut merged_parameters: Vec<Property> = Vec::new();
        set_properties(&mut merged_parameters, parameters);
        self.document_state.elements[at].event_handlers.push(
            EventHandler {
                event_type: String::from_str(event_type),
                handler_id: String::from_str(handler_id),
                parameters: merged_parameters,
            },
        );
        proof {
            assert(self.document_state.elements@[at as int].event_handlers@.drop_last()
                =~= before[at as int].event_handlers@);
            assert forall|i: int|
                0 <= i < old(self).document_state.elements@.len() implies (
            #[trigger] self.document_state.elements@[i]).id@ == old(self).document_state.elements@[i].id@
                && self.document_state.elements@[i].properties@ == old(self).document_state.elements@[i].properties@ by {
                if i != at {
                    assert(self.document_state.elements@[i] == before[i]);
                }
            }
            lemma_wf_kept(*old(self), *self);
        }
        Ok(())
    }

    /// Takes over the size and the zoom of the viewport; every element then
    /// awaits a repaint.
    pub fn update_viewport(&mut self, width: u32, height: u32, scale: u32) -> (r: Result<
        (),
        WASMError,
    >)
        requires
            old(self).wf(),
        ensures
            final(self).wf(),
            r is Ok,
            final(self)@ == (EngineView { document: final(self)@.document, ..old(self)@ }),
            final(self)@.document.viewport == (Viewport {
                width,
                height,
                scale,
                ..old(self)@.document.viewport
            }),
            final(self)@.document.dirty_nodes@ == all_marked(
                old(self)@.document.dirty_nodes@,
                old(self)@.document.elements@,
            ),
            final(self)@.document.elements == old(self)@.document.elements,
            final(self)@.document.animations == old(self)@.document.animations,
            final(self)@.document.data_sources == old(self)@.document.data_sources,
    {
        self.document_state.viewport.width = width;
        self.document_state.viewport.height = height;
        self.document_state.viewport.scale = scale;
        proof {
            lemma_wf_kept(*old(self), *self);
        }
        let mut i: usize = 0;
        assert(self.document_state.elements@.take(0) =~= Seq::<InteractiveElement>::empty());
        while i < self.document_state.elements.len()
            invariant
                i <= self.document_state.elements.len(),
                self.wf(),
                self@ == (EngineView { document: self@.document, ..old(self)@ }),
                self.document_state.viewport == (Viewport {
                    width,
                    height,
                    scale,
                    ..old(self)@.document.viewport
                }),
                self.document_state.elements == old(self).document_state.elements,
                self.document_state.animations == old(self).document_state.animations,
                self.document_state.data_sources == old(self).document_state.data_sources,
                self.document_state.dirty_nodes@ == all_marked(
                    old(self).document_state.dirty_nodes@,
                    self.document_state.elements@.take(i as int),
                ),
            decreases self.document_state.elements.len() - i,
        {
            proof {
                let grown = self.document_state.elements@.take(i as int + 1);
                assert(grown.drop_last() =~= self.document_state.elements@.take(i as int));
                assert(grown.last() == self.document_state.elements@[i as int]);
            }
            let id = self.document_state.elements[i].id.clone();
            let ghost marked = *self;
            self.document_state.mark_dirty(&id);
            proof {
                lemma_wf_kept(marked, *self);
            }
            i += 1;
        }
        assert(self.document_state.elements@.take(self.document_state.elements.len() as int)
            =~= self.document_state.elements@);
        Ok(())
    }

    /// The ids of the elements of kind `element_type`, in the order of the
    /// elements.
    pub fn query_elements_by_type(&self, element_type: ElementType) -> (r: Vec<String>)
        ensures
            r@ == ids_of_kind(self@.document.elements@, element_type),
    {
        let mut ids: Vec<String> = Vec::new();
        let mut i: usize = 0;
        assert(self.document_state.elements@.take(0) =~= Seq::<InteractiveElement>::empty());
        while i < self.document_state.elements.len()
            invariant
                i <= self.document_state.elements.len(),
                ids@ == ids_of_kind(self.document_state.elements@.take(i as int), element_type),
            decreases self.document_state.elements.len() - i,
        {
            proof {
                let grown = self.document_state.elements@.take(i as int + 1);
                assert(grown.drop_last() =~= self.document_state.elements@.take(i as int));
                assert(grown.last() == self.document_state.elements@[i as int]);
            }
            if self.document_state.elements[i].element_type == element_type {
                ids.push(self.document_state.elements[i].id.clone());
            }
            i += 1;
        }
        assert(self.document_state.elements@.take(self.document_state.elements.len() as int)
            =~= self.document_state.elements@);
        ids
    }

    /// Handles an interaction now.
    pub fn process_interaction(&mut self, event: InteractionEvent) -> (r: Result<
        RenderUpdate,
        WASMError,
    >)
        requires
            old(self).wf(),
        ensures
            final(self).wf(),
            final(self)@.budget.allocated <= final(self)@.budget.limits.max_memory,
            exists|now: u64|
                #[trigger] interaction_processed(old(self)@, event, now, final(self)@, r),
    {
        let now = get_current_timestamp();
        let ghost submitted = event;
        let outcome = self.process_interaction_at(event, now);
        assert(interaction_processed(old(self)@, submitted, now, self@, outcome));
        outcome
    }

    /// Handles an interaction that arrives at `now`.
    ///
    /// The interaction is refused, with nothing changed, when the
    /// permissions do not name its kind and when it would lift the rate of
    /// interactions over the limit. An interaction that is admitted is
    /// counted, adapted to the device and handled.
    pub fn process_interaction_at(&mut self, event: InteractionEvent, now: u64) -> (r: Result<
        RenderUpdate,
        WASMError,
    >)
        requires
            old(self).wf(),
        ensures
            final(self).wf(),
            final(self)@.budget.allocated <= final(self)@.budget.limits.max_memory,
            interaction_processed(old(self)@, event, now, final(self)@, r),
    {
        proof {
            use_type_invariant(&self.security_context);
            self.security_context.lemma_within_budget();
        }
        let ghost submitted = event;
        let mut event = event;
        let name = event.event_type.name();
        if self.security_context.is_allowed(name.as_str()) {
            match self.event_processor.check_event(&self.document_state, &event) {
                Err(e) => {
                    return Err(e);
                },
                Ok(_) => {},
            }
        }
        match self.security_context.check_interaction_permission_at(&event, now) {
            Err(e) => {
                proof {
                    lemma_wf_kept(*old(self), *self);
                }
                return Err(e);
            },
            Ok(_) => {},
        }
        proof {
            use_type_invariant(&self.security_context);
            self.security_context.lemma_within_budget();
        }
        proof {
            lemma_wf_kept(*old(self), *self);
        }
        let ghost admitted = self@;
        assert(admitted == self::admitted(old(self)@));
        match self.responsive_adapter.adapt_event(&mut event) {
            Ok(_) => {},
            Err(e) => {
                return Err(e);
            },
        }
        assert(self.responsive_adapter.delivery_hints() == hints_of(old(self)@));
        assert(event_adapted(
            submitted,
            event,
            hints_of(old(self)@),
            old(self)@.thresholds,
            old(self)@.settings,
        ));
        assert(blocked(self.document_state, event) == blocked(self.document_state, submitted));
        let outcome = self.handle_event(&event, now);
        match outcome {
            Ok(update) => {
                assert(handled(admitted, event, now, self@, update@));
                Ok(update)
            },
            Err(e) => Err(e),
        }
    }

    /// Handles an event that is admitted and adapted, at `now`, and hands
    /// back what the host has to repaint. An event that would run a handler
    /// that is not known is refused, and nothing changes.
    pub fn handle_event(&mut self, event: &InteractionEvent, now: u64) -> (r: Result<
        RenderUpdate,
        WASMError,
    >)
        requires
            old(self).wf(),
        ensures
            final(self).wf(),
            blocked(old(self)@.document, *event) ==> fails_with(r, "UNKNOWN_HANDLER"@) && final(self)@ == old(self)@,
            !blocked(old(self)@.document, *event) ==> r is Ok && handled(
                old(self)@,
                *event,
                now,
                final(self)@,
                r->Ok_0@,
            ),
    {
        let mut changes = match self.event_processor.process_event(
            &mut self.document_state,
            event,
        ) {
            Ok(changes) => changes,
            Err(e) => {
                proof {
                    lemma_wf_kept(*old(self), *self);
                }
                return Err(e);
            },
        };
        let ghost from_handlers = change_views(changes@);
        let gestures = match &event.touch_data {
            Some(data) => self.gesture_recognizer.process_touch_input(data, event.timestamp),
            None => Vec::new(),
        };
        let ghost touch = touched(old(self)@, *event);
        assert(gestures@ =~= detected(touch.1));
        let answers = match self.interaction_manager.process_event_at(event, now, now) {
            Ok(answers) => answers,
            Err(_) => Vec::new(),
        };
        proof {
            lemma_changes_meet(answers@, event_step(old(self)@.manager, *event, now, now).1);
        }
        match event.viewport_size {
            Some(size) => {
                if event.event_type == InteractionType::Resize {
                    match self.responsive_adapter.initialize_device_detection(
                        &Viewport {
                            width: size.width,
                            height: size.height,
                            scale: 1000,
                            offset_x: 0,
                            offset_y: 0,
                        },
                    ) {
                        Ok(_) => {},
                        Err(_) => {},
                    }
                }
            },
            None => {},
        }
        let mut more = collect_changes(&answers, &gestures);
        let ghost added = change_views(more@);
        changes.append(&mut more);
        assert(change_views(changes@) =~= from_handlers + added);
        assert(from_handlers + (changes_of_all_expected(
            event_step(old(self)@.manager, *event, now, now).1,
        ) + changes_of_gestures(detected(touch.1))) =~= from_handlers + changes_of_all_expected(
            event_step(old(self)@.manager, *event, now, now).1,
        ) + changes_of_gestures(detected(touch.1)));
        self.performance_monitor.record_interaction();
        let update = build_render_update(&changes, now);
        self.gesture_recognizer.clear_completed_recognitions_at(now);
        proof {
            lemma_wf_kept(*old(self), *self);
        }
        Ok(update)
    }

    /// Adds a delegate that listens on the element `target`. Refused, with
    /// nothing changed, when the permissions do not name `modify_element`.
    pub fn add_interaction_delegate(&mut self, target: &str, delegate: EventDelegate) -> (r: Result<
        (),
        WASMError,
    >)
        requires
            old(self).wf(),
        ensures
            final(self).wf(),
            !old(self)@.budget.allowed.contains("modify_element"@) ==> fails_with(
                r,
                "ELEMENT_MODIFICATION_NOT_ALLOWED"@,
            ) && final(self)@ == old(self)@,
            old(self)@.budget.allowed.contains("modify_element"@) ==> {
                &&& r is Ok
                &&& final(self)@ == (EngineView { manager: final(self)@.manager, ..old(self)@ })
                &&& final(self)@.manager == (ManagerView {
                    delegates: final(self)@.manager.delegates,
                    ..old(self)@.manager
                })
                &&& final(self)@.manager.delegates.len() == old(self)@.manager.delegates.len() + 1
                &&& final(self)@.manager.delegates.drop_last() == old(self)@.manager.delegates
                &&& final(self)@.manager.delegates.last().target@ == target@
                &&& final(self)@.manager.delegates.last().delegate == delegate
            },
    {
        match self.security_context.check_element_modification(target) {
            Err(e) => {
                return Err(e);
            },
            Ok(_) => {},
        }
        self.interaction_manager.add_event_delegate(target, delegate);
        proof {
            lemma_wf_kept(*old(self), *self);
        }
        Ok(())
    }

    /// Removes the delegates on the element `target` whose handler is
    /// `handler_id`. Refused, with nothing changed, when the permissions do
    /// not name `modify_element`.
    pub fn remove_interaction_delegate(&mut self, target: &str, handler_id: &str) -> (r: Result<
        (),
        WASMError,
    >)
        requires
            old(self).wf(),
        ensures
            final(self).wf(),
            !old(self)@.budget.allowed.contains("modify_element"@) ==> fails_with(
                r,
                "ELEMENT_MODIFICATION_NOT_ALLOWED"@,
            ) && final(self)@ == old(self)@,
            old(self)@.budget.allowed.contains("modify_element"@) ==> r is Ok && final(self)@ == (
            EngineView {
                manager: ManagerView {
                    delegates: crate::interaction::without_delegate(
                        old(self)@.manager.delegates,
                        target@,
                        handler_id@,
                    ),
                    ..old(self)@.manager
                },
                ..old(self)@
            }),
    {
        match self.security_context.check_element_modification(target) {
            Err(e) => {
                return Err(e);
            },
            Ok(_) => {},
        }
        self.interaction_manager.remove_event_delegate(target, handler_id);
        proof {
            lemma_wf_kept(*old(self), *self);
        }
        Ok(())
    }

    /// Hands the touches of one event at `timestamp` to the recogniser,
    /// outside of any interaction, and hands back the gestures that they
    /// complete.
    pub fn process_touch_gesture(&mut self, touch_data: &crate::events::TouchData, timestamp: u64) -> (r:
        Vec<GestureEvent>)
        requires
            old(self).wf(),
        ensures
            final(self).wf(),
            final(self)@ == (EngineView {
                recognitions: touch_input_step(
                    old(self)@.gesture_configs,
                    old(self)@.recognitions,
                    touch_data.touches@,
                    timestamp,
                ).0,
                gesture_history: recorded(
                    old(self)@.gesture_history,
                    touch_input_step(
                        old(self)@.gesture_configs,
                        old(self)@.recognitions,
                        touch_data.touches@,
                        timestamp,
                    ).1,
                ),
                ..old(self)@
            }),
            r@ == detected(
                touch_input_step(
                    old(self)@.gesture_configs,
                    old(self)@.recognitions,
                    touch_data.touches@,
                    timestamp,
                ).1,
            ),
    {
        let gestures = self.gesture_recognizer.process_touch_input(touch_data, timestamp);
        proof {
            lemma_wf_kept(*old(self), *self);
        }
        gestures
    }

    /// The size that an element of size `element_size` should offer to
    /// touch on the device: no side shorter than the smallest touch target.
    pub fn get_optimal_touch_target_size(&self, element_size: &crate::events::Size) -> (r:
        crate::events::Size)
        ensures
            r.width == if element_size.width < self@.thresholds.min_touch_target {
                self@.thresholds.min_touch_target
            } else {
                element_size.width
            },
            r.height == if element_size.height < self@.thresholds.min_touch_target {
                self@.thresholds.min_touch_target
            } else {
                element_size.height
            },
    {
        self.responsive_adapter.get_optimal_touch_target_size(element_size)
    }

    /// Whether an event of kind `event_type` at `now` comes too soon after
    /// one at `last_event_time` for the device.
    pub fn should_throttle_event_at(
        &self,
        event_type: &InteractionType,
        last_event_time: u64,
        now: u64,
    ) -> (r: bool)
        ensures
            r == crate::responsive::throttled(
                *event_type,
                last_event_time,
                now,
                self@.profile.max_event_frequency,
            ),
    {
        self.responsive_adapter.should_throttle_event_at(event_type, last_event_time, now)
    }

    /// The state of the element `element_id`, if it has one.
    pub fn get_interaction_state(&self, element_id: &str) -> (r: Option<InteractionState>)
        ensures
            r is Some <==> self@.manager.states.contains_key(element_id@),
            r is Some ==> r->Some_0.element_id@ == element_id@ && r->Some_0.state_type
                == self@.manager.states[element_id@].state_type && r->Some_0.start_time
                == self@.manager.states[element_id@].start_time && r->Some_0.last_update
                == self@.manager.states[element_id@].last_update,
    {
        self.interaction_manager.get_interaction_state(element_id)
    }

    /// The counters of the events that the interaction manager has handled.
    pub fn get_interaction_metrics(&self) -> (r: &InteractionMetrics)
        ensures
            *r == self@.manager.metrics,
    {
        self.interaction_manager.get_performance_metrics()
    }

    /// Takes over what the host knows of the device, then classifies the
    /// device by the viewport of the document and computes all tables anew.
    pub fn update_device_capabilities(&mut self, device_info: DeviceInfo) -> (r: Result<
        (),
        WASMError,
    >)
        requires
            old(self).wf(),
        ensures
            final(self).wf(),
            r is Ok,
            ({
                let device = detected_device(
                    device_info,
                    old(self)@.document.viewport.width,
                    old(self)@.document.viewport.height,
                );
                let settings = settings_for(device.device_type);
                final(self)@ == (EngineView {
                    device,
                    settings,
                    profile: profile_for(device.device_type),
                    thresholds: thresholds_for(device, settings),
                    ..old(self)@
                })
            }),
    {
        self.responsive_adapter.update_device_info(device_info);
        let detection = self.responsive_adapter.initialize_device_detection(
            &self.document_state.viewport,
        );
        proof {
            lemma_wf_kept(*old(self), *self);
        }
        detection
    }

    /// The tuning of input handling to the device.
    pub fn get_interaction_settings(&self) -> (r: &InteractionSettings)
        ensures
            *r == self@.settings,
    {
        self.responsive_adapter.get_interaction_settings()
    }

    /// What is known of the device.
    pub fn get_device_info(&self) -> (r: &DeviceInfo)
        ensures
            *r == self@.device,
    {
        self.responsive_adapter.get_device_info()
    }

    /// The gestures made out so far, oldest first.
    pub fn get_gesture_history(&self) -> (r: &Vec<GestureEvent>)
        ensures
            r@ == self@.gesture_history,
    {
        self.gesture_recognizer.get_gesture_history()
    }

    /// What the counters of the engine amount to at `now`.
    pub fn get_performance_stats_at(&self, now: u64) -> (r: PerformanceStats)
        ensures
            r == stats_of(self@.monitor, now),
    {
        self.performance_monitor.get_stats_at(now)
    }

    /// What the counters of the engine amount to now.
    pub fn get_performance_stats(&self) -> (r: PerformanceStats)
        ensures
            exists|now: u64| r == #[trigger] stats_of(self@.monitor, now),
    {
        let stats = self.performance_monitor.get_stats();
        proof {
            let now = choose|now: u64| stats == #[trigger] stats_of(self.performance_monitor, now);
            assert(stats == stats_of(self@.monitor, now));
        }
        stats
    }

    /// Renders the frame for `timestamp`, now.
    pub fn render_frame(&mut self, timestamp: u64) -> (r: Result<RenderUpdate, WASMError>)
        requires
            old(self).wf(),
        ensures
            final(self).wf(),
            exists|now: u64| #[trigger] frame_rendered(old(self)@, timestamp, now, final(self)@, r),
    {
        let now = get_current_timestamp();
        let outcome = self.render_frame_at(timestamp, now);
        assert(frame_rendered(old(self)@, timestamp, now, self@, outcome));
        outcome
    }

    /// Renders the frame for `timestamp` at `now`: every running animation
    /// is advanced to `timestamp` and reported in the update.
    ///
    /// Rendering is refused, with nothing changed, once the sandbox has run
    /// for longer than its time limit.
    pub fn render_frame_at(&mut self, timestamp: u64, now: u64) -> (r: Result<
        RenderUpdate,
        WASMError,
    >)
        requires
            old(self).wf(),
        ensures
            final(self).wf(),
            frame_rendered(old(self)@, timestamp, now, final(self)@, r),
    {
        match self.security_context.check_render_permission_at(now) {
            Err(e) => {
                return Err(e);
            },
            Ok(_) => {},
        }
        let changes = match self.animation_controller.update_animations(timestamp) {
            Ok(changes) => changes,
            Err(_) => Vec::new(),
        };
        proof {
            lemma_reports_are_ticks(changes@, old(self)@.animations, timestamp);
            lemma_advanced_named_once(old(self)@.animations, timestamp);
            lemma_wf_kept(*old(self), *self);
        }
        if changes.len() > 0 {
            Ok(build_render_update(&changes, now))
        } else {
            assert(ticks(old(self)@.animations, timestamp) =~= Seq::<ChangeView>::empty());
            Ok(RenderUpdate::empty_at(now))
        }
    }

    /// Stores what parsing the payload for the data source
    /// `data_source_id` gave: a payload that did not parse is refused, and
    /// one that did is stored in the source, if the document has it.
    pub fn store_parsed_data(
        &mut self,
        data_source_id: &str,
        parsed: Result<serde_json::Value, serde_json::Error>,
        now: u64,
    ) -> (r: Result<(), WASMError>)
        requires
            old(self).wf(),
        ensures
            final(self).wf(),
            parsed is Err ==> fails_with(r, "INVALID_DATA"@) && final(self)@ == old(self)@,
            parsed is Ok ==> r is Ok && data_stored(
                old(self)@,
                final(self)@,
                data_source_id@,
                now,
            ),
            parsed is Ok && index_of_source(old(self)@.document.data_sources@, data_source_id@)
                < old(self)@.document.data_sources@.len() ==> final(self)@.document.data_sources@[index_of_source(
                old(self)@.document.data_sources@,
                data_source_id@,
            )].data == parsed->Ok_0,
    {
        match parsed {
            Err(_) => Err(WASMError::new("INVALID_DATA", "Failed to parse data")),
            Ok(value) => {
                let id = String::from_str(data_source_id);
                let at = self.document_state.find_source(&id);
                if at < self.document_state.data_sources.len() {
                    self.document_state.data_sources[at].data = value;
                    self.document_state.data_sources[at].last_updated = now;
                }
                proof {
                    lemma_sources_kept_distinct(
                        old(self)@.document.data_sources@,
                        self@.document.data_sources@,
                    );
                    lemma_wf_kept(*old(self), *self);
                }
                Ok(())
            },
        }
    }

    /// Takes a payload for the data source `data_source_id`, now.
    pub fn update_data(&mut self, data_source_id: &str, data: &[u8]) -> (r: Result<(), WASMError>)
        requires
            old(self).wf(),
        ensures
            final(self).wf(),
            exists|now: u64|
                #[trigger] data_updated(old(self)@, data_source_id@, data@, now, final(self)@, r),
    {
        let now = get_current_timestamp();
        let outcome = self.update_data_at(data_source_id, data, now);
        assert(data_updated(old(self)@, data_source_id@, data@, now, self@, outcome));
        outcome
    }

    /// Takes a payload for the data source `data_source_id` at `now`.
    ///
    /// A payload over the size limit is refused, and so is one that is not
    /// JSON; a refusal changes nothing. Any other payload is stored in the
    /// source, if the document has it.
    pub fn update_data_at(&mut self, data_source_id: &str, data: &[u8], now: u64) -> (r: Result<
        (),
        WASMError,
    >)
        requires
            old(self).wf(),
        ensures
            final(self).wf(),
            data_updated(old(self)@, data_source_id@, data@, now, final(self)@, r),
    {
        match self.security_context.check_data_permission(data_source_id) {
            Err(e) => {
                return Err(e);
            },
            Ok(_) => {},
        }
        if data.len() > self.security_context.max_data_size() {
            return Err(
                WASMError::new("DATA_SIZE_EXCEEDED", "Data size exceeds security limits"),
            );
        }
        let parsed = parse_json(data);
        self.store_parsed_data(data_source_id, parsed, now)
    }

    /// Adds a data source with the id `source_id` whose data is the JSON
    /// text `data`, or brings the source with that id up to date.
    pub fn create_data_source(
        &mut self,
        source_id: &str,
        source_type: DataSourceType,
        data: &[u8],
        now: u64,
    ) -> (r: Result<(), WASMError>)
        requires
            old(self).wf(),
        ensures
            final(self).wf(),
            !is_json_text(data@) ==> fails_with(r, "INVALID_DATA"@) && final(self)@ == old(self)@,
            is_json_text(data@) ==> {
                let sources = old(self)@.document.data_sources@;
                &&& r is Ok
                &&& final(self)@ == (EngineView { document: final(self)@.document, ..old(self)@ })
                &&& final(self)@.document.elements == old(self)@.document.elements
                &&& final(self)@.document.animations == old(self)@.document.animations
                &&& final(self)@.document.dirty_nodes == old(self)@.document.dirty_nodes
                &&& final(self)@.document.viewport == old(self)@.document.viewport
                &&& index_of_source(sources, source_id@) < sources.len() ==> data_stored(
                    old(self)@,
                    final(self)@,
                    source_id@,
                    now,
                )
                &&& index_of_source(sources, source_id@) == sources.len() ==> {
                    let after = final(self)@.document.data_sources@;
                    &&& after.len() == sources.len() + 1
                    &&& after.drop_last() == sources
                    &&& after.last().id@ == source_id@
                    &&& after.last().source_type == source_type
                    &&& after.last().update_frequency is None
                    &&& after.last().last_updated == now
                }
            },
    {
        match parse_json(data) {
            Err(_) => Err(WASMError::new("INVALID_DATA", "Failed to parse data")),
            Ok(value) => {
                let id = String::from_str(source_id);
                let at = self.document_state.find_source(&id);
                if at < self.document_state.data_sources.len() {
                    self.document_state.data_sources[at].data = value;
                    self.document_state.data_sources[at].last_updated = now;
                } else {
                    self.document_state.data_sources.push(
                        DataSource {
                            id,
                            source_type,
                            data: value,
                            update_frequency: None,
                            last_updated: now,
                        },
                    );
                    assert(self.document_state.data_sources@.drop_last() =~= old(self).document_state.data_sources@);
                }
                proof {
                    if at < old(self)@.document.data_sources@.len() {
                        lemma_sources_kept_distinct(
                            old(self)@.document.data_sources@,
                            self@.document.data_sources@,
                        );
                    } else {
                        lemma_source_added_distinct(
                            old(self)@.document.data_sources@,
                            self@.document.data_sources@,
                        );
                    }
                    lemma_wf_kept(*old(self), *self);
                }
                Ok(())
            },
        }
    }
}

} // verus!
