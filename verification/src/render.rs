//! From what happened to what the host has to repaint.
//!
//! Answers of the interaction manager and gestures of the recogniser become
//! changes to elements, and changes become the operations of one render
//! update.

use crate::changes::{tag_of, ElementChange, ElementType};
use crate::events::{distance_sq, position_distance_sq, GestureType};
use crate::gesture::{GestureEvent, GestureProperties};
use crate::numeric::{floor_sqrt, isqrt, lemma_floor_sqrt_under};
use crate::properties::{
    flag_named, flag_property, fraction_named, fraction_property, has_prefix, number_named,
    number_of, number_property,
    property_views, starts_with, text_after, text_named, text_property, Property, PropertyValue,
    PropertyView, ValueView,
};
use crate::responses::{
    all_meet, meets, Expected, InteractionResponse, InteractionStateType, ResponseData,
    ResponseType,
};
use vstd::prelude::*;
use vstd::string::*;

verus! {

/// One operation on the tree that the host shows.
#[derive(Debug)]
pub enum DOMOperation {
    Create { element_id: String, tag: String, parent_id: Option<String> },
    Update { element_id: String, attribute: Property },
    Remove { element_id: String },
    Move { element_id: String, new_parent_id: String, index: usize },
}

/// A change of one style property of an element.
#[derive(Debug)]
pub struct StyleChange {
    pub element_id: String,
    pub property: String,
    pub value: PropertyValue,
}

/// Where an animation stands.
#[derive(Debug)]
pub struct AnimationUpdate {
    pub animation_id: String,
    /// Eased progress in thousandths.
    pub progress: i64,
    pub current_values: Vec<Property>,
}

/// What the host has to apply after one call.
#[derive(Debug)]
pub struct RenderUpdate {
    pub dom_operations: Vec<DOMOperation>,
    pub style_changes: Vec<StyleChange>,
    pub animation_updates: Vec<AnimationUpdate>,
    pub timestamp: u64,
}

/// What a change to the document is.
pub enum ChangeView {
    Create { element_id: Seq<char>, element_type: ElementType, parent_id: Option<Seq<char>> },
    Update { element_id: Seq<char>, properties: Seq<PropertyView> },
    Remove { element_id: Seq<char> },
    AnimationUpdate { animation_id: Seq<char>, progress: i64, values: Seq<PropertyView> },
}

/// What an operation on the tree is.
pub enum DomView {
    Create { element_id: Seq<char>, tag: Seq<char>, parent_id: Option<Seq<char>> },
    Update { element_id: Seq<char>, attribute: PropertyView },
    Remove { element_id: Seq<char> },
    Move { element_id: Seq<char>, new_parent_id: Seq<char>, index: usize },
}

/// What a change of style is.
pub struct StyleView {
    pub element_id: Seq<char>,
    pub property: Seq<char>,
    pub value: ValueView,
}

/// What the standing of an animation is.
pub struct AnimatedView {
    pub animation_id: Seq<char>,
    pub progress: i64,
    pub current_values: Seq<PropertyView>,
}

/// What a render update is.
pub struct RenderUpdateView {
    pub dom_operations: Seq<DomView>,
    pub style_changes: Seq<StyleView>,
    pub animation_updates: Seq<AnimatedView>,
    pub timestamp: u64,
}

impl View for ElementChange {
    type V = ChangeView;

    open spec fn view(&self) -> ChangeView {
        match self {
            ElementChange::Create { element_id, element_type, parent_id } => ChangeView::Create {
                element_id: element_id@,
                element_type: *element_type,
                parent_id: match parent_id {
                    Some(p) => Some(p@),
                    None => None,
                },
            },
            ElementChange::Update { element_id, properties } => ChangeView::Update {
                element_id: element_id@,
                properties: property_views(properties@),
            },
            ElementChange::Remove { element_id } => ChangeView::Remove { element_id: element_id@ },
            ElementChange::AnimationUpdate {
                animation_id,
                progress,
                values,
            } => ChangeView::AnimationUpdate {
                animation_id: animation_id@,
                progress: *progress,
                values: property_views(values@),
            },
        }
    }
}

impl View for DOMOperation {
    type V = DomView;

    open spec fn view(&self) -> DomView {
        match self {
            DOMOperation::Create { element_id, tag, parent_id } => DomView::Create {
                element_id: element_id@,
                tag: tag@,
                parent_id: match parent_id {
                    Some(p) => Some(p@),
                    None => None,
                },
            },
            DOMOperation::Update { element_id, attribute } => DomView::Update {
                element_id: element_id@,
                attribute: attribute@,
            },
            DOMOperation::Remove { element_id } => DomView::Remove { element_id: element_id@ },
            DOMOperation::Move { element_id, new_parent_id, index } => DomView::Move {
                element_id: element_id@,
                new_parent_id: new_parent_id@,
                index: *index,
            },
        }
    }
}

impl View for StyleChange {
    type V = StyleView;

    open spec fn view(&self) -> StyleView {
        StyleView { element_id: self.element_id@, property: self.property@, value: self.value@ }
    }
}

impl View for AnimationUpdate {
    type V = AnimatedView;

    open spec fn view(&self) -> AnimatedView {
        AnimatedView {
            animation_id: self.animation_id@,
            progress: self.progress,
            current_values: property_views(self.current_values@),
        }
    }
}

impl View for RenderUpdate {
    type V = RenderUpdateView;

    open spec fn view(&self) -> RenderUpdateView {
        RenderUpdateView {
            dom_operations: self.dom_operations@.map_values(|o: DOMOperation| o@),
            style_changes: self.style_changes@.map_values(|c: StyleChange| c@),
            animation_updates: self.animation_updates@.map_values(|u: AnimationUpdate| u@),
            timestamp: self.timestamp,
        }
    }
}

/// What each of a list of changes is.
pub open spec fn change_views(changes: Seq<ElementChange>) -> Seq<ChangeView> {
    changes.map_values(|c: ElementChange| c@)
}

/// Whether a property is one of style: its name starts with `style.`.
pub open spec fn is_style(property: PropertyView) -> bool {
    has_prefix(property.name, "style."@)
}

/// The operations on the tree that set `properties` on the element
/// `element_id`: one for each property that is not one of style.
pub open spec fn dom_of_properties(element_id: Seq<char>, properties: Seq<PropertyView>) -> Seq<
    DomView,
>
    decreases properties.len(),
{
    if properties.len() == 0 {
        Seq::empty()
    } else {
        let before = dom_of_properties(element_id, properties.drop_last());
        if is_style(properties.last()) {
            before
        } else {
            before.push(DomView::Update { element_id, attribute: properties.last() })
        }
    }
}

/// The changes of style that set `properties` on the element `element_id`:
/// one for each property of style, named without `style.`.
pub open spec fn styles_of_properties(element_id: Seq<char>, properties: Seq<PropertyView>) -> Seq<
    StyleView,
>
    decreases properties.len(),
{
    if properties.len() == 0 {
        Seq::empty()
    } else {
        let before = styles_of_properties(element_id, properties.drop_last());
        if is_style(properties.last()) {
            before.push(
                StyleView {
                    element_id,
                    property: properties.last().name.skip("style."@.len() as int),
                    value: properties.last().value,
                },
            )
        } else {
            before
        }
    }
}

/// The operations on the tree that one change asks for.
pub open spec fn dom_of_change(change: ChangeView) -> Seq<DomView> {
    match change {
        ChangeView::Create { element_id, element_type, parent_id } => seq![
            DomView::Create { element_id, tag: tag_of(element_type), parent_id },
        ],
        ChangeView::Update { element_id, properties } => dom_of_properties(element_id, properties),
        ChangeView::Remove { element_id } => seq![DomView::Remove { element_id }],
        ChangeView::AnimationUpdate { .. } => Seq::empty(),
    }
}

/// The changes of style that one change asks for.
pub open spec fn styles_of_change(change: ChangeView) -> Seq<StyleView> {
    match change {
        ChangeView::Update { element_id, properties } => styles_of_properties(
            element_id,
            properties,
        ),
        _ => Seq::empty(),
    }
}

/// The standing of an animation that one change reports.
pub open spec fn animated_of_change(change: ChangeView) -> Seq<AnimatedView> {
    match change {
        ChangeView::AnimationUpdate { animation_id, progress, values } => seq![
            AnimatedView { animation_id, progress, current_values: values },
        ],
        _ => Seq::empty(),
    }
}

/// The operations on the tree that a list of changes asks for, in order.
pub open spec fn dom_of(changes: Seq<ChangeView>) -> Seq<DomView>
    decreases changes.len(),
{
    if changes.len() == 0 {
        Seq::empty()
    } else {
        dom_of(changes.drop_last()) + dom_of_change(changes.last())
    }
}

/// The changes of style that a list of changes asks for, in order.
pub open spec fn styles_of(changes: Seq<ChangeView>) -> Seq<StyleView>
    decreases changes.len(),
{
    if changes.len() == 0 {
        Seq::empty()
    } else {
        styles_of(changes.drop_last()) + styles_of_change(changes.last())
    }
}

/// The standings of animations that a list of changes reports, in order.
pub open spec fn animated_of(changes: Seq<ChangeView>) -> Seq<AnimatedView>
    decreases changes.len(),
{
    if changes.len() == 0 {
        Seq::empty()
    } else {
        animated_of(changes.drop_last()) + animated_of_change(changes.last())
    }
}

/// The render update that a list of changes amounts to at `now`.
pub open spec fn rendered(changes: Seq<ChangeView>, now: u64) -> RenderUpdateView {
    RenderUpdateView {
        dom_operations: dom_of(changes),
        style_changes: styles_of(changes),
        animation_updates: animated_of(changes),
        timestamp: now,
    }
}

/// A copy of a list of properties, as far as what they are goes.
fn clone_properties(properties: &Vec<Property>) -> (r: Vec<Property>)
    ensures
        property_views(r@) == property_views(properties@),
{
    crate::properties::copy_properties(properties)
}

impl RenderUpdate {
    /// The update that asks for nothing, now.
    pub fn empty() -> (r: Self)
        ensures
            r@ == rendered(Seq::empty(), r@.timestamp),
    {
        Self::empty_at(crate::clock::get_current_timestamp())
    }

    /// The update that asks for nothing, at `now`.
    pub fn empty_at(now: u64) -> (r: Self)
        ensures
            r@ == rendered(Seq::empty(), now),
    {
        let update = RenderUpdate {
            dom_operations: Vec::new(),
            style_changes: Vec::new(),
            animation_updates: Vec::new(),
            timestamp: now,
        };
        assert(update@.dom_operations =~= Seq::<DomView>::empty());
        assert(update@.style_changes =~= Seq::<StyleView>::empty());
        assert(update@.animation_updates =~= Seq::<AnimatedView>::empty());
        update
    }

    /// Whether the update asks for nothing.
    pub fn is_empty(&self) -> (r: bool)
        ensures
            r == (self@.dom_operations.len() == 0 && self@.style_changes.len() == 0
                && self@.animation_updates.len() == 0),
    {
        self.dom_operations.len() == 0 && self.style_changes.len() == 0
            && self.animation_updates.len() == 0
    }
}

/// Adds the operations that set `properties` on the element `element_id`.
fn render_properties(
    update: &mut RenderUpdate,
    element_id: &String,
    properties: &Vec<Property>,
)
    ensures
        final(update)@ == (RenderUpdateView {
            dom_operations: old(update)@.dom_operations + dom_of_properties(
                element_id@,
                property_views(properties@),
            ),
            style_changes: old(update)@.style_changes + styles_of_properties(
                element_id@,
                property_views(properties@),
            ),
            ..old(update)@
        }),
{
    let ghost all = property_views(properties@);
    let mut j: usize = 0;
    proof {
        reveal_strlit("style.");
        assert(all.take(0) =~= Seq::<PropertyView>::empty());
        assert(old(update)@.dom_operations + Seq::<DomView>::empty()
            =~= old(update)@.dom_operations);
        assert(old(update)@.style_changes + Seq::<StyleView>::empty()
            =~= old(update)@.style_changes);
    }
    while j < properties.len()
        invariant
            j <= properties.len(),
            all == property_views(properties@),
            "style."@.len() == 6,
            update@.dom_operations == old(update)@.dom_operations + dom_of_properties(
                element_id@,
                all.take(j as int),
            ),
            update@.style_changes == old(update)@.style_changes + styles_of_properties(
                element_id@,
                all.take(j as int),
            ),
            update@.animation_updates == old(update)@.animation_updates,
            update@.timestamp == old(update)@.timestamp,
        decreases properties.len() - j,
    {
        let property = &properties[j];
        proof {
            let grown = all.take(j as int + 1);
            assert(grown.drop_last() =~= all.take(j as int));
            assert(grown.last() == property@);
        }
        let ghost dom_before = update@.dom_operations;
        let ghost styles_before = update@.style_changes;
        if starts_with(property.name.as_str(), "style.") {
            let change = StyleChange {
                element_id: element_id.clone(),
                property: text_after(property.name.as_str(), 6),
                value: property.value.duplicate(),
            };
            let ghost described = change@;
            update.style_changes.push(change);
            assert(update@.style_changes =~= styles_before.push(described));
            assert(update@.style_changes =~= old(update)@.style_changes + styles_of_properties(
                element_id@,
                all.take(j as int + 1),
            ));
            assert(update@.dom_operations =~= dom_before);
            assert(update@.animation_updates =~= old(update)@.animation_updates);
        } else {
            let operation = DOMOperation::Update {
                element_id: element_id.clone(),
                attribute: property.duplicate(),
            };
            let ghost described = operation@;
            update.dom_operations.push(operation);
            assert(update@.dom_operations =~= dom_before.push(described));
            assert(update@.dom_operations =~= old(update)@.dom_operations + dom_of_properties(
                element_id@,
                all.take(j as int + 1),
            ));
            assert(update@.style_changes =~= styles_before);
            assert(update@.animation_updates =~= old(update)@.animation_updates);
        }
        j += 1;
    }
    assert(all.take(properties.len() as int) =~= all);
}

/// Adds the operations that one change asks for.
fn render_change(update: &mut RenderUpdate, change: &ElementChange)
    ensures
        final(update)@ == (RenderUpdateView {
            dom_operations: old(update)@.dom_operations + dom_of_change(change@),
            style_changes: old(update)@.style_changes + styles_of_change(change@),
            animation_updates: old(update)@.animation_updates + animated_of_change(change@),
            timestamp: old(update)@.timestamp,
        }),
{
    let ghost before = update@;
    match change {
        ElementChange::Create { element_id, element_type, parent_id } => {
            let operation = DOMOperation::Create {
                element_id: element_id.clone(),
                tag: element_type.to_tag(),
                parent_id: crate::events::copy_text(parent_id),
            };
            let ghost described = operation@;
            update.dom_operations.push(operation);
            assert(update@.dom_operations =~= before.dom_operations.push(described));
            assert(update@.dom_operations =~= before.dom_operations + dom_of_change(change@));
            assert(update@.style_changes =~= before.style_changes + styles_of_change(change@));
            assert(update@.animation_updates =~= before.animation_updates + animated_of_change(
                change@,
            ));
        },
        ElementChange::Update { element_id, properties } => {
            render_properties(update, element_id, properties);
            assert(update@.animation_updates =~= before.animation_updates + animated_of_change(
                change@,
            ));
        },
        ElementChange::Remove { element_id } => {
            let operation = DOMOperation::Remove { element_id: element_id.clone() };
            let ghost described = operation@;
            update.dom_operations.push(operation);
            assert(update@.dom_operations =~= before.dom_operations.push(described));
            assert(update@.dom_operations =~= before.dom_operations + dom_of_change(change@));
            assert(update@.style_changes =~= before.style_changes + styles_of_change(change@));
            assert(update@.animation_updates =~= before.animation_updates + animated_of_change(
                change@,
            ));
        },
        ElementChange::AnimationUpdate { animation_id, progress, values } => {
            let standing = AnimationUpdate {
                animation_id: animation_id.clone(),
                progress: *progress,
                current_values: clone_properties(values),
            };
            let ghost described = standing@;
            update.animation_updates.push(standing);
            assert(update@.animation_updates =~= before.animation_updates.push(described));
            assert(update@.animation_updates =~= before.animation_updates + animated_of_change(
                change@,
            ));
            assert(update@.dom_operations =~= before.dom_operations + dom_of_change(change@));
            assert(update@.style_changes =~= before.style_changes + styles_of_change(change@));
        },
    }
}

/// Builds the render update that a list of changes amounts to at `now`.
pub fn build_render_update(changes: &Vec<ElementChange>, now: u64) -> (r: RenderUpdate)
    ensures
        r@ == rendered(change_views(changes@), now),
{
    let mut update = RenderUpdate::empty_at(now);
    let ghost all = change_views(changes@);
    let mut i: usize = 0;
    assert(all.take(0) =~= Seq::<ChangeView>::empty());
    while i < changes.len()
        invariant
            i <= changes.len(),
            all == change_views(changes@),
            update@ == rendered(all.take(i as int), now),
        decreases changes.len() - i,
    {
        proof {
            let grown = all.take(i as int + 1);
            assert(grown.drop_last() =~= all.take(i as int));
            assert(grown.last() == changes@[i as int]@);
        }
        render_change(&mut update, &changes[i]);
        i += 1;
    }
    assert(all.take(changes.len() as int) =~= all);
    update
}

/// The name of a state, as the host reads it.
pub open spec fn state_name(state: InteractionStateType) -> Seq<char> {
    match state {
        InteractionStateType::Idle => "idle"@,
        InteractionStateType::Hover => "hover"@,
        InteractionStateType::Active => "active"@,
        InteractionStateType::Pressed => "pressed"@,
        InteractionStateType::Dragging => "dragging"@,
        InteractionStateType::Focused => "focused"@,
        InteractionStateType::Disabled => "disabled"@,
    }
}

/// The name of a kind of gesture.
pub open spec fn gesture_name(kind: GestureType) -> Seq<char> {
    match kind {
        GestureType::Tap => "Tap"@,
        GestureType::DoubleTap => "DoubleTap"@,
        GestureType::LongPress => "LongPress"@,
        GestureType::Pinch => "Pinch"@,
        GestureType::Rotate => "Rotate"@,
        GestureType::Swipe => "Swipe"@,
        GestureType::Pan => "Pan"@,
    }
}

/// A count of any size as a property number, cut off at the top of the
/// range.
pub open spec fn as_number(value: u64) -> i64 {
    if value <= i64::MAX as u64 {
        value as i64
    } else {
        i64::MAX
    }
}

/// The properties that an answer asks to set on its target.
pub open spec fn properties_of_response(answer: InteractionResponse) -> Seq<PropertyView> {
    match answer.response_type {
        ResponseType::StateChanged => match answer.data {
            ResponseData::State { state } => seq![text_named("state"@, state_name(state))],
            _ => Seq::empty(),
        },
        ResponseType::Click | ResponseType::DoubleClick | ResponseType::Tap => seq![
            text_named("interaction_feedback"@, "active"@),
            number_named("last_interaction"@, as_number(answer.timestamp)),
        ],
        ResponseType::DragStart => match answer.data {
            ResponseData::DragStart { start_position } => seq![
                flag_named("dragging"@, true),
                number_named("drag_start_x"@, start_position.x as i64),
                number_named("drag_start_y"@, start_position.y as i64),
            ],
            _ => seq![flag_named("dragging"@, true)],
        },
        ResponseType::Drag => match answer.data {
            ResponseData::Drag { position, movement } => seq![
                number_named("position_x"@, position.x as i64),
                number_named("position_y"@, position.y as i64),
            ] + match movement {
                Some(m) => seq![
                    number_named("movement_x"@, m.x as i64),
                    number_named("movement_y"@, m.y as i64),
                ],
                None => Seq::empty(),
            },
            _ => Seq::empty(),
        },
        ResponseType::DragEnd => seq![flag_named("dragging"@, false)],
        ResponseType::Gesture => match answer.data {
            ResponseData::Gesture { gesture_type, delta, .. } => seq![
                text_named("gesture_type"@, gesture_name(gesture_type)),
                number_named("gesture_delta_x"@, delta.x as i64),
                number_named("gesture_delta_y"@, delta.y as i64),
                number_named("gesture_timestamp"@, as_number(answer.timestamp)),
            ],
            _ => seq![number_named("gesture_timestamp"@, as_number(answer.timestamp))],
        },
        _ => Seq::empty(),
    }
}

/// Whether an answer of kind `kind` asks for a change.
pub open spec fn asks_for_change(kind: ResponseType) -> bool {
    kind == ResponseType::StateChanged || kind == ResponseType::Click || kind
        == ResponseType::DoubleClick || kind == ResponseType::Tap || kind
        == ResponseType::DragStart || kind == ResponseType::Drag || kind == ResponseType::DragEnd
        || kind == ResponseType::Gesture
}

/// The changes that an answer asks for: an update of its target, when it
/// has one and is of a kind that changes something.
pub open spec fn changes_of_response(answer: InteractionResponse) -> Seq<ChangeView> {
    match answer.target_element {
        Some(target) => if asks_for_change(answer.response_type) {
            seq![
                ChangeView::Update {
                    element_id: target@,
                    properties: properties_of_response(answer),
                },
            ]
        } else {
            Seq::empty()
        },
        None => Seq::empty(),
    }
}

/// The changes that a list of answers asks for, in order.
pub open spec fn changes_of_responses(answers: Seq<InteractionResponse>) -> Seq<ChangeView>
    decreases answers.len(),
{
    if answers.len() == 0 {
        Seq::empty()
    } else {
        changes_of_responses(answers.drop_last()) + changes_of_response(answers.last())
    }
}

/// What a gesture says of itself, as properties.
pub open spec fn properties_of_gesture_kind(properties: GestureProperties) -> Seq<PropertyView> {
    match properties {
        GestureProperties::Plain => Seq::empty(),
        GestureProperties::Swipe { direction } => seq![
            number_named("direction"@, direction as i64),
        ],
        GestureProperties::Pan { total_distance } => seq![
            number_named("total_distance"@, as_number(total_distance)),
        ],
        GestureProperties::Pinch { scale, distance } => match scale {
            Some(s) => seq![
                fraction_named("scale"@, as_number(s)),
                number_named("distance"@, as_number(distance)),
            ],
            None => seq![number_named("distance"@, as_number(distance))],
        },
    }
}

/// The distance from where a gesture started to where it ended, rounded
/// down.
pub open spec fn reach_of(gesture: GestureEvent) -> i64 {
    floor_sqrt(distance_sq(gesture.start_position, gesture.end_position)) as i64
}

/// The change that a gesture asks for: an update of the element that
/// stands for the gestures, with the kind of the gesture, how sure it is,
/// how long it took, where it ended, how fast it was, where it started, how
/// far it went along each axis and in all, when it was made out, and what
/// it says of itself.
pub open spec fn change_of_gesture(gesture: GestureEvent) -> ChangeView {
    ChangeView::Update {
        element_id: "gesture_system"@,
        properties: seq![
            text_named("last_gesture"@, gesture_name(gesture.gesture_type)),
            fraction_named("gesture_confidence"@, gesture.confidence as i64),
            number_named("gesture_duration"@, as_number(gesture.duration)),
            number_named("gesture_x"@, gesture.end_position.x as i64),
            number_named("gesture_y"@, gesture.end_position.y as i64),
            number_named("gesture_velocity_x"@, gesture.velocity.x as i64),
            number_named("gesture_velocity_y"@, gesture.velocity.y as i64),
            number_named("gesture_start_x"@, gesture.start_position.x as i64),
            number_named("gesture_start_y"@, gesture.start_position.y as i64),
            number_named(
                "gesture_delta_x"@,
                (gesture.end_position.x - gesture.start_position.x) as i64,
            ),
            number_named(
                "gesture_delta_y"@,
                (gesture.end_position.y - gesture.start_position.y) as i64,
            ),
            number_named("gesture_distance"@, reach_of(gesture)),
            number_named("gesture_timestamp"@, as_number(gesture.timestamp)),
        ] + properties_of_gesture_kind(gesture.properties),
    }
}

/// The changes that a list of gestures asks for, in order.
pub open spec fn changes_of_gestures(gestures: Seq<GestureEvent>) -> Seq<ChangeView> {
    gestures.map_values(|g: GestureEvent| change_of_gesture(g))
}

/// The name of a state, as the host reads it.
fn name_of_state(state: InteractionStateType) -> (r: &'static str)
    ensures
        r@ == state_name(state),
{
    match state {
        InteractionStateType::Idle => "idle",
        InteractionStateType::Hover => "hover",
        InteractionStateType::Active => "active",
        InteractionStateType::Pressed => "pressed",
        InteractionStateType::Dragging => "dragging",
        InteractionStateType::Focused => "focused",
        InteractionStateType::Disabled => "disabled",
    }
}

/// The name of a kind of gesture.
pub fn name_of_gesture(kind: GestureType) -> (r: &'static str)
    ensures
        r@ == gesture_name(kind),
{
    match kind {
        GestureType::Tap => "Tap",
        GestureType::DoubleTap => "DoubleTap",
        GestureType::LongPress => "LongPress",
        GestureType::Pinch => "Pinch",
        GestureType::Rotate => "Rotate",
        GestureType::Swipe => "Swipe",
        GestureType::Pan => "Pan",
    }
}

/// Collects the properties that an answer asks to set on its target.
fn response_properties(answer: &InteractionResponse) -> (r: Vec<Property>)
    ensures
        property_views(r@) == properties_of_response(*answer),
{
    let mut properties: Vec<Property> = Vec::new();
    match answer.response_type {
        ResponseType::StateChanged => match &answer.data {
            ResponseData::State { state } => {
                properties.push(text_property("state", name_of_state(*state)));
            },
            _ => {},
        },
        ResponseType::Click | ResponseType::DoubleClick | ResponseType::Tap => {
            properties.push(text_property("interaction_feedback", "active"));
            properties.push(number_property("last_interaction", number_of(answer.timestamp)));
        },
        ResponseType::DragStart => {
            properties.push(flag_property("dragging", true));
            match &answer.data {
                ResponseData::DragStart { start_position } => {
                    properties.push(number_property("drag_start_x", start_position.x as i64));
                    properties.push(number_property("drag_start_y", start_position.y as i64));
                },
                _ => {},
            }
        },
        ResponseType::Drag => match &answer.data {
            ResponseData::Drag { position, movement } => {
                properties.push(number_property("position_x", position.x as i64));
                properties.push(number_property("position_y", position.y as i64));
                match movement {
                    Some(m) => {
                        properties.push(number_property("movement_x", m.x as i64));
                        properties.push(number_property("movement_y", m.y as i64));
                    },
                    None => {},
                }
            },
            _ => {},
        },
        ResponseType::DragEnd => {
            properties.push(flag_property("dragging", false));
        },
        ResponseType::Gesture => {
            match &answer.data {
                ResponseData::Gesture { gesture_type, delta, .. } => {
                    properties.push(text_property("gesture_type", name_of_gesture(*gesture_type)));
                    properties.push(number_property("gesture_delta_x", delta.x as i64));
                    properties.push(number_property("gesture_delta_y", delta.y as i64));
                },
                _ => {},
            }
            properties.push(number_property("gesture_timestamp", number_of(answer.timestamp)));
        },
        _ => {},
    }
    assert(property_views(properties@) =~= properties_of_response(*answer));
    properties
}

/// Turns an answer of the interaction manager into the changes that it
/// asks for.
pub fn convert_interaction_response_to_changes(answer: &InteractionResponse) -> (r: Vec<
    ElementChange,
>)
    ensures
        change_views(r@) == changes_of_response(*answer),
{
    let mut changes: Vec<ElementChange> = Vec::new();
    match &answer.target_element {
        Some(target) => {
            let asks = match answer.response_type {
                ResponseType::StateChanged
                | ResponseType::Click
                | ResponseType::DoubleClick
                | ResponseType::Tap
                | ResponseType::DragStart
                | ResponseType::Drag
                | ResponseType::DragEnd
                | ResponseType::Gesture => true,
                _ => false,
            };
            if asks {
                changes.push(
                    ElementChange::Update {
                        element_id: target.clone(),
                        properties: response_properties(answer),
                    },
                );
            }
        },
        None => {},
    }
    assert(change_views(changes@) =~= changes_of_response(*answer));
    changes
}

/// Turns a gesture of the recogniser into the change that it asks for.
pub fn process_gesture_event(gesture: &GestureEvent) -> (r: ElementChange)
    ensures
        r@ == change_of_gesture(*gesture),
{
    let mut properties: Vec<Property> = Vec::new();
    properties.push(text_property("last_gesture", name_of_gesture(gesture.gesture_type)));
    properties.push(fraction_property("gesture_confidence", gesture.confidence as i64));
    properties.push(number_property("gesture_duration", number_of(gesture.duration)));
    properties.push(number_property("gesture_x", gesture.end_position.x as i64));
    properties.push(number_property("gesture_y", gesture.end_position.y as i64));
    properties.push(number_property("gesture_velocity_x", gesture.velocity.x as i64));
    properties.push(number_property("gesture_velocity_y", gesture.velocity.y as i64));
    properties.push(number_property("gesture_start_x", gesture.start_position.x as i64));
    properties.push(number_property("gesture_start_y", gesture.start_position.y as i64));
    properties.push(
        number_property(
            "gesture_delta_x",
            gesture.end_position.x as i64 - gesture.start_position.x as i64,
        ),
    );
    properties.push(
        number_property(
            "gesture_delta_y",
            gesture.end_position.y as i64 - gesture.start_position.y as i64,
        ),
    );
    let reach: u64 = isqrt(position_distance_sq(gesture.start_position, gesture.end_position));
    proof {
        assert(0x2_0000_0000_0000_0000 < 0x2_0000_0000int * 0x2_0000_0000int) by (nonlinear_arith);
        lemma_floor_sqrt_under(
            distance_sq(gesture.start_position, gesture.end_position),
            reach as int,
            0x2_0000_0000,
        );
    }
    properties.push(number_property("gesture_distance", reach as i64));
    properties.push(number_property("gesture_timestamp", number_of(gesture.timestamp)));
    match gesture.properties {
        GestureProperties::Plain => {},
        GestureProperties::Swipe { direction } => {
            properties.push(number_property("direction", direction as i64));
        },
        GestureProperties::Pan { total_distance } => {
            properties.push(number_property("total_distance", number_of(total_distance)));
        },
        GestureProperties::Pinch { scale, distance } => {
            match scale {
                Some(s) => {
                    properties.push(fraction_property("scale", number_of(s)));
                },
                None => {},
            }
            properties.push(number_property("distance", number_of(distance)));
        },
    }
    let change = ElementChange::Update {
        element_id: String::from_str("gesture_system"),
        properties,
    };
    assert(change@->Update_properties =~= change_of_gesture(*gesture)->Update_properties);
    change
}

/// Turns every answer and every gesture of one event into changes: those of
/// the answers first, then those of the gestures.
pub fn collect_changes(answers: &Vec<InteractionResponse>, gestures: &Vec<GestureEvent>) -> (r:
    Vec<ElementChange>)
    ensures
        change_views(r@) == changes_of_responses(answers@) + changes_of_gestures(gestures@),
{
    let mut changes: Vec<ElementChange> = Vec::new();
    let mut i: usize = 0;
    assert(answers@.take(0) =~= Seq::<InteractionResponse>::empty());
    assert(change_views(changes@) =~= Seq::<ChangeView>::empty());
    while i < answers.len()
        invariant
            i <= answers.len(),
            change_views(changes@) == changes_of_responses(answers@.take(i as int)),
        decreases answers.len() - i,
    {
        proof {
            let grown = answers@.take(i as int + 1);
            assert(grown.drop_last() =~= answers@.take(i as int));
            assert(grown.last() == answers@[i as int]);
        }
        let ghost before = changes@;
        let mut more = convert_interaction_response_to_changes(&answers[i]);
        let ghost added = more@;
        changes.append(&mut more);
        assert(change_views(changes@) =~= change_views(before) + change_views(added));
        i += 1;
    }
    assert(answers@.take(answers.len() as int) =~= answers@);
    let ghost from_answers = change_views(changes@);
    let mut j: usize = 0;
    while j < gestures.len()
        invariant
            j <= gestures.len(),
            from_answers == changes_of_responses(answers@),
            change_views(changes@) == from_answers + changes_of_gestures(gestures@).take(j as int),
        decreases gestures.len() - j,
    {
        let ghost before = changes@;
        let change = process_gesture_event(&gestures[j]);
        changes.push(change);
        assert(change_views(changes@) =~= change_views(before).push(
            change_of_gesture(gestures@[j as int]),
        ));
        assert(changes_of_gestures(gestures@).take(j as int + 1) =~= changes_of_gestures(
            gestures@,
        ).take(j as int).push(change_of_gesture(gestures@[j as int])));
        j += 1;
    }
    assert(changes_of_gestures(gestures@).take(gestures.len() as int) =~= changes_of_gestures(
        gestures@,
    ));
    changes
}


/// The changes that an answer, as a contract writes it down, asks for.
pub open spec fn changes_of_expected(expected: Expected) -> Seq<ChangeView> {
    match expected {
        Expected::Exactly(answer) => changes_of_response(answer),
        Expected::TouchMove { .. } => Seq::empty(),
    }
}

/// The changes that a list of answers, as a contract writes them down, asks
/// for, in order.
pub open spec fn changes_of_all_expected(expected: Seq<Expected>) -> Seq<ChangeView>
    decreases expected.len(),
{
    if expected.len() == 0 {
        Seq::empty()
    } else {
        changes_of_all_expected(expected.drop_last()) + changes_of_expected(expected.last())
    }
}

/// Answers that meet their descriptions ask for the changes that the
/// descriptions ask for.
pub proof fn lemma_changes_meet(answers: Seq<InteractionResponse>, expected: Seq<Expected>)
    requires
        all_meet(answers, expected),
    ensures
        changes_of_responses(answers) == changes_of_all_expected(expected),
    decreases answers.len(),
{
    if answers.len() > 0 {
        let fewer = answers.drop_last();
        let fewer_expected = expected.drop_last();
        assert forall|i: int| 0 <= i < fewer.len() implies meets(
            #[trigger] fewer[i],
            fewer_expected[i],
        ) by {
            assert(fewer[i] == answers[i]);
            assert(fewer_expected[i] == expected[i]);
        }
        lemma_changes_meet(fewer, fewer_expected);
        assert(meets(answers[answers.len() - 1], expected[expected.len() - 1]));
    }
}

} // verus!
