//! The document: its elements, the animations and data sources that belong
//! to it, and the elements that await a repaint.

use crate::changes::ElementType;
use crate::error::{fails_with, WASMError};
use crate::events::Viewport;
use crate::properties::{find_property, position_of, Property};
use crate::seqs::{lemma_pass_end, lemma_pass_start, lemma_pass_step};
use vstd::prelude::*;
use vstd::string::*;

verus! {

/// A handler that an element has for a kind of event.
#[derive(Debug)]
pub struct EventHandler {
    pub event_type: String,
    pub handler_id: String,
    pub parameters: Vec<Property>,
}

/// Where and how an element is drawn. Scales and opacity are thousandths.
#[derive(Clone, Copy, Debug, PartialEq, Eq, Structural)]
pub struct Transform {
    pub x: i32,
    pub y: i32,
    pub scale_x: u32,
    pub scale_y: u32,
    /// Degrees.
    pub rotation: i32,
    pub opacity: u32,
}

/// The transform of an element that is drawn where it is, as it is.
pub open spec fn identity_transform() -> Transform {
    Transform { x: 0, y: 0, scale_x: 1000, scale_y: 1000, rotation: 0, opacity: 1000 }
}

impl Default for Transform {
    fn default() -> (r: Self)
        ensures
            r == identity_transform(),
    {
        Transform { x: 0, y: 0, scale_x: 1000, scale_y: 1000, rotation: 0, opacity: 1000 }
    }
}

/// The viewport of a document that has not been told its size.
pub open spec fn default_viewport() -> Viewport {
    Viewport { width: 1920, height: 1080, scale: 1000, offset_x: 0, offset_y: 0 }
}

impl Default for Viewport {
    fn default() -> (r: Self)
        ensures
            r == default_viewport(),
    {
        Viewport { width: 1920, height: 1080, scale: 1000, offset_x: 0, offset_y: 0 }
    }
}

/// One element of the document.
#[derive(Debug)]
pub struct InteractiveElement {
    pub id: String,
    pub element_type: ElementType,
    pub properties: Vec<Property>,
    pub children: Vec<String>,
    pub event_handlers: Vec<EventHandler>,
    pub transform: Transform,
    /// Whether the element is shown.
    pub visible: bool,
}

/// An animation of the document, with the element that it moves.
#[derive(Debug)]
pub struct AnimationEntry {
    pub id: String,
    pub target_element: String,
}

/// How the data of a source comes about.
#[derive(Clone, Copy, Debug, PartialEq, Eq, Structural)]
pub enum DataSourceType {
    Static,
    Dynamic,
    Stream,
    Computed,
}

/// The kind of data source that the host calls `name`, if it calls one so.
pub open spec fn source_type_called(name: Seq<char>) -> Option<DataSourceType> {
    if name == "static"@ {
        Some(DataSourceType::Static)
    } else if name == "dynamic"@ {
        Some(DataSourceType::Dynamic)
    } else if name == "stream"@ {
        Some(DataSourceType::Stream)
    } else if name == "computed"@ {
        Some(DataSourceType::Computed)
    } else {
        None
    }
}

impl DataSourceType {
    /// The kind of data source that the host calls `name`, if it calls one so.
    pub fn from_host_name(name: &str) -> (r: Option<DataSourceType>)
        ensures
            r == source_type_called(name@),
    {
        if crate::properties::same_text(name, "static") {
            Some(DataSourceType::Static)
        } else if crate::properties::same_text(name, "dynamic") {
            Some(DataSourceType::Dynamic)
        } else if crate::properties::same_text(name, "stream") {
            Some(DataSourceType::Stream)
        } else if crate::properties::same_text(name, "computed") {
            Some(DataSourceType::Computed)
        } else {
            None
        }
    }
}

/// A source of data that elements are bound to.
pub struct DataSource {
    pub id: String,
    pub source_type: DataSourceType,
    pub data: serde_json::Value,
    /// Milliseconds.
    pub update_frequency: Option<u32>,
    pub last_updated: u64,
}

/// The document.
pub struct DocumentState {
    pub elements: Vec<InteractiveElement>,
    pub animations: Vec<AnimationEntry>,
    pub data_sources: Vec<DataSource>,
    /// The ids of the elements that await a repaint, each once.
    pub dirty_nodes: Vec<String>,
    pub viewport: Viewport,
}

/// The index of the first element whose id is `id`, or the number of
/// elements when there is none.
pub open spec fn index_of_element(elements: Seq<InteractiveElement>, id: Seq<char>) -> int
    decreases elements.len(),
{
    if elements.len() == 0 {
        0
    } else if elements[0].id@ == id {
        0
    } else {
        1 + index_of_element(elements.drop_first(), id)
    }
}

/// Whether an element has the id `id`.
pub open spec fn has_element(elements: Seq<InteractiveElement>, id: Seq<char>) -> bool {
    index_of_element(elements, id) < elements.len()
}

/// The index of the first data source whose id is `id`, or the number of
/// data sources when there is none.
pub open spec fn index_of_source(sources: Seq<DataSource>, id: Seq<char>) -> int
    decreases sources.len(),
{
    if sources.len() == 0 {
        0
    } else if sources[0].id@ == id {
        0
    } else {
        1 + index_of_source(sources.drop_first(), id)
    }
}

/// The texts of `texts` that are not `text`, in their order.
pub open spec fn without_text(texts: Seq<String>, text: Seq<char>) -> Seq<String>
    decreases texts.len(),
{
    if texts.len() == 0 {
        texts
    } else {
        let before = without_text(texts.drop_last(), text);
        if texts.last()@ == text {
            before
        } else {
            before.push(texts.last())
        }
    }
}

/// The animations that do not move the element `target`, in their order.
pub open spec fn without_target(animations: Seq<AnimationEntry>, target: Seq<char>) -> Seq<
    AnimationEntry,
>
    decreases animations.len(),
{
    if animations.len() == 0 {
        animations
    } else {
        let before = without_target(animations.drop_last(), target);
        if animations.last().target_element@ == target {
            before
        } else {
            before.push(animations.last())
        }
    }
}

/// The animations whose id is not `id`, in their order.
pub open spec fn without_animation(animations: Seq<AnimationEntry>, id: Seq<char>) -> Seq<
    AnimationEntry,
>
    decreases animations.len(),
{
    if animations.len() == 0 {
        animations
    } else {
        let before = without_animation(animations.drop_last(), id);
        if animations.last().id@ == id {
            before
        } else {
            before.push(animations.last())
        }
    }
}

/// Whether `text` is among `texts`.
pub open spec fn holds_text(texts: Seq<String>, text: Seq<char>) -> bool {
    exists|i: int| 0 <= i < texts.len() && (#[trigger] texts[i])@ == text
}

/// The properties after `property` is set: it takes the place of the first
/// property of its name, or joins at the end.
pub open spec fn with_property(properties: Seq<Property>, property: Property) -> Seq<Property> {
    let at = position_of(properties, property.name@);
    if at < properties.len() {
        properties.update(at, property)
    } else {
        properties.push(property)
    }
}

/// The properties after each of `changes` is set, in order.
pub open spec fn with_properties(properties: Seq<Property>, changes: Seq<Property>) -> Seq<Property>
    decreases changes.len(),
{
    if changes.len() == 0 {
        properties
    } else {
        with_property(with_properties(properties, changes.drop_last()), changes.last())
    }
}

/// Whether no name occurs twice among `properties`.
pub open spec fn names_once(properties: Seq<Property>) -> bool {
    forall|i: int, j: int|
        #![trigger properties[i], properties[j]]
        0 <= i < j < properties.len() ==> properties[i].name@ != properties[j].name@
}

/// The properties that a list of properties amounts to when each is set
/// in turn: of several with one name the last counts, at the place of the
/// first.
pub open spec fn merged(properties: Seq<Property>) -> Seq<Property> {
    with_properties(Seq::empty(), properties)
}

/// Setting a property keeps every name to one occurrence.
pub proof fn lemma_with_property_names_once(properties: Seq<Property>, property: Property)
    requires
        names_once(properties),
    ensures
        names_once(with_property(properties, property)),
{
    crate::properties::lemma_position_of(properties, property.name@);
    let at = position_of(properties, property.name@);
    let after = with_property(properties, property);
    assert forall|i: int, j: int| 0 <= i < j < after.len() implies after[i].name@
        != after[j].name@ by {
        if at < properties.len() {
            assert(after[i].name@ == properties[i].name@);
            assert(after[j].name@ == properties[j].name@);
        } else {
            assert(after[i] == properties[i]);
            if j < properties.len() {
                assert(after[j] == properties[j]);
            }
        }
    }
}

/// A list in which no name occurs twice amounts to itself.
pub proof fn lemma_merged_of_names_once(properties: Seq<Property>)
    requires
        names_once(properties),
    ensures
        merged(properties) == properties,
    decreases properties.len(),
{
    if properties.len() == 0 {
        assert(merged(properties) =~= properties);
    } else {
        let before = properties.drop_last();
        let last = properties.last();
        assert forall|i: int, j: int| 0 <= i < j < before.len() implies before[i].name@
            != before[j].name@ by {
            assert(before[i] == properties[i] && before[j] == properties[j]);
        }
        lemma_merged_of_names_once(before);
        crate::properties::lemma_position_of(before, last.name@);
        let at = position_of(before, last.name@);
        if at < before.len() {
            assert(before[at] == properties[at]);
            assert(properties[at].name@ != properties[properties.len() - 1].name@);
        }
        assert(before.push(last) =~= properties);
    }
}

/// Setting properties keeps every name to one occurrence.
pub proof fn lemma_with_properties_names_once(properties: Seq<Property>, changes: Seq<Property>)
    requires
        names_once(properties),
    ensures
        names_once(with_properties(properties, changes)),
    decreases changes.len(),
{
    if changes.len() > 0 {
        lemma_with_properties_names_once(properties, changes.drop_last());
        lemma_with_property_names_once(
            with_properties(properties, changes.drop_last()),
            changes.last(),
        );
    }
}

/// Whether no two elements have the same id.
pub open spec fn element_ids_distinct(elements: Seq<InteractiveElement>) -> bool {
    forall|i: int, j: int|
        #![trigger elements[i], elements[j]]
        0 <= i < j < elements.len() ==> elements[i].id@ != elements[j].id@
}

/// Whether elements are in order: no two have the same id, and none names
/// a property twice.
pub open spec fn elements_in_order(elements: Seq<InteractiveElement>) -> bool {
    &&& element_ids_distinct(elements)
    &&& forall|i: int| 0 <= i < elements.len() ==> names_once((#[trigger] elements[i]).properties@)
}

/// Elements stay in order when one joins whose id none of them has and
/// which names no property twice.
pub proof fn lemma_in_order_with(elements: Seq<InteractiveElement>, element: InteractiveElement)
    requires
        elements_in_order(elements),
        !has_element(elements, element.id@),
        names_once(element.properties@),
    ensures
        elements_in_order(elements.push(element)),
{
    lemma_has_element(elements, element.id@);
    let after = elements.push(element);
    assert forall|i: int, j: int| 0 <= i < j < after.len() implies after[i].id@
        != after[j].id@ by {
        assert(after[i] == elements[i]);
        if j < elements.len() {
            assert(after[j] == elements[j]);
        }
    }
    assert forall|i: int| 0 <= i < after.len() implies names_once(
        (#[trigger] after[i]).properties@,
    ) by {
        if i < elements.len() {
            assert(after[i] == elements[i]);
        }
    }
}

/// Elements stay in order when one leaves.
pub proof fn lemma_in_order_without(elements: Seq<InteractiveElement>, at: int)
    requires
        elements_in_order(elements),
        0 <= at < elements.len(),
    ensures
        elements_in_order(elements.remove(at)),
{
    let after = elements.remove(at);
    assert forall|i: int, j: int| 0 <= i < j < after.len() implies after[i].id@
        != after[j].id@ by {
        let from_i = if i < at {
            i
        } else {
            i + 1
        };
        let from_j = if j < at {
            j
        } else {
            j + 1
        };
        assert(after[i] == elements[from_i]);
        assert(after[j] == elements[from_j]);
    }
    assert forall|i: int| 0 <= i < after.len() implies names_once(
        (#[trigger] after[i]).properties@,
    ) by {
        let from_i = if i < at {
            i
        } else {
            i + 1
        };
        assert(after[i] == elements[from_i]);
    }
}

/// Elements stay in order when properties are set on one of them.
pub proof fn lemma_in_order_updated(
    before: Seq<InteractiveElement>,
    after: Seq<InteractiveElement>,
    at: int,
    changes: Seq<Property>,
)
    requires
        elements_in_order(before),
        0 <= at < before.len(),
        after.len() == before.len(),
        forall|j: int| 0 <= j < before.len() && j != at ==> after[j] == before[j],
        after[at].id == before[at].id,
        after[at].properties@ == with_properties(before[at].properties@, changes),
    ensures
        elements_in_order(after),
{
    assert(names_once(before[at].properties@));
    lemma_with_properties_names_once(before[at].properties@, changes);
    assert forall|i: int, j: int| 0 <= i < j < after.len() implies after[i].id@
        != after[j].id@ by {
        assert(after[i].id@ == before[i].id@);
        assert(after[j].id@ == before[j].id@);
        assert(before[i].id@ != before[j].id@);
    }
    assert forall|i: int| 0 <= i < after.len() implies names_once(
        (#[trigger] after[i]).properties@,
    ) by {
        if i != at {
            assert(after[i] == before[i]);
            assert(names_once(before[i].properties@));
        }
    }
}

/// Whether no two data sources have the same id.
pub open spec fn source_ids_distinct(sources: Seq<DataSource>) -> bool {
    forall|i: int, j: int|
        #![trigger sources[i], sources[j]]
        0 <= i < j < sources.len() ==> sources[i].id@ != sources[j].id@
}

/// Data sources that keep their ids keep them distinct.
pub proof fn lemma_sources_kept_distinct(before: Seq<DataSource>, after: Seq<DataSource>)
    requires
        source_ids_distinct(before),
        after.len() == before.len(),
        forall|j: int| 0 <= j < before.len() ==> (#[trigger] after[j]).id@ == before[j].id@,
    ensures
        source_ids_distinct(after),
{
    assert forall|i: int, j: int| 0 <= i < j < after.len() implies after[i].id@
        != after[j].id@ by {
        assert(after[i].id@ == before[i].id@);
        assert(after[j].id@ == before[j].id@);
        assert(before[i].id@ != before[j].id@);
    }
}

/// A data source that joins under an id that no source has leaves the ids
/// distinct.
pub proof fn lemma_source_added_distinct(before: Seq<DataSource>, after: Seq<DataSource>)
    requires
        source_ids_distinct(before),
        after.len() == before.len() + 1,
        after.drop_last() == before,
        index_of_source(before, after.last().id@) == before.len(),
    ensures
        source_ids_distinct(after),
{
    lemma_index_of_source(before, after.last().id@);
    assert forall|i: int, j: int| 0 <= i < j < after.len() implies after[i].id@
        != after[j].id@ by {
        assert(after[i] == before[i]);
        if j < before.len() {
            assert(after[j] == before[j]);
        }
    }
}

/// The ids that await a repaint after the element `id` is marked: it joins
/// at the end unless it is waiting already.
pub open spec fn marked_dirty(dirty: Seq<String>, id: String) -> Seq<String> {
    if holds_text(dirty, id@) {
        dirty
    } else {
        dirty.push(id)
    }
}

/// `index_of_element` gives the first index that holds the id, or the
/// length.
pub proof fn lemma_index_of_element(elements: Seq<InteractiveElement>, id: Seq<char>)
    ensures
        0 <= index_of_element(elements, id) <= elements.len(),
        has_element(elements, id) ==> elements[index_of_element(elements, id)].id@ == id,
        forall|j: int|
            0 <= j < index_of_element(elements, id) ==> (#[trigger] elements[j]).id@ != id,
    decreases elements.len(),
{
    if elements.len() > 0 && elements[0].id@ != id {
        let rest = elements.drop_first();
        lemma_index_of_element(rest, id);
        let p = index_of_element(rest, id);
        assert forall|j: int| 0 <= j < 1 + p implies (#[trigger] elements[j]).id@ != id by {
            if j > 0 {
                assert(elements[j] == rest[j - 1]);
            }
        }
        if p < rest.len() {
            assert(elements[1 + p] == rest[p]);
        }
    }
}

/// An id that no element has is not found, and an id that some element has
/// is.
pub proof fn lemma_has_element(elements: Seq<InteractiveElement>, id: Seq<char>)
    ensures
        has_element(elements, id) <==> exists|j: int|
            0 <= j < elements.len() && (#[trigger] elements[j]).id@ == id,
{
    lemma_index_of_element(elements, id);
    if has_element(elements, id) {
        assert(elements[index_of_element(elements, id)].id@ == id);
    }
}

/// `index_of_source` gives the first index that holds the id, or the
/// length.
pub proof fn lemma_index_of_source(sources: Seq<DataSource>, id: Seq<char>)
    ensures
        0 <= index_of_source(sources, id) <= sources.len(),
        index_of_source(sources, id) < sources.len() ==> sources[index_of_source(sources, id)].id@
            == id,
        forall|j: int| 0 <= j < index_of_source(sources, id) ==> (#[trigger] sources[j]).id@ != id,
    decreases sources.len(),
{
    if sources.len() > 0 && sources[0].id@ != id {
        let rest = sources.drop_first();
        lemma_index_of_source(rest, id);
        let p = index_of_source(rest, id);
        assert forall|j: int| 0 <= j < 1 + p implies (#[trigger] sources[j]).id@ != id by {
            if j > 0 {
                assert(sources[j] == rest[j - 1]);
            }
        }
        if p < rest.len() {
            assert(sources[1 + p] == rest[p]);
        }
    }
}

/// Tells whether `text` is among `texts`.
pub fn texts_hold(texts: &Vec<String>, text: &String) -> (r: bool)
    ensures
        r == holds_text(texts@, text@),
{
    let mut i: usize = 0;
    while i < texts.len()
        invariant
            i <= texts.len(),
            forall|j: int| 0 <= j < i ==> (#[trigger] texts@[j])@ != text@,
        decreases texts.len() - i,
    {
        if texts[i] == *text {
            return true;
        }
        i += 1;
    }
    false
}

/// Takes the texts that are `text` out of `texts`.
pub fn remove_text(texts: &mut Vec<String>, text: &String)
    ensures
        final(texts)@ == without_text(old(texts)@, text@),
{
    let ghost before = texts@;
    let ghost mut seen: int = 0;
    let mut i: usize = 0;
    proof {
        lemma_pass_start(before);
    }
    while i < texts.len()
        invariant
            0 <= seen <= before.len(),
            i <= texts.len(),
            texts@.take(i as int) == without_text(before.take(seen), text@),
            texts@.skip(i as int) == before.skip(seen),
        decreases before.len() - seen,
    {
        proof {
            lemma_pass_step(texts@, i as int, before, seen);
        }
        if texts[i] == *text {
            texts.remove(i);
        } else {
            i += 1;
        }
        proof {
            seen = seen + 1;
        }
    }
    proof {
        lemma_pass_end(texts@, i as int, before, seen);
    }
}

/// Takes the animations that move the element `target` out of
/// `animations`.
pub fn remove_animations_of(animations: &mut Vec<AnimationEntry>, target: &String)
    ensures
        final(animations)@ == without_target(old(animations)@, target@),
{
    let ghost before = animations@;
    let ghost mut seen: int = 0;
    let mut i: usize = 0;
    proof {
        lemma_pass_start(before);
    }
    while i < animations.len()
        invariant
            0 <= seen <= before.len(),
            i <= animations.len(),
            animations@.take(i as int) == without_target(before.take(seen), target@),
            animations@.skip(i as int) == before.skip(seen),
        decreases before.len() - seen,
    {
        proof {
            lemma_pass_step(animations@, i as int, before, seen);
        }
        if animations[i].target_element == *target {
            animations.remove(i);
        } else {
            i += 1;
        }
        proof {
            seen = seen + 1;
        }
    }
    proof {
        lemma_pass_end(animations@, i as int, before, seen);
    }
}

/// Takes the animations whose id is `id` out of `animations`.
pub fn remove_animation(animations: &mut Vec<AnimationEntry>, id: &String)
    ensures
        final(animations)@ == without_animation(old(animations)@, id@),
{
    let ghost before = animations@;
    let ghost mut seen: int = 0;
    let mut i: usize = 0;
    proof {
        lemma_pass_start(before);
    }
    while i < animations.len()
        invariant
            0 <= seen <= before.len(),
            i <= animations.len(),
            animations@.take(i as int) == without_animation(before.take(seen), id@),
            animations@.skip(i as int) == before.skip(seen),
        decreases before.len() - seen,
    {
        proof {
            lemma_pass_step(animations@, i as int, before, seen);
        }
        if animations[i].id == *id {
            animations.remove(i);
        } else {
            i += 1;
        }
        proof {
            seen = seen + 1;
        }
    }
    proof {
        lemma_pass_end(animations@, i as int, before, seen);
    }
}

/// Sets each of `changes` among `properties`, in order.
pub fn set_properties(properties: &mut Vec<Property>, changes: Vec<Property>)
    ensures
        final(properties)@ == with_properties(old(properties)@, changes@),
{
    let mut changes = changes;
    let ghost all = changes@;
    // The changes are taken from the end, so they are turned round first.
    let mut turned: Vec<Property> = Vec::new();
    while changes.len() > 0
        invariant
            changes@.len() + turned@.len() == all.len(),
            changes@ == all.take(changes@.len() as int),
            forall|k: int|
                0 <= k < turned@.len() ==> turned@[k] == all[all.len() - 1 - k],
        decreases changes.len(),
    {
        let last = changes.pop().unwrap();
        assert(changes@ =~= all.take(changes@.len() as int));
        turned.push(last);
    }
    let ghost mut done: int = 0;
    assert(all.take(0) =~= Seq::<Property>::empty());
    while turned.len() > 0
        invariant
            0 <= done <= all.len(),
            turned@.len() == all.len() - done,
            forall|k: int| 0 <= k < turned@.len() ==> turned@[k] == all[all.len() - 1 - k],
            properties@ == with_properties(old(properties)@, all.take(done)),
        decreases turned.len(),
    {
        let change = turned.pop().unwrap();
        proof {
            assert(change == all[done]);
            let grown = all.take(done + 1);
            assert(grown.drop_last() =~= all.take(done));
            assert(grown.last() == change);
        }
        let at = find_property(properties, &change.name);
        if at < properties.len() {
            properties[at] = change;
        } else {
            properties.push(change);
        }
        proof {
            done = done + 1;
        }
    }
    assert(all.take(all.len() as int) =~= all);
}

/// Whether `after` is the document `before` without its first element with
/// the id `id`, without the animations that move that element, and with
/// the element waiting for a repaint no more.
pub open spec fn element_removed(before: DocumentState, after: DocumentState, id: Seq<char>) -> bool {
    &&& after.elements@ == before.elements@.remove(index_of_element(before.elements@, id))
    &&& after.dirty_nodes@ == without_text(before.dirty_nodes@, id)
    &&& after.animations@ == without_target(before.animations@, id)
    &&& after.data_sources == before.data_sources
    &&& after.viewport == before.viewport
}

/// Whether `after` is the document `before` with `properties` set on its
/// first element with the id `id`, which then awaits a repaint.
pub open spec fn element_updated(
    before: DocumentState,
    after: DocumentState,
    id: Seq<char>,
    properties: Seq<Property>,
) -> bool {
    let at = index_of_element(before.elements@, id);
    &&& after.elements@.len() == before.elements@.len()
    &&& forall|j: int|
        0 <= j < before.elements@.len() && j != at ==> after.elements@[j] == before.elements@[j]
    &&& after.elements@[at].id == before.elements@[at].id
    &&& after.elements@[at].element_type == before.elements@[at].element_type
    &&& after.elements@[at].children == before.elements@[at].children
    &&& after.elements@[at].event_handlers == before.elements@[at].event_handlers
    &&& after.elements@[at].transform == before.elements@[at].transform
    &&& after.elements@[at].visible == before.elements@[at].visible
    &&& after.elements@[at].properties@ == with_properties(
        before.elements@[at].properties@,
        properties,
    )
    &&& after.dirty_nodes@ == marked_dirty(before.dirty_nodes@, before.elements@[at].id)
    &&& after.animations == before.animations
    &&& after.data_sources == before.data_sources
    &&& after.viewport == before.viewport
}

impl DocumentState {
    /// An empty document with the default viewport.
    pub fn new() -> (r: Self)
        ensures
            r.elements@.len() == 0,
            r.animations@.len() == 0,
            r.data_sources@.len() == 0,
            r.dirty_nodes@.len() == 0,
            r.viewport == default_viewport(),
    {
        DocumentState {
            elements: Vec::new(),
            animations: Vec::new(),
            data_sources: Vec::new(),
            dirty_nodes: Vec::new(),
            viewport: Viewport::default(),
        }
    }

    /// Finds the first element whose id is `id`.
    pub fn find_element(&self, id: &String) -> (r: usize)
        ensures
            r == index_of_element(self.elements@, id@),
            r <= self.elements@.len(),
    {
        proof {
            lemma_index_of_element(self.elements@, id@);
        }
        let ghost target = index_of_element(self.elements@, id@);
        let mut i: usize = 0;
        while i < self.elements.len()
            invariant
                i <= self.elements.len(),
                target == index_of_element(self.elements@, id@),
                forall|j: int| 0 <= j < i ==> (#[trigger] self.elements@[j]).id@ != id@,
                0 <= target <= self.elements@.len(),
                target < self.elements@.len() ==> self.elements@[target].id@ == id@,
                forall|j: int| 0 <= j < target ==> (#[trigger] self.elements@[j]).id@ != id@,
            decreases self.elements.len() - i,
        {
            if self.elements[i].id == *id {
                return i;
            }
            i += 1;
        }
        i
    }

    /// Finds the first data source whose id is `id`.
    pub fn find_source(&self, id: &String) -> (r: usize)
        ensures
            r == index_of_source(self.data_sources@, id@),
            r <= self.data_sources@.len(),
    {
        proof {
            lemma_index_of_source(self.data_sources@, id@);
        }
        let ghost target = index_of_source(self.data_sources@, id@);
        let mut i: usize = 0;
        while i < self.data_sources.len()
            invariant
                i <= self.data_sources.len(),
                target == index_of_source(self.data_sources@, id@),
                forall|j: int| 0 <= j < i ==> (#[trigger] self.data_sources@[j]).id@ != id@,
                0 <= target <= self.data_sources@.len(),
                target < self.data_sources@.len() ==> self.data_sources@[target].id@ == id@,
                forall|j: int| 0 <= j < target ==> (#[trigger] self.data_sources@[j]).id@ != id@,
            decreases self.data_sources.len() - i,
        {
            if self.data_sources[i].id == *id {
                return i;
            }
            i += 1;
        }
        i
    }

    /// Adds an element, which then awaits a repaint. An element whose id is
    /// taken is refused, and the document stays as it is.
    pub fn add_element(&mut self, element: InteractiveElement) -> (r: Result<(), WASMError>)
        ensures
            has_element(old(self).elements@, element.id@) ==> fails_with(r, "ELEMENT_EXISTS"@)
                && *final(self) == *old(self),
            !has_element(old(self).elements@, element.id@) ==> r is Ok && final(self).elements@
                == old(self).elements@.push(element) && final(self).dirty_nodes@ == old(self).dirty_nodes@.push(element.id) && final(self).animations == old(self).animations
                && final(self).data_sources == old(self).data_sources && final(self).viewport
                == old(self).viewport,
            elements_in_order(old(self).elements@) && names_once(element.properties@)
                ==> elements_in_order(final(self).elements@),
    {
        proof {
            if elements_in_order(self.elements@) && names_once(element.properties@) && !has_element(
                self.elements@,
                element.id@,
            ) {
                lemma_in_order_with(self.elements@, element);
            }
        }
        if self.find_element(&element.id) < self.elements.len() {
            return Err(WASMError::new("ELEMENT_EXISTS", "Element with this ID already exists"));
        }
        self.dirty_nodes.push(element.id.clone());
        self.elements.push(element);
        Ok(())
    }

    /// Removes the element `element_id`, with the animations that move it,
    /// and takes it off the list of those that await a repaint.
    pub fn remove_element(&mut self, element_id: &str) -> (r: Result<(), WASMError>)
        ensures
            !has_element(old(self).elements@, element_id@) ==> fails_with(r, "ELEMENT_NOT_FOUND"@)
                && *final(self) == *old(self),
            has_element(old(self).elements@, element_id@) ==> r is Ok && element_removed(
                *old(self),
                *final(self),
                element_id@,
            ),
            elements_in_order(old(self).elements@) ==> elements_in_order(final(self).elements@),
    {
        let id = String::from_str(element_id);
        let at = self.find_element(&id);
        if at >= self.elements.len() {
            return Err(WASMError::new("ELEMENT_NOT_FOUND", "Element not found"));
        }
        proof {
            if elements_in_order(self.elements@) {
                lemma_in_order_without(self.elements@, at as int);
            }
        }
        self.elements.remove(at);
        remove_text(&mut self.dirty_nodes, &id);
        remove_animations_of(&mut self.animations, &id);
        Ok(())
    }

    /// Sets properties of the element `element_id`, which then awaits a
    /// repaint.
    pub fn update_element(&mut self, element_id: &str, properties: Vec<Property>) -> (r: Result<
        (),
        WASMError,
    >)
        ensures
            !has_element(old(self).elements@, element_id@) ==> fails_with(r, "ELEMENT_NOT_FOUND"@)
                && *final(self) == *old(self),
            has_element(old(self).elements@, element_id@) ==> r is Ok && element_updated(
                *old(self),
                *final(self),
                element_id@,
                properties@,
            ),
            elements_in_order(old(self).elements@) ==> elements_in_order(final(self).elements@),
    {
        let id = String::from_str(element_id);
        let at = self.find_element(&id);
        if at >= self.elements.len() {
            return Err(WASMError::new("ELEMENT_NOT_FOUND", "Element not found"));
        }
        proof {
            lemma_index_of_element(self.elements@, id@);
        }
        set_properties(&mut self.elements[at].properties, properties);
        proof {
            if elements_in_order(old(self).elements@) {
                lemma_in_order_updated(
                    old(self).elements@,
                    self.elements@,
                    at as int,
                    properties@,
                );
            }
        }
        if !texts_hold(&self.dirty_nodes, &id) {
            self.dirty_nodes.push(self.elements[at].id.clone());
        }
        Ok(())
    }

    /// The element `element_id`, if the document has it.
    pub fn get_element(&self, element_id: &str) -> (r: Option<&InteractiveElement>)
        ensures
            r is Some <==> has_element(self.elements@, element_id@),
            r is Some ==> *r->Some_0 == self.elements@[index_of_element(
                self.elements@,
                element_id@,
            )],
    {
        let id = String::from_str(element_id);
        let at = self.find_element(&id);
        if at < self.elements.len() {
            Some(&self.elements[at])
        } else {
            None
        }
    }

    /// Marks the element `id` as awaiting a repaint.
    pub fn mark_dirty(&mut self, id: &String)
        ensures
            final(self).dirty_nodes@ == marked_dirty(old(self).dirty_nodes@, *id),
            final(self).elements == old(self).elements,
            final(self).animations == old(self).animations,
            final(self).data_sources == old(self).data_sources,
            final(self).viewport == old(self).viewport,
    {
        if !texts_hold(&self.dirty_nodes, id) {
            self.dirty_nodes.push(id.clone());
        }
    }
}

} // verus!
