//! The handlers that elements have for clicks and hovers, and what running
//! them does to the document.
//!
//! A handler is known by its id. It reads its parameters, which are texts:
//! `toggle_visibility`, `change_color` and `update_text` act on the element
//! named by `target`, `trigger_animation` on the animation named by
//! `animation_id`, and `navigate_to` sends the host to `url`. A handler
//! whose parameter is missing does nothing.

use crate::changes::ElementChange;
use crate::document::{
    index_of_element, AnimationEntry, DocumentState, EventHandler, InteractiveElement,
};
use crate::error::{fails_with, WASMError};
use crate::events::InteractionEvent;
use crate::kinds::InteractionType;
use crate::properties::{find_property, position_of, text_named, text_property, Property, PropertyValue};
use crate::render::{change_views, ChangeView};
use vstd::prelude::*;
use vstd::string::*;

verus! {

/// What a handler is set to do.
pub enum HandlerPlan {
    /// The handler is not known.
    Unknown,
    /// The handler is known and has nothing to act on.
    Nothing,
    /// Show the element if it is hidden, hide it if it is shown.
    Toggle { target: String },
    ChangeColor { target: String, color: String },
    UpdateText { target: String, text: String },
    TriggerAnimation { animation_id: String },
    NavigateTo { url: String },
}

/// What a handler is set to do, as a contract writes it down.
pub enum PlanView {
    Unknown,
    Nothing,
    Toggle { target: Seq<char> },
    ChangeColor { target: Seq<char>, color: Seq<char> },
    UpdateText { target: Seq<char>, text: Seq<char> },
    TriggerAnimation { animation_id: Seq<char> },
    NavigateTo { url: Seq<char> },
}

impl View for HandlerPlan {
    type V = PlanView;

    open spec fn view(&self) -> PlanView {
        match self {
            HandlerPlan::Unknown => PlanView::Unknown,
            HandlerPlan::Nothing => PlanView::Nothing,
            HandlerPlan::Toggle { target } => PlanView::Toggle { target: target@ },
            HandlerPlan::ChangeColor { target, color } => PlanView::ChangeColor {
                target: target@,
                color: color@,
            },
            HandlerPlan::UpdateText { target, text } => PlanView::UpdateText {
                target: target@,
                text: text@,
            },
            HandlerPlan::TriggerAnimation { animation_id } => PlanView::TriggerAnimation {
                animation_id: animation_id@,
            },
            HandlerPlan::NavigateTo { url } => PlanView::NavigateTo { url: url@ },
        }
    }
}

/// The text of the first parameter named `name`, if that parameter is a
/// text.
pub open spec fn text_parameter(parameters: Seq<Property>, name: Seq<char>) -> Option<Seq<char>> {
    let at = position_of(parameters, name);
    if at < parameters.len() {
        match parameters[at].value {
            PropertyValue::Text(t) => Some(t@),
            _ => None,
        }
    } else {
        None
    }
}

/// The text `found`, or `otherwise` when there is none.
pub open spec fn text_or(found: Option<Seq<char>>, otherwise: Seq<char>) -> Seq<char> {
    match found {
        Some(t) => t,
        None => otherwise,
    }
}

/// What the handler `handler` is set to do.
pub open spec fn plan_of(handler: EventHandler) -> PlanView {
    let id = handler.handler_id@;
    let parameters = handler.parameters@;
    let target = text_parameter(parameters, "target"@);
    if id == "toggle_visibility"@ {
        match target {
            Some(t) => PlanView::Toggle { target: t },
            None => PlanView::Nothing,
        }
    } else if id == "change_color"@ {
        match target {
            Some(t) => PlanView::ChangeColor {
                target: t,
                color: text_or(text_parameter(parameters, "color"@), "#ff0000"@),
            },
            None => PlanView::Nothing,
        }
    } else if id == "update_text"@ {
        match target {
            Some(t) => PlanView::UpdateText {
                target: t,
                text: text_or(text_parameter(parameters, "text"@), "Updated text"@),
            },
            None => PlanView::Nothing,
        }
    } else if id == "trigger_animation"@ {
        match text_parameter(parameters, "animation_id"@) {
            Some(a) => PlanView::TriggerAnimation { animation_id: a },
            None => PlanView::Nothing,
        }
    } else if id == "navigate_to"@ {
        match text_parameter(parameters, "url"@) {
            Some(u) => PlanView::NavigateTo { url: u },
            None => PlanView::Nothing,
        }
    } else {
        PlanView::Unknown
    }
}

/// Whether an animation of the document has the id `id`.
pub open spec fn has_animation(animations: Seq<AnimationEntry>, id: Seq<char>) -> bool {
    exists|i: int| 0 <= i < animations.len() && (#[trigger] animations[i]).id@ == id
}

/// An update of one text property of one element.
pub open spec fn text_update(element_id: Seq<char>, name: Seq<char>, text: Seq<char>) -> ChangeView {
    ChangeView::Update { element_id, properties: seq![text_named(name, text)] }
}

/// What carrying out `plan` does: which elements are shown afterwards, and
/// the changes for the host. `shown` tells of each element of `elements`
/// whether it is shown before.
pub open spec fn effect_of(
    elements: Seq<InteractiveElement>,
    shown: Seq<bool>,
    animations: Seq<AnimationEntry>,
    plan: PlanView,
) -> (Seq<bool>, Seq<ChangeView>) {
    match plan {
        PlanView::Toggle { target } => {
            let at = index_of_element(elements, target);
            if at < elements.len() {
                (
                    shown.update(at, !shown[at]),
                    seq![
                        text_update(
                            target,
                            "style.display"@,
                            if !shown[at] {
                                "block"@
                            } else {
                                "none"@
                            },
                        ),
                    ],
                )
            } else {
                (shown, Seq::empty())
            }
        },
        PlanView::ChangeColor { target, color } => (
            shown,
            seq![text_update(target, "style.backgroundColor"@, color)],
        ),
        PlanView::UpdateText { target, text } => (
            shown,
            seq![text_update(target, "textContent"@, text)],
        ),
        PlanView::TriggerAnimation { animation_id } => (
            shown,
            if has_animation(animations, animation_id) {
                seq![ChangeView::AnimationUpdate { animation_id, progress: 0, values: Seq::empty() }]
            } else {
                Seq::empty()
            },
        ),
        PlanView::NavigateTo { url } => (
            shown,
            seq![text_update("navigation"@, "navigate_to"@, url)],
        ),
        _ => (shown, Seq::empty()),
    }
}

/// What running the handlers for events named `name` among `handlers` does,
/// in order.
pub open spec fn effect_of_all(
    elements: Seq<InteractiveElement>,
    shown: Seq<bool>,
    animations: Seq<AnimationEntry>,
    handlers: Seq<EventHandler>,
    name: Seq<char>,
) -> (Seq<bool>, Seq<ChangeView>)
    decreases handlers.len(),
{
    if handlers.len() == 0 {
        (shown, Seq::empty())
    } else {
        let before = effect_of_all(elements, shown, animations, handlers.drop_last(), name);
        if handlers.last().event_type@ == name {
            let last = effect_of(elements, before.0, animations, plan_of(handlers.last()));
            (last.0, before.1 + last.1)
        } else {
            before
        }
    }
}

/// Whether every handler for events named `name` among `handlers` is known.
pub open spec fn all_known(handlers: Seq<EventHandler>, name: Seq<char>) -> bool {
    forall|i: int|
        0 <= i < handlers.len() && (#[trigger] handlers[i]).event_type@ == name ==> !(plan_of(
            handlers[i],
        ) is Unknown)
}

/// The name under which handlers listen for events of kind `kind`: clicks
/// and hovers run handlers, nothing else does.
pub open spec fn handler_name(kind: InteractionType) -> Option<Seq<char>> {
    match kind {
        InteractionType::Click => Some("click"@),
        InteractionType::Hover => Some("hover"@),
        _ => None,
    }
}

/// Whether the event runs handlers: it is a click or a hover on an element
/// of the document.
pub open spec fn runs_handlers(document: DocumentState, event: InteractionEvent) -> bool {
    handler_name(event.event_type) is Some && event.target_element is Some
        && index_of_element(document.elements@, event.target_element->Some_0@)
        < document.elements@.len()
}

/// The handlers of the target of the event.
pub open spec fn handlers_of_target(document: DocumentState, event: InteractionEvent) -> Seq<
    EventHandler,
> {
    document.elements@[index_of_element(
        document.elements@,
        event.target_element->Some_0@,
    )].event_handlers@
}

/// Whether the event would run a handler that is not known.
pub open spec fn blocked(document: DocumentState, event: InteractionEvent) -> bool {
    runs_handlers(document, event) && !all_known(
        handlers_of_target(document, event),
        handler_name(event.event_type)->Some_0,
    )
}

/// The changes that show the host that the event was taken: a click makes
/// its target shrink and grow back, a hover dims it and shows a pointer.
pub open spec fn feedback(kind: InteractionType, target: Seq<char>) -> Seq<ChangeView> {
    match kind {
        InteractionType::Click => seq![
            text_update(target, "style.transform"@, "scale(0.95)"@),
            text_update(target, "style.transform"@, "scale(1.0)"@),
        ],
        InteractionType::Hover => seq![
            ChangeView::Update {
                element_id: target,
                properties: seq![
                    text_named("style.opacity"@, "0.8"@),
                    text_named("style.cursor"@, "pointer"@),
                ],
            },
        ],
        _ => Seq::empty(),
    }
}

/// Which elements are shown.
pub open spec fn shown_of(elements: Seq<InteractiveElement>) -> Seq<bool> {
    Seq::new(elements.len(), |j: int| elements[j].visible)
}

/// What the event does: which elements are shown afterwards, and the
/// changes for the host. An event that runs handlers runs those of its
/// target that listen for its kind, in their order, and then shows that it
/// was taken; any other event does nothing.
pub open spec fn processed(document: DocumentState, event: InteractionEvent) -> (
    Seq<bool>,
    Seq<ChangeView>,
) {
    if runs_handlers(document, event) {
        let run = effect_of_all(
            document.elements@,
            shown_of(document.elements@),
            document.animations@,
            handlers_of_target(document, event),
            handler_name(event.event_type)->Some_0,
        );
        (run.0, run.1 + feedback(event.event_type, event.target_element->Some_0@))
    } else {
        (shown_of(document.elements@), Seq::empty())
    }
}

/// Whether `after` is `before` but for which elements are shown, which
/// `shown` tells.
pub open spec fn same_but_shown(
    before: Seq<InteractiveElement>,
    after: Seq<InteractiveElement>,
    shown: Seq<bool>,
) -> bool {
    &&& after.len() == before.len()
    &&& shown.len() == before.len()
    &&& forall|j: int|
        0 <= j < before.len() ==> {
            &&& (#[trigger] after[j]).id == before[j].id
            &&& after[j].element_type == before[j].element_type
            &&& after[j].properties == before[j].properties
            &&& after[j].children == before[j].children
            &&& after[j].event_handlers == before[j].event_handlers
            &&& after[j].transform == before[j].transform
            &&& after[j].visible == shown[j]
        }
}

/// Elements that differ only in which are shown are found under the same
/// ids.
pub proof fn lemma_same_index(
    before: Seq<InteractiveElement>,
    after: Seq<InteractiveElement>,
    shown: Seq<bool>,
    id: Seq<char>,
)
    requires
        same_but_shown(before, after, shown),
    ensures
        index_of_element(after, id) == index_of_element(before, id),
    decreases before.len(),
{
    if before.len() > 0 {
        assert(after[0].id == before[0].id);
        if before[0].id@ != id {
            let b = before.drop_first();
            let a = after.drop_first();
            let s = shown.drop_first();
            assert forall|j: int| 0 <= j < b.len() implies {
                &&& (#[trigger] a[j]).id == b[j].id
                &&& a[j].element_type == b[j].element_type
                &&& a[j].properties == b[j].properties
                &&& a[j].children == b[j].children
                &&& a[j].event_handlers == b[j].event_handlers
                &&& a[j].transform == b[j].transform
                &&& a[j].visible == s[j]
            } by {
                assert(a[j] == after[j + 1]);
                assert(b[j] == before[j + 1]);
            }
            lemma_same_index(b, a, s, id);
        }
    }
}

/// The text of the first parameter named `name`, if that parameter is a
/// text.
pub fn find_text_parameter(parameters: &Vec<Property>, name: &str) -> (r: Option<String>)
    ensures
        r is Some <==> text_parameter(parameters@, name@) is Some,
        r is Some ==> r->Some_0@ == text_parameter(parameters@, name@)->Some_0,
{
    let wanted = String::from_str(name);
    let at = find_property(parameters, &wanted);
    if at < parameters.len() {
        match &parameters[at].value {
            PropertyValue::Text(t) => Some(t.clone()),
            _ => None,
        }
    } else {
        None
    }
}

/// The text of the parameter named `name`, or `otherwise` when there is
/// none.
fn text_parameter_or(parameters: &Vec<Property>, name: &str, otherwise: &str) -> (r: String)
    ensures
        r@ == text_or(text_parameter(parameters@, name@), otherwise@),
{
    match find_text_parameter(parameters, name) {
        Some(t) => t,
        None => String::from_str(otherwise),
    }
}

/// Tells what a handler is set to do.
pub fn plan_handler(handler: &EventHandler) -> (r: HandlerPlan)
    ensures
        r@ == plan_of(*handler),
{
    let id = &handler.handler_id;
    let parameters = &handler.parameters;
    if *id == String::from_str("toggle_visibility") {
        match find_text_parameter(parameters, "target") {
            Some(target) => HandlerPlan::Toggle { target },
            None => HandlerPlan::Nothing,
        }
    } else if *id == String::from_str("change_color") {
        match find_text_parameter(parameters, "target") {
            Some(target) => HandlerPlan::ChangeColor {
                target,
                color: text_parameter_or(parameters, "color", "#ff0000"),
            },
            None => HandlerPlan::Nothing,
        }
    } else if *id == String::from_str("update_text") {
        match find_text_parameter(parameters, "target") {
            Some(target) => HandlerPlan::UpdateText {
                target,
                text: text_parameter_or(parameters, "text", "Updated text"),
            },
            None => HandlerPlan::Nothing,
        }
    } else if *id == String::from_str("trigger_animation") {
        match find_text_parameter(parameters, "animation_id") {
            Some(animation_id) => HandlerPlan::TriggerAnimation { animation_id },
            None => HandlerPlan::Nothing,
        }
    } else if *id == String::from_str("navigate_to") {
        match find_text_parameter(parameters, "url") {
            Some(url) => HandlerPlan::NavigateTo { url },
            None => HandlerPlan::Nothing,
        }
    } else {
        HandlerPlan::Unknown
    }
}

/// Tells whether an animation of the document has the id `id`.
pub fn animation_exists(animations: &Vec<AnimationEntry>, id: &String) -> (r: bool)
    ensures
        r == has_animation(animations@, id@),
{
    let mut i: usize = 0;
    while i < animations.len()
        invariant
            i <= animations.len(),
            forall|j: int| 0 <= j < i ==> (#[trigger] animations@[j]).id@ != id@,
        decreases animations.len() - i,
    {
        if animations[i].id == *id {
            return true;
        }
        i += 1;
    }
    false
}

/// Builds an update of one text property of one element.
fn update_text_of(element_id: String, name: &str, text: &str) -> (r: ElementChange)
    ensures
        r@ == text_update(element_id@, name@, text@),
{
    let mut properties: Vec<Property> = Vec::new();
    properties.push(text_property(name, text));
    let change = ElementChange::Update { element_id, properties };
    assert(change@->Update_properties =~= seq![text_named(name@, text@)]);
    change
}

/// Carries out what a handler is set to do.
fn carry_out(document: &mut DocumentState, plan: HandlerPlan, changes: &mut Vec<ElementChange>)
    ensures
        same_but_shown(
            old(document).elements@,
            final(document).elements@,
            effect_of(
                old(document).elements@,
                shown_of(old(document).elements@),
                old(document).animations@,
                plan@,
            ).0,
        ),
        final(document).animations == old(document).animations,
        final(document).data_sources == old(document).data_sources,
        final(document).dirty_nodes == old(document).dirty_nodes,
        final(document).viewport == old(document).viewport,
        change_views(final(changes)@) == change_views(old(changes)@) + effect_of(
            old(document).elements@,
            shown_of(old(document).elements@),
            old(document).animations@,
            plan@,
        ).1,
{
    let ghost before = change_views(changes@);
    let ghost shown = shown_of(document.elements@);
    assert(before + Seq::<ChangeView>::empty() =~= before);
    match plan {
        HandlerPlan::Toggle { target } => {
            let at = document.find_element(&target);
            if at < document.elements.len() {
                let visible = !document.elements[at].visible;
                document.elements[at].visible = visible;
                let change = update_text_of(
                    target,
                    "style.display",
                    if visible {
                        "block"
                    } else {
                        "none"
                    },
                );
                changes.push(change);
                assert(change_views(changes@) =~= before + seq![change@]);
                assert(shown.update(at as int, visible).len() == shown.len());
            }
        },
        HandlerPlan::ChangeColor { target, color } => {
            let change = update_text_of(target, "style.backgroundColor", color.as_str());
            changes.push(change);
            assert(change_views(changes@) =~= before + seq![change@]);
        },
        HandlerPlan::UpdateText { target, text } => {
            let change = update_text_of(target, "textContent", text.as_str());
            changes.push(change);
            assert(change_views(changes@) =~= before + seq![change@]);
        },
        HandlerPlan::TriggerAnimation { animation_id } => {
            if animation_exists(&document.animations, &animation_id) {
                let change = ElementChange::AnimationUpdate {
                    animation_id,
                    progress: 0,
                    values: Vec::new(),
                };
                assert(change@->AnimationUpdate_values =~= Seq::empty());
                changes.push(change);
                assert(change_views(changes@) =~= before + seq![change@]);
            }
        },
        HandlerPlan::NavigateTo { url } => {
            let change = update_text_of(String::from_str("navigation"), "navigate_to", url.as_str());
            changes.push(change);
            assert(change_views(changes@) =~= before + seq![change@]);
        },
        _ => {},
    }
}

/// The name under which handlers listen for events of kind `kind`.
fn name_for(kind: InteractionType) -> (r: Option<&'static str>)
    ensures
        r is Some <==> handler_name(kind) is Some,
        r is Some ==> r->Some_0@ == handler_name(kind)->Some_0,
{
    match kind {
        InteractionType::Click => Some("click"),
        InteractionType::Hover => Some("hover"),
        _ => None,
    }
}

/// The processor of the handlers of elements.
pub struct EventProcessor;

impl EventProcessor {
    /// A processor. It holds nothing: all that it works on is handed to
    /// it.
    pub fn new() -> (r: Self) {
        EventProcessor
    }

    /// Finds the element whose handlers the event runs, if it runs any.
    fn target_of(&self, document: &DocumentState, event: &InteractionEvent) -> (r: Option<
        (usize, String),
    >)
        ensures
            r is Some <==> runs_handlers(*document, *event),
            r is Some ==> r->Some_0.0 == index_of_element(
                document.elements@,
                event.target_element->Some_0@,
            ) && r->Some_0.0 < document.elements@.len() && r->Some_0.1@ == handler_name(
                event.event_type,
            )->Some_0,
    {
        match name_for(event.event_type) {
            Some(name) => match &event.target_element {
                Some(target) => {
                    let at = document.find_element(target);
                    if at < document.elements.len() {
                        Some((at, String::from_str(name)))
                    } else {
                        None
                    }
                },
                None => None,
            },
            None => None,
        }
    }

    /// Refuses the event if it would run a handler that is not known.
    pub fn check_event(&self, document: &DocumentState, event: &InteractionEvent) -> (r: Result<
        (),
        WASMError,
    >)
        ensures
            blocked(*document, *event) ==> fails_with(r, "UNKNOWN_HANDLER"@),
            !blocked(*document, *event) ==> r is Ok,
    {
        match self.target_of(document, event) {
            Some((at, name)) => {
                let handlers = &document.elements[at].event_handlers;
                let mut i: usize = 0;
                while i < handlers.len()
                    invariant
                        i <= handlers.len(),
                        runs_handlers(*document, *event),
                        handlers@ == handlers_of_target(*document, *event),
                        name@ == handler_name(event.event_type)->Some_0,
                        forall|j: int|
                            0 <= j < i && (#[trigger] handlers@[j]).event_type@ == name@ ==> !(
                            plan_of(handlers@[j]) is Unknown),
                    decreases handlers.len() - i,
                {
                    if handlers[i].event_type == name {
                        match plan_handler(&handlers[i]) {
                            HandlerPlan::Unknown => {
                                proof {
                                    let run = handlers_of_target(*document, *event);
                                    assert(run == handlers@);
                                    assert(run[i as int].event_type@ == name@ && plan_of(
                                        run[i as int],
                                    ) is Unknown);
                                }
                                return Err(
                                    WASMError::new("UNKNOWN_HANDLER", "Unknown event handler"),
                                );
                            },
                            _ => {},
                        }
                    }
                    i += 1;
                }
                Ok(())
            },
            None => Ok(()),
        }
    }

    /// Runs the handlers that the event calls for and hands back the
    /// changes for the host.
    ///
    /// An event that would run a handler that is not known is refused, and
    /// the document stays as it is. Running handlers changes nothing in the
    /// document but which elements are shown.
    pub fn process_event(&self, document: &mut DocumentState, event: &InteractionEvent) -> (r:
        Result<Vec<ElementChange>, WASMError>)
        ensures
            blocked(*old(document), *event) ==> fails_with(r, "UNKNOWN_HANDLER"@) && *final(document) == *old(document),
            !blocked(*old(document), *event) ==> r is Ok && change_views(r->Ok_0@) == processed(
                *old(document),
                *event,
            ).1 && same_but_shown(
                old(document).elements@,
                final(document).elements@,
                processed(*old(document), *event).0,
            ),
            final(document).animations == old(document).animations,
            final(document).data_sources == old(document).data_sources,
            final(document).dirty_nodes == old(document).dirty_nodes,
            final(document).viewport == old(document).viewport,
    {
        match self.check_event(document, event) {
            Err(e) => {
                return Err(e);
            },
            Ok(_) => {},
        }
        let mut changes: Vec<ElementChange> = Vec::new();
        let ghost elements = document.elements@;
        let ghost animations = document.animations@;
        assert(change_views(changes@) =~= Seq::<ChangeView>::empty());
        match self.target_of(document, event) {
            Some((at, name)) => {
                let ghost handlers = elements[at as int].event_handlers@;
                let count = document.elements[at].event_handlers.len();
                let mut i: usize = 0;
                assert(handlers.take(0) =~= Seq::<EventHandler>::empty());
                while i < count
                    invariant
                        i <= count,
                        count == handlers.len(),
                        at < elements.len(),
                        handlers == elements[at as int].event_handlers@,
                        same_but_shown(
                            elements,
                            document.elements@,
                            effect_of_all(
                                elements,
                                shown_of(elements),
                                animations,
                                handlers.take(i as int),
                                name@,
                            ).0,
                        ),
                        change_views(changes@) == effect_of_all(
                            elements,
                            shown_of(elements),
                            animations,
                            handlers.take(i as int),
                            name@,
                        ).1,
                        document.animations@ == animations,
                        document.animations == old(document).animations,
                        document.data_sources == old(document).data_sources,
                        document.dirty_nodes == old(document).dirty_nodes,
                        document.viewport == old(document).viewport,
                    decreases count - i,
                {
                    let ghost so_far = effect_of_all(
                        elements,
                        shown_of(elements),
                        animations,
                        handlers.take(i as int),
                        name@,
                    );
                    proof {
                        let grown = handlers.take(i as int + 1);
                        assert(grown.drop_last() =~= handlers.take(i as int));
                        assert(grown.last() == handlers[i as int]);
                        assert(document.elements@[at as int].event_handlers
                            == elements[at as int].event_handlers);
                    }
                    let handler = &document.elements[at].event_handlers[i];
                    if handler.event_type == name {
                        let plan = plan_handler(handler);
                        let ghost current = document.elements@;
                        proof {
                            assert(shown_of(current) =~= so_far.0);
                            assert forall|id: Seq<char>|
                                index_of_element(current, id) == index_of_element(
                                    elements,
                                    id,
                                ) by {
                                lemma_same_index(elements, current, so_far.0, id);
                            }
                        }
                        carry_out(document, plan, &mut changes);
                        proof {
                            let step = effect_of(elements, so_far.0, animations, plan@);
                            let local = effect_of(current, shown_of(current), animations, plan@);
                            assert(local.1 == step.1);
                            assert(local.0 =~= step.0);
                        }
                    }
                    i += 1;
                }
                assert(handlers.take(count as int) =~= handlers);
                let ghost run = effect_of_all(
                    elements,
                    shown_of(elements),
                    animations,
                    handlers,
                    name@,
                );
                match &event.target_element {
                    Some(target) => match event.event_type {
                        InteractionType::Click => {
                            let first = update_text_of(
                                target.clone(),
                                "style.transform",
                                "scale(0.95)",
                            );
                            let second = update_text_of(
                                target.clone(),
                                "style.transform",
                                "scale(1.0)",
                            );
                            changes.push(first);
                            changes.push(second);
                            assert(change_views(changes@) =~= run.1 + feedback(
                                event.event_type,
                                target@,
                            ));
                        },
                        InteractionType::Hover => {
                            let mut properties: Vec<Property> = Vec::new();
                            properties.push(text_property("style.opacity", "0.8"));
                            properties.push(text_property("style.cursor", "pointer"));
                            let change = ElementChange::Update {
                                element_id: target.clone(),
                                properties,
                            };
                            assert(change@->Update_properties =~= seq![
                                text_named("style.opacity"@, "0.8"@),
                                text_named("style.cursor"@, "pointer"@),
                            ]);
                            changes.push(change);
                            assert(change_views(changes@) =~= run.1 + feedback(
                                event.event_type,
                                target@,
                            ));
                        },
                        _ => {},
                    },
                    None => {},
                }
            },
            None => {
                assert(same_but_shown(elements, document.elements@, shown_of(elements)));
            },
        }
        Ok(changes)
    }
}

} // verus!
