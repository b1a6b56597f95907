//! Element kinds and the changes that the runtime hands to the host.

use crate::properties::Property;
use vstd::prelude::*;
use vstd::string::*;

verus! {

/// The kinds of element.
#[derive(Clone, Copy, Debug, PartialEq, Eq, Structural)]
pub enum ElementType {
    Chart,
    Animation,
    Interactive,
    Vector,
    Text,
    Image,
    Container,
}

/// The kind of element that the host calls `name`, if it calls one so.
pub open spec fn element_type_called(name: Seq<char>) -> Option<ElementType> {
    if name == "chart"@ {
        Some(ElementType::Chart)
    } else if name == "animation"@ {
        Some(ElementType::Animation)
    } else if name == "interactive"@ {
        Some(ElementType::Interactive)
    } else if name == "vector"@ {
        Some(ElementType::Vector)
    } else if name == "text"@ {
        Some(ElementType::Text)
    } else if name == "image"@ {
        Some(ElementType::Image)
    } else if name == "container"@ {
        Some(ElementType::Container)
    } else {
        None
    }
}

impl ElementType {
    /// The kind of element that the host calls `name`, if it calls one so.
    pub fn from_host_name(name: &str) -> (r: Option<ElementType>)
        ensures
            r == element_type_called(name@),
    {
        if crate::properties::same_text(name, "chart") {
            Some(ElementType::Chart)
        } else if crate::properties::same_text(name, "animation") {
            Some(ElementType::Animation)
        } else if crate::properties::same_text(name, "interactive") {
            Some(ElementType::Interactive)
        } else if crate::properties::same_text(name, "vector") {
            Some(ElementType::Vector)
        } else if crate::properties::same_text(name, "text") {
            Some(ElementType::Text)
        } else if crate::properties::same_text(name, "image") {
            Some(ElementType::Image)
        } else if crate::properties::same_text(name, "container") {
            Some(ElementType::Container)
        } else {
            None
        }
    }
}

/// The markup tag that shows an element of kind `kind`.
pub open spec fn tag_of(kind: ElementType) -> Seq<char> {
    match kind {
        ElementType::Vector => "svg"@,
        ElementType::Text => "span"@,
        ElementType::Image => "img"@,
        _ => "div"@,
    }
}

impl ElementType {
    /// The markup tag that shows an element of this kind.
    pub fn to_tag(&self) -> (r: String)
        ensures
            r@ == tag_of(*self),
    {
        match self {
            ElementType::Vector => String::from_str("svg"),
            ElementType::Text => String::from_str("span"),
            ElementType::Image => String::from_str("img"),
            _ => String::from_str("div"),
        }
    }
}

/// One change to the document, for the host to apply.
#[derive(Debug)]
pub enum ElementChange {
    Create { element_id: String, element_type: ElementType, parent_id: Option<String> },
    Update { element_id: String, properties: Vec<Property> },
    Remove { element_id: String },
    AnimationUpdate {
        animation_id: String,
        /// Eased progress in thousandths.
        progress: i64,
        values: Vec<Property>,
    },
}

} // verus!
