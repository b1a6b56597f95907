//! The kinds of interaction events and their names.

use crate::properties::same_text;
use vstd::prelude::*;
use vstd::string::*;

verus! {

/// The kind of an interaction event.
#[derive(Clone, Copy, Debug, PartialEq, Eq, Structural, Hash)]
pub enum InteractionType {
    Click,
    DoubleClick,
    MouseDown,
    MouseUp,
    MouseMove,
    MouseEnter,
    MouseLeave,
    Hover,
    TouchStart,
    TouchMove,
    TouchEnd,
    TouchCancel,
    Tap,
    DoubleTap,
    LongPress,
    Pinch,
    Rotate,
    Swipe,
    Pan,
    DragStart,
    Drag,
    DragEnd,
    Drop,
    Scroll,
    Wheel,
    KeyDown,
    KeyUp,
    KeyPress,
    Resize,
    Focus,
    Blur,
    DataUpdate,
    StateChange,
}

/// The family of event kinds that share one handler.
#[derive(Clone, Copy, Debug, PartialEq, Eq, Structural)]
pub enum EventFamily {
    Mouse,
    Click,
    Touch,
    Keyboard,
    Gesture,
    Scroll,
    Focus,
    Resize,
    Other,
}

/// The name under which a permission list admits the kind `kind`.
pub open spec fn interaction_name(kind: InteractionType) -> Seq<char> {
    match kind {
        InteractionType::Click => "Click"@,
        InteractionType::DoubleClick => "DoubleClick"@,
        InteractionType::MouseDown => "MouseDown"@,
        InteractionType::MouseUp => "MouseUp"@,
        InteractionType::MouseMove => "MouseMove"@,
        InteractionType::MouseEnter => "MouseEnter"@,
        InteractionType::MouseLeave => "MouseLeave"@,
        InteractionType::Hover => "Hover"@,
        InteractionType::TouchStart => "TouchStart"@,
        InteractionType::TouchMove => "TouchMove"@,
        InteractionType::TouchEnd => "TouchEnd"@,
        InteractionType::TouchCancel => "TouchCancel"@,
        InteractionType::Tap => "Tap"@,
        InteractionType::DoubleTap => "DoubleTap"@,
        InteractionType::LongPress => "LongPress"@,
        InteractionType::Pinch => "Pinch"@,
        InteractionType::Rotate => "Rotate"@,
        InteractionType::Swipe => "Swipe"@,
        InteractionType::Pan => "Pan"@,
        InteractionType::DragStart => "DragStart"@,
        InteractionType::Drag => "Drag"@,
        InteractionType::DragEnd => "DragEnd"@,
        InteractionType::Drop => "Drop"@,
        InteractionType::Scroll => "Scroll"@,
        InteractionType::Wheel => "Wheel"@,
        InteractionType::KeyDown => "KeyDown"@,
        InteractionType::KeyUp => "KeyUp"@,
        InteractionType::KeyPress => "KeyPress"@,
        InteractionType::Resize => "Resize"@,
        InteractionType::Focus => "Focus"@,
        InteractionType::Blur => "Blur"@,
        InteractionType::DataUpdate => "DataUpdate"@,
        InteractionType::StateChange => "StateChange"@,
    }
}

/// The kind of event that the host calls `name`, if it calls one so.
pub open spec fn kind_called(name: Seq<char>) -> Option<InteractionType> {
    if name == "click"@ {
        Some(InteractionType::Click)
    } else if name == "doubleclick"@ {
        Some(InteractionType::DoubleClick)
    } else if name == "mousedown"@ {
        Some(InteractionType::MouseDown)
    } else if name == "mouseup"@ {
        Some(InteractionType::MouseUp)
    } else if name == "mousemove"@ {
        Some(InteractionType::MouseMove)
    } else if name == "touchstart"@ {
        Some(InteractionType::TouchStart)
    } else if name == "touchmove"@ {
        Some(InteractionType::TouchMove)
    } else if name == "touchend"@ {
        Some(InteractionType::TouchEnd)
    } else if name == "keydown"@ {
        Some(InteractionType::KeyDown)
    } else if name == "keyup"@ {
        Some(InteractionType::KeyUp)
    } else if name == "scroll"@ {
        Some(InteractionType::Scroll)
    } else if name == "wheel"@ {
        Some(InteractionType::Wheel)
    } else if name == "focus"@ {
        Some(InteractionType::Focus)
    } else if name == "blur"@ {
        Some(InteractionType::Blur)
    } else {
        None
    }
}

/// The handler family of each event kind.
pub open spec fn family_of(kind: InteractionType) -> EventFamily {
    match kind {
        InteractionType::MouseDown | InteractionType::MouseUp | InteractionType::MouseMove => {
            EventFamily::Mouse
        },
        InteractionType::Click | InteractionType::DoubleClick => EventFamily::Click,
        InteractionType::TouchStart
        | InteractionType::TouchMove
        | InteractionType::TouchEnd
        | InteractionType::TouchCancel => EventFamily::Touch,
        InteractionType::KeyDown | InteractionType::KeyUp | InteractionType::KeyPress => {
            EventFamily::Keyboard
        },
        InteractionType::Tap
        | InteractionType::DoubleTap
        | InteractionType::LongPress
        | InteractionType::Pinch
        | InteractionType::Rotate
        | InteractionType::Swipe
        | InteractionType::Pan => EventFamily::Gesture,
        InteractionType::Scroll | InteractionType::Wheel => EventFamily::Scroll,
        InteractionType::Focus | InteractionType::Blur => EventFamily::Focus,
        InteractionType::Resize => EventFamily::Resize,
        _ => EventFamily::Other,
    }
}

/// Whether events of this kind arrive at a high rate and may be throttled.
pub open spec fn is_high_frequency(kind: InteractionType) -> bool {
    kind == InteractionType::MouseMove || kind == InteractionType::TouchMove || kind
        == InteractionType::Scroll || kind == InteractionType::Wheel
}

impl InteractionType {
    /// The kind of event that the host calls `name`, if it calls one so.
    pub fn from_host_name(name: &str) -> (r: Option<InteractionType>)
        ensures
            r == kind_called(name@),
    {
        if same_text(name, "click") {
            Some(InteractionType::Click)
        } else if same_text(name, "doubleclick") {
            Some(InteractionType::DoubleClick)
        } else if same_text(name, "mousedown") {
            Some(InteractionType::MouseDown)
        } else if same_text(name, "mouseup") {
            Some(InteractionType::MouseUp)
        } else if same_text(name, "mousemove") {
            Some(InteractionType::MouseMove)
        } else if same_text(name, "touchstart") {
            Some(InteractionType::TouchStart)
        } else if same_text(name, "touchmove") {
            Some(InteractionType::TouchMove)
        } else if same_text(name, "touchend") {
            Some(InteractionType::TouchEnd)
        } else if same_text(name, "keydown") {
            Some(InteractionType::KeyDown)
        } else if same_text(name, "keyup") {
            Some(InteractionType::KeyUp)
        } else if same_text(name, "scroll") {
            Some(InteractionType::Scroll)
        } else if same_text(name, "wheel") {
            Some(InteractionType::Wheel)
        } else if same_text(name, "focus") {
            Some(InteractionType::Focus)
        } else if same_text(name, "blur") {
            Some(InteractionType::Blur)
        } else {
            None
        }
    }

    /// The name of the kind, as permission lists write it.
    pub fn name(&self) -> (r: String)
        ensures
            r@ == interaction_name(*self),
    {
        match self {
            InteractionType::Click => String::from_str("Click"),
            InteractionType::DoubleClick => String::from_str("DoubleClick"),
            InteractionType::MouseDown => String::from_str("MouseDown"),
            InteractionType::MouseUp => String::from_str("MouseUp"),
            InteractionType::MouseMove => String::from_str("MouseMove"),
            InteractionType::MouseEnter => String::from_str("MouseEnter"),
            InteractionType::MouseLeave => String::from_str("MouseLeave"),
            InteractionType::Hover => String::from_str("Hover"),
            InteractionType::TouchStart => String::from_str("TouchStart"),
            InteractionType::TouchMove => String::from_str("TouchMove"),
            InteractionType::TouchEnd => String::from_str("TouchEnd"),
            InteractionType::TouchCancel => String::from_str("TouchCancel"),
            InteractionType::Tap => String::from_str("Tap"),
            InteractionType::DoubleTap => String::from_str("DoubleTap"),
            InteractionType::LongPress => String::from_str("LongPress"),
            InteractionType::Pinch => String::from_str("Pinch"),
            InteractionType::Rotate => String::from_str("Rotate"),
            InteractionType::Swipe => String::from_str("Swipe"),
            InteractionType::Pan => String::from_str("Pan"),
            InteractionType::DragStart => String::from_str("DragStart"),
            InteractionType::Drag => String::from_str("Drag"),
            InteractionType::DragEnd => String::from_str("DragEnd"),
            InteractionType::Drop => String::from_str("Drop"),
            InteractionType::Scroll => String::from_str("Scroll"),
            InteractionType::Wheel => String::from_str("Wheel"),
            InteractionType::KeyDown => String::from_str("KeyDown"),
            InteractionType::KeyUp => String::from_str("KeyUp"),
            InteractionType::KeyPress => String::from_str("KeyPress"),
            InteractionType::Resize => String::from_str("Resize"),
            InteractionType::Focus => String::from_str("Focus"),
            InteractionType::Blur => String::from_str("Blur"),
            InteractionType::DataUpdate => String::from_str("DataUpdate"),
            InteractionType::StateChange => String::from_str("StateChange"),
        }
    }

    /// The handler family of the kind.
    pub fn family(&self) -> (r: EventFamily)
        ensures
            r == family_of(*self),
    {
        match self {
            InteractionType::MouseDown | InteractionType::MouseUp | InteractionType::MouseMove => {
                EventFamily::Mouse
            },
            InteractionType::Click | InteractionType::DoubleClick => EventFamily::Click,
            InteractionType::TouchStart
            | InteractionType::TouchMove
            | InteractionType::TouchEnd
            | InteractionType::TouchCancel => EventFamily::Touch,
            InteractionType::KeyDown | InteractionType::KeyUp | InteractionType::KeyPress => {
                EventFamily::Keyboard
            },
            InteractionType::Tap
            | InteractionType::DoubleTap
            | InteractionType::LongPress
            | InteractionType::Pinch
            | InteractionType::Rotate
            | InteractionType::Swipe
            | InteractionType::Pan => EventFamily::Gesture,
            InteractionType::Scroll | InteractionType::Wheel => EventFamily::Scroll,
            InteractionType::Focus | InteractionType::Blur => EventFamily::Focus,
            InteractionType::Resize => EventFamily::Resize,
            _ => EventFamily::Other,
        }
    }

    /// Whether events of this kind may be throttled.
    pub fn high_frequency(&self) -> (r: bool)
        ensures
            r == is_high_frequency(*self),
    {
        match self {
            InteractionType::MouseMove
            | InteractionType::TouchMove
            | InteractionType::Scroll
            | InteractionType::Wheel => true,
            _ => false,
        }
    }
}

} // verus!
