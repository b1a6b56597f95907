//! A sandboxed interaction-and-animation runtime for embedded interactive
//! content, with every rule stated as a contract and proved.
//!
//! The [`engine`] admits input against the budget of its sandbox
//! ([`security`]), adapts it to the device ([`responsive`]), follows touches
//! for gestures ([`gesture`], [`motion`]), lets the interaction manager
//! handle it ([`interaction`], [`responses`]) and turns what happened into a
//! render update ([`render`]). On every frame it advances the running
//! animations ([`animation`]).
//!
//! All quantities are integers. Times are whole milliseconds, positions are
//! whole layout units, speeds are units per second, and fractions (progress,
//! scale factors, sensitivities, confidence) are counted in thousandths, as
//! are the numbers that properties hold.
//!
//! Where entries are told apart by a name or an id (the elements and data
//! sources of a document, the properties of an element or a keyframe, the
//! running animations, the gestures in the making), they are kept in a list
//! in the order in which they came, and the engine keeps each name or id to
//! one entry.

pub mod animation;
pub mod animation_laws;
pub mod changes;
pub mod clock;
pub mod document;
pub mod engine;
pub mod error;
pub mod events;
pub mod gesture;
pub mod gesture_laws;
pub mod handlers;
pub mod interaction;
pub mod json;
pub mod keyframes;
pub mod kinds;
pub mod motion;
pub mod numeric;
pub mod properties;
pub mod render;
pub mod responses;
pub mod responsive;
pub mod security;
pub mod seqs;
pub mod text;
