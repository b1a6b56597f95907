//! Keyframes in which every property is named once.
//!
//! A keyframe holds its properties as a list. Where no name occurs twice in
//! such a list, the values that a tick reports name each property once too,
//! and starting, advancing and stopping animations keeps it so.

use crate::animation::{
    advance_one, advanced, index_of_animation, interpolated, lemma_bracket_from,
    lemma_index_of_animation, previous_index, started, stopped, ActiveAnimation, Animation,
    Keyframe,
};
use crate::document::{
    lemma_merged_of_names_once, lemma_with_properties_names_once, merged, names_once,
    set_properties,
};
use crate::properties::{copy_properties, Property};
use vstd::prelude::*;

verus! {

/// Whether no keyframe of `keyframes` names a property twice.
pub open spec fn named_once(keyframes: Seq<Keyframe>) -> bool {
    forall|k: int| 0 <= k < keyframes.len() ==> names_once((#[trigger] keyframes[k]).properties@)
}

/// Whether no keyframe of a running animation names a property twice.
pub open spec fn all_named_once(active: Seq<ActiveAnimation>) -> bool {
    forall|i: int|
        0 <= i < active.len() ==> named_once((#[trigger] active[i]).animation.keyframes@)
}

/// Whether `keyframes` are the keyframes `given` with the properties of
/// each merged: the times stay, and of several properties with one name the
/// last counts, at the place of the first.
pub open spec fn merged_from(keyframes: Seq<Keyframe>, given: Seq<Keyframe>) -> bool {
    &&& keyframes.len() == given.len()
    &&& forall|k: int|
        0 <= k < given.len() ==> (#[trigger] keyframes[k]).time == given[k].time
            && keyframes[k].properties@ == merged(given[k].properties@)
}

/// Merged keyframes name no property twice.
pub proof fn lemma_merged_named_once(keyframes: Seq<Keyframe>, given: Seq<Keyframe>)
    requires
        merged_from(keyframes, given),
    ensures
        named_once(keyframes),
{
    assert forall|k: int| 0 <= k < keyframes.len() implies names_once(
        (#[trigger] keyframes[k]).properties@,
    ) by {
        lemma_with_properties_names_once(Seq::empty(), given[k].properties@);
    }
}

/// Merging changes nothing in keyframes that name no property twice.
pub proof fn lemma_merged_is_same(keyframes: Seq<Keyframe>, given: Seq<Keyframe>)
    requires
        merged_from(keyframes, given),
        named_once(given),
    ensures
        forall|k: int|
            0 <= k < given.len() ==> (#[trigger] keyframes[k]).properties@
                == given[k].properties@,
{
    assert forall|k: int| 0 <= k < given.len() implies (#[trigger] keyframes[k]).properties@
        == given[k].properties@ by {
        assert(names_once(given[k].properties@));
        lemma_merged_of_names_once(given[k].properties@);
    }
}

/// Merges the properties of each keyframe.
pub fn merge_keyframes(keyframes: &Vec<Keyframe>) -> (r: Vec<Keyframe>)
    ensures
        merged_from(r@, keyframes@),
        named_once(r@),
{
    let mut out: Vec<Keyframe> = Vec::new();
    let mut i: usize = 0;
    while i < keyframes.len()
        invariant
            i <= keyframes.len(),
            out@.len() == i,
            forall|k: int|
                0 <= k < i ==> (#[trigger] out@[k]).time == keyframes@[k].time
                    && out@[k].properties@ == merged(keyframes@[k].properties@),
        decreases keyframes.len() - i,
    {
        let mut properties: Vec<Property> = Vec::new();
        set_properties(&mut properties, copy_properties(&keyframes[i].properties));
        out.push(Keyframe { time: keyframes[i].time, properties });
        i += 1;
    }
    proof {
        lemma_merged_named_once(out@, keyframes@);
    }
    out
}

/// What a tick reports names each property once, where the keyframes do.
pub proof fn lemma_interpolated_names_once(keyframes: Seq<Keyframe>, progress: int)
    requires
        named_once(keyframes),
    ensures
        names_once(interpolated(keyframes, progress)),
{
    if keyframes.len() > 0 {
        lemma_bracket_from(keyframes, progress, 0);
        let prev = keyframes[previous_index(keyframes, progress)];
        let values = interpolated(keyframes, progress);
        assert(names_once(prev.properties@));
        assert forall|i: int, j: int| 0 <= i < j < values.len() implies values[i].name@
            != values[j].name@ by {
            assert(values[i].name@ == prev.properties@[i].name@);
            assert(values[j].name@ == prev.properties@[j].name@);
        }
    }
}

/// Starting an animation whose keyframes name no property twice keeps the
/// running animations so.
pub proof fn lemma_started_named_once(active: Seq<ActiveAnimation>, animation: Animation, now: u64)
    requires
        all_named_once(active),
        named_once(animation.keyframes@),
    ensures
        all_named_once(started(active, animation, now)),
{
    lemma_index_of_animation(active, animation.id@);
    let after = started(active, animation, now);
    let at = index_of_animation(active, animation.id@);
    assert forall|i: int| 0 <= i < after.len() implies named_once(
        (#[trigger] after[i]).animation.keyframes@,
    ) by {
        if i != at {
            assert(after[i] == active[i]);
        }
    }
}

/// A tick keeps the keyframes of the running animations as they are.
pub proof fn lemma_advanced_named_once(active: Seq<ActiveAnimation>, timestamp: u64)
    requires
        all_named_once(active),
    ensures
        all_named_once(advanced(active, timestamp)),
    decreases active.len(),
{
    if active.len() > 0 {
        let fewer = active.drop_last();
        let rest = advanced(fewer, timestamp);
        assert forall|i: int| 0 <= i < fewer.len() implies named_once(
            (#[trigger] fewer[i]).animation.keyframes@,
        ) by {
            assert(fewer[i] == active[i]);
        }
        lemma_advanced_named_once(fewer, timestamp);
        let after = advanced(active, timestamp);
        assert forall|i: int| 0 <= i < after.len() implies named_once(
            (#[trigger] after[i]).animation.keyframes@,
        ) by {
            if i < rest.len() {
                assert(after[i] == rest[i]);
            } else {
                assert(advance_one(active.last(), timestamp) is Some);
                assert(after[i].animation == active[active.len() - 1].animation);
            }
        }
    }
}

/// Stopping an animation keeps the keyframes of the others as they are.
pub proof fn lemma_stopped_named_once(active: Seq<ActiveAnimation>, id: Seq<char>)
    requires
        all_named_once(active),
    ensures
        all_named_once(stopped(active, id)),
    decreases active.len(),
{
    if active.len() > 0 {
        let fewer = active.drop_last();
        let rest = stopped(fewer, id);
        assert forall|i: int| 0 <= i < fewer.len() implies named_once(
            (#[trigger] fewer[i]).animation.keyframes@,
        ) by {
            assert(fewer[i] == active[i]);
        }
        lemma_stopped_named_once(fewer, id);
        let after = stopped(active, id);
        assert forall|i: int| 0 <= i < after.len() implies named_once(
            (#[trigger] after[i]).animation.keyframes@,
        ) by {
            if i < rest.len() {
                assert(after[i] == rest[i]);
            } else {
                assert(after[i] == active[active.len() - 1]);
            }
        }
    }
}

} // verus!
