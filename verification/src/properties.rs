//! Named property values, as keyframes and element changes carry them.

use crate::numeric::{clamp_int, saturate_i64};
use vstd::prelude::*;
use vstd::string::*;

verus! {

/// The value of a property: a number, a text or a flag. A number counts
/// thousandths of the unit of its property, so that an opacity of one half
/// is 500 and a position of 12 units is 12000.
#[derive(Debug)]
pub enum PropertyValue {
    Number(i64),
    Text(String),
    Flag(bool),
}

/// A property name with its value.
#[derive(Debug)]
pub struct Property {
    pub name: String,
    pub value: PropertyValue,
}

/// What a property value is.
pub enum ValueView {
    Number(i64),
    Text(Seq<char>),
    Flag(bool),
}

/// What a property is: its name and what its value is.
pub struct PropertyView {
    pub name: Seq<char>,
    pub value: ValueView,
}

impl View for PropertyValue {
    type V = ValueView;

    open spec fn view(&self) -> ValueView {
        match self {
            PropertyValue::Number(n) => ValueView::Number(*n),
            PropertyValue::Text(t) => ValueView::Text(t@),
            PropertyValue::Flag(b) => ValueView::Flag(*b),
        }
    }
}

impl View for Property {
    type V = PropertyView;

    open spec fn view(&self) -> PropertyView {
        PropertyView { name: self.name@, value: self.value@ }
    }
}

/// What each of a list of properties is.
pub open spec fn property_views(properties: Seq<Property>) -> Seq<PropertyView> {
    properties.map_values(|p: Property| p@)
}

/// A whole number of units in thousandths, cut off at the ends of the
/// range.
pub open spec fn in_thousandths(value: i64) -> i64 {
    clamp_int(value * 1000, i64::MIN as int, i64::MAX as int) as i64
}

/// The property named `name` with the whole number `value`.
pub open spec fn number_named(name: Seq<char>, value: i64) -> PropertyView {
    PropertyView { name, value: ValueView::Number(in_thousandths(value)) }
}

/// The property named `name` with a number of `thousandths` thousandths.
pub open spec fn fraction_named(name: Seq<char>, thousandths: i64) -> PropertyView {
    PropertyView { name, value: ValueView::Number(thousandths) }
}

/// The property named `name` with the text `text`.
pub open spec fn text_named(name: Seq<char>, text: Seq<char>) -> PropertyView {
    PropertyView { name, value: ValueView::Text(text) }
}

/// The property named `name` with the flag `flag`.
pub open spec fn flag_named(name: Seq<char>, flag: bool) -> PropertyView {
    PropertyView { name, value: ValueView::Flag(flag) }
}

/// Whether `text` starts with `prefix`.
pub open spec fn has_prefix(text: Seq<char>, prefix: Seq<char>) -> bool {
    text.len() >= prefix.len() && text.take(prefix.len() as int) == prefix
}

/// Builds a property with a whole number.
pub fn number_property(name: &str, value: i64) -> (r: Property)
    ensures
        r@ == number_named(name@, value),
{
    let thousandths = saturate_i64(value as i128 * 1000);
    Property { name: String::from_str(name), value: PropertyValue::Number(thousandths) }
}

/// Builds a property with a number given in thousandths.
pub fn fraction_property(name: &str, thousandths: i64) -> (r: Property)
    ensures
        r@ == fraction_named(name@, thousandths),
{
    Property { name: String::from_str(name), value: PropertyValue::Number(thousandths) }
}

/// Builds a property with a text.
pub fn text_property(name: &str, text: &str) -> (r: Property)
    ensures
        r@ == text_named(name@, text@),
{
    Property { name: String::from_str(name), value: PropertyValue::Text(String::from_str(text)) }
}

/// Builds a property with a flag.
pub fn flag_property(name: &str, flag: bool) -> (r: Property)
    ensures
        r@ == flag_named(name@, flag),
{
    Property { name: String::from_str(name), value: PropertyValue::Flag(flag) }
}

/// Tells whether `text` starts with `prefix`.
pub fn starts_with(text: &str, prefix: &str) -> (r: bool)
    ensures
        r == has_prefix(text@, prefix@),
{
    let length = prefix.unicode_len();
    if text.unicode_len() < length {
        return false;
    }
    let mut i: usize = 0;
    while i < length
        invariant
            i <= length,
            length == prefix@.len(),
            length <= text@.len(),
            forall|j: int| 0 <= j < i ==> text@[j] == prefix@[j],
        decreases length - i,
    {
        if text.get_char(i) != prefix.get_char(i) {
            assert(text@.take(length as int)[i as int] != prefix@[i as int]);
            return false;
        }
        i += 1;
    }
    assert(text@.take(length as int) =~= prefix@);
    true
}

/// Tells whether two texts are the same.
pub fn same_text(a: &str, b: &str) -> (r: bool)
    ensures
        r == (a@ == b@),
{
    if a.unicode_len() != b.unicode_len() {
        return false;
    }
    let same = starts_with(a, b);
    assert(a@.take(a@.len() as int) =~= a@);
    same
}

/// The part of `text` after its first `count` characters.
pub fn text_after(text: &str, count: usize) -> (r: String)
    requires
        count <= text@.len(),
    ensures
        r@ == text@.skip(count as int),
{
    let length = text.unicode_len();
    let rest = text.substring_char(count, length);
    assert(text@.subrange(count as int, length as int) =~= text@.skip(count as int));
    String::from_str(rest)
}

/// A number of any size as a property number, cut off at the top of the
/// range.
pub fn number_of(value: u64) -> (r: i64)
    ensures
        r == if value <= i64::MAX as u64 {
            value as i64
        } else {
            i64::MAX
        },
{
    if value <= i64::MAX as u64 {
        value as i64
    } else {
        i64::MAX
    }
}

/// The index of the first property of `properties` that is named `name`, or
/// the length of `properties` when there is none.
pub open spec fn position_of(properties: Seq<Property>, name: Seq<char>) -> int
    decreases properties.len(),
{
    if properties.len() == 0 {
        0
    } else if properties[0].name@ == name {
        0
    } else {
        1 + position_of(properties.drop_first(), name)
    }
}

/// `position_of` gives the first index that holds the name, or the length.
pub proof fn lemma_position_of(properties: Seq<Property>, name: Seq<char>)
    ensures
        0 <= position_of(properties, name) <= properties.len(),
        position_of(properties, name) < properties.len() ==> properties[position_of(
            properties,
            name,
        )].name@ == name,
        forall|j: int|
            0 <= j < position_of(properties, name) ==> (#[trigger] properties[j]).name@ != name,
    decreases properties.len(),
{
    if properties.len() > 0 && properties[0].name@ != name {
        let rest = properties.drop_first();
        lemma_position_of(rest, name);
        let p = position_of(rest, name);
        assert forall|j: int| 0 <= j < 1 + p implies (#[trigger] properties[j]).name@ != name by {
            if j > 0 {
                assert(properties[j] == rest[j - 1]);
            }
        }
        if p < rest.len() {
            assert(properties[1 + p] == rest[p]);
        }
    }
}

impl PropertyValue {
    /// A copy of the value.
    pub fn duplicate(&self) -> (r: Self)
        ensures
            r == *self,
    {
        match self {
            PropertyValue::Number(n) => PropertyValue::Number(*n),
            PropertyValue::Text(t) => PropertyValue::Text(t.clone()),
            PropertyValue::Flag(b) => PropertyValue::Flag(*b),
        }
    }
}

impl Property {
    /// A copy of the property.
    pub fn duplicate(&self) -> (r: Self)
        ensures
            r == *self,
    {
        Property { name: self.name.clone(), value: self.value.duplicate() }
    }
}

/// Finds the first property named `name`.
pub fn find_property(properties: &Vec<Property>, name: &String) -> (r: usize)
    ensures
        r == position_of(properties@, name@),
        r <= properties.len(),
{
    let mut i: usize = 0;
    proof {
        lemma_position_of(properties@, name@);
    }
    while i < properties.len()
        invariant
            i <= properties.len(),
            forall|j: int| 0 <= j < i ==> (#[trigger] properties@[j]).name@ != name@,
            0 <= position_of(properties@, name@) <= properties.len(),
            position_of(properties@, name@) < properties.len() ==> properties@[position_of(
                properties@,
                name@,
            )].name@ == name@,
            forall|j: int|
                0 <= j < position_of(properties@, name@) ==> (#[trigger] properties@[j]).name@
                    != name@,
        decreases properties.len() - i,
    {
        if properties[i].name == *name {
            return i;
        }
        i += 1;
    }
    i
}

/// A copy of a list of properties.
pub fn copy_properties(properties: &Vec<Property>) -> (r: Vec<Property>)
    ensures
        r@ == properties@,
{
    let mut out: Vec<Property> = Vec::new();
    let mut i: usize = 0;
    while i < properties.len()
        invariant
            i <= properties.len(),
            out@ == properties@.take(i as int),
        decreases properties.len() - i,
    {
        out.push(properties[i].duplicate());
        assert(properties@.take(i as int + 1) =~= properties@.take(i as int).push(
            properties@[i as int],
        ));
        i += 1;
    }
    assert(properties@.take(properties.len() as int) =~= properties@);
    out
}

} // verus!
