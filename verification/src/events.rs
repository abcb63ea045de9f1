//! The structural XML events that every extractor consumes, together with
//! their specification-level views and attribute lookup.

use vstd::prelude::*;
use crate::strutil::str_eq;

verus! {

/// One attribute of a tag: the key exactly as written (namespace prefix kept)
/// and the unescaped value.
pub struct XmlAttr {
    pub key: String,
    pub value: String,
}

/// Specification-level form of an attribute.
pub struct AttrView {
    pub key: Seq<char>,
    pub value: Seq<char>,
}

impl View for XmlAttr {
    type V = AttrView;

    open spec fn view(&self) -> AttrView {
        AttrView { key: self.key@, value: self.value@ }
    }
}

impl DeepView for XmlAttr {
    type V = AttrView;

    open spec fn deep_view(&self) -> AttrView {
        self@
    }
}

/// One structural event of an XML document. Element names carry the local
/// name only (namespace prefix stripped); attribute keys are kept as written.
/// Constructs that are neither a tag nor character data (comments, the
/// document declaration, processing instructions, CDATA) appear as `Ignored`,
/// which every extractor passes over. The end of input is the end of the
/// sequence.
pub enum XmlEvent {
    Open { name: String, attrs: Vec<XmlAttr> },
    SelfClosing { name: String, attrs: Vec<XmlAttr> },
    Close { name: String },
    Text { content: String },
    Ignored,
}

/// Specification-level form of an event.
pub enum EventView {
    Open { name: Seq<char>, attrs: Seq<AttrView> },
    SelfClosing { name: Seq<char>, attrs: Seq<AttrView> },
    Close { name: Seq<char> },
    Text { content: Seq<char> },
    Ignored,
}

impl View for XmlEvent {
    type V = EventView;

    open spec fn view(&self) -> EventView {
        match self {
            XmlEvent::Open { name, attrs } => EventView::Open {
                name: name@,
                attrs: attrs.deep_view(),
            },
            XmlEvent::SelfClosing { name, attrs } => EventView::SelfClosing {
                name: name@,
                attrs: attrs.deep_view(),
            },
            XmlEvent::Close { name } => EventView::Close { name: name@ },
            XmlEvent::Text { content } => EventView::Text { content: content@ },
            XmlEvent::Ignored => EventView::Ignored,
        }
    }
}

impl DeepView for XmlEvent {
    type V = EventView;

    open spec fn deep_view(&self) -> EventView {
        self@
    }
}

/// The value of the last attribute carrying the given key, if any. The last
/// occurrence decides because the extractors read attributes in document
/// order and a later occurrence overwrites an earlier one.
pub open spec fn attr_lookup(attrs: Seq<AttrView>, key: Seq<char>) -> Option<Seq<char>>
    decreases attrs.len(),
{
    if attrs.len() == 0 {
        None
    } else if attrs.last().key == key {
        Some(attrs.last().value)
    } else {
        attr_lookup(attrs.drop_last(), key)
    }
}

/// Finds the value of the last attribute carrying the given key.
pub fn find_attr<'a>(attrs: &'a Vec<XmlAttr>, key: &str) -> (r: Option<&'a String>)
    ensures
        r.deep_view() == attr_lookup(attrs.deep_view(), key@),
{
    let mut i: usize = attrs.len();
    proof {
        assert(attrs.deep_view().take(i as int) =~= attrs.deep_view());
    }
    while i > 0
        invariant
            i <= attrs.len(),
            attr_lookup(attrs.deep_view(), key@) == attr_lookup(
                attrs.deep_view().take(i as int),
                key@,
            ),
        decreases i,
    {
        proof {
            assert(attrs.deep_view().take(i as int).last() == attrs.deep_view()[i - 1]);
            assert(attrs.deep_view().take(i as int).drop_last() =~= attrs.deep_view().take(
                i - 1,
            ));
        }
        if str_eq(attrs[i - 1].key.as_str(), key) {
            return Some(&attrs[i - 1].value);
        }
        i = i - 1;
    }
    proof {
        assert(attrs.deep_view().take(0) =~= Seq::<AttrView>::empty());
    }
    None
}

/// The looked-up value, cloned.
pub fn string_attr(attrs: &Vec<XmlAttr>, key: &str) -> (r: Option<String>)
    ensures
        r.deep_view() == attr_lookup(attrs.deep_view(), key@),
{
    match find_attr(attrs, key) {
        Some(v) => Some(v.clone()),
        None => None,
    }
}

pub open spec fn spec_string_attr_or_empty(attrs: Seq<AttrView>, key: Seq<char>) -> Seq<char> {
    match attr_lookup(attrs, key) {
        Some(v) => v,
        None => Seq::empty(),
    }
}

/// The looked-up value, cloned, or the empty string when the attribute is
/// missing.
pub fn string_attr_or_empty(attrs: &Vec<XmlAttr>, key: &str) -> (r: String)
    ensures
        r@ == spec_string_attr_or_empty(attrs.deep_view(), key@),
{
    match find_attr(attrs, key) {
        Some(v) => v.clone(),
        None => String::new(),
    }
}

pub open spec fn spec_u32_attr(attrs: Seq<AttrView>, key: Seq<char>) -> Option<u32> {
    match attr_lookup(attrs, key) {
        Some(v) => crate::numbers::spec_parse_u32(v),
        None => None,
    }
}

/// The looked-up value read as an unsigned integer; absent when the
/// attribute is missing or does not parse.
pub fn u32_attr(attrs: &Vec<XmlAttr>, key: &str) -> (r: Option<u32>)
    ensures
        r == spec_u32_attr(attrs.deep_view(), key@),
{
    match find_attr(attrs, key) {
        Some(v) => crate::numbers::parse_u32(v.as_str()),
        None => None,
    }
}

pub open spec fn spec_u32_attr_or_zero(attrs: Seq<AttrView>, key: Seq<char>) -> u32 {
    match spec_u32_attr(attrs, key) {
        Some(n) => n,
        None => 0,
    }
}

/// The looked-up value read as an unsigned integer, zero when it is missing
/// or does not parse.
pub fn u32_attr_or_zero(attrs: &Vec<XmlAttr>, key: &str) -> (r: u32)
    ensures
        r == spec_u32_attr_or_zero(attrs.deep_view(), key@),
{
    match u32_attr(attrs, key) {
        Some(n) => n,
        None => 0,
    }
}

pub open spec fn spec_i32_attr(attrs: Seq<AttrView>, key: Seq<char>) -> Option<i32> {
    match attr_lookup(attrs, key) {
        Some(v) => crate::numbers::spec_parse_i32(v),
        None => None,
    }
}

/// The looked-up value read as a signed integer; absent when the attribute
/// is missing or does not parse.
pub fn i32_attr(attrs: &Vec<XmlAttr>, key: &str) -> (r: Option<i32>)
    ensures
        r == spec_i32_attr(attrs.deep_view(), key@),
{
    match find_attr(attrs, key) {
        Some(v) => crate::numbers::parse_i32(v.as_str()),
        None => None,
    }
}

pub open spec fn spec_bool_attr(attrs: Seq<AttrView>, key: Seq<char>) -> bool {
    match attr_lookup(attrs, key) {
        Some(v) => crate::strutil::spec_truthy(v),
        None => false,
    }
}

/// The looked-up value read as boolean truth, false when the attribute is
/// missing.
pub fn bool_attr(attrs: &Vec<XmlAttr>, key: &str) -> (r: bool)
    ensures
        r == spec_bool_attr(attrs.deep_view(), key@),
{
    match find_attr(attrs, key) {
        Some(v) => crate::strutil::truthy(v.as_str()),
        None => false,
    }
}

pub open spec fn spec_float_attr(attrs: Seq<AttrView>, key: Seq<char>) -> Option<Seq<char>> {
    match attr_lookup(attrs, key) {
        Some(v) => if crate::numbers::spec_float_text(v) {
            Some(v)
        } else {
            None
        },
        None => None,
    }
}

/// The looked-up value kept as the raw text of a floating-point number;
/// absent when the attribute is missing or its text does not have that form.
pub fn float_attr(attrs: &Vec<XmlAttr>, key: &str) -> (r: Option<String>)
    ensures
        r.deep_view() == spec_float_attr(attrs.deep_view(), key@),
{
    match find_attr(attrs, key) {
        Some(v) => {
            if crate::numbers::is_float_text(v.as_str()) {
                Some(v.clone())
            } else {
                None
            }
        },
        None => None,
    }
}

/// The value of the last attribute whose local name is exactly `id`, which
/// is how a relationship id is picked up without namespace resolution.
pub open spec fn rid_lookup(attrs: Seq<AttrView>) -> Option<Seq<char>>
    decreases attrs.len(),
{
    if attrs.len() == 0 {
        None
    } else if crate::strutil::spec_id_key(attrs.last().key) {
        Some(attrs.last().value)
    } else {
        rid_lookup(attrs.drop_last())
    }
}

/// Finds the value of the last attribute whose local name is exactly `id`.
pub fn rid_attr(attrs: &Vec<XmlAttr>) -> (r: Option<String>)
    ensures
        r.deep_view() == rid_lookup(attrs.deep_view()),
{
    let mut i: usize = attrs.len();
    proof {
        assert(attrs.deep_view().take(i as int) =~= attrs.deep_view());
    }
    while i > 0
        invariant
            i <= attrs.len(),
            rid_lookup(attrs.deep_view()) == rid_lookup(attrs.deep_view().take(i as int)),
        decreases i,
    {
        proof {
            assert(attrs.deep_view().take(i as int).last() == attrs.deep_view()[i - 1]);
            assert(attrs.deep_view().take(i as int).drop_last() =~= attrs.deep_view().take(
                i - 1,
            ));
        }
        if crate::strutil::is_id_key(attrs[i - 1].key.as_str()) {
            return Some(attrs[i - 1].value.clone());
        }
        i = i - 1;
    }
    proof {
        assert(attrs.deep_view().take(0) =~= Seq::<AttrView>::empty());
    }
    None
}

} // verus!
