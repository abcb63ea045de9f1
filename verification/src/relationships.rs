//! The relationship extractor: one record per `Relationship` element of a
//! relationship document, skipping records without an id.

use vstd::prelude::*;
use crate::events::{
    attr_lookup, spec_string_attr_or_empty, string_attr, string_attr_or_empty, AttrView, EventView,
    XmlAttr, XmlEvent,
};
use crate::records::{ParsedRelationship, RelationshipView};
use crate::strutil::str_eq;
use crate::xml::{tokenize, tokens_of};

verus! {

/// The record a `Relationship` element's attributes describe.
pub open spec fn spec_relationship_from_attrs(attrs: Seq<AttrView>) -> RelationshipView {
    RelationshipView {
        id: spec_string_attr_or_empty(attrs, "Id"@),
        rel_type: spec_string_attr_or_empty(attrs, "Type"@),
        target: spec_string_attr_or_empty(attrs, "Target"@),
        target_mode: attr_lookup(attrs, "TargetMode"@),
    }
}

/// One step of the scan: a `Relationship` tag — opening or self-closing —
/// appends its record, but only when the id is non-empty; everything else is
/// ignored.
pub open spec fn rel_on_tag(
    rels: Seq<RelationshipView>,
    name: Seq<char>,
    attrs: Seq<AttrView>,
) -> Seq<RelationshipView> {
    if name == "Relationship"@ {
        let r = spec_relationship_from_attrs(attrs);
        if r.id.len() > 0 {
            rels.push(r)
        } else {
            rels
        }
    } else {
        rels
    }
}

pub open spec fn rel_step(rels: Seq<RelationshipView>, ev: EventView) -> Seq<RelationshipView> {
    match ev {
        EventView::Open { name, attrs } => rel_on_tag(rels, name, attrs),
        EventView::SelfClosing { name, attrs } => rel_on_tag(rels, name, attrs),
        _ => rels,
    }
}

pub open spec fn rel_scan(events: Seq<EventView>) -> Seq<RelationshipView>
    decreases events.len(),
{
    if events.len() == 0 {
        Seq::empty()
    } else {
        rel_step(rel_scan(events.drop_last()), events.last())
    }
}

/// What relationship extraction yields on an event sequence.
pub open spec fn spec_extract_relationships(events: Seq<EventView>) -> Seq<RelationshipView> {
    rel_scan(events)
}

fn relationship_from_attrs(attrs: &Vec<XmlAttr>) -> (r: ParsedRelationship)
    ensures
        r.deep_view() == spec_relationship_from_attrs(attrs.deep_view()),
{
    ParsedRelationship {
        id: string_attr_or_empty(attrs, "Id"),
        rel_type: string_attr_or_empty(attrs, "Type"),
        target: string_attr_or_empty(attrs, "Target"),
        target_mode: string_attr(attrs, "TargetMode"),
    }
}

/// Extracts the relationship records from an event sequence.
pub fn extract_relationships(events: &Vec<XmlEvent>) -> (rels: Vec<ParsedRelationship>)
    ensures
        rels.deep_view() == spec_extract_relationships(events.deep_view()),
{
    let mut rels: Vec<ParsedRelationship> = Vec::new();
    let mut i: usize = 0;
    proof {
        assert(events.deep_view().take(0) =~= Seq::<EventView>::empty());
        assert(rels.deep_view() =~= Seq::<RelationshipView>::empty());
    }
    while i < events.len()
        invariant
            i <= events.len(),
            events.deep_view().len() == events.len(),
            rels.deep_view() == rel_scan(events.deep_view().take(i as int)),
        decreases events.len() - i,
    {
        proof {
            assert(events.deep_view().take(i + 1).drop_last() =~= events.deep_view().take(
                i as int,
            ));
            assert(events.deep_view().take(i + 1).last() == events.deep_view()[i as int]);
            assert(events.deep_view()[i as int] == events[i as int].deep_view());
        }
        let ev = &events[i];
        match ev {
            XmlEvent::Open { name, attrs } => {
                rel_apply_tag(&mut rels, name, attrs);
            },
            XmlEvent::SelfClosing { name, attrs } => {
                rel_apply_tag(&mut rels, name, attrs);
            },
            _ => {},
        }
        i = i + 1;
    }
    proof {
        assert(events.deep_view().take(events.len() as int) =~= events.deep_view());
    }
    rels
}

fn rel_apply_tag(rels: &mut Vec<ParsedRelationship>, name: &String, attrs: &Vec<XmlAttr>)
    ensures
        final (rels).deep_view() == rel_on_tag(old(rels).deep_view(), name@, attrs.deep_view()),
{
    if str_eq(name.as_str(), "Relationship") {
        let rel = relationship_from_attrs(attrs);
        if !rel.id.as_str().is_empty() {
            rels.push(rel);
            proof {
                assert(rels.deep_view() =~= old(rels).deep_view().push(
                    rels.deep_view().last(),
                ));
            }
        }
    }
}

/// A relationship whose `Id` attribute is missing or empty contributes no
/// record: the output sequence does not change.
pub proof fn lemma_idless_relationship_dropped(
    rels: Seq<RelationshipView>,
    attrs: Seq<AttrView>,
)
    requires
        spec_string_attr_or_empty(attrs, "Id"@).len() == 0,
    ensures
        rel_on_tag(rels, "Relationship"@, attrs) == rels,
{
}

/// Extracts the relationship records of one relationship document, in
/// document order. A record without an id is dropped.
pub fn parse_relationships(xml: &str) -> (rels: Vec<ParsedRelationship>)
    ensures
        rels.deep_view() == spec_extract_relationships(tokens_of(xml@, true)),
{
    let events = tokenize(xml, true);
    extract_relationships(&events)
}

} // verus!
