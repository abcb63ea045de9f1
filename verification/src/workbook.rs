//! The workbook extractor: the sheet list of a workbook manifest, skipping
//! entries without a name.

use vstd::prelude::*;
use crate::events::{
    attr_lookup, rid_attr, rid_lookup, spec_string_attr_or_empty, spec_u32_attr_or_zero,
    string_attr, string_attr_or_empty, u32_attr_or_zero, AttrView, EventView, XmlAttr, XmlEvent,
};
use crate::records::{ParsedSheetInfo, SheetInfoView};
use crate::strutil::str_eq;
use crate::xml::{tokenize, tokens_of};

verus! {

/// The relationship id a tag carries, or the empty string.
pub open spec fn spec_rid_or_empty(attrs: Seq<AttrView>) -> Seq<char> {
    match rid_lookup(attrs) {
        Some(v) => v,
        None => Seq::empty(),
    }
}

/// The record a `sheet` element's attributes describe. A sheet id that is
/// missing or does not parse becomes zero; the relationship id is the last
/// attribute whose local name is exactly `id`.
pub open spec fn spec_sheet_from_attrs(attrs: Seq<AttrView>) -> SheetInfoView {
    SheetInfoView {
        name: spec_string_attr_or_empty(attrs, "name"@),
        sheet_id: spec_u32_attr_or_zero(attrs, "sheetId"@),
        rid: spec_rid_or_empty(attrs),
        state: attr_lookup(attrs, "state"@),
    }
}

/// One step of the scan: a `sheet` tag — opening or self-closing — appends
/// its record, but only when the name is non-empty.
pub open spec fn wb_on_tag(
    sheets: Seq<SheetInfoView>,
    name: Seq<char>,
    attrs: Seq<AttrView>,
) -> Seq<SheetInfoView> {
    if name == "sheet"@ {
        let s = spec_sheet_from_attrs(attrs);
        if s.name.len() > 0 {
            sheets.push(s)
        } else {
            sheets
        }
    } else {
        sheets
    }
}

pub open spec fn wb_step(sheets: Seq<SheetInfoView>, ev: EventView) -> Seq<SheetInfoView> {
    match ev {
        EventView::Open { name, attrs } => wb_on_tag(sheets, name, attrs),
        EventView::SelfClosing { name, attrs } => wb_on_tag(sheets, name, attrs),
        _ => sheets,
    }
}

pub open spec fn wb_scan(events: Seq<EventView>) -> Seq<SheetInfoView>
    decreases events.len(),
{
    if events.len() == 0 {
        Seq::empty()
    } else {
        wb_step(wb_scan(events.drop_last()), events.last())
    }
}

/// What workbook extraction yields on an event sequence.
pub open spec fn spec_extract_workbook(events: Seq<EventView>) -> Seq<SheetInfoView> {
    wb_scan(events)
}

fn sheet_from_attrs(attrs: &Vec<XmlAttr>) -> (s: ParsedSheetInfo)
    ensures
        s.deep_view() == spec_sheet_from_attrs(attrs.deep_view()),
{
    let rid = match rid_attr(attrs) {
        Some(v) => v,
        None => String::new(),
    };
    ParsedSheetInfo {
        name: string_attr_or_empty(attrs, "name"),
        sheet_id: u32_attr_or_zero(attrs, "sheetId"),
        rid,
        state: string_attr(attrs, "state"),
    }
}

fn wb_apply_tag(sheets: &mut Vec<ParsedSheetInfo>, name: &String, attrs: &Vec<XmlAttr>)
    ensures
        final (sheets).deep_view() == wb_on_tag(old(sheets).deep_view(), name@, attrs.deep_view()),
{
    if str_eq(name.as_str(), "sheet") {
        let sheet = sheet_from_attrs(attrs);
        if !sheet.name.as_str().is_empty() {
            sheets.push(sheet);
            proof {
                assert(sheets.deep_view() =~= old(sheets).deep_view().push(
                    sheets.deep_view().last(),
                ));
            }
        }
    }
}

/// Extracts the sheet records from an event sequence.
pub fn extract_workbook(events: &Vec<XmlEvent>) -> (sheets: Vec<ParsedSheetInfo>)
    ensures
        sheets.deep_view() == spec_extract_workbook(events.deep_view()),
{
    let mut sheets: Vec<ParsedSheetInfo> = Vec::new();
    let mut i: usize = 0;
    proof {
        assert(events.deep_view().take(0) =~= Seq::<EventView>::empty());
        assert(sheets.deep_view() =~= Seq::<SheetInfoView>::empty());
    }
    while i < events.len()
        invariant
            i <= events.len(),
            events.deep_view().len() == events.len(),
            sheets.deep_view() == wb_scan(events.deep_view().take(i as int)),
        decreases events.len() - i,
    {
        proof {
            assert(events.deep_view().take(i + 1).drop_last() =~= events.deep_view().take(
                i as int,
            ));
            assert(events.deep_view().take(i + 1).last() == events.deep_view()[i as int]);
            assert(events.deep_view()[i as int] == events[i as int].deep_view());
        }
        let ev = &events[i];
        match ev {
            XmlEvent::Open { name, attrs } => {
                wb_apply_tag(&mut sheets, name, attrs);
            },
            XmlEvent::SelfClosing { name, attrs } => {
                wb_apply_tag(&mut sheets, name, attrs);
            },
            _ => {},
        }
        i = i + 1;
    }
    proof {
        assert(events.deep_view().take(events.len() as int) =~= events.deep_view());
    }
    sheets
}

/// A sheet whose `name` attribute is missing or empty contributes no record:
/// the sheet list does not change.
pub proof fn lemma_nameless_sheet_dropped(sheets: Seq<SheetInfoView>, attrs: Seq<AttrView>)
    requires
        spec_string_attr_or_empty(attrs, "name"@).len() == 0,
    ensures
        wb_on_tag(sheets, "sheet"@, attrs) == sheets,
{
}

/// Extracts the sheet list of one workbook document, in document order. A
/// sheet without a name is dropped.
pub fn parse_workbook(xml: &str) -> (sheets: Vec<ParsedSheetInfo>)
    ensures
        sheets.deep_view() == spec_extract_workbook(tokens_of(xml@, true)),
{
    let events = tokenize(xml, true);
    extract_workbook(&events)
}

} // verus!
