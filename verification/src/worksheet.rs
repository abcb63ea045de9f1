//! The worksheet extractor: rows with their cells, merge-cell ranges,
//! hyperlinks, and the column-width table of one worksheet document.

use vstd::prelude::*;
use vstd::string::StringExecFns;
use std::collections::HashMap;
use crate::events::{
    attr_lookup, bool_attr, find_attr, float_attr, rid_attr, rid_lookup, spec_bool_attr,
    spec_float_attr, spec_string_attr_or_empty, spec_u32_attr, spec_u32_attr_or_zero,
    string_attr, string_attr_or_empty, u32_attr, u32_attr_or_zero, AttrView, EventView, XmlAttr,
    XmlEvent,
};
use crate::records::{
    string_map_view, CellView, HyperlinkView, ParsedCell, ParsedHyperlink, ParsedRow,
    ParsedWorksheet, RowView, WorksheetView,
};
use crate::strutil::str_eq;
use crate::xml::{tokenize, tokens_of};

verus! {

broadcast use vstd::std_specs::hash::group_hash_axioms;

/// Scan state of the worksheet extractor: the finished output so far, the
/// open row and cell builders, and the text-accumulation buffer with the
/// scope it belongs to.
pub struct WsState {
    pub rows: Seq<RowView>,
    pub merge_cells: Seq<Seq<char>>,
    pub hyperlinks: Seq<HyperlinkView>,
    pub col_widths: Map<u32, Seq<char>>,
    pub cur_row: Option<RowView>,
    pub cur_cell: Option<CellView>,
    pub in_value: bool,
    pub in_formula: bool,
    pub in_inline: bool,
    pub buf: Seq<char>,
}

pub open spec fn ws_init() -> WsState {
    WsState {
        rows: Seq::empty(),
        merge_cells: Seq::empty(),
        hyperlinks: Seq::empty(),
        col_widths: Map::empty(),
        cur_row: None,
        cur_cell: None,
        in_value: false,
        in_formula: false,
        in_inline: false,
        buf: Seq::empty(),
    }
}

/// The row builder a `row` tag's attributes start: a row number that is
/// missing or does not parse becomes zero, a height is kept only as a valid
/// float text, hidden follows the boolean attribute forms.
pub open spec fn spec_row_from_attrs(attrs: Seq<AttrView>) -> RowView {
    RowView {
        row_num: spec_u32_attr_or_zero(attrs, "r"@),
        cells: Seq::empty(),
        height: spec_float_attr(attrs, "ht"@),
        hidden: spec_bool_attr(attrs, "hidden"@),
    }
}

/// The cell builder a `c` tag's attributes start.
pub open spec fn spec_cell_from_attrs(attrs: Seq<AttrView>) -> CellView {
    CellView {
        reference: spec_string_attr_or_empty(attrs, "r"@),
        cell_type: attr_lookup(attrs, "t"@),
        style_index: spec_u32_attr(attrs, "s"@),
        value: None,
        formula: None,
    }
}

/// The hyperlink a `hyperlink` tag's attributes describe; the relationship
/// id is the last attribute whose local name is exactly `id`.
pub open spec fn spec_hyperlink_from_attrs(attrs: Seq<AttrView>) -> HyperlinkView {
    HyperlinkView {
        reference: spec_string_attr_or_empty(attrs, "ref"@),
        rid: rid_lookup(attrs),
        location: attr_lookup(attrs, "location"@),
        display: attr_lookup(attrs, "display"@),
        tooltip: attr_lookup(attrs, "tooltip"@),
    }
}

/// Sets every column of the inclusive range `[lo, hi]` to the given width
/// text, working upward from `lo`.
pub open spec fn map_set_range(m: Map<u32, Seq<char>>, lo: int, hi: int, v: Seq<char>) -> Map<
    u32,
    Seq<char>,
>
    decreases hi - lo + 1,
{
    if lo > hi {
        m
    } else {
        map_set_range(m.insert(lo as u32, v), lo + 1, hi, v)
    }
}

/// What a `col` tag does to the column-width table: only when its `min`,
/// `max` and `width` attributes all parse is the width set for every column
/// of the inclusive range.
pub open spec fn spec_col_update(m: Map<u32, Seq<char>>, attrs: Seq<AttrView>) -> Map<
    u32,
    Seq<char>,
> {
    match (spec_u32_attr(attrs, "min"@), spec_u32_attr(attrs, "max"@), spec_float_attr(
        attrs,
        "width"@,
    )) {
        (Some(lo), Some(hi), Some(w)) => map_set_range(m, lo as int, hi as int, w),
        _ => m,
    }
}

/// One opening or self-closing tag. Both start the same scopes: the
/// extractor does not distinguish them, so a self-closing `row` or `c`
/// starts a builder that no matching close will ever finish.
pub open spec fn ws_open(st: WsState, name: Seq<char>, attrs: Seq<AttrView>) -> WsState {
    if name == "row"@ {
        WsState { cur_row: Some(spec_row_from_attrs(attrs)), ..st }
    } else if name == "c"@ {
        WsState { cur_cell: Some(spec_cell_from_attrs(attrs)), ..st }
    } else if name == "v"@ {
        WsState { in_value: true, buf: Seq::empty(), ..st }
    } else if name == "f"@ {
        WsState { in_formula: true, buf: Seq::empty(), ..st }
    } else if name == "is"@ {
        WsState { in_inline: true, buf: Seq::empty(), ..st }
    } else if name == "col"@ {
        WsState { col_widths: spec_col_update(st.col_widths, attrs), ..st }
    } else if name == "mergeCell"@ {
        match attr_lookup(attrs, "ref"@) {
            Some(v) => WsState { merge_cells: st.merge_cells.push(v), ..st },
            None => st,
        }
    } else if name == "hyperlink"@ {
        let h = spec_hyperlink_from_attrs(attrs);
        if h.reference.len() > 0 {
            WsState { hyperlinks: st.hyperlinks.push(h), ..st }
        } else {
            st
        }
    } else {
        st
    }
}

/// One closing tag. A close with no matching open builder is a no-op; a
/// value is assigned even when empty, a formula only when non-empty.
pub open spec fn ws_close(st: WsState, name: Seq<char>) -> WsState {
    if name == "row"@ {
        match st.cur_row {
            Some(r) => WsState { rows: st.rows.push(r), cur_row: None, ..st },
            None => st,
        }
    } else if name == "c"@ {
        match st.cur_cell {
            Some(c) => match st.cur_row {
                Some(r) => WsState {
                    cur_row: Some(RowView { cells: r.cells.push(c), ..r }),
                    cur_cell: None,
                    ..st
                },
                None => WsState { cur_cell: None, ..st },
            },
            None => st,
        }
    } else if name == "v"@ {
        match st.cur_cell {
            Some(c) => WsState {
                in_value: false,
                cur_cell: Some(CellView { value: Some(st.buf), ..c }),
                ..st
            },
            None => WsState { in_value: false, ..st },
        }
    } else if name == "f"@ {
        match st.cur_cell {
            Some(c) => if st.buf.len() > 0 {
                WsState {
                    in_formula: false,
                    cur_cell: Some(CellView { formula: Some(st.buf), ..c }),
                    ..st
                }
            } else {
                WsState { in_formula: false, ..st }
            },
            None => WsState { in_formula: false, ..st },
        }
    } else if name == "is"@ {
        match st.cur_cell {
            Some(c) => WsState {
                in_inline: false,
                cur_cell: Some(CellView { value: Some(st.buf), ..c }),
                ..st
            },
            None => WsState { in_inline: false, ..st },
        }
    } else {
        st
    }
}

/// Character data accumulates only while a value, formula or inline-string
/// scope is active; text outside those scopes is ignored.
pub open spec fn ws_text(st: WsState, content: Seq<char>) -> WsState {
    if st.in_value || st.in_formula || st.in_inline {
        WsState { buf: st.buf + content, ..st }
    } else {
        st
    }
}

pub open spec fn ws_step(st: WsState, ev: EventView) -> WsState {
    match ev {
        EventView::Open { name, attrs } => ws_open(st, name, attrs),
        EventView::SelfClosing { name, attrs } => ws_open(st, name, attrs),
        EventView::Close { name } => ws_close(st, name),
        EventView::Text { content } => ws_text(st, content),
        EventView::Ignored => st,
    }
}

pub open spec fn ws_scan(events: Seq<EventView>) -> WsState
    decreases events.len(),
{
    if events.len() == 0 {
        ws_init()
    } else {
        ws_step(ws_scan(events.drop_last()), events.last())
    }
}

/// What worksheet extraction yields on an event sequence: the finished
/// output of the scan; builders still open at the end are discarded.
pub open spec fn spec_extract_worksheet(events: Seq<EventView>) -> WorksheetView {
    let st = ws_scan(events);
    WorksheetView {
        rows: st.rows,
        merge_cells: st.merge_cells,
        hyperlinks: st.hyperlinks,
        col_widths: st.col_widths,
    }
}

fn row_from_attrs(attrs: &Vec<XmlAttr>) -> (r: ParsedRow)
    ensures
        r.deep_view() == spec_row_from_attrs(attrs.deep_view()),
{
    let cells: Vec<ParsedCell> = Vec::new();
    proof {
        assert(cells.deep_view() =~= Seq::<CellView>::empty());
    }
    ParsedRow {
        row_num: u32_attr_or_zero(attrs, "r"),
        cells,
        height: float_attr(attrs, "ht"),
        hidden: bool_attr(attrs, "hidden"),
    }
}

fn cell_from_attrs(attrs: &Vec<XmlAttr>) -> (c: ParsedCell)
    ensures
        c.deep_view() == spec_cell_from_attrs(attrs.deep_view()),
{
    ParsedCell {
        reference: string_attr_or_empty(attrs, "r"),
        cell_type: string_attr(attrs, "t"),
        style_index: u32_attr(attrs, "s"),
        value: None,
        formula: None,
    }
}

fn hyperlink_from_attrs(attrs: &Vec<XmlAttr>) -> (h: ParsedHyperlink)
    ensures
        h.deep_view() == spec_hyperlink_from_attrs(attrs.deep_view()),
{
    ParsedHyperlink {
        reference: string_attr_or_empty(attrs, "ref"),
        rid: rid_attr(attrs),
        location: string_attr(attrs, "location"),
        display: string_attr(attrs, "display"),
        tooltip: string_attr(attrs, "tooltip"),
    }
}

fn apply_col(widths: &mut HashMap<u32, String>, attrs: &Vec<XmlAttr>)
    ensures
        string_map_view(final (widths)@) == spec_col_update(
            string_map_view(old(widths)@),
            attrs.deep_view(),
        ),
{
    let min = u32_attr(attrs, "min");
    let max = u32_attr(attrs, "max");
    let width = float_attr(attrs, "width");
    let ghost w0 = string_map_view(widths@);
    match (min, max, width) {
        (Some(lo), Some(hi), Some(w)) => {
            let mut col: u64 = lo as u64;
            while col <= hi as u64
                invariant
                    lo as u64 <= col,
                    map_set_range(w0, lo as int, hi as int, w@) == map_set_range(
                        string_map_view(widths@),
                        col as int,
                        hi as int,
                        w@,
                    ),
                decreases hi as u64 + 1 - col,
            {
                let ghost before = widths@;
                widths.insert(col as u32, w.clone());
                proof {
                    assert(string_map_view(widths@) =~= string_map_view(before).insert(
                        col as u32,
                        w@,
                    ));
                }
                col = col + 1;
            }
        },
        _ => {},
    }
}

/// The worksheet accumulator, whose specification-level state drives the
/// correspondence with the scan.
struct WsAccum {
    rows: Vec<ParsedRow>,
    merge_cells: Vec<String>,
    hyperlinks: Vec<ParsedHyperlink>,
    col_widths: HashMap<u32, String>,
    cur_row: Option<ParsedRow>,
    cur_cell: Option<ParsedCell>,
    in_value: bool,
    in_formula: bool,
    in_inline: bool,
    buf: String,
}

impl WsAccum {
    spec fn st(&self) -> WsState {
        WsState {
            rows: self.rows.deep_view(),
            merge_cells: self.merge_cells.deep_view(),
            hyperlinks: self.hyperlinks.deep_view(),
            col_widths: string_map_view(self.col_widths@),
            cur_row: self.cur_row.deep_view(),
            cur_cell: self.cur_cell.deep_view(),
            in_value: self.in_value,
            in_formula: self.in_formula,
            in_inline: self.in_inline,
            buf: self.buf@,
        }
    }

    fn on_open(&mut self, name: &String, attrs: &Vec<XmlAttr>)
        ensures
            final (self).st() == ws_open(old(self).st(), name@, attrs.deep_view()),
    {
        if str_eq(name.as_str(), "row") {
            self.cur_row = Some(row_from_attrs(attrs));
        } else if str_eq(name.as_str(), "c") {
            self.cur_cell = Some(cell_from_attrs(attrs));
        } else if str_eq(name.as_str(), "v") {
            self.in_value = true;
            self.buf = String::new();
        } else if str_eq(name.as_str(), "f") {
            self.in_formula = true;
            self.buf = String::new();
        } else if str_eq(name.as_str(), "is") {
            self.in_inline = true;
            self.buf = String::new();
        } else if str_eq(name.as_str(), "col") {
            apply_col(&mut self.col_widths, attrs);
        } else if str_eq(name.as_str(), "mergeCell") {
            match find_attr(attrs, "ref") {
                Some(v) => {
                    let ghost mv = v@;
                    self.merge_cells.push(v.clone());
                    proof {
                        assert(self.merge_cells.deep_view() =~= old(
                            self,
                        ).merge_cells.deep_view().push(mv));
                    }
                },
                None => {},
            }
        } else if str_eq(name.as_str(), "hyperlink") {
            let h = hyperlink_from_attrs(attrs);
            if !h.reference.as_str().is_empty() {
                let ghost hv = h.deep_view();
                self.hyperlinks.push(h);
                proof {
                    assert(self.hyperlinks.deep_view() =~= old(self).hyperlinks.deep_view().push(
                        hv,
                    ));
                }
            }
        }
    }

    fn on_close(&mut self, name: &String)
        ensures
            final (self).st() == ws_close(old(self).st(), name@),
    {
        if str_eq(name.as_str(), "row") {
            match self.cur_row.take() {
                Some(r) => {
                    let ghost rv = r.deep_view();
                    self.rows.push(r);
                    proof {
                        assert(self.rows.deep_view() =~= old(self).rows.deep_view().push(rv));
                    }
                },
                None => {},
            }
        } else if str_eq(name.as_str(), "c") {
            match self.cur_cell.take() {
                Some(c) => {
                    match self.cur_row.take() {
                        Some(mut r) => {
                            let ghost cellsv = r.cells.deep_view();
                            let ghost cv = c.deep_view();
                            r.cells.push(c);
                            proof {
                                assert(r.cells.deep_view() =~= cellsv.push(cv));
                            }
                            self.cur_row = Some(r);
                        },
                        None => {},
                    }
                },
                None => {},
            }
        } else if str_eq(name.as_str(), "v") {
            self.in_value = false;
            match self.cur_cell.take() {
                Some(c) => {
                    self.cur_cell = Some(ParsedCell { value: Some(self.buf.clone()), ..c });
                },
                None => {},
            }
        } else if str_eq(name.as_str(), "f") {
            self.in_formula = false;
            match self.cur_cell.take() {
                Some(c) => {
                    if !self.buf.as_str().is_empty() {
                        self.cur_cell = Some(
                            ParsedCell { formula: Some(self.buf.clone()), ..c },
                        );
                    } else {
                        self.cur_cell = Some(c);
                    }
                },
                None => {},
            }
        } else if str_eq(name.as_str(), "is") {
            self.in_inline = false;
            match self.cur_cell.take() {
                Some(c) => {
                    self.cur_cell = Some(ParsedCell { value: Some(self.buf.clone()), ..c });
                },
                None => {},
            }
        }
    }

    fn on_text(&mut self, content: &String)
        ensures
            final (self).st() == ws_text(old(self).st(), content@),
    {
        if self.in_value || self.in_formula || self.in_inline {
            self.buf.append(content.as_str());
        }
    }
}

/// Extracts the worksheet records from an event sequence.
pub fn extract_worksheet(events: &Vec<XmlEvent>) -> (ws: ParsedWorksheet)
    ensures
        ws.deep_view() == spec_extract_worksheet(events.deep_view()),
{
    let mut acc = WsAccum {
        rows: Vec::new(),
        merge_cells: Vec::new(),
        hyperlinks: Vec::new(),
        col_widths: HashMap::new(),
        cur_row: None,
        cur_cell: None,
        in_value: false,
        in_formula: false,
        in_inline: false,
        buf: String::new(),
    };
    let mut i: usize = 0;
    proof {
        assert(events.deep_view().take(0) =~= Seq::<EventView>::empty());
        assert(acc.rows.deep_view() =~= Seq::<RowView>::empty());
        assert(acc.merge_cells.deep_view() =~= Seq::<Seq<char>>::empty());
        assert(acc.hyperlinks.deep_view() =~= Seq::<HyperlinkView>::empty());
        assert(string_map_view(acc.col_widths@) =~= Map::<u32, Seq<char>>::empty());
    }
    while i < events.len()
        invariant
            i <= events.len(),
            events.deep_view().len() == events.len(),
            acc.st() == ws_scan(events.deep_view().take(i as int)),
        decreases events.len() - i,
    {
        proof {
            assert(events.deep_view().take(i + 1).drop_last() =~= events.deep_view().take(
                i as int,
            ));
            assert(events.deep_view().take(i + 1).last() == events.deep_view()[i as int]);
            assert(events.deep_view()[i as int] == events[i as int].deep_view());
        }
        let ev = &events[i];
        match ev {
            XmlEvent::Open { name, attrs } => {
                acc.on_open(name, attrs);
            },
            XmlEvent::SelfClosing { name, attrs } => {
                acc.on_open(name, attrs);
            },
            XmlEvent::Close { name } => {
                acc.on_close(name);
            },
            XmlEvent::Text { content } => {
                acc.on_text(content);
            },
            XmlEvent::Ignored => {},
        }
        i = i + 1;
    }
    proof {
        assert(events.deep_view().take(events.len() as int) =~= events.deep_view());
    }
    let WsAccum { rows, merge_cells, hyperlinks, col_widths, .. } = acc;
    ParsedWorksheet { rows, merge_cells, hyperlinks, col_widths }
}

proof fn lemma_map_set_range(m: Map<u32, Seq<char>>, lo: int, hi: int, v: Seq<char>)
    requires
        0 <= lo,
        hi <= u32::MAX,
    ensures
        forall|c: u32| lo <= c <= hi ==> #[trigger] map_set_range(m, lo, hi, v).contains_key(c)
            && map_set_range(m, lo, hi, v)[c] == v,
        forall|c: u32|
            !(lo <= c <= hi) ==> (#[trigger] map_set_range(m, lo, hi, v).contains_key(c)
                <==> m.contains_key(c)) && (m.contains_key(c) ==> map_set_range(m, lo, hi, v)[c]
                == m[c]),
    decreases hi - lo + 1,
{
    if lo <= hi {
        let m1 = m.insert(lo as u32, v);
        lemma_map_set_range(m1, lo + 1, hi, v);
        assert(map_set_range(m, lo, hi, v) == map_set_range(m1, lo + 1, hi, v));
        assert forall|c: u32| lo <= c <= hi implies #[trigger] map_set_range(
            m,
            lo,
            hi,
            v,
        ).contains_key(c) && map_set_range(m, lo, hi, v)[c] == v by {
            if c == lo as u32 {
                assert(map_set_range(m1, lo + 1, hi, v).contains_key(c));
                assert(map_set_range(m1, lo + 1, hi, v)[c] == m1[c]);
            }
        }
        assert forall|c: u32| !(lo <= c <= hi) implies (#[trigger] map_set_range(
            m,
            lo,
            hi,
            v,
        ).contains_key(c) <==> m.contains_key(c)) && (m.contains_key(c) ==> map_set_range(
            m,
            lo,
            hi,
            v,
        )[c] == m[c]) by {
            assert(map_set_range(m1, lo + 1, hi, v).contains_key(c) <==> m1.contains_key(c));
        }
    }
}

/// Column-width expansion is inclusive: after a `col` tag whose `min`, `max`
/// and `width` attributes all parse, every column of the inclusive range
/// `[min, max]` carries the width's text, and no other column changed.
pub proof fn lemma_col_width_range(
    m: Map<u32, Seq<char>>,
    attrs: Seq<AttrView>,
    lo: u32,
    hi: u32,
    w: Seq<char>,
)
    requires
        spec_u32_attr(attrs, "min"@) == Some(lo),
        spec_u32_attr(attrs, "max"@) == Some(hi),
        spec_float_attr(attrs, "width"@) == Some(w),
    ensures
        forall|c: u32| lo <= c <= hi ==> #[trigger] spec_col_update(m, attrs).contains_key(c)
            && spec_col_update(m, attrs)[c] == w,
        forall|c: u32|
            !(lo <= c <= hi) ==> (#[trigger] spec_col_update(m, attrs).contains_key(c) <==> m.contains_key(c))
                && (m.contains_key(c) ==> spec_col_update(m, attrs)[c] == m[c]),
{
    lemma_map_set_range(m, lo as int, hi as int, w);
    assert(spec_col_update(m, attrs) == map_set_range(m, lo as int, hi as int, w));
}

/// Column-width expansion is idempotent: applying the same `col` tag twice
/// leaves the same table as applying it once.
pub proof fn lemma_col_width_idempotent(m: Map<u32, Seq<char>>, attrs: Seq<AttrView>)
    ensures
        spec_col_update(spec_col_update(m, attrs), attrs) == spec_col_update(m, attrs),
{
    match (spec_u32_attr(attrs, "min"@), spec_u32_attr(attrs, "max"@), spec_float_attr(
        attrs,
        "width"@,
    )) {
        (Some(lo), Some(hi), Some(w)) => {
            let once = spec_col_update(m, attrs);
            let twice = spec_col_update(once, attrs);
            lemma_col_width_range(m, attrs, lo, hi, w);
            lemma_col_width_range(once, attrs, lo, hi, w);
            assert(twice =~= once);
        },
        _ => {},
    }
}

/// A row number that does not parse never drops the row: the `row` tag still
/// starts a builder, whose row number is zero.
pub proof fn lemma_bad_row_number_kept(st: WsState, attrs: Seq<AttrView>, v: Seq<char>)
    requires
        attr_lookup(attrs, "r"@) == Some(v),
        crate::numbers::spec_parse_u32(v) is None,
    ensures
        ws_open(st, "row"@, attrs).cur_row is Some,
        ws_open(st, "row"@, attrs).cur_row.unwrap().row_num == 0,
        ws_open(st, "row"@, attrs).rows == st.rows,
{
}

/// A hyperlink whose `ref` attribute is missing or empty is excluded: the
/// scan state does not change at all.
pub proof fn lemma_hyperlink_empty_ref_dropped(st: WsState, attrs: Seq<AttrView>)
    requires
        spec_string_attr_or_empty(attrs, "ref"@).len() == 0,
    ensures
        ws_open(st, "hyperlink"@, attrs) == st,
{
    broadcast use vstd::string::group_string_axioms;

    reveal_strlit("row");
    reveal_strlit("c");
    reveal_strlit("v");
    reveal_strlit("f");
    reveal_strlit("is");
    reveal_strlit("col");
    reveal_strlit("mergeCell");
    reveal_strlit("hyperlink");
    assert("hyperlink"@.len() == 9);
    assert("row"@.len() == 3);
    assert("hyperlink"@ != "row"@);
    assert("hyperlink"@ != "c"@);
    assert("hyperlink"@ != "v"@);
    assert("hyperlink"@ != "f"@);
    assert("hyperlink"@ != "is"@);
    assert("hyperlink"@ != "col"@);
    assert("hyperlink"@[0] == 'h');
    assert("mergeCell"@[0] == 'm');
    assert("hyperlink"@ != "mergeCell"@);
    assert(spec_hyperlink_from_attrs(attrs).reference.len() == 0);
}

proof fn lemma_ws_step_keeps_rows(st: WsState, ev: EventView)
    ensures
        st.rows.is_prefix_of(ws_step(st, ev).rows),
{
    let after = ws_step(st, ev).rows;
    assert(after == st.rows || (st.cur_row is Some && after == st.rows.push(
        st.cur_row.unwrap(),
    )));
    assert(st.rows =~= after.subrange(0, st.rows.len() as int));
}

/// Rows survive truncation: scanning any front part of the event sequence
/// yields a prefix of the full scan's rows — a record fully closed before a
/// truncation point is kept, in order, and truncation never removes one.
pub proof fn lemma_worksheet_rows_truncation(evs: Seq<EventView>, i: int)
    requires
        0 <= i <= evs.len(),
    ensures
        ws_scan(evs.take(i)).rows.is_prefix_of(ws_scan(evs).rows),
    decreases evs.len() - i,
{
    if i == evs.len() {
        assert(evs.take(i) =~= evs);
        let r = ws_scan(evs).rows;
        assert(r =~= r.subrange(0, r.len() as int));
    } else {
        lemma_worksheet_rows_truncation(evs.drop_last(), i);
        assert(evs.drop_last().take(i) =~= evs.take(i));
        lemma_ws_step_keeps_rows(ws_scan(evs.drop_last()), evs.last());
        let a = ws_scan(evs.take(i)).rows;
        let b = ws_scan(evs.drop_last()).rows;
        let c = ws_scan(evs).rows;
        assert(a =~= b.subrange(0, a.len() as int));
        assert(b =~= c.subrange(0, b.len() as int));
        assert(a =~= c.subrange(0, a.len() as int));
    }
}

/// An opening or self-closing tag with the given name.
pub open spec fn is_tag_open(ev: EventView, name: Seq<char>) -> bool {
    match ev {
        EventView::Open { name: n, attrs: _ } => n == name,
        EventView::SelfClosing { name: n, attrs: _ } => n == name,
        _ => false,
    }
}

/// A closing tag with the given name.
pub open spec fn is_tag_close(ev: EventView, name: Seq<char>) -> bool {
    match ev {
        EventView::Close { name: n } => n == name,
        _ => false,
    }
}

/// How many opening or self-closing tags with the given name the sequence
/// holds — that is, how many such elements it starts.
pub open spec fn n_opens(evs: Seq<EventView>, name: Seq<char>) -> int
    decreases evs.len(),
{
    if evs.len() == 0 {
        0
    } else {
        n_opens(evs.drop_last(), name) + (if is_tag_open(evs.last(), name) {
            1int
        } else {
            0int
        })
    }
}

/// How many closing tags with the given name the sequence holds.
pub open spec fn n_closes(evs: Seq<EventView>, name: Seq<char>) -> int
    decreases evs.len(),
{
    if evs.len() == 0 {
        0
    } else {
        n_closes(evs.drop_last(), name) + (if is_tag_close(evs.last(), name) {
            1int
        } else {
            0int
        })
    }
}

/// In a front part of a well-formed document, closes never outrun opens and
/// at most one row and one cell element are open at a time.
pub open spec fn ws_prefix_bounds(p: Seq<EventView>) -> bool {
    &&& n_closes(p, "row"@) <= n_opens(p, "row"@) <= n_closes(p, "row"@) + 1
    &&& n_closes(p, "c"@) <= n_opens(p, "c"@) <= n_closes(p, "c"@) + 1
}

/// Proper nesting of a worksheet document's row and cell elements: the
/// bounds hold of every front part, and every cell close happens while a
/// row is open.
pub open spec fn ws_nested(evs: Seq<EventView>) -> bool {
    &&& forall|i: int| 0 <= i <= evs.len() ==> ws_prefix_bounds(#[trigger] evs.take(i))
    &&& forall|i: int|
        0 <= i < evs.len() && is_tag_close(#[trigger] evs[i], "c"@) ==> n_opens(
            evs.take(i),
            "row"@,
        ) == n_closes(evs.take(i), "row"@) + 1
}

/// A well-formed worksheet event sequence: properly nested, with every row
/// and cell element closed by the end.
pub open spec fn ws_well_formed(evs: Seq<EventView>) -> bool {
    &&& ws_nested(evs)
    &&& n_opens(evs, "row"@) == n_closes(evs, "row"@)
    &&& n_opens(evs, "c"@) == n_closes(evs, "c"@)
}

/// The cell records held by a sequence of row records, in total.
pub open spec fn cells_in_rows(rows: Seq<RowView>) -> int
    decreases rows.len(),
{
    if rows.len() == 0 {
        0
    } else {
        cells_in_rows(rows.drop_last()) + rows.last().cells.len()
    }
}

/// The cell records a scan state holds: those already inside finished rows,
/// and those of the row still open.
pub open spec fn total_cells(st: WsState) -> int {
    cells_in_rows(st.rows) + (match st.cur_row {
        Some(r) => r.cells.len() as int,
        None => 0int,
    })
}

proof fn lemma_ws_scan_counts(evs: Seq<EventView>)
    requires
        ws_nested(evs),
    ensures
        ws_scan(evs).rows.len() == n_closes(evs, "row"@),
        (ws_scan(evs).cur_row is Some) <==> (n_opens(evs, "row"@) == n_closes(evs, "row"@) + 1),
        (ws_scan(evs).cur_cell is Some) <==> (n_opens(evs, "c"@) == n_closes(evs, "c"@) + 1),
        total_cells(ws_scan(evs)) == n_closes(evs, "c"@),
    decreases evs.len(),
{
    broadcast use vstd::string::group_string_axioms;

    reveal_strlit("row");
    reveal_strlit("c");
    assert("row"@.len() == 3);
    assert("c"@.len() == 1);
    assert("row"@ != "c"@);
    if evs.len() == 0 {
    } else {
        let pre = evs.drop_last();
        let e = evs.last();
        assert(ws_nested(pre)) by {
            assert forall|i: int| 0 <= i <= pre.len() implies ws_prefix_bounds(
                #[trigger] pre.take(i),
            ) by {
                assert(pre.take(i) =~= evs.take(i));
                assert(ws_prefix_bounds(evs.take(i)));
            }
            assert forall|i: int|
                0 <= i < pre.len() && is_tag_close(#[trigger] pre[i], "c"@) implies n_opens(
                pre.take(i),
                "row"@,
            ) == n_closes(pre.take(i), "row"@) + 1 by {
                assert(pre[i] == evs[i]);
                assert(pre.take(i) =~= evs.take(i));
            }
        }
        lemma_ws_scan_counts(pre);
        let st = ws_scan(pre);
        let st2 = ws_scan(evs);
        assert(st2 == ws_step(st, e));
        assert(evs.take(evs.len() as int) =~= evs);
        assert(ws_prefix_bounds(evs));
        assert(evs.take(pre.len() as int) =~= pre);
        assert(ws_prefix_bounds(pre));
        if is_tag_open(e, "row"@) {
            assert(st.cur_row is None);
            assert(st2.rows == st.rows && st2.cur_row is Some && st2.cur_cell == st.cur_cell);
            assert(st2.cur_row.unwrap().cells.len() == 0);
        } else if is_tag_close(e, "row"@) {
            assert(st.cur_row is Some);
            assert(st2.rows == st.rows.push(st.cur_row.unwrap()) && st2.cur_row is None
                && st2.cur_cell == st.cur_cell);
            let r = st.cur_row.unwrap();
            assert(st.rows.push(r).drop_last() =~= st.rows);
            assert(st.rows.push(r).last() == r);
            assert(cells_in_rows(st.rows.push(r)) == cells_in_rows(st.rows) + r.cells.len());
        } else if is_tag_open(e, "c"@) {
            assert(st.cur_cell is None);
            assert(st2.rows == st.rows && st2.cur_row == st.cur_row && st2.cur_cell is Some);
        } else if is_tag_close(e, "c"@) {
            assert(st.cur_cell is Some);
            assert(n_opens(pre, "row"@) == n_closes(pre, "row"@) + 1) by {
                assert(is_tag_close(evs[evs.len() - 1], "c"@));
                assert(evs.take(evs.len() - 1) =~= pre);
            }
            assert(st.cur_row is Some);
            let r = st.cur_row.unwrap();
            assert(st2.rows == st.rows && st2.cur_cell is None && st2.cur_row is Some);
            assert(st2.cur_row.unwrap().cells =~= r.cells.push(st.cur_cell.unwrap()));
        } else {
            assert(st2.rows == st.rows);
            assert(st2.cur_row is Some <==> st.cur_row is Some);
            assert(st2.cur_cell is Some <==> st.cur_cell is Some);
            assert(st2.cur_row is Some ==> st2.cur_row.unwrap().cells == st.cur_row.unwrap().cells);
        }
    }
}

/// For a well-formed worksheet event sequence — row and cell elements
/// properly nested and all closed — extraction yields exactly one row
/// record per row element and, across the rows together, exactly one cell
/// record per cell element, in document order.
pub proof fn lemma_worksheet_counts(evs: Seq<EventView>)
    requires
        ws_well_formed(evs),
    ensures
        spec_extract_worksheet(evs).rows.len() == n_opens(evs, "row"@),
        cells_in_rows(spec_extract_worksheet(evs).rows) == n_opens(evs, "c"@),
{
    lemma_ws_scan_counts(evs);
}

/// Extracts one worksheet document: its rows with their cells, merge-cell
/// ranges, hyperlinks, and column widths, all in document order.
pub fn parse_worksheet(xml: &str) -> (ws: ParsedWorksheet)
    ensures
        ws.deep_view() == spec_extract_worksheet(tokens_of(xml@, true)),
{
    let events = tokenize(xml, true);
    extract_worksheet(&events)
}

} // verus!
