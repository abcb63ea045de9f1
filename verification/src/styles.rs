//! The styles extractor: cell formats, fonts, fills, borders and the
//! number-format table of one style document.

use vstd::prelude::*;
use std::collections::HashMap;
use crate::events::{
    attr_lookup, bool_attr, find_attr, float_attr, spec_bool_attr, spec_float_attr, spec_u32_attr,
    string_attr, u32_attr, AttrView, EventView, XmlAttr, XmlEvent,
};
use crate::numbers::{parse_i32, parse_u32, spec_parse_i32, spec_parse_u32};
use crate::records::{
    string_map_view, BorderView, FillView, FontView, ParsedBorder, ParsedFill, ParsedFont,
    ParsedStyle, ParsedStyles, StyleView, StylesView,
};
use crate::strutil::{str_eq, truthy};
use crate::xml::{tokenize, tokens_of};

verus! {

broadcast use vstd::std_specs::hash::group_hash_axioms;

/// Scan state of the styles extractor: the finished output so far, the five
/// region markers (the regions are siblings, each marker toggles with its
/// own element), the open builders, the pattern-fill marker, and the border
/// side an upcoming `color` element belongs to.
pub struct StylesState {
    pub cell_xfs: Seq<StyleView>,
    pub fonts: Seq<FontView>,
    pub fills: Seq<FillView>,
    pub borders: Seq<BorderView>,
    pub num_fmts: Map<u32, Seq<char>>,
    pub in_cell_xfs: bool,
    pub in_fonts: bool,
    pub in_fills: bool,
    pub in_borders: bool,
    pub in_num_fmts: bool,
    pub cur_font: Option<FontView>,
    pub cur_fill: Option<FillView>,
    pub cur_border: Option<BorderView>,
    pub in_pattern_fill: bool,
    pub border_side: Option<Seq<char>>,
}

pub open spec fn st_init() -> StylesState {
    StylesState {
        cell_xfs: Seq::empty(),
        fonts: Seq::empty(),
        fills: Seq::empty(),
        borders: Seq::empty(),
        num_fmts: Map::empty(),
        in_cell_xfs: false,
        in_fonts: false,
        in_fills: false,
        in_borders: false,
        in_num_fmts: false,
        cur_font: None,
        cur_fill: None,
        cur_border: None,
        in_pattern_fill: false,
        border_side: None,
    }
}

/// The cell format an `xf` element's attributes describe; alignment fields
/// start at their defaults and a following `alignment` child patches them.
pub open spec fn spec_style_from_attrs(attrs: Seq<AttrView>) -> StyleView {
    StyleView {
        num_fmt_id: spec_u32_attr(attrs, "numFmtId"@),
        font_id: spec_u32_attr(attrs, "fontId"@),
        fill_id: spec_u32_attr(attrs, "fillId"@),
        border_id: spec_u32_attr(attrs, "borderId"@),
        xf_id: spec_u32_attr(attrs, "xfId"@),
        apply_number_format: spec_bool_attr(attrs, "applyNumberFormat"@),
        apply_font: spec_bool_attr(attrs, "applyFont"@),
        apply_fill: spec_bool_attr(attrs, "applyFill"@),
        apply_border: spec_bool_attr(attrs, "applyBorder"@),
        apply_alignment: spec_bool_attr(attrs, "applyAlignment"@),
        horizontal: None,
        vertical: None,
        wrap_text: false,
        text_rotation: None,
        indent: None,
    }
}

/// What an `alignment` element does to the most recently pushed cell
/// format: each field is overwritten only when its attribute is present.
pub open spec fn spec_alignment_patch(s: StyleView, attrs: Seq<AttrView>) -> StyleView {
    StyleView {
        horizontal: match attr_lookup(attrs, "horizontal"@) {
            Some(v) => Some(v),
            None => s.horizontal,
        },
        vertical: match attr_lookup(attrs, "vertical"@) {
            Some(v) => Some(v),
            None => s.vertical,
        },
        wrap_text: match attr_lookup(attrs, "wrapText"@) {
            Some(v) => crate::strutil::spec_truthy(v),
            None => s.wrap_text,
        },
        text_rotation: match attr_lookup(attrs, "textRotation"@) {
            Some(v) => spec_parse_i32(v),
            None => s.text_rotation,
        },
        indent: match attr_lookup(attrs, "indent"@) {
            Some(v) => spec_parse_u32(v),
            None => s.indent,
        },
        ..s
    }
}

pub open spec fn empty_font() -> FontView {
    FontView {
        bold: false,
        italic: false,
        underline: false,
        strikethrough: false,
        size: None,
        color: None,
        name: None,
    }
}

pub open spec fn empty_fill() -> FillView {
    FillView { pattern_type: None, fg_color: None, bg_color: None }
}

pub open spec fn empty_border() -> BorderView {
    BorderView {
        left_style: None,
        left_color: None,
        right_style: None,
        right_color: None,
        top_style: None,
        top_color: None,
        bottom_style: None,
        bottom_color: None,
    }
}

/// A style value put into the open border builder, routed by the side name.
pub open spec fn spec_border_side_style_val(
    b: BorderView,
    side: Seq<char>,
    v: Seq<char>,
) -> BorderView {
    if side == "left"@ {
        BorderView { left_style: Some(v), ..b }
    } else if side == "right"@ {
        BorderView { right_style: Some(v), ..b }
    } else if side == "top"@ {
        BorderView { top_style: Some(v), ..b }
    } else if side == "bottom"@ {
        BorderView { bottom_style: Some(v), ..b }
    } else {
        b
    }
}

/// What a border-side element's `style` attribute puts into the open border
/// builder, routed by the side name.
pub open spec fn spec_border_side_style(
    b: BorderView,
    side: Seq<char>,
    attrs: Seq<AttrView>,
) -> BorderView {
    match attr_lookup(attrs, "style"@) {
        Some(v) => spec_border_side_style_val(b, side, v),
        None => b,
    }
}

/// What a `color` element's `rgb` attribute puts into the open border
/// builder, routed by the recorded side name.
pub open spec fn spec_border_side_color(
    b: BorderView,
    side: Seq<char>,
    rgb: Seq<char>,
) -> BorderView {
    if side == "left"@ {
        BorderView { left_color: Some(rgb), ..b }
    } else if side == "right"@ {
        BorderView { right_color: Some(rgb), ..b }
    } else if side == "top"@ {
        BorderView { top_color: Some(rgb), ..b }
    } else if side == "bottom"@ {
        BorderView { bottom_color: Some(rgb), ..b }
    } else {
        b
    }
}

/// What an `alignment` element does to the scan state: it patches the most
/// recently pushed cell format, when there is one.
pub open spec fn st_alignment(st: StylesState, attrs: Seq<AttrView>) -> StylesState {
    if st.in_cell_xfs && st.cell_xfs.len() > 0 {
        StylesState {
            cell_xfs: st.cell_xfs.update(
                st.cell_xfs.len() - 1,
                spec_alignment_patch(st.cell_xfs.last(), attrs),
            ),
            ..st
        }
    } else {
        st
    }
}

/// One opening or self-closing tag of the style document: the region
/// markers and the cell-format elements; anything else falls through to the
/// font elements.
pub open spec fn st_open(st: StylesState, name: Seq<char>, attrs: Seq<AttrView>) -> StylesState {
    if name == "cellXfs"@ {
        StylesState { in_cell_xfs: true, ..st }
    } else if name == "fonts"@ {
        StylesState { in_fonts: true, ..st }
    } else if name == "fills"@ {
        StylesState { in_fills: true, ..st }
    } else if name == "borders"@ {
        StylesState { in_borders: true, ..st }
    } else if name == "numFmts"@ {
        StylesState { in_num_fmts: true, ..st }
    } else if name == "xf"@ {
        if st.in_cell_xfs {
            StylesState { cell_xfs: st.cell_xfs.push(spec_style_from_attrs(attrs)), ..st }
        } else {
            st
        }
    } else if name == "alignment"@ {
        st_alignment(st, attrs)
    } else {
        st_open_font_part(st, name, attrs)
    }
}

/// The font elements; anything else falls through to the fill elements.
pub open spec fn st_open_font_part(
    st: StylesState,
    name: Seq<char>,
    attrs: Seq<AttrView>,
) -> StylesState {
    if name == "font"@ {
        if st.in_fonts {
            StylesState { cur_font: Some(empty_font()), ..st }
        } else {
            st
        }
    } else if name == "b"@ {
        match st.cur_font {
            Some(f) => StylesState { cur_font: Some(FontView { bold: true, ..f }), ..st },
            None => st,
        }
    } else if name == "i"@ {
        match st.cur_font {
            Some(f) => StylesState { cur_font: Some(FontView { italic: true, ..f }), ..st },
            None => st,
        }
    } else if name == "u"@ {
        match st.cur_font {
            Some(f) => StylesState { cur_font: Some(FontView { underline: true, ..f }), ..st },
            None => st,
        }
    } else if name == "strike"@ {
        match st.cur_font {
            Some(f) => StylesState {
                cur_font: Some(FontView { strikethrough: true, ..f }),
                ..st
            },
            None => st,
        }
    } else if name == "sz"@ {
        match st.cur_font {
            Some(f) => match attr_lookup(attrs, "val"@) {
                Some(v) => StylesState {
                    cur_font: Some(FontView { size: spec_float_attr(attrs, "val"@), ..f }),
                    ..st
                },
                None => st,
            },
            None => st,
        }
    } else if name == "color"@ {
        match st.cur_font {
            Some(f) => match attr_lookup(attrs, "rgb"@) {
                Some(v) => StylesState {
                    cur_font: Some(FontView { color: Some(v), ..f }),
                    ..st
                },
                None => st,
            },
            None => match st.border_side {
                Some(side) => match st.cur_border {
                    Some(b) => match attr_lookup(attrs, "rgb"@) {
                        Some(v) => StylesState {
                            cur_border: Some(spec_border_side_color(b, side, v)),
                            ..st
                        },
                        None => st,
                    },
                    None => st,
                },
                None => st,
            },
        }
    } else if name == "name"@ {
        match st.cur_font {
            Some(f) => match attr_lookup(attrs, "val"@) {
                Some(v) => StylesState { cur_font: Some(FontView { name: Some(v), ..f }), ..st },
                None => st,
            },
            None => st,
        }
    } else {
        st_open_fill_part(st, name, attrs)
    }
}

/// The fill elements; anything else falls through to the border and
/// number-format elements.
pub open spec fn st_open_fill_part(
    st: StylesState,
    name: Seq<char>,
    attrs: Seq<AttrView>,
) -> StylesState {
    if name == "fill"@ {
        if st.in_fills {
            StylesState { cur_fill: Some(empty_fill()), ..st }
        } else {
            st
        }
    } else if name == "patternFill"@ {
        match st.cur_fill {
            Some(f) => StylesState {
                in_pattern_fill: true,
                cur_fill: Some(
                    FillView {
                        pattern_type: match attr_lookup(attrs, "patternType"@) {
                            Some(v) => Some(v),
                            None => f.pattern_type,
                        },
                        ..f
                    },
                ),
                ..st
            },
            None => st,
        }
    } else if name == "fgColor"@ {
        if st.in_pattern_fill {
            match st.cur_fill {
                Some(f) => match attr_lookup(attrs, "rgb"@) {
                    Some(v) => StylesState {
                        cur_fill: Some(FillView { fg_color: Some(v), ..f }),
                        ..st
                    },
                    None => st,
                },
                None => st,
            }
        } else {
            st
        }
    } else if name == "bgColor"@ {
        if st.in_pattern_fill {
            match st.cur_fill {
                Some(f) => match attr_lookup(attrs, "rgb"@) {
                    Some(v) => StylesState {
                        cur_fill: Some(FillView { bg_color: Some(v), ..f }),
                        ..st
                    },
                    None => st,
                },
                None => st,
            }
        } else {
            st
        }
    } else {
        st_open_border_part(st, name, attrs)
    }
}

/// The border and number-format elements; anything else is ignored.
pub open spec fn st_open_border_part(
    st: StylesState,
    name: Seq<char>,
    attrs: Seq<AttrView>,
) -> StylesState {
    if name == "border"@ {
        if st.in_borders {
            StylesState { cur_border: Some(empty_border()), ..st }
        } else {
            st
        }
    } else if name == "left"@ || name == "right"@ || name == "top"@ || name == "bottom"@ {
        match st.cur_border {
            Some(b) => StylesState {
                border_side: Some(name),
                cur_border: Some(spec_border_side_style(b, name, attrs)),
                ..st
            },
            None => st,
        }
    } else if name == "numFmt"@ {
        if st.in_num_fmts {
            match (spec_u32_attr(attrs, "numFmtId"@), attr_lookup(attrs, "formatCode"@)) {
                (Some(id), Some(code)) => StylesState {
                    num_fmts: st.num_fmts.insert(id, code),
                    ..st
                },
                _ => st,
            }
        } else {
            st
        }
    } else {
        st
    }
}

/// One closing tag of the style document.
pub open spec fn st_close(st: StylesState, name: Seq<char>) -> StylesState {
    if name == "cellXfs"@ {
        StylesState { in_cell_xfs: false, ..st }
    } else if name == "fonts"@ {
        StylesState { in_fonts: false, ..st }
    } else if name == "fills"@ {
        StylesState { in_fills: false, ..st }
    } else if name == "borders"@ {
        StylesState { in_borders: false, ..st }
    } else if name == "numFmts"@ {
        StylesState { in_num_fmts: false, ..st }
    } else if name == "font"@ {
        if st.in_fonts {
            match st.cur_font {
                Some(f) => StylesState { fonts: st.fonts.push(f), cur_font: None, ..st },
                None => st,
            }
        } else {
            st
        }
    } else if name == "fill"@ {
        if st.in_fills {
            match st.cur_fill {
                Some(f) => StylesState {
                    fills: st.fills.push(f),
                    cur_fill: None,
                    in_pattern_fill: false,
                    ..st
                },
                None => StylesState { in_pattern_fill: false, ..st },
            }
        } else {
            st
        }
    } else if name == "patternFill"@ {
        StylesState { in_pattern_fill: false, ..st }
    } else if name == "border"@ {
        if st.in_borders {
            match st.cur_border {
                Some(b) => StylesState { borders: st.borders.push(b), cur_border: None, ..st },
                None => st,
            }
        } else {
            st
        }
    } else if name == "left"@ || name == "right"@ || name == "top"@ || name == "bottom"@ {
        StylesState { border_side: None, ..st }
    } else {
        st
    }
}

pub open spec fn st_step(st: StylesState, ev: EventView) -> StylesState {
    match ev {
        EventView::Open { name, attrs } => st_open(st, name, attrs),
        EventView::SelfClosing { name, attrs } => st_open(st, name, attrs),
        EventView::Close { name } => st_close(st, name),
        _ => st,
    }
}

pub open spec fn st_scan(events: Seq<EventView>) -> StylesState
    decreases events.len(),
{
    if events.len() == 0 {
        st_init()
    } else {
        st_step(st_scan(events.drop_last()), events.last())
    }
}

/// What styles extraction yields on an event sequence: the finished output
/// of the scan; builders still open at the end are discarded.
pub open spec fn spec_extract_styles(events: Seq<EventView>) -> StylesView {
    let st = st_scan(events);
    StylesView {
        cell_xfs: st.cell_xfs,
        fonts: st.fonts,
        fills: st.fills,
        borders: st.borders,
        num_fmts: st.num_fmts,
    }
}

fn style_from_attrs(attrs: &Vec<XmlAttr>) -> (s: ParsedStyle)
    ensures
        s.deep_view() == spec_style_from_attrs(attrs.deep_view()),
{
    ParsedStyle {
        num_fmt_id: u32_attr(attrs, "numFmtId"),
        font_id: u32_attr(attrs, "fontId"),
        fill_id: u32_attr(attrs, "fillId"),
        border_id: u32_attr(attrs, "borderId"),
        xf_id: u32_attr(attrs, "xfId"),
        apply_number_format: bool_attr(attrs, "applyNumberFormat"),
        apply_font: bool_attr(attrs, "applyFont"),
        apply_fill: bool_attr(attrs, "applyFill"),
        apply_border: bool_attr(attrs, "applyBorder"),
        apply_alignment: bool_attr(attrs, "applyAlignment"),
        horizontal: None,
        vertical: None,
        wrap_text: false,
        text_rotation: None,
        indent: None,
    }
}

/// The styles accumulator, whose specification-level state drives the
/// correspondence with the scan.
struct StAccum {
    cell_xfs: Vec<ParsedStyle>,
    fonts: Vec<ParsedFont>,
    fills: Vec<ParsedFill>,
    borders: Vec<ParsedBorder>,
    num_fmts: HashMap<u32, String>,
    in_cell_xfs: bool,
    in_fonts: bool,
    in_fills: bool,
    in_borders: bool,
    in_num_fmts: bool,
    cur_font: Option<ParsedFont>,
    cur_fill: Option<ParsedFill>,
    cur_border: Option<ParsedBorder>,
    in_pattern_fill: bool,
    border_side: Option<String>,
}

impl StAccum {
    spec fn st(&self) -> StylesState {
        StylesState {
            cell_xfs: self.cell_xfs.deep_view(),
            fonts: self.fonts.deep_view(),
            fills: self.fills.deep_view(),
            borders: self.borders.deep_view(),
            num_fmts: string_map_view(self.num_fmts@),
            in_cell_xfs: self.in_cell_xfs,
            in_fonts: self.in_fonts,
            in_fills: self.in_fills,
            in_borders: self.in_borders,
            in_num_fmts: self.in_num_fmts,
            cur_font: self.cur_font.deep_view(),
            cur_fill: self.cur_fill.deep_view(),
            cur_border: self.cur_border.deep_view(),
            in_pattern_fill: self.in_pattern_fill,
            border_side: self.border_side.deep_view(),
        }
    }

    fn on_open(&mut self, name: &String, attrs: &Vec<XmlAttr>)
        ensures
            final (self).st() == st_open(old(self).st(), name@, attrs.deep_view()),
    {
        if str_eq(name.as_str(), "cellXfs") {
            self.in_cell_xfs = true;
        } else if str_eq(name.as_str(), "fonts") {
            self.in_fonts = true;
        } else if str_eq(name.as_str(), "fills") {
            self.in_fills = true;
        } else if str_eq(name.as_str(), "borders") {
            self.in_borders = true;
        } else if str_eq(name.as_str(), "numFmts") {
            self.in_num_fmts = true;
        } else if str_eq(name.as_str(), "xf") {
            if self.in_cell_xfs {
                let s = style_from_attrs(attrs);
                let ghost sv = s.deep_view();
                self.cell_xfs.push(s);
                proof {
                    assert(self.cell_xfs.deep_view() =~= old(self).cell_xfs.deep_view().push(sv));
                }
            }
        } else if str_eq(name.as_str(), "alignment") {
            self.on_alignment(attrs);
        } else {
            self.on_open_font_part(name, attrs);
        }
    }

    fn on_alignment(&mut self, attrs: &Vec<XmlAttr>)
        ensures
            final (self).st() == st_alignment(old(self).st(), attrs.deep_view()),
    {
        if self.in_cell_xfs {
            match self.cell_xfs.pop() {
                    Some(mut s) => {
                        match find_attr(attrs, "horizontal") {
                            Some(v) => {
                                s.horizontal = Some(v.clone());
                            },
                            None => {},
                        }
                        match find_attr(attrs, "vertical") {
                            Some(v) => {
                                s.vertical = Some(v.clone());
                            },
                            None => {},
                        }
                        match find_attr(attrs, "wrapText") {
                            Some(v) => {
                                s.wrap_text = truthy(v.as_str());
                            },
                            None => {},
                        }
                        match find_attr(attrs, "textRotation") {
                            Some(v) => {
                                s.text_rotation = parse_i32(v.as_str());
                            },
                            None => {},
                        }
                        match find_attr(attrs, "indent") {
                            Some(v) => {
                                s.indent = parse_u32(v.as_str());
                            },
                            None => {},
                        }
                        let ghost sv = s.deep_view();
                        self.cell_xfs.push(s);
                        proof {
                            assert(self.cell_xfs.deep_view() =~= old(
                                self,
                            ).cell_xfs.deep_view().update(
                                old(self).cell_xfs.deep_view().len() - 1,
                                sv,
                            ));
                        }
                    },
                    None => {},
                }
        }
    }

    fn on_open_font_part(&mut self, name: &String, attrs: &Vec<XmlAttr>)
        ensures
            final (self).st() == st_open_font_part(old(self).st(), name@, attrs.deep_view()),
    {
        if str_eq(name.as_str(), "font") {
            if self.in_fonts {
                self.cur_font = Some(
                    ParsedFont {
                        bold: false,
                        italic: false,
                        underline: false,
                        strikethrough: false,
                        size: None,
                        color: None,
                        name: None,
                    },
                );
            }
        } else if str_eq(name.as_str(), "b") {
            match self.cur_font.take() {
                Some(mut f) => {
                    f.bold = true;
                    self.cur_font = Some(f);
                },
                None => {},
            }
        } else if str_eq(name.as_str(), "i") {
            match self.cur_font.take() {
                Some(mut f) => {
                    f.italic = true;
                    self.cur_font = Some(f);
                },
                None => {},
            }
        } else if str_eq(name.as_str(), "u") {
            match self.cur_font.take() {
                Some(mut f) => {
                    f.underline = true;
                    self.cur_font = Some(f);
                },
                None => {},
            }
        } else if str_eq(name.as_str(), "strike") {
            match self.cur_font.take() {
                Some(mut f) => {
                    f.strikethrough = true;
                    self.cur_font = Some(f);
                },
                None => {},
            }
        } else if str_eq(name.as_str(), "sz") {
            match self.cur_font.take() {
                Some(mut f) => {
                    match find_attr(attrs, "val") {
                        Some(_) => {
                            f.size = float_attr(attrs, "val");
                        },
                        None => {},
                    }
                    self.cur_font = Some(f);
                },
                None => {},
            }
        } else if str_eq(name.as_str(), "color") {
            match self.cur_font.take() {
                Some(mut f) => {
                    match find_attr(attrs, "rgb") {
                        Some(v) => {
                            f.color = Some(v.clone());
                        },
                        None => {},
                    }
                    self.cur_font = Some(f);
                },
                None => {
                    let has_side = self.border_side.is_some();
                    if has_side {
                        match self.cur_border.take() {
                            Some(b) => {
                                match find_attr(attrs, "rgb") {
                                    Some(v) => {
                                        let side_color = self.side_name();
                                        self.cur_border = Some(
                                            apply_border_color(b, &side_color, v),
                                        );
                                    },
                                    None => {
                                        self.cur_border = Some(b);
                                    },
                                }
                            },
                            None => {},
                        }
                    }
                },
            }
        } else if str_eq(name.as_str(), "name") {
            match self.cur_font.take() {
                Some(mut f) => {
                    match find_attr(attrs, "val") {
                        Some(v) => {
                            f.name = Some(v.clone());
                        },
                        None => {},
                    }
                    self.cur_font = Some(f);
                },
                None => {},
            }
        } else {
            self.on_open_fill_part(name, attrs);
        }
    }

    fn on_open_fill_part(&mut self, name: &String, attrs: &Vec<XmlAttr>)
        ensures
            final (self).st() == st_open_fill_part(old(self).st(), name@, attrs.deep_view()),
    {
        if str_eq(name.as_str(), "fill") {
            if self.in_fills {
                self.cur_fill = Some(
                    ParsedFill { pattern_type: None, fg_color: None, bg_color: None },
                );
            }
        } else if str_eq(name.as_str(), "patternFill") {
            match self.cur_fill.take() {
                Some(mut f) => {
                    self.in_pattern_fill = true;
                    match find_attr(attrs, "patternType") {
                        Some(v) => {
                            f.pattern_type = Some(v.clone());
                        },
                        None => {},
                    }
                    self.cur_fill = Some(f);
                },
                None => {},
            }
        } else if str_eq(name.as_str(), "fgColor") {
            if self.in_pattern_fill {
                match self.cur_fill.take() {
                    Some(mut f) => {
                        match find_attr(attrs, "rgb") {
                            Some(v) => {
                                f.fg_color = Some(v.clone());
                            },
                            None => {},
                        }
                        self.cur_fill = Some(f);
                    },
                    None => {},
                }
            }
        } else if str_eq(name.as_str(), "bgColor") {
            if self.in_pattern_fill {
                match self.cur_fill.take() {
                    Some(mut f) => {
                        match find_attr(attrs, "rgb") {
                            Some(v) => {
                                f.bg_color = Some(v.clone());
                            },
                            None => {},
                        }
                        self.cur_fill = Some(f);
                    },
                    None => {},
                }
            }
        } else {
            self.on_open_border_part(name, attrs);
        }
    }

    fn on_open_border_part(&mut self, name: &String, attrs: &Vec<XmlAttr>)
        ensures
            final (self).st() == st_open_border_part(old(self).st(), name@, attrs.deep_view()),
    {
        if str_eq(name.as_str(), "border") {
            if self.in_borders {
                self.cur_border = Some(
                    ParsedBorder {
                        left_style: None,
                        left_color: None,
                        right_style: None,
                        right_color: None,
                        top_style: None,
                        top_color: None,
                        bottom_style: None,
                        bottom_color: None,
                    },
                );
            }
        } else if str_eq(name.as_str(), "left") || str_eq(name.as_str(), "right") || str_eq(
            name.as_str(),
            "top",
        ) || str_eq(name.as_str(), "bottom") {
            match self.cur_border.take() {
                Some(b) => {
                    self.border_side = Some(name.clone());
                    match find_attr(attrs, "style") {
                        Some(v) => {
                            self.cur_border = Some(apply_border_style(b, name, v));
                        },
                        None => {
                            self.cur_border = Some(b);
                        },
                    }
                },
                None => {},
            }
        } else if str_eq(name.as_str(), "numFmt") {
            if self.in_num_fmts {
                let id = u32_attr(attrs, "numFmtId");
                let code = string_attr(attrs, "formatCode");
                match (id, code) {
                    (Some(id_val), Some(code_val)) => {
                        let ghost before = self.num_fmts@;
                        let ghost codev = code_val@;
                        self.num_fmts.insert(id_val, code_val);
                        proof {
                            assert(string_map_view(self.num_fmts@) =~= string_map_view(
                                before,
                            ).insert(id_val, codev));
                        }
                    },
                    _ => {},
                }
            }
        }
    }

    /// A copy of the recorded border side name.
    fn side_name(&self) -> (r: String)
        requires
            self.border_side is Some,
        ensures
            Some(r@) == self.border_side.deep_view(),
    {
        match &self.border_side {
            Some(s) => s.clone(),
            None => String::new(),
        }
    }

    fn on_close(&mut self, name: &String)
        ensures
            final (self).st() == st_close(old(self).st(), name@),
    {
        if str_eq(name.as_str(), "cellXfs") {
            self.in_cell_xfs = false;
        } else if str_eq(name.as_str(), "fonts") {
            self.in_fonts = false;
        } else if str_eq(name.as_str(), "fills") {
            self.in_fills = false;
        } else if str_eq(name.as_str(), "borders") {
            self.in_borders = false;
        } else if str_eq(name.as_str(), "numFmts") {
            self.in_num_fmts = false;
        } else if str_eq(name.as_str(), "font") {
            if self.in_fonts {
                match self.cur_font.take() {
                    Some(f) => {
                        let ghost fv = f.deep_view();
                        self.fonts.push(f);
                        proof {
                            assert(self.fonts.deep_view() =~= old(self).fonts.deep_view().push(
                                fv,
                            ));
                        }
                    },
                    None => {},
                }
            }
        } else if str_eq(name.as_str(), "fill") {
            if self.in_fills {
                match self.cur_fill.take() {
                    Some(f) => {
                        let ghost fv = f.deep_view();
                        self.fills.push(f);
                        proof {
                            assert(self.fills.deep_view() =~= old(self).fills.deep_view().push(
                                fv,
                            ));
                        }
                    },
                    None => {},
                }
                self.in_pattern_fill = false;
            }
        } else if str_eq(name.as_str(), "patternFill") {
            self.in_pattern_fill = false;
        } else if str_eq(name.as_str(), "border") {
            if self.in_borders {
                match self.cur_border.take() {
                    Some(b) => {
                        let ghost bv = b.deep_view();
                        self.borders.push(b);
                        proof {
                            assert(self.borders.deep_view() =~= old(
                                self,
                            ).borders.deep_view().push(bv));
                        }
                    },
                    None => {},
                }
            }
        } else if str_eq(name.as_str(), "left") || str_eq(name.as_str(), "right") || str_eq(
            name.as_str(),
            "top",
        ) || str_eq(name.as_str(), "bottom") {
            self.border_side = None;
        }
    }
}

fn apply_border_style(b: ParsedBorder, side: &String, v: &String) -> (r: ParsedBorder)
    ensures
        r.deep_view() == spec_border_side_style_val(b.deep_view(), side@, v@),
{
    if str_eq(side.as_str(), "left") {
        ParsedBorder { left_style: Some(v.clone()), ..b }
    } else if str_eq(side.as_str(), "right") {
        ParsedBorder { right_style: Some(v.clone()), ..b }
    } else if str_eq(side.as_str(), "top") {
        ParsedBorder { top_style: Some(v.clone()), ..b }
    } else if str_eq(side.as_str(), "bottom") {
        ParsedBorder { bottom_style: Some(v.clone()), ..b }
    } else {
        b
    }
}

fn apply_border_color(b: ParsedBorder, side: &String, rgb: &String) -> (r: ParsedBorder)
    ensures
        r.deep_view() == spec_border_side_color(b.deep_view(), side@, rgb@),
{
    if str_eq(side.as_str(), "left") {
        ParsedBorder { left_color: Some(rgb.clone()), ..b }
    } else if str_eq(side.as_str(), "right") {
        ParsedBorder { right_color: Some(rgb.clone()), ..b }
    } else if str_eq(side.as_str(), "top") {
        ParsedBorder { top_color: Some(rgb.clone()), ..b }
    } else if str_eq(side.as_str(), "bottom") {
        ParsedBorder { bottom_color: Some(rgb.clone()), ..b }
    } else {
        b
    }
}

/// Extracts the style records from an event sequence.
pub fn extract_styles(events: &Vec<XmlEvent>) -> (styles: ParsedStyles)
    ensures
        styles.deep_view() == spec_extract_styles(events.deep_view()),
{
    let mut acc = StAccum {
        cell_xfs: Vec::new(),
        fonts: Vec::new(),
        fills: Vec::new(),
        borders: Vec::new(),
        num_fmts: HashMap::new(),
        in_cell_xfs: false,
        in_fonts: false,
        in_fills: false,
        in_borders: false,
        in_num_fmts: false,
        cur_font: None,
        cur_fill: None,
        cur_border: None,
        in_pattern_fill: false,
        border_side: None,
    };
    let mut i: usize = 0;
    proof {
        assert(events.deep_view().take(0) =~= Seq::<EventView>::empty());
        assert(acc.cell_xfs.deep_view() =~= Seq::<StyleView>::empty());
        assert(acc.fonts.deep_view() =~= Seq::<FontView>::empty());
        assert(acc.fills.deep_view() =~= Seq::<FillView>::empty());
        assert(acc.borders.deep_view() =~= Seq::<BorderView>::empty());
        assert(string_map_view(acc.num_fmts@) =~= Map::<u32, Seq<char>>::empty());
    }
    while i < events.len()
        invariant
            i <= events.len(),
            events.deep_view().len() == events.len(),
            acc.st() == st_scan(events.deep_view().take(i as int)),
        decreases events.len() - i,
    {
        proof {
            assert(events.deep_view().take(i + 1).drop_last() =~= events.deep_view().take(
                i as int,
            ));
            assert(events.deep_view().take(i + 1).last() == events.deep_view()[i as int]);
            assert(events.deep_view()[i as int] == events[i as int].deep_view());
        }
        let ev = &events[i];
        match ev {
            XmlEvent::Open { name, attrs } => {
                acc.on_open(name, attrs);
            },
            XmlEvent::SelfClosing { name, attrs } => {
                acc.on_open(name, attrs);
            },
            XmlEvent::Close { name } => {
                acc.on_close(name);
            },
            _ => {},
        }
        i = i + 1;
    }
    proof {
        assert(events.deep_view().take(events.len() as int) =~= events.deep_view());
    }
    let StAccum { cell_xfs, fonts, fills, borders, num_fmts, .. } = acc;
    ParsedStyles { cell_xfs, fonts, fills, borders, num_fmts }
}

/// Extracts one style document: cell formats, fonts, fills, borders and the
/// number-format table, each sequence in document order.
pub fn parse_styles(xml: &str) -> (styles: ParsedStyles)
    ensures
        styles.deep_view() == spec_extract_styles(tokens_of(xml@, true)),
{
    let events = tokenize(xml, true);
    extract_styles(&events)
}

} // verus!
