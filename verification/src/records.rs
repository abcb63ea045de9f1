//! The plain records that the extractors produce, with their
//! specification-level views.
//!
//! Fields whose source attribute is a floating-point number (a row height, a
//! column width, a font size) keep the raw lexical text of that number: the
//! text is kept only when it has the form a floating-point parser accepts
//! (see `numbers::spec_float_text`), and a caller converts it when it needs
//! the numeric value.

use vstd::prelude::*;
use std::collections::HashMap;

verus! {

/// The specification-level form of a map from an index to owned text.
pub open spec fn string_map_view(m: Map<u32, String>) -> Map<u32, Seq<char>> {
    m.map_values(|v: String| v@)
}

/// One cell of a worksheet row. Value and formula are raw text, not
/// evaluated.
#[derive(Debug, Clone)]
pub struct ParsedCell {
    pub reference: String,
    pub cell_type: Option<String>,
    pub style_index: Option<u32>,
    pub value: Option<String>,
    pub formula: Option<String>,
}

pub struct CellView {
    pub reference: Seq<char>,
    pub cell_type: Option<Seq<char>>,
    pub style_index: Option<u32>,
    pub value: Option<Seq<char>>,
    pub formula: Option<Seq<char>>,
}

impl DeepView for ParsedCell {
    type V = CellView;

    open spec fn deep_view(&self) -> CellView {
        CellView {
            reference: self.reference@,
            cell_type: self.cell_type.deep_view(),
            style_index: self.style_index,
            value: self.value.deep_view(),
            formula: self.formula.deep_view(),
        }
    }
}

/// One worksheet row and its cells, in document order.
#[derive(Debug, Clone)]
pub struct ParsedRow {
    pub row_num: u32,
    pub cells: Vec<ParsedCell>,
    pub height: Option<String>,
    pub hidden: bool,
}

pub struct RowView {
    pub row_num: u32,
    pub cells: Seq<CellView>,
    pub height: Option<Seq<char>>,
    pub hidden: bool,
}

impl DeepView for ParsedRow {
    type V = RowView;

    open spec fn deep_view(&self) -> RowView {
        RowView {
            row_num: self.row_num,
            cells: self.cells.deep_view(),
            height: self.height.deep_view(),
            hidden: self.hidden,
        }
    }
}

/// One hyperlink of a worksheet.
#[derive(Debug, Clone)]
pub struct ParsedHyperlink {
    pub reference: String,
    pub rid: Option<String>,
    pub location: Option<String>,
    pub display: Option<String>,
    pub tooltip: Option<String>,
}

pub struct HyperlinkView {
    pub reference: Seq<char>,
    pub rid: Option<Seq<char>>,
    pub location: Option<Seq<char>>,
    pub display: Option<Seq<char>>,
    pub tooltip: Option<Seq<char>>,
}

impl DeepView for ParsedHyperlink {
    type V = HyperlinkView;

    open spec fn deep_view(&self) -> HyperlinkView {
        HyperlinkView {
            reference: self.reference@,
            rid: self.rid.deep_view(),
            location: self.location.deep_view(),
            display: self.display.deep_view(),
            tooltip: self.tooltip.deep_view(),
        }
    }
}

/// Everything extracted from one worksheet document.
#[derive(Debug)]
pub struct ParsedWorksheet {
    pub rows: Vec<ParsedRow>,
    pub merge_cells: Vec<String>,
    pub hyperlinks: Vec<ParsedHyperlink>,
    pub col_widths: HashMap<u32, String>,
}

pub struct WorksheetView {
    pub rows: Seq<RowView>,
    pub merge_cells: Seq<Seq<char>>,
    pub hyperlinks: Seq<HyperlinkView>,
    pub col_widths: Map<u32, Seq<char>>,
}

impl DeepView for ParsedWorksheet {
    type V = WorksheetView;

    open spec fn deep_view(&self) -> WorksheetView {
        WorksheetView {
            rows: self.rows.deep_view(),
            merge_cells: self.merge_cells.deep_view(),
            hyperlinks: self.hyperlinks.deep_view(),
            col_widths: string_map_view(self.col_widths@),
        }
    }
}

/// One cell format from the style document; its position in the owning
/// sequence is the style index cells refer to.
#[derive(Debug, Clone)]
pub struct ParsedStyle {
    pub num_fmt_id: Option<u32>,
    pub font_id: Option<u32>,
    pub fill_id: Option<u32>,
    pub border_id: Option<u32>,
    pub xf_id: Option<u32>,
    pub apply_number_format: bool,
    pub apply_font: bool,
    pub apply_fill: bool,
    pub apply_border: bool,
    pub apply_alignment: bool,
    pub horizontal: Option<String>,
    pub vertical: Option<String>,
    pub wrap_text: bool,
    pub text_rotation: Option<i32>,
    pub indent: Option<u32>,
}

pub struct StyleView {
    pub num_fmt_id: Option<u32>,
    pub font_id: Option<u32>,
    pub fill_id: Option<u32>,
    pub border_id: Option<u32>,
    pub xf_id: Option<u32>,
    pub apply_number_format: bool,
    pub apply_font: bool,
    pub apply_fill: bool,
    pub apply_border: bool,
    pub apply_alignment: bool,
    pub horizontal: Option<Seq<char>>,
    pub vertical: Option<Seq<char>>,
    pub wrap_text: bool,
    pub text_rotation: Option<i32>,
    pub indent: Option<u32>,
}

impl DeepView for ParsedStyle {
    type V = StyleView;

    open spec fn deep_view(&self) -> StyleView {
        StyleView {
            num_fmt_id: self.num_fmt_id,
            font_id: self.font_id,
            fill_id: self.fill_id,
            border_id: self.border_id,
            xf_id: self.xf_id,
            apply_number_format: self.apply_number_format,
            apply_font: self.apply_font,
            apply_fill: self.apply_fill,
            apply_border: self.apply_border,
            apply_alignment: self.apply_alignment,
            horizontal: self.horizontal.deep_view(),
            vertical: self.vertical.deep_view(),
            wrap_text: self.wrap_text,
            text_rotation: self.text_rotation,
            indent: self.indent,
        }
    }
}

/// One font definition.
#[derive(Debug, Clone)]
pub struct ParsedFont {
    pub bold: bool,
    pub italic: bool,
    pub underline: bool,
    pub strikethrough: bool,
    pub size: Option<String>,
    pub color: Option<String>,
    pub name: Option<String>,
}

pub struct FontView {
    pub bold: bool,
    pub italic: bool,
    pub underline: bool,
    pub strikethrough: bool,
    pub size: Option<Seq<char>>,
    pub color: Option<Seq<char>>,
    pub name: Option<Seq<char>>,
}

impl DeepView for ParsedFont {
    type V = FontView;

    open spec fn deep_view(&self) -> FontView {
        FontView {
            bold: self.bold,
            italic: self.italic,
            underline: self.underline,
            strikethrough: self.strikethrough,
            size: self.size.deep_view(),
            color: self.color.deep_view(),
            name: self.name.deep_view(),
        }
    }
}

/// One fill definition.
#[derive(Debug, Clone)]
pub struct ParsedFill {
    pub pattern_type: Option<String>,
    pub fg_color: Option<String>,
    pub bg_color: Option<String>,
}

pub struct FillView {
    pub pattern_type: Option<Seq<char>>,
    pub fg_color: Option<Seq<char>>,
    pub bg_color: Option<Seq<char>>,
}

impl DeepView for ParsedFill {
    type V = FillView;

    open spec fn deep_view(&self) -> FillView {
        FillView {
            pattern_type: self.pattern_type.deep_view(),
            fg_color: self.fg_color.deep_view(),
            bg_color: self.bg_color.deep_view(),
        }
    }
}

/// One border definition, per side.
#[derive(Debug, Clone)]
pub struct ParsedBorder {
    pub left_style: Option<String>,
    pub left_color: Option<String>,
    pub right_style: Option<String>,
    pub right_color: Option<String>,
    pub top_style: Option<String>,
    pub top_color: Option<String>,
    pub bottom_style: Option<String>,
    pub bottom_color: Option<String>,
}

pub struct BorderView {
    pub left_style: Option<Seq<char>>,
    pub left_color: Option<Seq<char>>,
    pub right_style: Option<Seq<char>>,
    pub right_color: Option<Seq<char>>,
    pub top_style: Option<Seq<char>>,
    pub top_color: Option<Seq<char>>,
    pub bottom_style: Option<Seq<char>>,
    pub bottom_color: Option<Seq<char>>,
}

impl DeepView for ParsedBorder {
    type V = BorderView;

    open spec fn deep_view(&self) -> BorderView {
        BorderView {
            left_style: self.left_style.deep_view(),
            left_color: self.left_color.deep_view(),
            right_style: self.right_style.deep_view(),
            right_color: self.right_color.deep_view(),
            top_style: self.top_style.deep_view(),
            top_color: self.top_color.deep_view(),
            bottom_style: self.bottom_style.deep_view(),
            bottom_color: self.bottom_color.deep_view(),
        }
    }
}

/// Everything extracted from one style document.
#[derive(Debug)]
pub struct ParsedStyles {
    pub cell_xfs: Vec<ParsedStyle>,
    pub fonts: Vec<ParsedFont>,
    pub fills: Vec<ParsedFill>,
    pub borders: Vec<ParsedBorder>,
    pub num_fmts: HashMap<u32, String>,
}

pub struct StylesView {
    pub cell_xfs: Seq<StyleView>,
    pub fonts: Seq<FontView>,
    pub fills: Seq<FillView>,
    pub borders: Seq<BorderView>,
    pub num_fmts: Map<u32, Seq<char>>,
}

impl DeepView for ParsedStyles {
    type V = StylesView;

    open spec fn deep_view(&self) -> StylesView {
        StylesView {
            cell_xfs: self.cell_xfs.deep_view(),
            fonts: self.fonts.deep_view(),
            fills: self.fills.deep_view(),
            borders: self.borders.deep_view(),
            num_fmts: string_map_view(self.num_fmts@),
        }
    }
}

/// One sheet entry of the workbook manifest.
#[derive(Debug, Clone)]
pub struct ParsedSheetInfo {
    pub name: String,
    pub sheet_id: u32,
    pub rid: String,
    pub state: Option<String>,
}

pub struct SheetInfoView {
    pub name: Seq<char>,
    pub sheet_id: u32,
    pub rid: Seq<char>,
    pub state: Option<Seq<char>>,
}

impl DeepView for ParsedSheetInfo {
    type V = SheetInfoView;

    open spec fn deep_view(&self) -> SheetInfoView {
        SheetInfoView {
            name: self.name@,
            sheet_id: self.sheet_id,
            rid: self.rid@,
            state: self.state.deep_view(),
        }
    }
}

/// One entry of a relationship document.
#[derive(Debug, Clone)]
pub struct ParsedRelationship {
    pub id: String,
    pub rel_type: String,
    pub target: String,
    pub target_mode: Option<String>,
}

pub struct RelationshipView {
    pub id: Seq<char>,
    pub rel_type: Seq<char>,
    pub target: Seq<char>,
    pub target_mode: Option<Seq<char>>,
}

impl DeepView for ParsedRelationship {
    type V = RelationshipView;

    open spec fn deep_view(&self) -> RelationshipView {
        RelationshipView {
            id: self.id@,
            rel_type: self.rel_type@,
            target: self.target@,
            target_mode: self.target_mode.deep_view(),
        }
    }
}

} // verus!
