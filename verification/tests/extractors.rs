//! End-to-end tests of the five extractors on whole XML documents.

use xlsx_xml::{
    parse_relationships, parse_shared_strings, parse_styles, parse_workbook, parse_worksheet,
};

#[test]
fn test_parse_shared_strings() {
    let xml = r#"<?xml version="1.0"?>
        <sst xmlns="http://schemas.openxmlformats.org/spreadsheetml/2006/main">
            <si><t>Hello</t></si>
            <si><t>World</t></si>
            <si><r><t>Rich</t></r><r><t>Text</t></r></si>
        </sst>"#;

    let strings = parse_shared_strings(xml);
    assert_eq!(strings.len(), 3);
    assert_eq!(strings[0], "Hello");
    assert_eq!(strings[1], "World");
    assert_eq!(strings[2], "RichText");
}

#[test]
fn test_parse_worksheet() {
    let xml = r#"<?xml version="1.0"?>
        <worksheet xmlns="http://schemas.openxmlformats.org/spreadsheetml/2006/main">
            <sheetData>
                <row r="1">
                    <c r="A1" t="s"><v>0</v></c>
                    <c r="B1"><v>42</v></c>
                </row>
            </sheetData>
        </worksheet>"#;

    let worksheet = parse_worksheet(xml);
    assert_eq!(worksheet.rows.len(), 1);
    assert_eq!(worksheet.rows[0].cells.len(), 2);
    assert_eq!(worksheet.rows[0].cells[0].reference, "A1");
    assert_eq!(worksheet.rows[0].cells[0].cell_type, Some("s".to_string()));
    assert_eq!(worksheet.rows[0].cells[0].value, Some("0".to_string()));
}

#[test]
fn test_parse_workbook() {
    let xml = r#"<?xml version="1.0"?>
        <workbook xmlns="http://schemas.openxmlformats.org/spreadsheetml/2006/main">
            <sheets>
                <sheet name="Sheet1" sheetId="1" r:id="rId1"/>
                <sheet name="Sheet2" sheetId="2" r:id="rId2"/>
            </sheets>
        </workbook>"#;

    let sheets = parse_workbook(xml);
    assert_eq!(sheets.len(), 2);
    assert_eq!(sheets[0].name, "Sheet1");
    assert_eq!(sheets[1].name, "Sheet2");
}

#[test]
fn worksheet_one_row_two_cells_full_records() {
    let xml = r#"<worksheet><sheetData><row r="1">
        <c r="A1" t="s"><v>0</v></c>
        <c r="B1"><v>42</v></c>
    </row></sheetData></worksheet>"#;
    let ws = parse_worksheet(xml);
    assert_eq!(ws.rows.len(), 1);
    let row = &ws.rows[0];
    assert_eq!(row.row_num, 1);
    assert!(!row.hidden);
    assert_eq!(row.height, None);
    assert_eq!(row.cells.len(), 2);
    assert_eq!(row.cells[0].reference, "A1");
    assert_eq!(row.cells[0].cell_type, Some("s".to_string()));
    assert_eq!(row.cells[0].value, Some("0".to_string()));
    assert_eq!(row.cells[0].formula, None);
    assert_eq!(row.cells[1].reference, "B1");
    assert_eq!(row.cells[1].cell_type, None);
    assert_eq!(row.cells[1].value, Some("42".to_string()));
}

#[test]
fn workbook_two_sheets_ids_and_rids_in_order() {
    let xml = r#"<workbook><sheets>
        <sheet name="Sheet1" sheetId="1" r:id="rId1"/>
        <sheet name="Sheet2" sheetId="2" r:id="rId2"/>
    </sheets></workbook>"#;
    let sheets = parse_workbook(xml);
    assert_eq!(sheets.len(), 2);
    assert_eq!(sheets[0].sheet_id, 1);
    assert_eq!(sheets[1].sheet_id, 2);
    assert_eq!(sheets[0].rid, "rId1");
    assert_eq!(sheets[1].rid, "rId2");
    assert_eq!(sheets[0].state, None);
}

#[test]
fn col_width_expansion_is_inclusive_and_idempotent() {
    let xml = r#"<worksheet><cols><col min="2" max="4" width="15"/></cols></worksheet>"#;
    let ws = parse_worksheet(xml);
    assert_eq!(ws.col_widths.len(), 3);
    for col in 2u32..=4 {
        let w: f64 = ws.col_widths[&col].parse().unwrap();
        assert_eq!(w, 15.0);
    }
    assert!(!ws.col_widths.contains_key(&1));
    assert!(!ws.col_widths.contains_key(&5));
    let again = parse_worksheet(xml);
    assert_eq!(ws.col_widths, again.col_widths);
}

#[test]
fn col_width_missing_attribute_adds_nothing() {
    let xml = r#"<worksheet><cols>
        <col min="2" width="15"/>
        <col min="3" max="5" width="wide"/>
    </cols></worksheet>"#;
    let ws = parse_worksheet(xml);
    assert!(ws.col_widths.is_empty());
}

#[test]
fn invalid_row_number_keeps_row_with_zero() {
    let xml = r#"<worksheet><sheetData>
        <row r="abc"><c r="A1"><v>7</v></c></row>
    </sheetData></worksheet>"#;
    let ws = parse_worksheet(xml);
    assert_eq!(ws.rows.len(), 1);
    assert_eq!(ws.rows[0].row_num, 0);
    assert_eq!(ws.rows[0].cells.len(), 1);
    assert_eq!(ws.rows[0].cells[0].value, Some("7".to_string()));
}

#[test]
fn row_height_and_hidden_forms() {
    let xml = r#"<worksheet><sheetData>
        <row r="1" ht="12.75" hidden="1"></row>
        <row r="2" ht="oops" hidden="true"></row>
        <row r="3" hidden="no"></row>
    </sheetData></worksheet>"#;
    let ws = parse_worksheet(xml);
    assert_eq!(ws.rows.len(), 3);
    assert_eq!(ws.rows[0].height.as_deref(), Some("12.75"));
    assert!(ws.rows[0].hidden);
    assert_eq!(ws.rows[1].height, None);
    assert!(ws.rows[1].hidden);
    assert_eq!(ws.rows[2].height, None);
    assert!(!ws.rows[2].hidden);
    assert_eq!(ws.rows[0].height.as_ref().unwrap().parse::<f64>().unwrap(), 12.75);
}

#[test]
fn formula_kept_only_when_nonempty_value_kept_even_empty() {
    let xml = r#"<worksheet><sheetData><row r="1">
        <c r="A1"><f>SUM(B1:B2)</f><v>3</v></c>
        <c r="B1"><f></f><v></v></c>
    </row></sheetData></worksheet>"#;
    let ws = parse_worksheet(xml);
    let row = &ws.rows[0];
    assert_eq!(row.cells[0].formula.as_deref(), Some("SUM(B1:B2)"));
    assert_eq!(row.cells[0].value.as_deref(), Some("3"));
    assert_eq!(row.cells[1].formula, None);
    assert_eq!(row.cells[1].value.as_deref(), Some(""));
}

#[test]
fn inline_string_runs_concatenate_into_value() {
    let xml = r#"<worksheet><sheetData><row r="1">
        <c r="A1" t="inlineStr"><is><t>foo</t><t>bar</t></is></c>
    </row></sheetData></worksheet>"#;
    let ws = parse_worksheet(xml);
    assert_eq!(ws.rows[0].cells[0].value.as_deref(), Some("foobar"));
}

#[test]
fn merge_cells_and_hyperlinks() {
    let xml = r#"<worksheet>
        <mergeCells><mergeCell ref="A1:B2"/><mergeCell ref="C3:D4"/></mergeCells>
        <hyperlinks>
            <hyperlink ref="A1" r:id="rId7" location="Sheet2!A1" display="go" tooltip="tip"/>
            <hyperlink location="nowhere"/>
        </hyperlinks>
    </worksheet>"#;
    let ws = parse_worksheet(xml);
    assert_eq!(ws.merge_cells, vec!["A1:B2".to_string(), "C3:D4".to_string()]);
    assert_eq!(ws.hyperlinks.len(), 1);
    let h = &ws.hyperlinks[0];
    assert_eq!(h.reference, "A1");
    assert_eq!(h.rid.as_deref(), Some("rId7"));
    assert_eq!(h.location.as_deref(), Some("Sheet2!A1"));
    assert_eq!(h.display.as_deref(), Some("go"));
    assert_eq!(h.tooltip.as_deref(), Some("tip"));
}

#[test]
fn hyperlink_plain_id_attribute_is_picked_up() {
    let xml = r#"<worksheet><hyperlink ref="B2" id="rId9"/></worksheet>"#;
    let ws = parse_worksheet(xml);
    assert_eq!(ws.hyperlinks.len(), 1);
    assert_eq!(ws.hyperlinks[0].rid.as_deref(), Some("rId9"));
}

#[test]
fn nameless_sheet_contributes_no_record() {
    let xml = r#"<workbook><sheets>
        <sheet sheetId="1" r:id="rId1"/>
        <sheet name="Kept" sheetId="2" r:id="rId2" state="hidden"/>
    </sheets></workbook>"#;
    let sheets = parse_workbook(xml);
    assert_eq!(sheets.len(), 1);
    assert_eq!(sheets[0].name, "Kept");
    assert_eq!(sheets[0].state.as_deref(), Some("hidden"));
}

#[test]
fn sheet_id_defaults_to_zero_on_parse_failure() {
    let xml = r#"<workbook><sheets><sheet name="S" sheetId="many"/></sheets></workbook>"#;
    let sheets = parse_workbook(xml);
    assert_eq!(sheets.len(), 1);
    assert_eq!(sheets[0].sheet_id, 0);
    assert_eq!(sheets[0].rid, "");
}

#[test]
fn relationships_extracted_and_idless_dropped() {
    let xml = r#"<Relationships>
        <Relationship Id="rId1" Type="wks" Target="worksheets/sheet1.xml"/>
        <Relationship Type="lost" Target="nowhere"/>
        <Relationship Id="rId2" Type="link" Target="https://example.com/" TargetMode="External"/>
    </Relationships>"#;
    let rels = parse_relationships(xml);
    assert_eq!(rels.len(), 2);
    assert_eq!(rels[0].id, "rId1");
    assert_eq!(rels[0].rel_type, "wks");
    assert_eq!(rels[0].target, "worksheets/sheet1.xml");
    assert_eq!(rels[0].target_mode, None);
    assert_eq!(rels[1].id, "rId2");
    assert_eq!(rels[1].target_mode.as_deref(), Some("External"));
}

#[test]
fn truncated_worksheet_keeps_closed_rows_only() {
    let xml = r#"<worksheet><sheetData>
        <row r="1"><c r="A1"><v>1</v></c></row>
        <row r="2"><c r="A2"><v>2</v"#;
    let ws = parse_worksheet(xml);
    assert_eq!(ws.rows.len(), 1);
    assert_eq!(ws.rows[0].row_num, 1);
    assert_eq!(ws.rows[0].cells[0].value.as_deref(), Some("1"));
}

#[test]
fn truncated_shared_strings_keep_closed_entries_only() {
    let xml = r#"<sst><si><t>one</t></si><si><t>tw"#;
    let strings = parse_shared_strings(xml);
    assert_eq!(strings, vec!["one".to_string()]);
}

#[test]
fn empty_documents_yield_empty_results() {
    assert!(parse_shared_strings("").is_empty());
    assert!(parse_workbook("").is_empty());
    assert!(parse_relationships("").is_empty());
    let ws = parse_worksheet("");
    assert!(ws.rows.is_empty());
    assert!(ws.merge_cells.is_empty());
    assert!(ws.hyperlinks.is_empty());
    assert!(ws.col_widths.is_empty());
    let st = parse_styles("");
    assert!(st.cell_xfs.is_empty());
    assert!(st.fonts.is_empty());
    assert!(st.fills.is_empty());
    assert!(st.borders.is_empty());
    assert!(st.num_fmts.is_empty());
}

#[test]
fn shared_strings_preserve_whitespace() {
    let xml = "<sst><si><t> padded </t></si></sst>";
    let strings = parse_shared_strings(xml);
    assert_eq!(strings, vec![" padded ".to_string()]);
}

#[test]
fn shared_strings_text_outside_entries_ignored() {
    let xml = "<sst>stray<si><t>kept</t></si>stray</sst>";
    let strings = parse_shared_strings(xml);
    assert_eq!(strings, vec!["kept".to_string()]);
}

#[test]
fn styles_cell_xfs_and_alignment_patch() {
    let xml = r#"<styleSheet><cellXfs count="2">
        <xf numFmtId="164" fontId="1" fillId="2" borderId="3" xfId="0"
            applyNumberFormat="1" applyFont="true" applyFill="0" applyBorder="x" applyAlignment="1">
            <alignment horizontal="center" vertical="top" wrapText="1" textRotation="-45" indent="2"/>
        </xf>
        <xf numFmtId="0"/>
    </cellXfs></styleSheet>"#;
    let st = parse_styles(xml);
    assert_eq!(st.cell_xfs.len(), 2);
    let xf = &st.cell_xfs[0];
    assert_eq!(xf.num_fmt_id, Some(164));
    assert_eq!(xf.font_id, Some(1));
    assert_eq!(xf.fill_id, Some(2));
    assert_eq!(xf.border_id, Some(3));
    assert_eq!(xf.xf_id, Some(0));
    assert!(xf.apply_number_format);
    assert!(xf.apply_font);
    assert!(!xf.apply_fill);
    assert!(!xf.apply_border);
    assert!(xf.apply_alignment);
    assert_eq!(xf.horizontal.as_deref(), Some("center"));
    assert_eq!(xf.vertical.as_deref(), Some("top"));
    assert!(xf.wrap_text);
    assert_eq!(xf.text_rotation, Some(-45));
    assert_eq!(xf.indent, Some(2));
    let plain = &st.cell_xfs[1];
    assert_eq!(plain.num_fmt_id, Some(0));
    assert_eq!(plain.horizontal, None);
    assert!(!plain.wrap_text);
}

#[test]
fn styles_fonts_fills_borders() {
    let xml = r#"<styleSheet>
        <fonts count="1">
            <font><b/><i/><u/><strike/><sz val="11.5"/><color rgb="FF112233"/><name val="Calibri"/></font>
        </fonts>
        <fills count="1">
            <fill><patternFill patternType="solid"><fgColor rgb="FFAA0000"/><bgColor rgb="FF00BB00"/></patternFill></fill>
        </fills>
        <borders count="1">
            <border>
                <left style="thin"><color rgb="FF000001"/></left>
                <right style="medium"><color rgb="FF000002"/></right>
                <top style="thick"><color rgb="FF000003"/></top>
                <bottom style="dashed"><color rgb="FF000004"/></bottom>
            </border>
        </borders>
    </styleSheet>"#;
    let st = parse_styles(xml);
    assert_eq!(st.fonts.len(), 1);
    let f = &st.fonts[0];
    assert!(f.bold && f.italic && f.underline && f.strikethrough);
    assert_eq!(f.size.as_deref(), Some("11.5"));
    assert_eq!(f.size.as_ref().unwrap().parse::<f64>().unwrap(), 11.5);
    assert_eq!(f.color.as_deref(), Some("FF112233"));
    assert_eq!(f.name.as_deref(), Some("Calibri"));
    assert_eq!(st.fills.len(), 1);
    let fill = &st.fills[0];
    assert_eq!(fill.pattern_type.as_deref(), Some("solid"));
    assert_eq!(fill.fg_color.as_deref(), Some("FFAA0000"));
    assert_eq!(fill.bg_color.as_deref(), Some("FF00BB00"));
    assert_eq!(st.borders.len(), 1);
    let b = &st.borders[0];
    assert_eq!(b.left_style.as_deref(), Some("thin"));
    assert_eq!(b.left_color.as_deref(), Some("FF000001"));
    assert_eq!(b.right_style.as_deref(), Some("medium"));
    assert_eq!(b.right_color.as_deref(), Some("FF000002"));
    assert_eq!(b.top_style.as_deref(), Some("thick"));
    assert_eq!(b.top_color.as_deref(), Some("FF000003"));
    assert_eq!(b.bottom_style.as_deref(), Some("dashed"));
    assert_eq!(b.bottom_color.as_deref(), Some("FF000004"));
}

#[test]
fn styles_num_fmts_need_both_id_and_code() {
    let xml = r#"<styleSheet><numFmts count="3">
        <numFmt numFmtId="164" formatCode="0.00"/>
        <numFmt numFmtId="bad" formatCode="0%"/>
        <numFmt numFmtId="166"/>
    </numFmts></styleSheet>"#;
    let st = parse_styles(xml);
    assert_eq!(st.num_fmts.len(), 1);
    assert_eq!(st.num_fmts[&164], "0.00");
}

#[test]
fn styles_outside_regions_are_ignored() {
    let xml = r#"<styleSheet>
        <cellStyleXfs><xf numFmtId="9"/></cellStyleXfs>
        <font><b/></font>
    </styleSheet>"#;
    let st = parse_styles(xml);
    assert!(st.cell_xfs.is_empty());
    assert!(st.fonts.is_empty());
}

#[test]
fn plus_signed_and_overflowing_numbers() {
    let xml = r#"<worksheet><sheetData>
        <row r="+5"><c r="A1" s="+2"><v>x</v></c></row>
        <row r="4294967296"></row>
        <row r="4294967295"></row>
    </sheetData></worksheet>"#;
    let ws = parse_worksheet(xml);
    assert_eq!(ws.rows[0].row_num, 5);
    assert_eq!(ws.rows[0].cells[0].style_index, Some(2));
    assert_eq!(ws.rows[1].row_num, 0);
    assert_eq!(ws.rows[2].row_num, 4294967295);
}

#[test]
fn escaped_text_and_attributes_are_unescaped() {
    let xml = r#"<worksheet><sheetData><row r="1">
        <c r="A1"><v>a&lt;b&amp;c</v></c>
    </row></sheetData></worksheet>"#;
    let ws = parse_worksheet(xml);
    assert_eq!(ws.rows[0].cells[0].value.as_deref(), Some("a<b&c"));
    let wb = r#"<workbook><sheets><sheet name="A&amp;B" sheetId="1"/></sheets></workbook>"#;
    let sheets = parse_workbook(wb);
    assert_eq!(sheets[0].name, "A&B");
}
