use rhwp_edit::ir_compact::{
    alignment_to_str, cell_to_cell_style, cell_vertical_align_to_str, color_ref_to_css, compact_border,
    para_shape_to_para_style, slice_anchor, page_display, truncate_text, vertical_align_to_str, Alignment, BorderLine,
    BuildOptions, CellBorder, CellBorderSpec, LineSpacingType, ParaShape, ResolvedBorderStyle,
};
use rhwp_edit::ir_view::IR_VIEW_SCHEMA_VERSION;
use rhwp_edit::model::{Cell, CharShapeRef, Control, Document, Paragraph, Section, Table, VerticalAlign};

#[test]
fn test_to_ir_view_text_and_meta() {
    let mut para = Paragraph::with_text("안녕하세요".to_string());
    para.char_count = 5;
    para.para_shape_id = 3;
    para.style_id = 1;
    para.char_shapes = vec![CharShapeRef { start_pos: 0, char_shape_id: 7 }];
    let doc = Document { sections: vec![Section { paragraphs: vec![para], raw_stream: None }] };

    let view = doc.to_ir_view();
    assert_eq!(view.schema_version, IR_VIEW_SCHEMA_VERSION);
    assert_eq!(view.section_count, 1);
    assert_eq!(view.sections[0].paragraph_count, 1);
    let pv = &view.sections[0].paragraphs[0];
    assert_eq!(pv.text, "안녕하세요");
    assert_eq!(pv.char_count, 5);
    assert_eq!(pv.para_shape_id, 3);
    assert_eq!(pv.style_id, 1);
    assert_eq!(pv.char_runs.len(), 1);
    assert_eq!(pv.char_runs[0].char_shape_id, 7);
}

#[test]
fn ir_view_summarizes_controls() {
    let mut para = Paragraph::with_text(String::new());
    para.controls.push(Control::SectionDef);
    para.controls.push(Control::Table(Box::new(Table::new_grid(2, 3))));
    para.controls.push(Control::PageNumberPos);
    let doc = Document { sections: vec![Section { paragraphs: vec![para], raw_stream: None }] };
    let view = doc.to_ir_view();
    let cs = &view.sections[0].paragraphs[0].controls;
    assert_eq!(cs.len(), 3);
    assert_eq!(cs[0].kind, "section_def");
    assert_eq!(cs[0].rows, None);
    assert_eq!(cs[1].kind, "table");
    assert_eq!(cs[1].rows, Some(2));
    assert_eq!(cs[1].cols, Some(3));
    assert_eq!(cs[2].kind, "page_number_pos");
}

#[test]
fn helper_alignment_to_str() {
    assert_eq!(alignment_to_str(Alignment::Justify), "justify");
    assert_eq!(alignment_to_str(Alignment::Left), "left");
    assert_eq!(alignment_to_str(Alignment::Right), "right");
    assert_eq!(alignment_to_str(Alignment::Center), "center");
    assert_eq!(alignment_to_str(Alignment::Distribute), "distribute");
    assert_eq!(alignment_to_str(Alignment::Split), "split");
}

#[test]
fn helper_vertical_align() {
    assert_eq!(vertical_align_to_str(true, false), "sub");
    assert_eq!(vertical_align_to_str(false, true), "super");
    assert_eq!(vertical_align_to_str(false, false), "baseline");
    assert_eq!(vertical_align_to_str(true, true), "sub");
}

#[test]
fn helper_cell_vertical_align() {
    assert_eq!(cell_vertical_align_to_str(VerticalAlign::Top), "top");
    assert_eq!(cell_vertical_align_to_str(VerticalAlign::Center), "middle");
    assert_eq!(cell_vertical_align_to_str(VerticalAlign::Bottom), "bottom");
}

#[test]
fn helper_color_ref() {
    assert_eq!(color_ref_to_css(0x000000FF), "#FF0000");
    assert_eq!(color_ref_to_css(0x0007C1FF), "#FFC107");
    assert_eq!(color_ref_to_css(0x00000000), "#000000");
}

fn para_shape(alignment: Alignment, indent: i32, line_spacing: i32, line_spacing_type: LineSpacingType) -> ParaShape {
    ParaShape { alignment, indent, line_spacing_type, line_spacing }
}

#[test]
fn para_style_align_center_percent_160() {
    let s = para_shape_to_para_style(&para_shape(Alignment::Center, 0, 160, LineSpacingType::Percent));
    assert_eq!(s.align.as_deref(), Some("center"));
    assert_eq!(s.indent, Some(0));
    assert_eq!(s.line_height, Some(160));
}

#[test]
fn para_style_line_height_omitted_when_not_percent() {
    let s = para_shape_to_para_style(&para_shape(Alignment::Justify, 0, 1000, LineSpacingType::Fixed));
    assert!(s.line_height.is_none());
    let s2 = para_shape_to_para_style(&para_shape(Alignment::Justify, 0, 100, LineSpacingType::Minimum));
    assert!(s2.line_height.is_none());
}

#[test]
fn para_style_indent_negative_outdent() {
    let s = para_shape_to_para_style(&para_shape(Alignment::Left, -1500, 200, LineSpacingType::Percent));
    assert_eq!(s.align.as_deref(), Some("left"));
    assert_eq!(s.indent, Some(-1500));
    assert_eq!(s.line_height, Some(200));
}

fn sized_cell(width: u32, height: u32, va: VerticalAlign) -> Cell {
    let mut cell = Cell::new(0, 0);
    cell.width = width;
    cell.height = height;
    cell.vertical_align = va;
    cell
}

/// A border fill whose four lines are solid with width 0 and black.
fn default_border_style() -> ResolvedBorderStyle {
    let solid = BorderLine { line_type: 1, width: 0, color: 0 };
    ResolvedBorderStyle { fill_color: None, borders: [solid; 4] }
}

#[test]
fn cell_style_with_bgcolor() {
    let cell = sized_cell(1000, 500, VerticalAlign::Center);
    let mut bs = default_border_style();
    bs.fill_color = Some(0x0007C1FF);
    let s = cell_to_cell_style(&cell, Some(&bs));
    assert_eq!(s.bgcolor.as_deref(), Some("#FFC107"));
    assert_eq!(s.width, Some(1000));
    assert_eq!(s.height, Some(500));
    assert_eq!(s.vertical_align.as_deref(), Some("middle"));
}

#[test]
fn cell_style_no_border_style() {
    let cell = sized_cell(800, 300, VerticalAlign::Top);
    let s = cell_to_cell_style(&cell, None);
    assert!(s.bgcolor.is_none());
    assert!(s.border.is_none());
    assert_eq!(s.width, Some(800));
    assert_eq!(s.height, Some(300));
    assert_eq!(s.vertical_align.as_deref(), Some("top"));
}

#[test]
fn cell_style_border_only_some_sides() {
    // Line kinds: 0 none, 1 solid, 2 dash.
    let cell = sized_cell(500, 500, VerticalAlign::Bottom);
    let mut bs = default_border_style();
    bs.borders[0] = BorderLine { line_type: 1, width: 1, color: 0x000000FF };
    bs.borders[1] = BorderLine { line_type: 0, width: 0, color: 0 };
    bs.borders[2] = BorderLine { line_type: 0, width: 0, color: 0 };
    bs.borders[3] = BorderLine { line_type: 2, width: 2, color: 0 };
    let s = cell_to_cell_style(&cell, Some(&bs));
    let border = s.border.expect("border");
    assert!(border.left.is_some());
    assert!(border.right.is_none());
    assert!(border.top.is_none());
    assert!(border.bottom.is_some());
    let left = border.left.unwrap();
    assert_eq!(left.border_type, Some(1));
    assert_eq!(left.width, Some(1));
    assert_eq!(left.color.as_deref(), Some("#FF0000"));
    let bottom = border.bottom.unwrap();
    assert_eq!(bottom.border_type, Some(2));
    assert_eq!(bottom.width, Some(2));
    let mut bs_all_none = default_border_style();
    for i in 0..4 {
        bs_all_none.borders[i].line_type = 0;
    }
    let s2 = cell_to_cell_style(&cell, Some(&bs_all_none));
    assert!(s2.border.is_none());
}

fn spec(width: i32, color: &str) -> CellBorderSpec {
    CellBorderSpec { width: Some(width), color: Some(color.to_string()), ..Default::default() }
}

#[test]
fn compact_border_4sides_same_to_all() {
    let b = CellBorder {
        left: Some(spec(100, "#000000")),
        right: Some(spec(100, "#000000")),
        top: Some(spec(100, "#000000")),
        bottom: Some(spec(100, "#000000")),
        all: None,
    };
    let c = compact_border(&b).expect("border");
    assert!(c.all.is_some());
    assert!(c.left.is_none() && c.right.is_none() && c.top.is_none() && c.bottom.is_none());
}

#[test]
fn compact_border_4sides_none_returns_none() {
    let b = CellBorder::default();
    assert!(compact_border(&b).is_none());
}

#[test]
fn compact_border_keeps_differing_sides() {
    let b = CellBorder {
        left: Some(spec(100, "#000000")),
        right: Some(spec(100, "#FF0000")),
        top: None,
        bottom: Some(spec(100, "#000000")),
        all: Some(spec(5, "#123456")),
    };
    let c = compact_border(&b).expect("border");
    assert!(c.all.is_none());
    assert_eq!(c.left.as_ref().unwrap().color.as_deref(), Some("#000000"));
    assert_eq!(c.right.as_ref().unwrap().color.as_deref(), Some("#FF0000"));
    assert!(c.top.is_none());
    assert!(c.bottom.is_some());
}

#[test]
fn truncate_text_short_unchanged() {
    let (t, trunc) = truncate_text("hi", Some(10));
    assert_eq!(t, "hi");
    assert!(!trunc);
}

#[test]
fn truncate_text_long_cuts_and_flags() {
    let (t, trunc) = truncate_text("abcdefghij", Some(3));
    assert_eq!(t, "abc");
    assert!(trunc);
}

#[test]
fn truncate_text_none_passthrough() {
    let (t, trunc) = truncate_text("abcdef", None);
    assert_eq!(t, "abcdef");
    assert!(!trunc);
}

#[test]
fn truncate_text_korean_char_boundary() {
    let (t, trunc) = truncate_text("한글입력", Some(2));
    assert_eq!(t, "한글");
    assert!(trunc);
}

#[test]
fn slice_anchor_clamps_to_section() {
    let opts = BuildOptions { sec: 0, para_start: 7, para_end: Some(20), ..Default::default() };
    let a = slice_anchor(&opts, None, Some(5));
    assert_eq!((a.sec, a.para_start, a.para_end), (0, 5, 5));
    let opts = BuildOptions { sec: 1, para_start: 1, para_end: None, ..Default::default() };
    let a = slice_anchor(&opts, None, Some(4));
    assert_eq!((a.sec, a.para_start, a.para_end), (1, 1, 4));
}

#[test]
fn slice_anchor_prefers_page_ranges() {
    let opts = BuildOptions { page: Some(2), page_override_range: Some((1, 3, 9)), ..Default::default() };
    let a = slice_anchor(&opts, Some((0, 4, 6)), Some(10));
    assert_eq!((a.sec, a.para_start, a.para_end), (1, 3, 9));
    let opts = BuildOptions { page: Some(2), ..Default::default() };
    let a = slice_anchor(&opts, Some((0, 4, 6)), Some(10));
    assert_eq!((a.sec, a.para_start, a.para_end), (0, 4, 6));
    let a = slice_anchor(&opts, None, Some(10));
    assert_eq!((a.sec, a.para_start, a.para_end), (0, 0, 10));
}

#[test]
fn page_display_is_one_based() {
    assert_eq!(page_display(None), 1);
    assert_eq!(page_display(Some(0)), 1);
    assert_eq!(page_display(Some(2)), 3);
}

#[test]
fn test_to_ir_json_roundtrip_parse() {
    let mut para = Paragraph::with_text("hello".to_string());
    para.char_count = 5;
    let doc = Document { sections: vec![Section { paragraphs: vec![para], raw_stream: None }] };
    let json = doc.to_ir_json();
    let parsed: serde_json::Value = serde_json::from_str(&json).expect("parse");
    assert_eq!(parsed["schema_version"], IR_VIEW_SCHEMA_VERSION);
    assert_eq!(parsed["sections"][0]["paragraphs"][0]["text"], "hello");
}

#[test]
fn to_ir_json_lists_runs_and_controls_only_when_present() {
    let mut para = Paragraph::with_text("표".to_string());
    para.char_shapes = vec![CharShapeRef { start_pos: 0, char_shape_id: 2 }];
    para.controls = vec![Control::Table(Box::new(Table::new_grid(2, 3)))];
    let plain = Paragraph::with_text("a\"b".to_string());
    let doc = Document { sections: vec![Section { paragraphs: vec![para, plain], raw_stream: None }] };
    assert_eq!(
        doc.to_ir_json(),
        r#"{"schema_version":1,"section_count":1,"sections":[{"index":0,"paragraph_count":2,"paragraphs":[{"index":0,"text":"표","char_count":0,"para_shape_id":0,"style_id":0,"char_runs":[{"start":0,"char_shape_id":2}],"controls":[{"kind":"table","rows":2,"cols":3}]},{"index":1,"text":"a\"b","char_count":0,"para_shape_id":0,"style_id":0}]}]}"#
    );
}
