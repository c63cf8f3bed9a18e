use rhwp_edit::document_core::DocumentCore;
use rhwp_edit::edit_op::{AffectedRange, ParaRange};
use rhwp_edit::ir_build::{
    build_cell_paragraph, build_compact_ir_slice, compact_slice_json, detail_slice_json, build_ir_slice, build_outline_slice, build_paragraph,
    build_structure_slice, build_table_paragraph, build_text_paragraph, capture_after_target, capture_before_target,
    page_to_para_range, try_build_cell, PageParas, ParagraphCharStyles, StyleTables,
};
use rhwp_edit::ir_compact::{
    char_shape_to_run_style, Alignment, BorderLine, BuildOptions, CharShape, Detail, ResolvedCharStyle, LineSpacingType, ParaShape, ResolvedBorderStyle, RunStyle, StyleLevel,
    TableLevel,
};
use rhwp_edit::ir_outline::IrParagraph;
use rhwp_edit::json::to_json_string;
use rhwp_edit::model::{ColumnBreakType, Control, Document, Paragraph, Section, Table};
use rhwp_edit::patch::PatchTarget;

fn doc_of(paragraphs: Vec<Paragraph>) -> Document {
    Document { sections: vec![Section { paragraphs, raw_stream: None }] }
}

fn no_tables() -> StyleTables {
    StyleTables { para_shapes: vec![], border_styles: vec![] }
}

fn no_styles() -> ParagraphCharStyles {
    ParagraphCharStyles { text: vec![], cells: vec![] }
}

fn para(text: &str) -> Paragraph {
    Paragraph::with_text(text.to_string())
}

fn table_para(cell_texts: &[&str]) -> Paragraph {
    let mut t = Table::new_grid(1, cell_texts.len() as u16);
    for (cell, text) in t.cells.iter_mut().zip(cell_texts) {
        cell.paragraphs = vec![para(text)];
        cell.width = 500;
        cell.height = 200;
    }
    let mut p = para("");
    p.controls = vec![Control::SectionDef, Control::Table(Box::new(t))];
    p
}

#[test]
fn text_paragraph_id_style_and_runs() {
    let mut p = para("AB");
    p.para_shape_id = 0;
    p.column_type = ColumnBreakType::Page;
    let doc = doc_of(vec![para("x"), p]);
    let tables = StyleTables {
        para_shapes: vec![ParaShape {
            alignment: Alignment::Center,
            indent: 10,
            line_spacing_type: LineSpacingType::Percent,
            line_spacing: 150,
        }],
        border_styles: vec![],
    };
    let bold = RunStyle { bold: Some(true), ..Default::default() };
    let t = build_text_paragraph(&doc, &tables, 0, 1, &vec![bold.clone(), RunStyle::default()]);
    assert_eq!(t.id, "p_0_1");
    assert_eq!((t.sec, t.para), (0, 1));
    assert_eq!(t.style.align.as_deref(), Some("center"));
    assert_eq!(t.style.indent, Some(10));
    assert_eq!(t.style.line_height, Some(150));
    assert_eq!(t.runs.len(), 2);
    assert_eq!(t.runs[0].style, bold);
    assert_eq!(t.runs[1].text, "B");
    assert_eq!(t.page_break, Some(true));
    assert!(t.cell_locator.is_none());
}

#[test]
fn text_paragraph_without_styles_is_one_plain_run() {
    let mut p = para("가나다");
    p.para_shape_id = 7;
    let doc = doc_of(vec![p]);
    let t = build_text_paragraph(&doc, &no_tables(), 0, 0, &vec![]);
    assert_eq!(t.runs.len(), 1);
    assert_eq!(t.runs[0].text, "가나다");
    assert_eq!(t.runs[0].style, RunStyle::default());
    assert!(t.style.align.is_none() && t.style.indent.is_none() && t.style.line_height.is_none());
    assert_eq!(t.page_break, None);
}

#[test]
fn cell_paragraph_ids_and_missing_cells() {
    let doc = doc_of(vec![table_para(&["in1", "in2"])]);
    let t = build_cell_paragraph(&doc, &no_tables(), 0, 0, 1, 1, 0, 0, 1, &vec![]);
    assert_eq!(t.id, "p_0_0_c1_1_0");
    assert_eq!(t.para, -1);
    assert_eq!(t.runs[0].text, "in2");
    let loc = t.cell_locator.unwrap();
    assert_eq!((loc.table_para, loc.row, loc.col, loc.cell_para), (0, 0, 1, 0));
    let missing = build_cell_paragraph(&doc, &no_tables(), 0, 0, 0, 5, 0, 3, 4, &vec![]);
    assert_eq!(missing.id, "p_0_0_c0_5_0");
    assert_eq!(missing.runs.len(), 1);
    assert_eq!(missing.runs[0].length, 0);
    assert!(missing.runs[0].text.is_empty());
}

#[test]
fn cell_takes_border_style_of_its_fill() {
    let mut p = table_para(&["a"]);
    if let Control::Table(t) = &mut p.controls[1] {
        t.cells[0].border_fill_id = 2;
        t.cells[0].row_span = 2;
    }
    let doc = doc_of(vec![p]);
    let line = BorderLine { line_type: 1, width: 3, color: 0x00FF0000 };
    let tables = StyleTables {
        para_shapes: vec![],
        border_styles: vec![
            ResolvedBorderStyle { fill_color: None, borders: [BorderLine { line_type: 0, width: 0, color: 0 }; 4] },
            ResolvedBorderStyle { fill_color: Some(0x000000FF), borders: [line; 4] },
        ],
    };
    let c = try_build_cell(&doc, &tables, 0, 0, 1, 0, &vec![]).unwrap();
    assert_eq!(c.style.bgcolor.as_deref(), Some("#FF0000"));
    assert_eq!(c.row_span, Some(2));
    assert_eq!(c.col_span, None);
    assert!(c.style.border.is_some());
    assert_eq!(c.paragraphs.len(), 1);
    assert!(try_build_cell(&doc, &tables, 0, 0, 0, 0, &vec![]).is_none());
    assert!(try_build_cell(&doc, &tables, 0, 0, 1, 9, &vec![]).is_none());
}

#[test]
fn paragraph_with_table_builds_its_first_table() {
    let doc = doc_of(vec![table_para(&["x", "y"]), para("plain")]);
    let tables = no_tables();
    let built = build_paragraph(&doc, &tables, 0, 0, &no_styles());
    assert_eq!(built.len(), 1);
    match &built[0] {
        IrParagraph::Table(tp) => {
            assert_eq!(tp.id, "p_0_0");
            assert_eq!((tp.rows, tp.cols), (1, 2));
            assert_eq!(tp.cells.len(), 2);
        },
        _ => panic!("table expected"),
    }
    assert!(build_table_paragraph(&doc, &tables, 0, 0, 0, &vec![]).is_none());
    assert!(matches!(build_paragraph(&doc, &tables, 0, 1, &no_styles())[0], IrParagraph::Text(_)));
    assert!(build_paragraph(&doc, &tables, 0, 9, &no_styles()).is_empty());
    assert!(build_paragraph(&doc, &tables, 3, 0, &no_styles()).is_empty());
}

#[test]
fn slice_range_meta_and_entries() {
    let doc = doc_of(vec![para("a"), para("b"), para("c")]);
    let opts = BuildOptions { sec: 0, para_start: 1, para_end: Some(10), ..Default::default() };
    let s = build_ir_slice(&doc, &no_tables(), &opts, None, 0, 1234, &vec![]);
    assert_eq!((s.doc_meta.anchor.sec, s.doc_meta.anchor.para_start, s.doc_meta.anchor.para_end), (0, 1, 3));
    assert_eq!(s.doc_meta.edit_session_id, "ed_1234");
    assert_eq!(s.doc_meta.page, 1);
    assert_eq!(s.doc_meta.total_pages, 1);
    assert_eq!(s.paragraphs.len(), 2);
    let opts2 = BuildOptions {
        page: Some(4),
        page_override_range: Some((0, 2, 3)),
        total_pages_override: Some(9),
        edit_session_id: Some("cli_f".into()),
        ..Default::default()
    };
    let s2 = build_ir_slice(&doc, &no_tables(), &opts2, None, 5, 0, &vec![]);
    assert_eq!((s2.doc_meta.anchor.para_start, s2.doc_meta.anchor.para_end), (2, 3));
    assert_eq!(s2.doc_meta.edit_session_id, "cli_f");
    assert_eq!(s2.doc_meta.page, 5);
    assert_eq!(s2.doc_meta.total_pages, 9);
    assert_eq!(s2.paragraphs.len(), 1);
    let s3 = build_ir_slice(&doc, &no_tables(), &BuildOptions { sec: 2, ..Default::default() }, None, 3, 0, &vec![]);
    assert!(s3.paragraphs.is_empty());
    assert_eq!(s3.doc_meta.total_pages, 3);
}

#[test]
fn compact_slice_of_document() {
    let doc = doc_of(vec![para("hello"), table_para(&["in"])]);
    let c = build_compact_ir_slice(&doc, &no_tables(), &BuildOptions::default(), None, 0, 0, &vec![]);
    assert_eq!(c.paragraphs.len(), 2);
    assert_eq!(to_json_string(&c.paragraphs[0]), "{\"para\":0,\"text\":\"hello\"}");
    assert_eq!(
        to_json_string(&c.paragraphs[1]),
        "{\"cells\":[{\"col\":0,\"paragraphs\":[{\"cell_locator\":{\"cell_para\":0,\"col\":0,\"row\":0,\"table_para\":1},\
         \"para\":-1,\"text\":\"in\"}],\"row\":0,\"style\":{\"height\":200,\"vertical-align\":\"top\",\"width\":500}}],\
         \"cols\":1,\"para\":1,\"rows\":1,\"type\":\"table\"}"
    );
    assert_eq!(c.defaults.run.font_size, Some(1000));
}

#[test]
fn outline_and_structure_slices() {
    let doc = doc_of(vec![para("abcdef"), table_para(&["in"])]);
    let opts = BuildOptions { max_text_chars: Some(3), edit_session_id: Some("s".into()), ..Default::default() };
    let o = build_outline_slice(&doc, &no_tables(), &opts, None, 0, 0, &vec![]);
    assert_eq!(
        to_json_string(&o),
        "{\"doc_meta\":{\"anchor\":{\"para_end\":2,\"para_start\":0,\"sec\":0},\"edit_session_id\":\"s\",\"page\":1,\
         \"total_pages\":1},\"paragraphs\":[{\"para\":0,\"text\":\"abc\",\"text_truncated\":true},\
         {\"cols\":1,\"para\":1,\"rows\":1,\"type\":\"table\"}]}"
    );
    let opts2 = BuildOptions { include_tables: TableLevel::Count, edit_session_id: Some("s".into()), ..Default::default() };
    let st = build_structure_slice(&doc, &no_tables(), &opts2, None, 0, 0, &vec![]);
    let text = to_json_string(&st);
    assert!(text.contains("{\"char_count\":6,\"para\":0}"));
    assert!(text.contains("{\"cols\":1,\"para\":1,\"rows\":1,\"type\":\"table\"}"));
}

#[test]
fn patch_targets_from_compact_slices() {
    let doc = doc_of(vec![para("one"), para("two"), para("three")]);
    let range = AffectedRange {
        section: 0,
        before: ParaRange { start: 1, end: 2 },
        after: ParaRange { start: 1, end: 3 },
        cell: None,
    };
    match capture_before_target(&doc, &no_tables(), &range, &vec![]) {
        PatchTarget::Paragraphs { paragraphs } => {
            assert_eq!(paragraphs.len(), 1);
            assert_eq!(to_json_string(&paragraphs[0]), "{\"para\":1,\"text\":\"two\"}");
        },
        _ => panic!("paragraphs expected"),
    }
    match capture_after_target(&doc, &no_tables(), &range, &vec![]) {
        PatchTarget::Paragraphs { paragraphs } => assert_eq!(paragraphs.len(), 2),
        _ => panic!("paragraphs expected"),
    }
}

#[test]
fn page_ranges_from_layout() {
    let pages = vec![
        PageParas { section_index: 0, para_indices: vec![0, 1, 2] },
        PageParas { section_index: 0, para_indices: vec![4, 2, 3] },
        PageParas { section_index: 1, para_indices: vec![] },
    ];
    assert_eq!(page_to_para_range(&pages, 0), Some((0, 0, 3)));
    assert_eq!(page_to_para_range(&pages, 1), Some((0, 2, 5)));
    assert_eq!(page_to_para_range(&pages, 2), None);
    assert_eq!(page_to_para_range(&pages, 3), None);
}

#[test]
fn compact_slice_served_with_defaults() {
    let doc = doc_of(vec![para("hi")]);
    let opts = BuildOptions { edit_session_id: Some("e".into()), ..Default::default() };
    let c = build_compact_ir_slice(&doc, &no_tables(), &opts, None, 0, 0, &vec![]);
    let v = compact_slice_json(c, TableLevel::Full, StyleLevel::Full);
    assert_eq!(
        to_json_string(&v),
        "{\"defaults\":{\"paragraph\":{\"align\":\"left\",\"indent\":0,\"line-height\":160},\
         \"run\":{\"bold\":false,\"char-spacing\":0,\"char-width\":100,\"color\":\"#000000\",\
         \"font-name\":\"맑은 고딕\",\"font-size\":10.0,\"italic\":false,\"strikethrough\":false,\
         \"underline\":false,\"vertical-align\":\"baseline\"}},\
         \"doc_meta\":{\"anchor\":{\"para_end\":1,\"para_start\":0,\"sec\":0},\"edit_session_id\":\"e\",\
         \"page\":1,\"total_pages\":1},\"paragraphs\":[{\"para\":0,\"text\":\"hi\"}]}"
    );
}

#[test]
fn detail_levels_choose_the_form() {
    let doc = doc_of(vec![para("abc"), table_para(&["in"])]);
    let base = BuildOptions { edit_session_id: Some("e".into()), ..Default::default() };
    let outline = detail_slice_json(&doc, &no_tables(), &BuildOptions { detail: Detail::Outline, ..base_clone(&base) }, None, 0, 0, &vec![]);
    assert!(to_json_string(&outline).contains("\"text\":\"abc\"}"));
    let structure =
        detail_slice_json(&doc, &no_tables(), &BuildOptions { detail: Detail::Structure, ..base_clone(&base) }, None, 0, 0, &vec![]);
    assert!(to_json_string(&structure).contains("\"char_count\":3"));
    let counted = detail_slice_json(
        &doc,
        &no_tables(),
        &BuildOptions { detail: Detail::Compact, include_tables: TableLevel::Count, ..base_clone(&base) },
        None,
        0,
        0,
        &vec![],
    );
    let text = to_json_string(&counted);
    assert!(text.contains("\"defaults\""));
    assert!(!text.contains("\"cells\""), "{text}");
}

fn base_clone(b: &BuildOptions) -> BuildOptions {
    BuildOptions { edit_session_id: b.edit_session_id.clone(), ..Default::default() }
}

#[test]
fn run_style_from_char_shape() {
    let cs = ResolvedCharStyle {
        bold: true,
        italic: false,
        underline: true,
        strikethrough: false,
        subscript: false,
        superscript: true,
        text_color: 0x00336699,
        shade_color: 0x00FFFFFF,
    };
    let raw = CharShape { base_size: 1100, spacings: vec![-3, 0], ratios: vec![] };
    let st = char_shape_to_run_style(&cs, &raw, "함초롬바탕");
    assert_eq!(st.bold, Some(true));
    assert_eq!(st.underline, Some(true));
    assert_eq!(st.color.as_deref(), Some("#996633"));
    assert_eq!(st.highlight, None);
    assert_eq!(st.font_size, Some(1100));
    assert_eq!(st.font_name.as_deref(), Some("함초롬바탕"));
    assert_eq!(st.char_spacing, Some(-3));
    assert_eq!(st.char_width, Some(100));
    assert_eq!(st.vertical_align.as_deref(), Some("super"));
    let shaded = char_shape_to_run_style(&ResolvedCharStyle { shade_color: 0x0000FFFF, ..cs }, &raw, "x");
    assert_eq!(shaded.highlight.as_deref(), Some("#FFFF00"));
}

// ─── slices of a blank document (one section, one empty paragraph holding its section and
// column definitions) ─────────────────────────────────────────────────────


fn blank_core() -> DocumentCore {
    let mut core = DocumentCore::new_blank();
    core.document.sections[0].paragraphs[0].controls = vec![Control::SectionDef, Control::ColumnDef];
    core
}

fn opts_t(id: Option<&str>) -> BuildOptions {
    BuildOptions { edit_session_id: id.map(|s| s.to_string()), ..Default::default() }
}

fn push_mock_table(core: &mut DocumentCore, rows: u16, cols: u16) -> usize {
    let mut table = Table::new_grid(rows, cols);
    for c in table.cells.iter_mut() {
        c.width = 1000;
        c.height = 500;
        c.border_fill_id = 0;
    }
    core.document.sections[0].paragraphs[0].controls.push(Control::Table(Box::new(table)));
    core.document.sections[0].paragraphs[0].controls.len() - 1
}

#[test]
fn run_style_from_char_shape_bold_size() {
    let resolved = ResolvedCharStyle {
        bold: true,
        italic: false,
        underline: false,
        strikethrough: false,
        subscript: false,
        superscript: false,
        text_color: 0x000000FF,
        shade_color: 0x00FFFFFF,
    };
    let raw = CharShape { base_size: 2400, spacings: vec![0; 7], ratios: vec![100; 7] };
    let run_style = char_shape_to_run_style(&resolved, &raw, "함초롬돋움");
    assert_eq!(run_style.bold, Some(true));
    assert_eq!(run_style.italic, Some(false));
    assert_eq!(run_style.underline, Some(false));
    assert_eq!(run_style.strikethrough, Some(false));
    assert_eq!(run_style.font_size, Some(2400));
    assert_eq!(run_style.font_name.as_deref(), Some("함초롬돋움"));
    assert_eq!(run_style.color.as_deref(), Some("#FF0000"));
    assert!(run_style.highlight.is_none());
    assert_eq!(run_style.char_spacing, Some(0));
    assert_eq!(run_style.char_width, Some(100));
    assert_eq!(run_style.vertical_align.as_deref(), Some("baseline"));
}

#[test]
fn run_style_underline_subscript_highlight() {
    let resolved = ResolvedCharStyle {
        bold: false,
        italic: false,
        underline: true,
        strikethrough: false,
        subscript: true,
        superscript: false,
        text_color: 0,
        shade_color: 0x0007C1FF,
    };
    let raw = CharShape { base_size: 1100, spacings: vec![0; 7], ratios: vec![100; 7] };
    let run_style = char_shape_to_run_style(&resolved, &raw, "맑은 고딕");
    assert_eq!(run_style.underline, Some(true));
    assert_eq!(run_style.vertical_align.as_deref(), Some("sub"));
    assert_eq!(run_style.highlight.as_deref(), Some("#FFC107"));
    assert_eq!(run_style.font_size, Some(1100));
}

#[test]
fn run_style_lang_specific_font() {
    let resolved = ResolvedCharStyle {
        bold: false,
        italic: false,
        underline: false,
        strikethrough: false,
        subscript: false,
        superscript: false,
        text_color: 0,
        shade_color: 0x00FFFFFF,
    };
    let raw = CharShape { base_size: 1000, spacings: vec![0; 7], ratios: vec![100; 7] };
    let kor = char_shape_to_run_style(&resolved, &raw, "함초롬돋움");
    let eng = char_shape_to_run_style(&resolved, &raw, "Calibri");
    assert_eq!(kor.font_name.as_deref(), Some("함초롬돋움"));
    assert_eq!(eng.font_name.as_deref(), Some("Calibri"));
}

#[test]
fn build_text_paragraph_blank_returns_default_style() {
    let core = blank_core();
    let para = build_text_paragraph(&core.document, &no_tables(), 0, 0, &vec![]);
    assert_eq!(para.id, "p_0_0");
    assert_eq!(para.sec, 0);
    assert_eq!(para.para, 0);
    assert!(!para.runs.is_empty());
    if para.runs.len() == 1 {
        assert_eq!(para.runs[0].length, 0);
    }
}

#[test]
fn build_ir_slice_blank_doc() {
    let core = blank_core();
    let slice = build_ir_slice(&core.document, &no_tables(), &opts_t(Some("test")), None, 0, 0, &vec![]);
    assert_eq!(slice.doc_meta.anchor.sec, 0);
    assert_eq!(slice.doc_meta.edit_session_id, "test");
    assert!(!slice.paragraphs.is_empty());
    let total = core.document.sections[0].paragraphs.len();
    assert_eq!(slice.doc_meta.anchor.para_end, total);
}

#[test]
fn build_ir_slice_auto_edit_session_id() {
    let core = blank_core();
    let slice = build_ir_slice(&core.document, &no_tables(), &opts_t(None), None, 0, 1_700_000_000_000, &vec![]);
    assert!(slice.doc_meta.edit_session_id.starts_with("ed_"));
    assert_eq!(slice.doc_meta.edit_session_id, "ed_1700000000000");
}

#[test]
fn build_cell_paragraph_with_cell_locator() {
    let core = blank_core();
    let cell = build_cell_paragraph(&core.document, &no_tables(), 0, 0, 0, 0, 0, 0, 0, &vec![]);
    assert_eq!(cell.para, -1);
    assert_eq!(cell.id, "p_0_0_c0_0_0");
    let locator = cell.cell_locator.as_ref().expect("cell_locator");
    assert_eq!(locator.table_para, 0);
    assert_eq!(locator.row, 0);
    assert_eq!(locator.col, 0);
    assert_eq!(locator.cell_para, 0);
    assert_eq!(cell.runs.len(), 1);
    assert_eq!(cell.runs[0].length, 0);
}

#[test]
fn build_cell_paragraph_id_format_with_row_col() {
    let core = blank_core();
    let cell = build_cell_paragraph(&core.document, &no_tables(), 0, 2, 1, 3, 0, 5, 7, &vec![]);
    assert_eq!(cell.id, "p_0_2_c1_3_0");
    let locator = cell.cell_locator.as_ref().expect("cell_locator");
    assert_eq!(locator.table_para, 2);
    assert_eq!(locator.row, 5);
    assert_eq!(locator.col, 7);
    assert_eq!(locator.cell_para, 0);
}

#[test]
fn build_table_paragraph_none_when_no_table() {
    let core = blank_core();
    let result = build_table_paragraph(&core.document, &no_tables(), 0, 0, 0, &vec![]);
    assert!(result.is_none(), "표가 없으면 None");
}

#[test]
fn try_build_cell_none_when_no_table() {
    let core = blank_core();
    let result = try_build_cell(&core.document, &no_tables(), 0, 0, 0, 0, &vec![]);
    assert!(result.is_none(), "표가 없으면 try_build_cell 도 None");
}

#[test]
fn build_table_paragraph_with_mock_table() {
    let mut core = blank_core();
    let ctrl_idx = push_mock_table(&mut core, 2, 2);
    let result = build_table_paragraph(&core.document, &no_tables(), 0, 0, ctrl_idx, &vec![]).expect("표 있음 → Some");
    assert_eq!(result.id, "p_0_0");
    assert_eq!(result.sec, 0);
    assert_eq!(result.para, 0);
    assert_eq!(result.rows, 2);
    assert_eq!(result.cols, 2);
    assert_eq!(result.cells.len(), 4);
    let c00 = &result.cells[0];
    assert_eq!(c00.row, 0);
    assert_eq!(c00.col, 0);
    assert!(c00.row_span.is_none(), "span=1 → 키 omit");
    assert!(c00.col_span.is_none());
    assert_eq!(c00.paragraphs.len(), 1);
    match &c00.paragraphs[0] {
        IrParagraph::Text(t) => {
            assert_eq!(t.para, -1);
            assert_eq!(t.id, format!("p_0_0_c{}_0_0", ctrl_idx));
            let loc = t.cell_locator.as_ref().expect("locator");
            assert_eq!(loc.row, 0);
            assert_eq!(loc.col, 0);
        },
        _ => panic!("셀 안 문단은 Text 여야 함"),
    }
    let c11 = &result.cells[3];
    assert_eq!(c11.row, 1);
    assert_eq!(c11.col, 1);
}

#[test]
fn try_build_cell_with_row_span() {
    let mut core = blank_core();
    let ctrl_idx = push_mock_table(&mut core, 1, 1);
    if let Control::Table(t) = &mut core.document.sections[0].paragraphs[0].controls[ctrl_idx] {
        t.row_count = 2;
        t.cells[0].row_span = 2;
        t.cells[0].height = 1000;
    }
    let cell = try_build_cell(&core.document, &no_tables(), 0, 0, ctrl_idx, 0, &vec![]).expect("cell 0");
    assert_eq!(cell.row_span, Some(2));
    assert!(cell.col_span.is_none(), "col_span=1 → 키 omit");
}

#[test]
fn build_ir_slice_text_and_table() {
    let mut core = blank_core();
    push_mock_table(&mut core, 2, 2);
    let slice = build_ir_slice(&core.document, &no_tables(), &opts_t(Some("t")), None, 0, 0, &vec![]);
    assert!(slice.paragraphs.iter().any(|p| matches!(p, IrParagraph::Table(_))), "표 entry 없음");
    let flat_cell_entries = slice
        .paragraphs
        .iter()
        .filter(|p| matches!(p, IrParagraph::Text(t) if t.para == -1 && t.cell_locator.is_some()))
        .count();
    assert_eq!(flat_cell_entries, 0);
    let table_para = slice
        .paragraphs
        .iter()
        .find_map(|p| match p {
            IrParagraph::Table(t) => Some(t),
            _ => None,
        })
        .expect("table");
    let cell00 = table_para.cells.iter().find(|c| c.row == 0 && c.col == 0).expect("(0,0)");
    match cell00.paragraphs.first().expect("cell para") {
        IrParagraph::Text(cp) => {
            let cl = cp.cell_locator.as_ref().expect("nested cell_locator");
            assert_eq!(cl.row, 0);
            assert_eq!(cl.col, 0);
            assert_eq!(cl.cell_para, 0);
        },
        _ => panic!("nested cell paragraph 가 Text 가 아님"),
    }
}

#[test]
fn build_ir_slice_text_only_unchanged() {
    let core = blank_core();
    let slice = build_ir_slice(&core.document, &no_tables(), &opts_t(Some("t")), None, 0, 0, &vec![]);
    let total = core.document.sections[0].paragraphs.len();
    assert_eq!(slice.paragraphs.len(), total);
    for p in &slice.paragraphs {
        assert!(matches!(p, IrParagraph::Text(_)));
    }
}

#[test]
fn compact_ir_slice_blank_doc() {
    let core = blank_core();
    let slice = build_compact_ir_slice(&core.document, &no_tables(), &opts_t(None), None, 0, 0, &vec![]);
    let v = to_json_string(&compact_slice_json(slice, TableLevel::Full, StyleLevel::Full));
    assert!(v.contains("\"run\":{\"bold\":false,"));
    assert!(v.contains("\"color\":\"#000000\""));
    assert!(v.contains("\"anchor\":{\"para_end\":1,\"para_start\":0,\"sec\":0}"));
    assert!(v.ends_with("\"paragraphs\":[{\"para\":0,\"text\":\"\"}]}"), "{v}");
}

#[test]
fn compact_ir_slice_omits_sec_when_single() {
    let core = blank_core();
    let slice = build_compact_ir_slice(&core.document, &no_tables(), &opts_t(None), None, 0, 0, &vec![]);
    assert_eq!(slice.doc_meta.anchor.sec, 0);
    for p in &slice.paragraphs {
        let text = to_json_string(p);
        assert!(!text.contains("\"sec\""), "단일 sec — paragraph sec 키 잔존: {text}");
        assert!(!text.contains("\"id\""), "id 키 잔존: {text}");
    }
}

#[test]
fn compact_ir_slice_table_keeps_type_omits_id_sec() {
    let mut core = blank_core();
    push_mock_table(&mut core, 1, 1);
    let slice = build_compact_ir_slice(&core.document, &no_tables(), &opts_t(Some("t")), None, 0, 0, &vec![]);
    let tbl = slice
        .paragraphs
        .iter()
        .map(to_json_string)
        .find(|t| t.contains("\"type\":\"table\""))
        .expect("table entry");
    assert!(!tbl.contains("\"id\""), "table id 잔존");
    assert!(!tbl.contains("\"sec\""), "단일 sec — table sec 잔존");
}

#[test]
fn build_ir_slice_with_page_0_blank() {
    let core = blank_core();
    let opts = BuildOptions { page: Some(0), ..opts_t(Some("t")) };
    let slice = build_ir_slice(&core.document, &no_tables(), &opts, page_to_para_range(&vec![], 0), 0, 0, &vec![]);
    assert_eq!(slice.doc_meta.anchor.sec, 0);
}

#[test]
fn build_ir_slice_with_page_out_of_range_falls_back() {
    let core = blank_core();
    let opts = BuildOptions { page: Some(999), ..opts_t(Some("t")) };
    let pages = vec![PageParas { section_index: 0, para_indices: vec![0] }];
    let slice = build_ir_slice(&core.document, &no_tables(), &opts, page_to_para_range(&pages, 999), 1, 0, &vec![]);
    assert_eq!(slice.doc_meta.anchor.sec, 0);
    assert_eq!(slice.doc_meta.anchor.para_start, 0);
    let total = core.document.sections[0].paragraphs.len();
    assert_eq!(slice.doc_meta.anchor.para_end, total);
}

#[test]
fn doc_meta_total_pages_falls_back_to_one_for_empty_paginator() {
    let doc = Document { sections: vec![] };
    let slice = build_ir_slice(&doc, &no_tables(), &BuildOptions::default(), None, 0, 0, &vec![]);
    assert_eq!(slice.doc_meta.total_pages, 1, "빈 paginator → 1 fallback");
    assert_eq!(slice.doc_meta.page, 1);
}

#[test]
fn doc_meta_page_one_based_display_when_opts_page_zero() {
    let doc = Document { sections: vec![] };
    let opts = BuildOptions { page: Some(0), ..Default::default() };
    let slice = build_ir_slice(&doc, &no_tables(), &opts, None, 0, 0, &vec![]);
    assert_eq!(slice.doc_meta.page, 1);
}

#[test]
fn doc_meta_page_one_based_display_when_opts_page_two() {
    let doc = Document { sections: vec![] };
    let opts = BuildOptions { page: Some(2), ..Default::default() };
    let slice = build_ir_slice(&doc, &no_tables(), &opts, None, 0, 0, &vec![]);
    assert_eq!(slice.doc_meta.page, 3);
}

#[test]
fn build_outline_slice_blank_doc_has_doc_meta_and_paragraphs() {
    let core = blank_core();
    let opts = BuildOptions { detail: Detail::Outline, ..Default::default() };
    let v = to_json_string(&build_outline_slice(&core.document, &no_tables(), &opts, None, 0, 0, &vec![]));
    assert!(v.starts_with("{\"doc_meta\":"), "doc_meta 키 누락");
    assert!(v.contains("\"paragraphs\":[{\"para\":0,"), "{v}");
    assert!(v.contains("\"text\":\"\""));
}

#[test]
fn build_outline_slice_exposes_page_break_marker() {
    let mut core = blank_core();
    core.document.sections[0].paragraphs[0].text = "ab".to_string();
    core.insert_page_break_native(0, 0, 1).expect("page break");
    let opts = BuildOptions { detail: Detail::Outline, ..Default::default() };
    let v = to_json_string(&build_outline_slice(&core.document, &no_tables(), &opts, None, 0, 0, &vec![]));
    assert!(v.contains("\"page_break\":true"), "outline 에 page_break 마커가 노출돼야: {v}");
    assert_eq!(v.matches("\"para\":").count(), 2);
    assert_eq!(v.matches("\"page_break\"").count(), 1, "break 없는 문단엔 page_break 키 생략");
}

#[test]
fn build_outline_slice_max_text_chars_truncates_and_marks() {
    let core = blank_core();
    let opts = BuildOptions { detail: Detail::Outline, max_text_chars: Some(5), ..Default::default() };
    let v = to_json_string(&build_outline_slice(&core.document, &no_tables(), &opts, None, 0, 0, &vec![]));
    assert!(v.contains("\"paragraphs\""));
}

#[test]
fn build_structure_slice_blank_doc() {
    let core = blank_core();
    let opts = BuildOptions { detail: Detail::Structure, ..Default::default() };
    let v = to_json_string(&build_structure_slice(&core.document, &no_tables(), &opts, None, 0, 0, &vec![]));
    assert!(v.contains("\"paragraphs\":[{\"char_count\":0,\"para\":0}]"), "{v}");
    assert!(!v.contains("\"text\""), "structure 단계 자리 본문 text 박혀선 안 됨");
}
