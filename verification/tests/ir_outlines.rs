use rhwp_edit::ir_compact::{CellLocator, CellStyle, ParagraphStyle, RunStyle, TableLevel};
use rhwp_edit::ir_outline::{
    build_outline_paragraph, build_structure_paragraph, omit_para_style_defaults, IrParagraph, IrRun, IrTableCell,
    IrTableParagraph, IrTextParagraph,
};
use rhwp_edit::json::to_json_string;

fn no_style() -> ParagraphStyle {
    ParagraphStyle { align: None, indent: None, line_height: None }
}

fn run(offset: usize, text: &str) -> IrRun {
    IrRun { char_offset: offset, length: text.chars().count(), text: text.to_string(), style: RunStyle::default() }
}

fn text_para(para: i64, runs: Vec<IrRun>) -> IrTextParagraph {
    IrTextParagraph {
        id: format!("p_0_{para}"),
        sec: 0,
        para,
        style: no_style(),
        runs,
        cell_locator: None,
        page_break: None,
    }
}

fn cell(row: u16, col: u16, row_span: Option<u16>, col_span: Option<u16>) -> IrTableCell {
    IrTableCell {
        row,
        col,
        row_span,
        col_span,
        style: CellStyle { bgcolor: None, width: None, height: None, border: None, vertical_align: None },
        paragraphs: vec![IrParagraph::Text(text_para(-1, vec![run(0, "셀")]))],
    }
}

fn table_para() -> IrParagraph {
    IrParagraph::Table(IrTableParagraph {
        id: "p_0_3".to_string(),
        sec: 0,
        para: 3,
        rows: 1,
        cols: 2,
        cells: vec![cell(0, 0, None, Some(2)), cell(0, 1, Some(1), None)],
    })
}

#[test]
fn outline_of_plain_paragraph() {
    let p = IrParagraph::Text(text_para(2, vec![run(0, "안녕"), run(2, "하세요")]));
    assert_eq!(to_json_string(&build_outline_paragraph(&p, None)), r#"{"para":2,"text":"안녕하세요"}"#);
}

#[test]
fn outline_marks_cut_text_page_break_alignment_and_locator() {
    let mut t = text_para(-1, vec![run(0, "abcdef")]);
    t.page_break = Some(true);
    t.style.align = Some("center".to_string());
    t.cell_locator = Some(CellLocator { table_para: 3, row: 0, col: 1, cell_para: 0 });
    let p = IrParagraph::Text(t);
    assert_eq!(
        to_json_string(&build_outline_paragraph(&p, Some(3))),
        r#"{"cell_locator":{"cell_para":0,"col":1,"row":0,"table_para":3},"page_break":true,"para":-1,"style":{"align":"center"},"text":"abc","text_truncated":true}"#
    );
}

#[test]
fn outline_without_page_break_omits_marker() {
    let mut t = text_para(0, vec![run(0, "x")]);
    t.page_break = Some(false);
    let p = IrParagraph::Text(t);
    assert_eq!(to_json_string(&build_outline_paragraph(&p, Some(5))), r#"{"para":0,"text":"x"}"#);
}

#[test]
fn outline_of_table_is_its_size() {
    assert_eq!(to_json_string(&build_outline_paragraph(&table_para(), None)), r#"{"cols":2,"para":3,"rows":1,"type":"table"}"#);
}

#[test]
fn structure_counts_characters() {
    let mut t = text_para(4, vec![run(0, "한글"), run(2, "abc")]);
    t.cell_locator = Some(CellLocator { table_para: 1, row: 2, col: 0, cell_para: 1 });
    let p = IrParagraph::Text(t);
    assert_eq!(
        to_json_string(&build_structure_paragraph(&p, TableLevel::Full)),
        r#"{"cell_locator":{"cell_para":1,"col":0,"row":2,"table_para":1},"char_count":5,"para":4}"#
    );
}

#[test]
fn structure_of_table_lists_cell_shapes_unless_counted() {
    assert_eq!(
        to_json_string(&build_structure_paragraph(&table_para(), TableLevel::Structure)),
        r#"{"cells":[{"col":0,"col_span":2,"row":0},{"col":1,"row":0,"row_span":1}],"cols":2,"para":3,"rows":1,"type":"table"}"#
    );
    assert_eq!(
        to_json_string(&build_structure_paragraph(&table_para(), TableLevel::Count)),
        r#"{"cols":2,"para":3,"rows":1,"type":"table"}"#
    );
}

#[test]
fn para_style_defaults_are_omitted() {
    let defaults = ParagraphStyle { align: Some("justify".to_string()), indent: Some(0), line_height: Some(160) };
    let same = ParagraphStyle { align: Some("justify".to_string()), indent: Some(0), line_height: Some(160) };
    assert!(omit_para_style_defaults(&same, &defaults).is_none());
    let differs = ParagraphStyle { align: Some("center".to_string()), indent: Some(0), line_height: Some(200) };
    let v = omit_para_style_defaults(&differs, &defaults).expect("differences");
    assert_eq!(to_json_string(&v), r#"{"align":"center","line-height":200}"#);
    let none_default = ParagraphStyle { align: None, indent: None, line_height: None };
    let v = omit_para_style_defaults(&same, &none_default).expect("all differ");
    assert_eq!(to_json_string(&v), r#"{"align":"justify","indent":0,"line-height":160}"#);
    assert!(omit_para_style_defaults(&none_default, &defaults).is_none());
}
