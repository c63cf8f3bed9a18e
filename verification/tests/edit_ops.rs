use rhwp_edit::document_core::DocumentCore;
use rhwp_edit::edit_op::{
    partial_cell_style_to_native_json, partial_paragraph_style_to_native_json, partial_run_style_to_native_json,
    BorderLine, BorderSpec, EditOperation, ElementType, ParaRange, PartialCellStyle, PartialParagraphStyle,
    PartialRunStyle, RunSpec, runs_to_native_json,
};
use rhwp_edit::model::{Cell, ColumnBreakType, Control, Document, Paragraph, Section, Table};

fn core_with_text(text: &str) -> DocumentCore {
    let mut core = DocumentCore::new_blank();
    if !text.is_empty() {
        core.insert_text_native(0, 0, 0, text).unwrap();
    }
    core
}

fn para_text(core: &DocumentCore, section: usize, para: usize) -> String {
    core.document.sections[section].paragraphs[para].text.clone()
}

fn doc_text(core: &DocumentCore) -> Vec<String> {
    core.document.sections[0].paragraphs.iter().map(|p| p.text.clone()).collect()
}

fn table_at(core: &DocumentCore, section: usize, para: usize, ctrl: usize) -> &Table {
    match &core.document.sections[section].paragraphs[para].controls[ctrl] {
        Control::Table(t) => t,
        _ => panic!("Not a Table"),
    }
}

fn cell_text(core: &DocumentCore, section: usize, table_para: usize, ctrl: usize, cell_idx: usize, cell_para: usize) -> String {
    table_at(core, section, table_para, ctrl).cells[cell_idx].paragraphs[cell_para].text.clone()
}

fn has_table(core: &DocumentCore) -> bool {
    core.document.sections[0].paragraphs.iter().any(|p| p.controls.iter().any(|c| matches!(c, Control::Table(_))))
}

fn press_enter_body(para: Option<usize>, char_offset: i64, count: usize) -> EditOperation {
    EditOperation::PressEnter {
        section: 0,
        para,
        table_para: None,
        row: None,
        col: None,
        cell_para: None,
        ctrl_idx: None,
        cell_idx: None,
        char_offset,
        count,
        style: None,
        page_break: None,
    }
}

fn press_enter_cell(char_offset: i64, count: usize) -> EditOperation {
    EditOperation::PressEnter {
        section: 0,
        para: None,
        table_para: Some(1),
        row: Some(0),
        col: Some(0),
        cell_para: Some(0),
        ctrl_idx: None,
        cell_idx: None,
        char_offset,
        count,
        style: None,
        page_break: None,
    }
}

/// A blank document holding a 2 × 2 table at paragraph 1 whose cell (0, 0) holds `text`.
fn core_with_cell_text(text: &str) -> (DocumentCore, usize, usize) {
    let mut core = core_with_text("");
    core.create_table_native(0, 0, 0, 2, 2).unwrap();
    let ctrl_idx = core.find_table_ctrl_idx(0, 1).unwrap();
    let cell_idx = core.find_cell_idx(0, 1, ctrl_idx, 0, 0).unwrap();
    core.insert_text_in_cell_native(0, 1, ctrl_idx, cell_idx, 0, 0, text).unwrap();
    (core, ctrl_idx, cell_idx)
}

fn cell_texts(core: &DocumentCore, ctrl_idx: usize, cell_idx: usize) -> Vec<String> {
    table_at(core, 0, 1, ctrl_idx).cells[cell_idx].paragraphs.iter().map(|p| p.text.clone()).collect()
}

#[test]
fn test_insert_text_roundtrip() {
    let mut core = core_with_text("AC");
    let op = EditOperation::InsertText { section: 0, para: 0, offset: 1, text: "B".to_string() };
    core.apply_edit_op(&op).unwrap();
    assert_eq!(para_text(&core, 0, 0), "ABC");
    core.apply_inverse_edit_op(&op).unwrap();
    assert_eq!(para_text(&core, 0, 0), "AC");
}

#[test]
fn test_delete_text_roundtrip() {
    let mut core = core_with_text("ABCDE");
    let op = EditOperation::DeleteText { section: 0, para: 0, offset: 1, count: 2, deleted_text: "BC".to_string() };
    core.apply_edit_op(&op).unwrap();
    assert_eq!(para_text(&core, 0, 0), "ADE");
    core.apply_inverse_edit_op(&op).unwrap();
    assert_eq!(para_text(&core, 0, 0), "ABCDE");
}

#[test]
fn test_split_merge_roundtrip() {
    let mut core = core_with_text("HelloWorld");
    let split = EditOperation::SplitParagraph { section: 0, para: 0, offset: 5 };
    core.apply_edit_op(&split).unwrap();
    assert_eq!(core.document.sections[0].paragraphs.len(), 2);
    assert_eq!(para_text(&core, 0, 0), "Hello");
    assert_eq!(para_text(&core, 0, 1), "World");
    core.apply_inverse_edit_op(&split).unwrap();
    assert_eq!(core.document.sections[0].paragraphs.len(), 1);
    assert_eq!(para_text(&core, 0, 0), "HelloWorld");
}

#[test]
fn test_op_apply_equals_direct_native() {
    let mut a = core_with_text("Hello");
    a.apply_edit_op(&EditOperation::InsertText { section: 0, para: 0, offset: 5, text: " World".to_string() }).unwrap();
    a.apply_edit_op(&EditOperation::SplitParagraph { section: 0, para: 0, offset: 5 }).unwrap();

    let mut b = core_with_text("Hello");
    b.insert_text_native(0, 0, 5, " World").unwrap();
    b.split_paragraph_native(0, 0, 5).unwrap();

    assert_eq!(doc_text(&a), doc_text(&b));
    assert_eq!(doc_text(&a), vec!["Hello".to_string(), " World".to_string()]);
}

#[test]
fn test_replace_runs_op_apply() {
    let mut core = core_with_text("원본");
    let op = EditOperation::ReplaceRuns {
        section: 0,
        para: 0,
        runs: vec![
            RunSpec { text: "변경".to_string(), style: Some(PartialRunStyle { bold: Some(true), ..Default::default() }) },
            RunSpec { text: " 보통".to_string(), style: None },
        ],
    };
    core.apply_edit_op(&op).unwrap();
    assert_eq!(para_text(&core, 0, 0), "변경 보통");
}

#[test]
fn test_set_paragraph_style_op_apply_partial() {
    let mut core = core_with_text("hello");
    let op = EditOperation::SetParagraphStyle {
        section: 0,
        para: 0,
        style: PartialParagraphStyle { align: Some("right".to_string()), ..Default::default() },
    };
    core.apply_edit_op(&op).unwrap();
    let result = core.get_para_properties_at_native(0, 0).unwrap();
    assert!(result.contains(r#""alignment":"right""#));
}

#[test]
fn test_delete_range_op_apply_same_para() {
    let mut core = core_with_text("ABCDE");
    let op = EditOperation::DeleteRange { section: 0, para_start: 0, char_start: 1, para_end: 0, char_end: 3 };
    core.apply_edit_op(&op).unwrap();
    assert_eq!(para_text(&core, 0, 0), "ADE");
}

#[test]
fn test_delete_range_op_apply_multi_para() {
    let mut core = core_with_text("AAA");
    core.apply_edit_op(&EditOperation::SplitParagraph { section: 0, para: 0, offset: 3 }).unwrap();
    core.insert_text_native(0, 1, 0, "BBB").unwrap();
    let op = EditOperation::DeleteRange { section: 0, para_start: 0, char_start: 2, para_end: 1, char_end: 2 };
    core.apply_edit_op(&op).unwrap();
    assert_eq!(core.document.sections[0].paragraphs.len(), 1);
    assert_eq!(para_text(&core, 0, 0), "AAB");
}

#[test]
fn test_insert_paragraph_op_apply() {
    let mut core = core_with_text("first");
    let op = EditOperation::InsertParagraph { section: 0, after_para: 0, count: 1, style: None };
    core.apply_edit_op(&op).unwrap();
    assert_eq!(core.document.sections[0].paragraphs.len(), 2);
}

#[test]
fn insert_paragraph_style_goes_to_the_new_paragraph() {
    let mut core = core_with_text("first");
    let op = EditOperation::InsertParagraph {
        section: 0,
        after_para: 0,
        count: 1,
        style: Some(PartialParagraphStyle { align: Some("right".into()), ..Default::default() }),
    };
    assert!(core.apply_edit_op(&op).is_ok());
    assert_eq!(core.document.sections[0].paragraphs.len(), 2);
    assert_eq!(para_text(&core, 0, 0), "");
    assert_eq!(para_text(&core, 0, 1), "first");
    assert!(core.get_para_properties_at_native(0, 0).unwrap().contains("\"alignment\":\"right\""));
    assert!(!core.get_para_properties_at_native(0, 1).unwrap().contains("alignment"));
}

#[test]
fn test_press_enter_body_end_default() {
    let mut core = core_with_text("hello");
    core.apply_edit_op(&press_enter_body(Some(0), -1, 1)).unwrap();
    assert_eq!(core.document.sections[0].paragraphs.len(), 2);
    assert_eq!(para_text(&core, 0, 0), "hello");
    assert_eq!(para_text(&core, 0, 1), "");
}

#[test]
fn test_press_enter_body_start() {
    let mut core = core_with_text("hello");
    core.apply_edit_op(&press_enter_body(Some(0), 0, 1)).unwrap();
    assert_eq!(core.document.sections[0].paragraphs.len(), 2);
    assert_eq!(para_text(&core, 0, 0), "");
    assert_eq!(para_text(&core, 0, 1), "hello");
}

#[test]
fn test_press_enter_body_offset_equals_len() {
    let mut core = core_with_text("hello");
    core.apply_edit_op(&press_enter_body(Some(0), 5, 1)).unwrap();
    assert_eq!(para_text(&core, 0, 0), "hello");
    assert_eq!(para_text(&core, 0, 1), "");
}

#[test]
fn test_press_enter_body_offset_overflow_clamp() {
    let mut core = core_with_text("hello");
    core.apply_edit_op(&press_enter_body(Some(0), 100, 1)).unwrap();
    assert_eq!(para_text(&core, 0, 0), "hello");
    assert_eq!(para_text(&core, 0, 1), "");
}

#[test]
fn test_press_enter_body_middle_split() {
    let mut core = core_with_text("hello");
    core.apply_edit_op(&press_enter_body(Some(0), 2, 1)).unwrap();
    assert_eq!(core.document.sections[0].paragraphs.len(), 2);
    assert_eq!(para_text(&core, 0, 0), "he");
    assert_eq!(para_text(&core, 0, 1), "llo");
}

#[test]
fn test_press_enter_body_count_multi() {
    let mut core = core_with_text("hello");
    core.apply_edit_op(&press_enter_body(Some(0), -1, 3)).unwrap();
    assert_eq!(core.document.sections[0].paragraphs.len(), 4);
    assert_eq!(para_text(&core, 0, 0), "hello");
    assert_eq!(para_text(&core, 0, 1), "");
    assert_eq!(para_text(&core, 0, 2), "");
    assert_eq!(para_text(&core, 0, 3), "");
}

#[test]
fn test_press_enter_cell_end() {
    let (mut core, ctrl_idx, cell_idx) = core_with_cell_text("AB");
    core.apply_edit_op(&press_enter_cell(-1, 1)).unwrap();
    assert_eq!(cell_texts(&core, ctrl_idx, cell_idx), vec!["AB".to_string(), String::new()]);
}

#[test]
fn test_press_enter_cell_start() {
    let (mut core, ctrl_idx, cell_idx) = core_with_cell_text("AB");
    core.apply_edit_op(&press_enter_cell(0, 1)).unwrap();
    assert_eq!(cell_texts(&core, ctrl_idx, cell_idx), vec![String::new(), "AB".to_string()]);
}

#[test]
fn test_press_enter_cell_middle_split() {
    let (mut core, ctrl_idx, cell_idx) = core_with_cell_text("ABCD");
    core.apply_edit_op(&press_enter_cell(2, 1)).unwrap();
    assert_eq!(cell_texts(&core, ctrl_idx, cell_idx), vec!["AB".to_string(), "CD".to_string()]);
}

#[test]
fn test_press_enter_cell_count_multi() {
    let (mut core, ctrl_idx, cell_idx) = core_with_cell_text("X");
    core.apply_edit_op(&press_enter_cell(-1, 3)).unwrap();
    assert_eq!(
        cell_texts(&core, ctrl_idx, cell_idx),
        vec!["X".to_string(), String::new(), String::new(), String::new()]
    );
}

#[test]
fn test_press_enter_body_missing_para() {
    let mut core = core_with_text("hello");
    let err = core.apply_edit_op(&press_enter_body(None, -1, 1)).unwrap_err();
    assert!(err.message().contains("INVALID_PAYLOAD"), "error: {}", err.message());
    assert!(err.message().contains("para 누락"));
}

#[test]
fn test_press_enter_cell_page_break_rejected() {
    let mut core = core_with_text("");
    core.create_table_native(0, 0, 0, 2, 2).unwrap();
    let op = EditOperation::PressEnter {
        section: 0,
        para: None,
        table_para: Some(1),
        row: Some(0),
        col: Some(0),
        cell_para: Some(0),
        ctrl_idx: None,
        cell_idx: None,
        char_offset: -1,
        count: 1,
        style: None,
        page_break: Some(true),
    };
    let err = core.apply_edit_op(&op).unwrap_err();
    assert!(err.message().contains("INVALID_PAYLOAD"));
    assert!(err.message().contains("page_break"));
}

#[test]
fn test_press_enter_cell_missing_row() {
    let mut core = core_with_text("");
    core.create_table_native(0, 0, 0, 2, 2).unwrap();
    let op = EditOperation::PressEnter {
        section: 0,
        para: None,
        table_para: Some(1),
        row: None,
        col: Some(0),
        cell_para: Some(0),
        ctrl_idx: None,
        cell_idx: None,
        char_offset: -1,
        count: 1,
        style: None,
        page_break: None,
    };
    let err = core.apply_edit_op(&op).unwrap_err();
    assert!(err.message().contains("INVALID_PAYLOAD"));
    assert!(err.message().contains("row 누락"));
}

#[test]
fn test_press_enter_body_section_out_of_range() {
    let mut core = core_with_text("hello");
    let mut op = press_enter_body(Some(0), -1, 1);
    if let EditOperation::PressEnter { section, .. } = &mut op {
        *section = 99;
    }
    assert!(core.apply_edit_op(&op).is_err());
}

#[test]
fn test_press_enter_body_para_out_of_range() {
    let mut core = core_with_text("hello");
    assert!(core.apply_edit_op(&press_enter_body(Some(99), -1, 1)).is_err());
}

#[test]
fn test_delete_element_op_apply_paragraph() {
    let mut core = core_with_text("first");
    core.apply_edit_op(&EditOperation::SplitParagraph { section: 0, para: 0, offset: 5 }).unwrap();
    core.insert_text_native(0, 1, 0, "second").unwrap();
    let op = EditOperation::DeleteElement { section: 0, para: 0, element_type: ElementType::Paragraph };
    core.apply_edit_op(&op).unwrap();
    assert_eq!(core.document.sections[0].paragraphs.len(), 1);
    assert_eq!(para_text(&core, 0, 0), "second");
}

#[test]
fn test_delete_element_op_apply_table() {
    let mut core = core_with_text("");
    core.create_table_native(0, 0, 0, 2, 3).unwrap();
    let op = EditOperation::DeleteElement { section: 0, para: 1, element_type: ElementType::Table };
    core.apply_edit_op(&op).unwrap();
    assert!(!has_table(&core));
}

#[test]
fn test_insert_table_op_apply() {
    let mut core = core_with_text("hello");
    let op = EditOperation::InsertTable { section: 0, insert_after_para: 0, rows: 2, cols: 3 };
    core.apply_edit_op(&op).unwrap();
    assert!(has_table(&core));
}

#[test]
fn test_set_cell_style_op_apply() {
    let mut core = DocumentCore::new_blank();
    core.create_table_native(0, 0, 0, 2, 2).unwrap();
    let op = EditOperation::SetCellStyle {
        section: 0,
        table_para: 1,
        row: 0,
        col: 0,
        cell_idx: None,
        ctrl_idx: None,
        style: PartialCellStyle { vertical_align: Some("middle".to_string()), ..Default::default() },
    };
    core.apply_edit_op(&op).unwrap();
}

#[test]
fn test_delete_range_in_cell_op_apply() {
    let mut core = DocumentCore::new_blank();
    core.create_table_native(0, 0, 0, 1, 1).unwrap();
    core.insert_text_in_cell_native(0, 1, 0, 0, 0, 0, "ABCDE").unwrap();
    let op = EditOperation::DeleteRangeInCell {
        section: 0,
        table_para: 1,
        row: 0,
        col: 0,
        cell_idx: None,
        ctrl_idx: None,
        cell_para_start: 0,
        char_start: 1,
        cell_para_end: 0,
        char_end: 3,
    };
    core.apply_edit_op(&op).unwrap();
    assert_eq!(cell_text(&core, 0, 1, 0, 0, 0), "ADE");
}

#[test]
fn test_insert_text_in_cell_op_apply() {
    let mut core = DocumentCore::new_blank();
    core.create_table_native(0, 0, 0, 1, 1).unwrap();
    let op = EditOperation::InsertTextInCell {
        section: 0,
        table_para: 1,
        row: 0,
        col: 0,
        cell_idx: None,
        ctrl_idx: None,
        cell_para: 0,
        offset: 0,
        text: "셀텍스트".to_string(),
        style: None,
    };
    core.apply_edit_op(&op).unwrap();
    assert_eq!(cell_text(&core, 0, 1, 0, 0, 0), "셀텍스트");
}

#[test]
fn test_replace_cell_runs_op_apply() {
    let mut core = DocumentCore::new_blank();
    core.create_table_native(0, 0, 0, 1, 2).unwrap();
    core.insert_text_in_cell_native(0, 1, 0, 0, 0, 0, "원본").unwrap();
    let op = EditOperation::ReplaceCellRuns {
        section: 0,
        table_para: 1,
        row: 0,
        col: 0,
        cell_idx: None,
        ctrl_idx: None,
        cell_para: 0,
        runs: vec![RunSpec { text: "변경".to_string(), style: None }],
    };
    core.apply_edit_op(&op).unwrap();
    assert_eq!(cell_text(&core, 0, 1, 0, 0, 0), "변경");
}

#[test]
fn test_merge_cells_op_apply() {
    let mut core = DocumentCore::new_blank();
    core.create_table_native(0, 0, 0, 3, 3).unwrap();
    let cells_before = table_at(&core, 0, 1, 0).cells.len();
    let op = EditOperation::MergeCells {
        section: 0,
        table_para: 1,
        row_start: 0,
        col_start: 0,
        row_end: 0,
        col_end: 1,
        ctrl_idx: None,
    };
    core.apply_edit_op(&op).unwrap();
    let cells_after = table_at(&core, 0, 1, 0).cells.len();
    assert!(cells_after < cells_before, "before={}, after={}", cells_before, cells_after);
}

#[test]
fn affected_range_replace_runs_single_para() {
    let op = EditOperation::ReplaceRuns { section: 0, para: 5, runs: vec![] };
    let r = op.affected_range();
    assert_eq!(r.section, 0);
    assert_eq!(r.before, ParaRange::single(5));
    assert_eq!(r.after, ParaRange::single(5));
    assert!(r.cell.is_none());
}

#[test]
fn affected_range_set_paragraph_style_single_para() {
    let op = EditOperation::SetParagraphStyle { section: 1, para: 3, style: PartialParagraphStyle::default() };
    let r = op.affected_range();
    assert_eq!(r.section, 1);
    assert_eq!(r.before, ParaRange::single(3));
    assert_eq!(r.after, ParaRange::single(3));
}

#[test]
fn affected_range_delete_range_multi_para_collapses_after() {
    let op = EditOperation::DeleteRange { section: 0, para_start: 2, char_start: 0, para_end: 5, char_end: 3 };
    let r = op.affected_range();
    assert_eq!(r.before, ParaRange { start: 2, end: 6 });
    assert_eq!(r.after, ParaRange::single(2));
}

#[test]
fn affected_range_insert_paragraph_after_expands() {
    let op = EditOperation::InsertParagraph { section: 0, after_para: 3, count: 2, style: None };
    let r = op.affected_range();
    assert_eq!(r.before, ParaRange::single(3));
    assert_eq!(r.after, ParaRange { start: 3, end: 6 });
}

#[test]
fn affected_range_insert_table_after_expands() {
    let op = EditOperation::InsertTable { section: 0, insert_after_para: 4, rows: 2, cols: 3 };
    let r = op.affected_range();
    assert_eq!(r.before, ParaRange::single(4));
    assert_eq!(r.after, ParaRange { start: 4, end: 6 });
}

#[test]
fn affected_range_delete_element_paragraph_empty_after() {
    let op = EditOperation::DeleteElement { section: 0, para: 7, element_type: ElementType::Paragraph };
    let r = op.affected_range();
    assert_eq!(r.before, ParaRange::single(7));
    assert_eq!(r.after, ParaRange::empty(7));
}

#[test]
fn affected_range_delete_element_table_keeps_paragraph() {
    let op = EditOperation::DeleteElement { section: 0, para: 7, element_type: ElementType::Table };
    let r = op.affected_range();
    assert_eq!(r.before, ParaRange::single(7));
    assert_eq!(r.after, ParaRange::single(7));
}

#[test]
fn affected_range_set_cell_style_carries_cell_focus() {
    let op = EditOperation::SetCellStyle {
        section: 0,
        table_para: 4,
        row: 2,
        col: 3,
        cell_idx: Some(11),
        ctrl_idx: None,
        style: PartialCellStyle::default(),
    };
    let r = op.affected_range();
    assert_eq!(r.before, ParaRange::single(4));
    assert_eq!(r.after, ParaRange::single(4));
    let cell = r.cell.expect("cell focus");
    assert_eq!(cell.table_para, 4);
    assert_eq!(cell.row, 2);
    assert_eq!(cell.col, 3);
    assert_eq!(cell.cell_idx, Some(11));
    assert_eq!(cell.cell_para, None);
}

#[test]
fn affected_range_replace_cell_runs_carries_cell_para() {
    let op = EditOperation::ReplaceCellRuns {
        section: 0,
        table_para: 4,
        row: 1,
        col: 2,
        cell_idx: Some(6),
        ctrl_idx: None,
        cell_para: 0,
        runs: vec![],
    };
    let r = op.affected_range();
    let cell = r.cell.expect("cell focus");
    assert_eq!(cell.cell_idx, Some(6));
    assert_eq!(cell.cell_para, Some(0));
}

#[test]
fn affected_range_merge_cells_uses_start_coords() {
    let op = EditOperation::MergeCells {
        section: 0,
        table_para: 4,
        row_start: 1,
        col_start: 2,
        row_end: 3,
        col_end: 5,
        ctrl_idx: None,
    };
    let r = op.affected_range();
    let cell = r.cell.expect("cell focus");
    assert_eq!(cell.row, 1);
    assert_eq!(cell.col, 2);
}

#[test]
fn affected_range_split_paragraph_grows_after() {
    let op = EditOperation::SplitParagraph { section: 0, para: 5, offset: 3 };
    let r = op.affected_range();
    assert_eq!(r.before, ParaRange::single(5));
    assert_eq!(r.after, ParaRange { start: 5, end: 7 });
}

#[test]
fn affected_range_insert_page_break_grows_after() {
    let op = EditOperation::InsertPageBreak { section: 0, para: 3, offset: 5 };
    let r = op.affected_range();
    assert_eq!(r.section, 0);
    assert_eq!(r.before, ParaRange::single(3));
    assert_eq!(r.after, ParaRange { start: 3, end: 5 });
    assert!(r.cell.is_none());
}

#[test]
fn affected_range_merge_paragraph_consumes_prev() {
    let op = EditOperation::MergeParagraph { section: 0, para: 5, prev_len: 4 };
    let r = op.affected_range();
    assert_eq!(r.before, ParaRange { start: 4, end: 6 });
    assert_eq!(r.after, ParaRange::single(4));
}

#[test]
fn affected_range_merge_paragraph_at_zero_saturates() {
    let op = EditOperation::MergeParagraph { section: 0, para: 0, prev_len: 0 };
    let r = op.affected_range();
    assert_eq!(r.before.start, 0);
    assert_eq!(r.after.start, 0);
}

#[test]
fn partial_cell_style_to_native_json_includes_fill_type() {
    let s = PartialCellStyle { bgcolor: Some("#ABCDEF".to_string()), ..Default::default() };
    let native = partial_cell_style_to_native_json(&s);
    assert!(native.contains(r#""fillType":"solid""#), "native={native}");
    assert!(native.contains(r##""fillColor":"#ABCDEF""##), "native={native}");
}

#[test]
fn partial_cell_style_border_all_expands_to_4dir() {
    let s = PartialCellStyle {
        border: Some(BorderSpec {
            all: Some(BorderLine { color: Some("#000000".to_string()), width: Some(10), line_type: Some(1) }),
            ..Default::default()
        }),
        ..Default::default()
    };
    let native = partial_cell_style_to_native_json(&s);
    for k in ["borderLeft", "borderRight", "borderTop", "borderBottom"] {
        assert!(native.contains(&format!(r#""{k}":"#)), "{k} missing: {native}");
    }
}

#[test]
fn partial_cell_style_border_individual_overrides_all() {
    let s = PartialCellStyle {
        border: Some(BorderSpec {
            all: Some(BorderLine { color: Some("#000000".to_string()), width: Some(10), line_type: Some(1) }),
            left: Some(BorderLine { color: Some("#FF0000".to_string()), width: Some(20), line_type: Some(2) }),
            ..Default::default()
        }),
        ..Default::default()
    };
    let native = partial_cell_style_to_native_json(&s);
    assert!(native.contains(r##""borderLeft":{"color":"#FF0000""##), "{native}");
    assert!(native.contains(r##""borderTop":{"color":"#000000""##), "{native}");
}

#[test]
fn partial_cell_style_vertical_align_string_to_u8() {
    for (s, expected) in [("top", 0u8), ("middle", 1), ("center", 1), ("bottom", 2)] {
        let style = PartialCellStyle { vertical_align: Some(s.to_string()), ..Default::default() };
        let native = partial_cell_style_to_native_json(&style);
        assert!(
            native.contains(&format!(r#""verticalAlign":{expected}"#)),
            "verticalAlign={s} expected={expected}, got {native}"
        );
    }
}

#[test]
fn partial_run_style_to_native_json_highlight_to_shade_color() {
    let s = PartialRunStyle { highlight: Some("#FFFF00".to_string()), ..Default::default() };
    let native = partial_run_style_to_native_json(&s);
    assert!(native.contains(r##""shadeColor":"#FFFF00""##), "{native}");
    assert!(!native.contains("highlight"), "{native}");
}

#[test]
fn partial_run_style_to_native_json_color_to_text_color() {
    let s = PartialRunStyle { color: Some("#00FF00".to_string()), font_size: Some(12), ..Default::default() };
    let native = partial_run_style_to_native_json(&s);
    assert!(native.contains(r##""textColor":"#00FF00""##), "{native}");
    assert!(native.contains(r#""fontSize":12"#), "{native}");
}

#[test]
fn partial_paragraph_style_to_native_json_align_to_alignment() {
    let s = PartialParagraphStyle { align: Some("center".to_string()), line_height: Some(150), ..Default::default() };
    let native = partial_paragraph_style_to_native_json(&s);
    assert!(native.contains(r#""alignment":"center""#), "{native}");
    assert!(native.contains(r#""lineSpacing":150"#), "{native}");
}

#[test]
fn apply_set_cell_style_bgcolor_round_trip() {
    let mut core = DocumentCore::new_blank();
    core.create_table_native(0, 0, 0, 2, 2).unwrap();
    let bfid_before = table_at(&core, 0, 1, 0).cells[0].border_fill_id;
    let op = EditOperation::SetCellStyle {
        section: 0,
        table_para: 1,
        row: 0,
        col: 0,
        cell_idx: None,
        ctrl_idx: None,
        style: PartialCellStyle { bgcolor: Some("#FFC0CB".to_string()), ..Default::default() },
    };
    core.apply_edit_op(&op).unwrap();
    let bfid_after = table_at(&core, 0, 1, 0).cells[0].border_fill_id;
    assert_ne!(bfid_before, bfid_after);
}

#[test]
fn apply_insert_page_break_splits_and_sets_column_type() {
    let mut core = core_with_text("한 줄");
    let before_count = core.document.sections[0].paragraphs.len();
    let op = EditOperation::InsertPageBreak { section: 0, para: 0, offset: 1 };
    core.apply_edit_op(&op).unwrap();
    let secs = &core.document.sections;
    assert_eq!(secs[0].paragraphs.len(), before_count + 1);
    assert_eq!(secs[0].paragraphs[1].column_type, ColumnBreakType::Page);
}

#[test]
fn apply_set_paragraph_style_align_via_advertised_key() {
    let mut core = core_with_text("hello");
    let op = EditOperation::SetParagraphStyle {
        section: 0,
        para: 0,
        style: PartialParagraphStyle { align: Some("right".to_string()), ..Default::default() },
    };
    core.apply_edit_op(&op).unwrap();
    let result = core.get_para_properties_at_native(0, 0).unwrap();
    assert!(result.contains(r#""alignment":"right""#), "{result}");
}

fn core_with_sections(sections: Vec<Section>) -> DocumentCore {
    DocumentCore::from_document(Document { sections })
}

#[test]
fn find_cell_idx_falls_back_for_section_def_paragraph() {
    let mut para = Paragraph::with_text(String::new());
    para.controls.push(Control::SectionDef);
    let mut table = Table::empty(1, 1);
    table.cells.push(Cell::new(0, 0));
    para.controls.push(Control::Table(Box::new(table)));
    let core = core_with_sections(vec![Section { paragraphs: vec![para], raw_stream: None }]);
    let cell_idx = core.find_cell_idx(0, 0, 0, 0, 0).unwrap();
    assert_eq!(cell_idx, 0);
}

#[test]
fn find_cell_idx_direct_for_table_only_paragraph() {
    let mut para = Paragraph::with_text(String::new());
    let mut table = Table::empty(2, 3);
    for r in 0..2u16 {
        for c in 0..3u16 {
            table.cells.push(Cell::new(r, c));
        }
    }
    para.controls.push(Control::Table(Box::new(table)));
    let core = core_with_sections(vec![Section { paragraphs: vec![para], raw_stream: None }]);
    assert_eq!(core.find_cell_idx(0, 0, 0, 0, 0).unwrap(), 0);
    assert_eq!(core.find_cell_idx(0, 0, 0, 1, 2).unwrap(), 5);
}

#[test]
fn runs_to_native_json_writes_style_then_text() {
    let mut core = DocumentCore::new_blank();
    let runs = vec![
        RunSpec { text: "a".to_string(), style: None },
        RunSpec {
            text: "b".to_string(),
            style: Some(PartialRunStyle {
                bold: Some(true),
                italic: None,
                underline: None,
                strikethrough: None,
                font_size: None,
                color: None,
                highlight: None,
                font_name: Some("바탕".to_string()),
            }),
        },
    ];
    let s = runs_to_native_json(&mut core, &runs).unwrap();
    assert_eq!(s, "[{\"text\":\"a\"},{\"style\":{\"bold\":true,\"fontId\":0},\"text\":\"b\"}]");
    assert_eq!(core.font_names, vec!["바탕".to_string()]);
}

fn format_keys(f: &rhwp_edit::model::CharFormat) -> Vec<String> {
    f.style.iter().map(|m| m.key.clone()).collect()
}

#[test]
fn replace_runs_gives_styled_runs_their_format() {
    let mut core = core_with_text("old");
    let op = EditOperation::ReplaceRuns {
        section: 0,
        para: 0,
        runs: vec![
            RunSpec { text: "ab".to_string(), style: None },
            RunSpec { text: "cd".to_string(), style: Some(PartialRunStyle { bold: Some(true), ..Default::default() }) },
            RunSpec { text: "e".to_string(), style: Some(PartialRunStyle { font_name: Some("Batang".to_string()), ..Default::default() }) },
        ],
    };
    core.apply_edit_op(&op).unwrap();
    let p = &core.document.sections[0].paragraphs[0];
    assert_eq!(p.text, "abcde");
    assert_eq!(p.char_format.len(), 2);
    assert_eq!((p.char_format[0].start, p.char_format[0].end), (2, 4));
    assert_eq!(format_keys(&p.char_format[0]), vec!["bold".to_string()]);
    assert_eq!((p.char_format[1].start, p.char_format[1].end), (4, 5));
    assert_eq!(format_keys(&p.char_format[1]), vec!["fontId".to_string()]);
    assert_eq!(core.font_names, vec!["Batang".to_string()]);
}

#[test]
fn replace_runs_drops_earlier_formats() {
    let mut core = core_with_text("old");
    let styled = EditOperation::ReplaceRuns {
        section: 0,
        para: 0,
        runs: vec![RunSpec { text: "x".to_string(), style: Some(PartialRunStyle { italic: Some(true), ..Default::default() }) }],
    };
    core.apply_edit_op(&styled).unwrap();
    let plain = EditOperation::ReplaceRuns { section: 0, para: 0, runs: vec![RunSpec { text: "y".to_string(), style: None }] };
    core.apply_edit_op(&plain).unwrap();
    assert_eq!(para_text(&core, 0, 0), "y");
    assert!(core.document.sections[0].paragraphs[0].char_format.is_empty());
}

#[test]
fn replace_cell_runs_formats_the_cell_paragraph() {
    let mut core = DocumentCore::new_blank();
    core.create_table_native(0, 0, 0, 1, 1).unwrap();
    let op = EditOperation::ReplaceCellRuns {
        section: 0,
        table_para: 1,
        row: 0,
        col: 0,
        cell_idx: None,
        ctrl_idx: None,
        cell_para: 0,
        runs: vec![RunSpec { text: "굵게".to_string(), style: Some(PartialRunStyle { bold: Some(true), ..Default::default() }) }],
    };
    core.apply_edit_op(&op).unwrap();
    let p = &table_at(&core, 0, 1, 0).cells[0].paragraphs[0];
    assert_eq!(p.text, "굵게");
    assert_eq!(p.char_format.len(), 1);
    assert_eq!((p.char_format[0].start, p.char_format[0].end), (0, 2));
    assert_eq!(format_keys(&p.char_format[0]), vec!["bold".to_string()]);
}

#[test]
fn insert_text_in_cell_with_style_formats_the_inserted_text() {
    let mut core = DocumentCore::new_blank();
    core.create_table_native(0, 0, 0, 1, 1).unwrap();
    core.insert_text_in_cell_native(0, 1, 0, 0, 0, 0, "ab").unwrap();
    let op = EditOperation::InsertTextInCell {
        section: 0,
        table_para: 1,
        row: 0,
        col: 0,
        cell_idx: None,
        ctrl_idx: None,
        cell_para: 0,
        offset: 1,
        text: "XYZ".to_string(),
        style: Some(PartialRunStyle { underline: Some(true), ..Default::default() }),
    };
    core.apply_edit_op(&op).unwrap();
    let p = &table_at(&core, 0, 1, 0).cells[0].paragraphs[0];
    assert_eq!(p.text, "aXYZb");
    assert_eq!(p.char_format.len(), 1);
    assert_eq!((p.char_format[0].start, p.char_format[0].end), (1, 4));
    assert_eq!(format_keys(&p.char_format[0]), vec!["underline".to_string()]);
}

#[test]
fn press_enter_cell_range_errors_name_the_index() {
    let (mut core, _, _) = core_with_cell_text("AB");
    let with = |cell_idx: Option<usize>, ctrl_idx: Option<usize>, cell_para: usize| EditOperation::PressEnter {
        section: 0,
        para: None,
        table_para: Some(1),
        row: Some(0),
        col: Some(0),
        cell_para: Some(cell_para),
        ctrl_idx,
        cell_idx,
        char_offset: -1,
        count: 1,
        style: None,
        page_break: None,
    };
    assert_eq!(core.apply_edit_op(&with(None, None, 5)).unwrap_err().message(), "cell_para 5 범위 초과");
    assert_eq!(core.apply_edit_op(&with(Some(9), Some(0), 0)).unwrap_err().message(), "cell_idx 9 범위 초과");
    assert_eq!(core.apply_edit_op(&with(Some(0), Some(3), 0)).unwrap_err().message(), "ctrl_idx 3 범위 초과");
    assert_eq!(cell_texts(&core, 0, 0), vec!["AB".to_string()]);
}
