use rhwp_edit::document_core::DocumentCore;
use rhwp_edit::edit_op::{EditOperation, PartialParagraphStyle};
use rhwp_edit::model::ColumnBreakType;

fn texts(core: &DocumentCore) -> Vec<String> {
    core.document.sections[0].paragraphs.iter().map(|p| p.text.clone()).collect()
}

fn core_with(paras: &[&str]) -> DocumentCore {
    let mut core = DocumentCore::new_blank();
    core.insert_text_native(0, 0, 0, paras[0]).unwrap();
    for (i, t) in paras.iter().enumerate().skip(1) {
        let len = core.document.sections[0].paragraphs[i - 1].text.chars().count();
        core.split_paragraph_native(0, i - 1, len).unwrap();
        core.insert_text_native(0, i, 0, t).unwrap();
    }
    core
}

#[test]
fn undo_insert_restores_texts() {
    let mut core = core_with(&["가나다", "xyz"]);
    let before = texts(&core);
    let op = EditOperation::InsertText { section: 0, para: 1, offset: 2, text: "😀Q".to_string() };
    core.apply_edit_op(&op).unwrap();
    assert_eq!(texts(&core)[1], "xy😀Qz");
    core.apply_inverse_edit_op(&op).unwrap();
    assert_eq!(texts(&core), before);
}

#[test]
fn undo_delete_restores_texts() {
    let mut core = core_with(&["abcdef"]);
    let before = texts(&core);
    let op = EditOperation::DeleteText { section: 0, para: 0, offset: 2, count: 3, deleted_text: "cde".to_string() };
    core.apply_edit_op(&op).unwrap();
    assert_eq!(texts(&core), vec!["abf".to_string()]);
    core.apply_inverse_edit_op(&op).unwrap();
    assert_eq!(texts(&core), before);
}

#[test]
fn undo_merge_restores_texts() {
    let mut core = core_with(&["head", "tail", "rest"]);
    let before = texts(&core);
    let op = EditOperation::MergeParagraph { section: 0, para: 1, prev_len: 4 };
    core.apply_edit_op(&op).unwrap();
    assert_eq!(texts(&core), vec!["headtail".to_string(), "rest".to_string()]);
    core.apply_inverse_edit_op(&op).unwrap();
    assert_eq!(texts(&core), before);
}

#[test]
fn undo_split_restores_texts() {
    let mut core = core_with(&["one", "twothree"]);
    let before = texts(&core);
    let op = EditOperation::SplitParagraph { section: 0, para: 1, offset: 3 };
    core.apply_edit_op(&op).unwrap();
    core.apply_inverse_edit_op(&op).unwrap();
    assert_eq!(texts(&core), before);
}

#[test]
fn failed_operation_leaves_document_unchanged() {
    let mut core = core_with(&["abc"]);
    let before = texts(&core);
    assert!(core.apply_edit_op(&EditOperation::InsertText { section: 0, para: 0, offset: 9, text: "x".to_string() }).is_err());
    assert!(core.apply_edit_op(&EditOperation::MergeParagraph { section: 0, para: 0, prev_len: 0 }).is_err());
    assert!(core.apply_edit_op(&EditOperation::DeleteText { section: 3, para: 0, offset: 0, count: 1, deleted_text: String::new() }).is_err());
    assert_eq!(texts(&core), before);
}

#[test]
fn press_enter_with_page_break_breaks_the_page_at_the_first_new_paragraph() {
    let mut core = core_with(&["abcd"]);
    let op = EditOperation::PressEnter {
        section: 0,
        para: Some(0),
        table_para: None,
        row: None,
        col: None,
        cell_para: None,
        ctrl_idx: None,
        cell_idx: None,
        char_offset: 2,
        count: 2,
        style: None,
        page_break: Some(true),
    };
    core.apply_edit_op(&op).unwrap();
    assert_eq!(texts(&core), vec!["ab".to_string(), String::new(), "cd".to_string()]);
    assert_eq!(core.document.sections[0].paragraphs[1].column_type, ColumnBreakType::Page);
}

#[test]
fn press_enter_once_with_page_break_puts_the_tail_on_a_new_page() {
    let mut core = core_with(&["abcd"]);
    let op = EditOperation::PressEnter {
        section: 0,
        para: Some(0),
        table_para: None,
        row: None,
        col: None,
        cell_para: None,
        ctrl_idx: None,
        cell_idx: None,
        char_offset: 2,
        count: 1,
        style: None,
        page_break: Some(true),
    };
    core.apply_edit_op(&op).unwrap();
    assert_eq!(texts(&core), vec!["ab".to_string(), "cd".to_string()]);
    assert_eq!(core.document.sections[0].paragraphs[1].column_type, ColumnBreakType::Page);
}

#[test]
fn press_enter_out_of_range_names_the_index() {
    let mut core = core_with(&["abcd"]);
    let mut op = EditOperation::PressEnter {
        section: 3,
        para: Some(0),
        table_para: None,
        row: None,
        col: None,
        cell_para: None,
        ctrl_idx: None,
        cell_idx: None,
        char_offset: 0,
        count: 1,
        style: None,
        page_break: None,
    };
    assert_eq!(core.apply_edit_op(&op).unwrap_err().message(), "section 3 범위 초과");
    if let EditOperation::PressEnter { section, para, .. } = &mut op {
        *section = 0;
        *para = Some(7);
    }
    assert_eq!(core.apply_edit_op(&op).unwrap_err().message(), "para 7 범위 초과");
    assert_eq!(texts(&core), vec!["abcd".to_string()]);
}

#[test]
fn insert_paragraphs_style_each_new_paragraph() {
    let mut core = core_with(&["a", "b"]);
    let op = EditOperation::InsertParagraph {
        section: 0,
        after_para: 1,
        count: 2,
        style: Some(PartialParagraphStyle { align: Some("center".to_string()), ..Default::default() }),
    };
    core.apply_edit_op(&op).unwrap();
    assert_eq!(texts(&core), vec!["a".to_string(), String::new(), String::new(), "b".to_string()]);
    assert_eq!(core.get_para_properties_at_native(0, 1).unwrap(), r#"{"alignment":"center"}"#);
    assert_eq!(core.get_para_properties_at_native(0, 2).unwrap(), r#"{"alignment":"center"}"#);
    assert_eq!(core.get_para_properties_at_native(0, 3).unwrap(), "{}");
}

#[test]
fn insert_paragraph_with_style_after_last_succeeds() {
    let mut core = core_with(&["a"]);
    let op = EditOperation::InsertParagraph {
        section: 0,
        after_para: 1,
        count: 1,
        style: Some(PartialParagraphStyle { align: Some("left".to_string()), ..Default::default() }),
    };
    core.apply_edit_op(&op).unwrap();
    assert_eq!(texts(&core), vec!["a".to_string(), String::new()]);
    assert_eq!(core.get_para_properties_at_native(0, 1).unwrap(), r#"{"alignment":"left"}"#);
}

#[test]
fn insert_paragraph_out_of_range_changes_nothing() {
    let mut core = core_with(&["a"]);
    let op = EditOperation::InsertParagraph { section: 0, after_para: 2, count: 1, style: None };
    assert!(core.apply_edit_op(&op).is_err());
    assert_eq!(texts(&core), vec!["a".to_string()]);
}

#[test]
fn apply_edit_ops_stops_at_first_failure() {
    let mut core = core_with(&[""]);
    let ops = vec![
        EditOperation::InsertText { section: 0, para: 0, offset: 0, text: "가".to_string() },
        EditOperation::InsertText { section: 0, para: 0, offset: 1, text: "나".to_string() },
        EditOperation::InsertText { section: 0, para: 5, offset: 0, text: "x".to_string() },
        EditOperation::InsertText { section: 0, para: 0, offset: 0, text: "never".to_string() },
    ];
    assert!(core.apply_edit_ops(&ops).is_err());
    assert_eq!(texts(&core), vec!["가나".to_string()]);
}

#[test]
fn apply_edit_ops_refuses_table_after_missing_paragraph() {
    let mut core = core_with(&["x"]);
    let ops = vec![EditOperation::InsertTable { section: 0, insert_after_para: 4, rows: 1, cols: 1 }];
    assert!(core.apply_edit_ops(&ops).is_err());
    assert_eq!(texts(&core), vec!["x".to_string()]);
}

#[test]
fn press_enter_styles_the_new_paragraphs_and_breaks_the_page_at_the_first() {
    let mut core = core_with(&["abcd"]);
    let op = EditOperation::PressEnter {
        section: 0,
        para: Some(0),
        table_para: None,
        row: None,
        col: None,
        cell_para: None,
        ctrl_idx: None,
        cell_idx: None,
        char_offset: 2,
        count: 2,
        style: Some(PartialParagraphStyle { align: Some("center".to_string()), ..Default::default() }),
        page_break: Some(true),
    };
    core.apply_edit_op(&op).unwrap();
    assert_eq!(texts(&core), vec!["ab".to_string(), String::new(), "cd".to_string()]);
    assert_eq!(core.get_para_properties_at_native(0, 1).unwrap(), r#"{"alignment":"center"}"#);
    assert_eq!(core.get_para_properties_at_native(0, 2).unwrap(), r#"{"alignment":"center"}"#);
    let ps = &core.document.sections[0].paragraphs;
    assert_eq!(ps[0].column_type, ColumnBreakType::NoBreak);
    assert_eq!(ps[1].column_type, ColumnBreakType::Page);
    assert_eq!(ps[2].column_type, ColumnBreakType::NoBreak);
}

#[test]
fn press_enter_without_page_break_styles_the_tail_too() {
    let mut core = core_with(&["abcd"]);
    let op = EditOperation::PressEnter {
        section: 0,
        para: Some(0),
        table_para: None,
        row: None,
        col: None,
        cell_para: None,
        ctrl_idx: None,
        cell_idx: None,
        char_offset: 1,
        count: 1,
        style: Some(PartialParagraphStyle { align: Some("right".to_string()), ..Default::default() }),
        page_break: None,
    };
    core.apply_edit_op(&op).unwrap();
    assert_eq!(texts(&core), vec!["a".to_string(), "bcd".to_string()]);
    assert_eq!(core.get_para_properties_at_native(0, 0).unwrap(), "{}");
    assert_eq!(core.get_para_properties_at_native(0, 1).unwrap(), r#"{"alignment":"right"}"#);
    assert_eq!(core.document.sections[0].paragraphs[1].column_type, ColumnBreakType::NoBreak);
}
