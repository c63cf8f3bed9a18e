use rhwp_edit::document_core::DocumentCore;
use rhwp_edit::edit_op::EditOperation;
use rhwp_edit::json::{JsonMember, JsonValue};
use rhwp_edit::workbench::{
    diff_char_counts, insert_text_op, resolve_cell_target, resolve_frame_ancestors, resolve_table_ctrl, session_info,
    workbench_step, WorkbenchStep,
};

fn obj(members: Vec<(&str, JsonValue)>) -> JsonValue {
    JsonValue::Object(members.into_iter().map(|(k, v)| JsonMember { key: k.to_string(), value: v }).collect())
}

/// A blank document with a 2 × 2 table anchored after paragraph 0 (at paragraph 1).
fn core_with_table() -> DocumentCore {
    let mut core = DocumentCore::new_blank();
    core.create_table_native(0, 0, 0, 2, 2).unwrap();
    core
}

#[test]
fn insert_text_payload_reads_all_fields() {
    let p = obj(vec![
        ("section", JsonValue::Int(0)),
        ("para", JsonValue::Int(2)),
        ("offset", JsonValue::Int(5)),
        ("text", JsonValue::Str("안녕".to_string())),
    ]);
    match insert_text_op(&p).unwrap() {
        EditOperation::InsertText { section, para, offset, text } => {
            assert_eq!((section, para, offset), (0, 2, 5));
            assert_eq!(text, "안녕");
        },
        _ => panic!("insert_text expected"),
    }
}

#[test]
fn insert_text_payload_reports_first_missing_field() {
    let no_section = obj(vec![("para", JsonValue::Int(0))]);
    assert_eq!(insert_text_op(&no_section).unwrap_err(), "payload.section 누락");
    let negative_para = obj(vec![("section", JsonValue::Int(0)), ("para", JsonValue::Int(-1))]);
    assert_eq!(insert_text_op(&negative_para).unwrap_err(), "payload.para 누락");
    let no_offset = obj(vec![("section", JsonValue::Int(0)), ("para", JsonValue::Int(0))]);
    assert_eq!(insert_text_op(&no_offset).unwrap_err(), "payload.offset 누락");
    let text_not_string = obj(vec![
        ("section", JsonValue::Int(0)),
        ("para", JsonValue::Int(0)),
        ("offset", JsonValue::Int(0)),
        ("text", JsonValue::Int(3)),
    ]);
    assert_eq!(insert_text_op(&text_not_string).unwrap_err(), "payload.text 누락");
    assert_eq!(insert_text_op(&JsonValue::Null).unwrap_err(), "payload.section 누락");
}

#[test]
fn cell_target_resolves_table_and_cell() {
    let core = core_with_table();
    let ctrl = core.find_table_ctrl_idx(0, 1).unwrap();
    assert_eq!(resolve_table_ctrl(&core, 0, 1), Ok(ctrl));
    assert_eq!(resolve_cell_target(&core, 0, 1, 1, 1), Ok((3, ctrl)));
}

#[test]
fn cell_target_errors_name_the_failed_lookup() {
    let core = core_with_table();
    assert_eq!(
        resolve_cell_target(&core, 0, 9, 0, 0).unwrap_err(),
        "find_table_ctrl_idx: find_table_ctrl_idx: 좌표 부적합 (sec=0, table_para=9)"
    );
    assert_eq!(
        resolve_table_ctrl(&core, 0, 0).unwrap_err(),
        "find_table_ctrl_idx: find_table_ctrl_idx: table_para=0 에 Table control 없음 (controls_len=0)"
    );
    assert_eq!(resolve_cell_target(&core, 0, 1, 5, 0).unwrap_err(), "find_cell_idx: find_cell_idx: (5, 0) 셀 없음");
}

#[test]
fn find_cell_idx_error_messages() {
    let core = core_with_table();
    assert_eq!(
        core.find_cell_idx(1, 0, 0, 0, 0).unwrap_err().message(),
        "find_cell_idx: 좌표 부적합 (sec=1, table_para=0)"
    );
    assert_eq!(
        core.find_cell_idx(0, 0, 0, 0, 0).unwrap_err().message(),
        "find_cell_idx: table_para=0 에 Table control 없음 (controls_len=0)"
    );
    assert_eq!(core.find_cell_idx(0, 1, 0, 2, 7).unwrap_err().message(), "find_cell_idx: (2, 7) 셀 없음");
}

#[test]
fn session_info_counts_paragraphs() {
    let core = core_with_table();
    let info = session_info("doc-1", &core, 8);
    assert_eq!(info.file_id, "doc-1");
    assert_eq!(info.seq, 7);
    assert_eq!(info.section_count, 1);
    assert_eq!(info.paragraph_count, core.document.sections[0].paragraphs.len());
}

#[test]
fn frame_ancestors_prefers_raw_setting() {
    assert_eq!(resolve_frame_ancestors(Some("  'self' https://a.example  "), Some("https://b.example")), Some("'self' https://a.example".to_string()));
}

#[test]
fn frame_ancestors_joins_allowed_origins() {
    assert_eq!(
        resolve_frame_ancestors(Some("   "), Some(" https://a.example,https://b.example ,, https://c.example\t")),
        Some("https://a.example https://b.example https://c.example".to_string())
    );
    assert_eq!(resolve_frame_ancestors(None, Some("https://only.example")), Some("https://only.example".to_string()));
}

#[test]
fn frame_ancestors_none_when_nothing_set() {
    assert_eq!(resolve_frame_ancestors(None, None), None);
    assert_eq!(resolve_frame_ancestors(Some(""), Some(" , ,")), None);
}

#[test]
fn workbench_step_completes_applies_or_relays() {
    assert_eq!(workbench_step("complete"), WorkbenchStep::Complete);
    assert_eq!(workbench_step("insert_text"), WorkbenchStep::Edit);
    assert_eq!(workbench_step("replace_cell_runs"), WorkbenchStep::Edit);
    assert_eq!(workbench_step("delete_range_in_cell"), WorkbenchStep::Edit);
    assert_eq!(workbench_step("cursor_moved"), WorkbenchStep::Relay);
    assert_eq!(workbench_step("Complete"), WorkbenchStep::Relay);
}

#[test]
fn diff_char_counts_go_by_the_totals() {
    let v = |ts: &[&str]| ts.iter().map(|t| t.to_string()).collect::<Vec<String>>();
    assert_eq!(diff_char_counts(&v(&["ab", "가나"]), &v(&["ab", "가나다", "x"])), Some((2, 0)));
    assert_eq!(diff_char_counts(&v(&["hello", "world"]), &v(&["hi"])), Some((0, 8)));
    assert_eq!(diff_char_counts(&v(&["abc"]), &v(&["xyz"])), Some((0, 0)));
    assert_eq!(diff_char_counts(&v(&[]), &v(&["😀"])), Some((1, 0)));
}
