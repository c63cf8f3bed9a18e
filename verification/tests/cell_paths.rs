use rhwp_edit::cell_path::{CellPath, CellStep};
use rhwp_edit::document_core::DocumentCore;
use rhwp_edit::edit_op::{EditOperation, RunSpec};
use rhwp_edit::error::HwpError;
use rhwp_edit::model::{CharShapeRef, Control, Document, Paragraph, Section, Table};

/// Section 0: paragraph 0 holds an outer 1 × 1 table whose cell paragraph 1 holds a 3 × 2
/// table.
fn nested_core() -> DocumentCore {
    let mut inner = Table::new_grid(3, 2);
    inner.cells[3].paragraphs[0].text = "old".to_string();
    inner.cells[3].paragraphs[0].char_shapes = vec![CharShapeRef { start_pos: 0, char_shape_id: 9 }];
    let mut outer = Table::new_grid(1, 1);
    let mut holder = Paragraph::with_text(String::new());
    holder.controls.push(Control::Table(Box::new(inner)));
    outer.cells[0].paragraphs.push(holder);
    let mut p0 = Paragraph::with_text(String::new());
    p0.controls.push(Control::Table(Box::new(outer)));
    DocumentCore::from_document(Document {
        sections: vec![Section { paragraphs: vec![p0], raw_stream: Some(vec![1, 2, 3]) }],
    })
}

fn step(para: usize, row: u16, col: u16) -> CellStep {
    CellStep { para, ctrl_idx: 0, row, col }
}

#[test]
fn cell_path_depth_and_emptiness() {
    let p = CellPath::new(vec![step(0, 0, 0), step(1, 1, 1)]);
    assert_eq!(p.depth(), 2);
    assert!(!p.is_empty());
    assert!(CellPath::new(vec![]).is_empty());
}

#[test]
fn cell_path_reaches_outer_and_nested_cells() {
    let mut core = nested_core();
    let outer = core.get_cell_mut_at_path(0, &CellPath::new(vec![step(0, 0, 0)])).expect("outer");
    assert_eq!((outer.row, outer.col), (0, 0));
    assert_eq!(outer.paragraphs.len(), 2);
    for row in 0..3u16 {
        for col in 0..2u16 {
            let path = CellPath::new(vec![step(0, 0, 0), step(1, row, col)]);
            let cell = core.get_cell_mut_at_path(0, &path).expect("nested");
            assert_eq!((cell.row, cell.col), (row, col));
        }
    }
}

#[test]
fn cell_path_errors() {
    let mut core = nested_core();
    assert!(core.get_cell_mut_at_path(0, &CellPath::new(vec![])).is_err());
    assert!(matches!(core.get_cell_mut_at_path(0, &CellPath::new(vec![step(0, 99, 0)])), Err(HwpError::RenderError(_))));
    assert!(matches!(core.get_cell_mut_at_path(1, &CellPath::new(vec![step(0, 0, 0)])), Err(HwpError::RenderError(_))));
    assert!(matches!(
        core.get_cell_mut_at_path(0, &CellPath::new(vec![step(0, 0, 0), step(0, 0, 0)])),
        Err(HwpError::RenderError(_))
    ));
}

fn path_error(core: &mut DocumentCore, section: usize, steps: Vec<CellStep>) -> String {
    match core.get_cell_mut_at_path(section, &CellPath::new(steps)) {
        Err(HwpError::RenderError(m)) => m,
        _ => panic!("expected a request error"),
    }
}

#[test]
fn cell_path_error_messages_name_the_failing_step() {
    let mut core = nested_core();
    assert_eq!(path_error(&mut core, 0, vec![]), "get_cell_mut_at_path: 빈 path");
    assert_eq!(path_error(&mut core, 1, vec![step(0, 0, 0)]), "get_cell_mut_at_path: 섹션 1 범위 초과");
    assert_eq!(path_error(&mut core, 0, vec![step(5, 0, 0)]), "get_cell_mut_at_path: step 0 의 paragraph 5 범위 초과");
    assert_eq!(path_error(&mut core, 0, vec![step(0, 99, 0)]), "get_cell_mut_at_path: 마지막 step 의 cell (99, 0) 없음");
    assert_eq!(
        path_error(&mut core, 0, vec![step(0, 5, 0), step(1, 0, 0)]),
        "get_cell_mut_at_path: step 0 의 cell (5, 0) 없음"
    );
    assert_eq!(
        path_error(&mut core, 0, vec![step(0, 0, 0), step(4, 0, 0)]),
        "get_cell_mut_at_path: step 0 cell 의 paragraph 4 범위 초과 (paragraphs_len=2)"
    );
    assert_eq!(
        path_error(&mut core, 0, vec![step(0, 0, 0), step(0, 0, 0)]),
        "get_cell_mut_at_path: 마지막 step 의 control 0 범위 초과 (controls_len=0)"
    );
}

#[test]
fn replace_cell_runs_at_path_native_names_a_missing_cell_paragraph() {
    let mut core = nested_core();
    let path = CellPath::new(vec![step(0, 0, 0)]);
    match core.replace_cell_runs_at_path_native(0, &path, 9, "[]") {
        Err(HwpError::RenderError(m)) => {
            assert_eq!(m, "replace_cell_runs_at_path_native: cell_para 9 범위 초과 (paragraphs_len=2)")
        },
        _ => panic!("expected a request error"),
    }
}

#[test]
fn cell_path_edit_through_reference_lands_in_document() {
    let mut core = nested_core();
    let path = CellPath::new(vec![step(0, 0, 0), step(1, 2, 1)]);
    core.get_cell_mut_at_path(0, &path).unwrap().paragraphs[0].text = "changed".to_string();
    assert_eq!(core.cell_ref_at_path(0, &path).unwrap().paragraphs[0].text, "changed");
}

#[test]
fn replace_cell_runs_at_path_native_rebuilds_paragraph() {
    let mut core = nested_core();
    let path = CellPath::new(vec![step(0, 0, 0), step(1, 1, 1)]);
    let reply = core
        .replace_cell_runs_at_path_native(0, &path, 0, r#"[{"text":"NESTED"},{"bold":true},{"text":"_EDIT"}]"#)
        .expect("edit");
    assert_eq!(reply, r#"{"ok":true,"cellParaIdx":0}"#);
    let cell = core.cell_ref_at_path(0, &path).unwrap();
    let p = &cell.paragraphs[0];
    assert_eq!(p.text, "NESTED_EDIT");
    assert_eq!(p.char_count, 11 + 1);
    assert_eq!(p.char_shapes.len(), 1);
    assert_eq!(p.char_shapes[0].char_shape_id, 9);
    assert_eq!(p.char_offsets, (0..11u32).collect::<Vec<u32>>());
    assert!(p.line_segs.is_empty());
    assert!(core.document.sections[0].raw_stream.is_none());
}

#[test]
fn replace_cell_runs_at_path_counts_utf16_units() {
    let mut core = nested_core();
    let path = CellPath::new(vec![step(0, 0, 0)]);
    core.replace_cell_runs_at_path_native(0, &path, 1, r#"[{"text":"a😀b"}]"#).unwrap();
    let p = &core.cell_ref_at_path(0, &path).unwrap().paragraphs[1];
    assert_eq!(p.char_count, 4 + 1);
    assert_eq!(p.char_offsets, vec![0, 1, 3]);
}

#[test]
fn replace_cell_runs_at_path_native_rejects_bad_json_and_keeps_document() {
    let mut core = nested_core();
    let path = CellPath::new(vec![step(0, 0, 0)]);
    match core.replace_cell_runs_at_path_native(0, &path, 0, "not json") {
        Err(HwpError::InvalidFile(m)) => assert!(m.starts_with("runs_json 파싱 실패: ")),
        _ => panic!("expected an invalid-file error"),
    }
    assert_eq!(core.document.sections[0].raw_stream, Some(vec![1, 2, 3]));
}

#[test]
fn replace_cell_runs_at_path_native_out_of_range_paragraph() {
    let mut core = nested_core();
    let path = CellPath::new(vec![step(0, 0, 0)]);
    assert!(core.replace_cell_runs_at_path_native(0, &path, 5, r#"[{"text":"x"}]"#).is_err());
}

#[test]
fn replace_cell_runs_at_path_op_applies() {
    let mut core = nested_core();
    let path = CellPath::new(vec![step(0, 0, 0), step(1, 0, 1)]);
    let op = EditOperation::ReplaceCellRunsAtPath {
        section: 0,
        path: CellPath::new(vec![step(0, 0, 0), step(1, 0, 1)]),
        cell_para: 0,
        runs: vec![RunSpec { text: "가".to_string(), style: None }, RunSpec { text: "나".to_string(), style: None }],
    };
    core.apply_edit_op(&op).unwrap();
    assert_eq!(core.cell_ref_at_path(0, &path).unwrap().paragraphs[0].text, "가나");
}
