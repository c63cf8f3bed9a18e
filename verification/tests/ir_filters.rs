use rhwp_edit::edit_op::{AffectedRange, CellFocus, ParaRange};
use rhwp_edit::ir_compact::{StyleLevel, TableLevel};
use rhwp_edit::ir_filter::{apply_style_filter, apply_table_filter};
use rhwp_edit::json::{get_member, json_copy, json_eq, JsonMember, JsonValue};
use rhwp_edit::patch::{
    build_patch_diff, extract_compact_cell, paragraph_text_len_recursive, slice_to_target, target_para_count,
    target_text_len, PatchTarget,
};

fn obj(members: Vec<(&str, JsonValue)>) -> JsonValue {
    JsonValue::Object(members.into_iter().map(|(k, v)| JsonMember { key: k.to_string(), value: v }).collect())
}

fn s(x: &str) -> JsonValue {
    JsonValue::Str(x.to_string())
}

fn n(x: i64) -> JsonValue {
    JsonValue::Int(x)
}

fn arr(items: Vec<JsonValue>) -> JsonValue {
    JsonValue::Array(items)
}

fn get<'a>(v: &'a JsonValue, k: &str) -> Option<&'a JsonValue> {
    get_member(v, k)
}

fn item(v: &JsonValue, i: usize) -> &JsonValue {
    match v {
        JsonValue::Array(items) => &items[i],
        _ => panic!("not an array"),
    }
}

fn has(v: &JsonValue, k: &str) -> bool {
    get(v, k).is_some()
}

fn is_str(v: Option<&JsonValue>, x: &str) -> bool {
    matches!(v, Some(JsonValue::Str(t)) if t == x)
}

fn is_int(v: Option<&JsonValue>, x: i64) -> bool {
    matches!(v, Some(JsonValue::Int(t)) if *t == x)
}

fn paragraphs_target(v: Vec<JsonValue>) -> PatchTarget {
    PatchTarget::Paragraphs { paragraphs: v }
}

fn cell_target(v: JsonValue) -> PatchTarget {
    PatchTarget::Cell { cell: v }
}

fn body_range() -> AffectedRange {
    AffectedRange { section: 0, before: ParaRange::single(0), after: ParaRange::single(0), cell: None }
}

fn cell_range(cell_idx: Option<usize>) -> AffectedRange {
    AffectedRange {
        section: 0,
        before: ParaRange::single(3),
        after: ParaRange::single(3),
        cell: Some(CellFocus { table_para: 3, row: 1, col: 2, cell_idx, cell_para: Some(0) }),
    }
}

fn runs_para(text: &str) -> JsonValue {
    obj(vec![("runs", arr(vec![obj(vec![("text", s(text))])]))])
}

fn table_slice(cells: Vec<JsonValue>) -> Vec<JsonValue> {
    vec![obj(vec![("cells", arr(cells))])]
}

#[test]
fn apply_style_filter_none_strips_style_keys() {
    let mut paragraphs = vec![obj(vec![
        ("para", n(0)),
        ("style", obj(vec![("align", s("center"))])),
        ("runs", arr(vec![obj(vec![("text", s("x")), ("style", obj(vec![("bold", JsonValue::Bool(true))]))])])),
    ])];
    apply_style_filter(&mut paragraphs, StyleLevel::NoStyle);
    let p = &paragraphs[0];
    assert!(get(p, "style").is_none(), "paragraph style 미제거");
    let runs = get(p, "runs").unwrap();
    assert!(get(item(runs, 0), "style").is_none(), "run style 미제거");
}

#[test]
fn apply_style_filter_essential_drops_non_whitelist_keys() {
    let mut paragraphs = vec![obj(vec![
        ("para", n(0)),
        (
            "runs",
            arr(vec![obj(vec![
                ("text", s("x")),
                (
                    "style",
                    obj(vec![
                        ("bold", JsonValue::Bool(true)),
                        ("char-spacing", n(50)),
                        ("underline", JsonValue::Bool(true)),
                        ("font-size", n(10)),
                    ]),
                ),
            ])]),
        ),
    ])];
    apply_style_filter(&mut paragraphs, StyleLevel::Essential);
    let run = item(get(&paragraphs[0], "runs").unwrap(), 0);
    let style = get(run, "style").unwrap();
    assert!(has(style, "bold"));
    assert!(has(style, "font-size"));
    assert!(!has(style, "char-spacing"));
    assert!(!has(style, "underline"));
}

#[test]
fn apply_style_filter_essential_paragraph_keys() {
    let mut paragraphs = vec![obj(vec![
        ("para", n(0)),
        ("style", obj(vec![("align", s("center")), ("indent", n(100))])),
        ("runs", arr(vec![])),
    ])];
    apply_style_filter(&mut paragraphs, StyleLevel::Essential);
    let style = get(&paragraphs[0], "style").unwrap();
    assert!(has(style, "align"));
    assert!(has(style, "indent"));
}

#[test]
fn apply_style_filter_essential_drops_emptied_style() {
    let mut paragraphs = vec![obj(vec![
        ("style", obj(vec![("tab", n(4))])),
        ("runs", arr(vec![obj(vec![("text", s("x")), ("style", obj(vec![("underline", JsonValue::Bool(true))]))])])),
    ])];
    apply_style_filter(&mut paragraphs, StyleLevel::Essential);
    assert!(get(&paragraphs[0], "style").is_none());
    let run = item(get(&paragraphs[0], "runs").unwrap(), 0);
    assert!(get(run, "style").is_none());
    assert!(is_str(get(run, "text"), "x"));
}

#[test]
fn apply_style_filter_none_reaches_nested_cells() {
    let inner = obj(vec![("style", obj(vec![("align", s("left"))])), ("text", s("셀"))]);
    let mut paragraphs = vec![obj(vec![
        ("type", s("table")),
        ("cells", arr(vec![obj(vec![("style", obj(vec![("bgcolor", s("#FFFFFF"))])), ("paragraphs", arr(vec![inner]))])])),
    ])];
    apply_style_filter(&mut paragraphs, StyleLevel::NoStyle);
    let cell = item(get(&paragraphs[0], "cells").unwrap(), 0);
    assert!(get(cell, "style").is_none());
    let p = item(get(cell, "paragraphs").unwrap(), 0);
    assert!(get(p, "style").is_none());
    assert!(is_str(get(p, "text"), "셀"));
}

#[test]
fn apply_style_filter_essential_keeps_cell_style() {
    let mut paragraphs = vec![obj(vec![(
        "cells",
        arr(vec![obj(vec![("style", obj(vec![("bgcolor", s("#FFFFFF"))])), ("paragraphs", arr(vec![]))])]),
    )])];
    apply_style_filter(&mut paragraphs, StyleLevel::Essential);
    let cell = item(get(&paragraphs[0], "cells").unwrap(), 0);
    assert!(has(get(cell, "style").unwrap(), "bgcolor"));
}

#[test]
fn apply_style_filter_full_no_op() {
    let unfiltered = obj(vec![("style", obj(vec![("tab", n(4))]))]);
    let mut paragraphs = vec![json_copy(&unfiltered)];
    apply_style_filter(&mut paragraphs, StyleLevel::Full);
    assert!(json_eq(&paragraphs[0], &unfiltered));
}

#[test]
fn apply_table_filter_count_removes_cells_key() {
    let mut paragraphs = vec![obj(vec![
        ("para", n(0)),
        ("type", s("table")),
        ("rows", n(2)),
        ("cols", n(2)),
        ("cells", arr(vec![obj(vec![("row", n(0)), ("col", n(0))])])),
    ])];
    apply_table_filter(&mut paragraphs, TableLevel::Count);
    let p = &paragraphs[0];
    assert!(get(p, "cells").is_none(), "Count 자리 cells 키 미제거");
    assert!(get(p, "rows").is_some());
    assert!(get(p, "cols").is_some());
}

#[test]
fn apply_table_filter_structure_drops_cell_paragraphs() {
    let mut paragraphs = vec![obj(vec![
        ("para", n(0)),
        ("type", s("table")),
        ("rows", n(1)),
        ("cols", n(1)),
        (
            "cells",
            arr(vec![obj(vec![
                ("row", n(0)),
                ("col", n(0)),
                ("style", obj(vec![("bgcolor", s("#FFFFFF"))])),
                ("paragraphs", arr(vec![obj(vec![("para", n(-1)), ("text", s("셀 본문"))])])),
            ])]),
        ),
    ])];
    apply_table_filter(&mut paragraphs, TableLevel::Structure);
    let cell = item(get(&paragraphs[0], "cells").unwrap(), 0);
    assert!(get(cell, "paragraphs").is_none(), "Structure 자리 cell.paragraphs 미제거");
    assert!(get(cell, "style").is_some(), "Structure 자리 style 보존");
}

#[test]
fn apply_table_filter_full_no_op() {
    let unfiltered = obj(vec![
        ("para", n(0)),
        ("type", s("table")),
        ("rows", n(1)),
        ("cols", n(1)),
        (
            "cells",
            arr(vec![obj(vec![("row", n(0)), ("col", n(0)), ("paragraphs", arr(vec![obj(vec![("para", n(-1)), ("text", s("x"))])]))])]),
        ),
    ]);
    let mut paragraphs = vec![json_copy(&unfiltered)];
    apply_table_filter(&mut paragraphs, TableLevel::Full);
    assert!(json_eq(&paragraphs[0], &unfiltered));
}

#[test]
fn apply_table_filter_leaves_body_paragraphs() {
    let unfiltered = obj(vec![("para", n(1)), ("text", s("본문"))]);
    let mut paragraphs = vec![json_copy(&unfiltered)];
    apply_table_filter(&mut paragraphs, TableLevel::Count);
    assert!(json_eq(&paragraphs[0], &unfiltered));
}

#[test]
fn patch_diff_summary_changed_false_when_identical_paragraphs() {
    let range = body_range();
    let diff = build_patch_diff("replace_runs", &range, paragraphs_target(vec![]), paragraphs_target(vec![]));
    assert_eq!(diff.op, "replace_runs");
    assert!(!diff.summary.changed);
    assert_eq!(diff.summary.before_text_len, 0);
    assert_eq!(diff.summary.after_text_len, 0);
}

#[test]
fn patch_diff_summary_changed_true_on_text_diff() {
    let range = body_range();
    let before = paragraphs_target(vec![runs_para("abc")]);
    let after = paragraphs_target(vec![runs_para("abcXY")]);
    let diff = build_patch_diff("insert_text", &range, before, after);
    assert!(diff.summary.changed);
    assert_eq!(diff.summary.before_text_len, 3);
    assert_eq!(diff.summary.after_text_len, 5);
    assert_eq!(diff.summary.before_para_count, 1);
    assert_eq!(diff.summary.after_para_count, 1);
}

#[test]
fn patch_diff_cell_target_text_len_counts_cell_paragraphs() {
    let range = cell_range(Some(5));
    let before = cell_target(obj(vec![("row", n(1)), ("col", n(2)), ("paragraphs", arr(vec![runs_para("이전")]))]));
    let after = cell_target(obj(vec![("row", n(1)), ("col", n(2)), ("paragraphs", arr(vec![runs_para("바뀐 값입니다")]))]));
    let diff = build_patch_diff("replace_cell_runs", &range, before, after);
    assert!(diff.summary.changed);
    assert_eq!(diff.summary.before_text_len, 2);
    assert_eq!(diff.summary.after_text_len, 7);
    assert_eq!(diff.summary.before_para_count, 1);
    assert_eq!(diff.summary.after_para_count, 1);
}

#[test]
fn patch_diff_paragraph_target_text_len_supports_compact_text_field() {
    let range = body_range();
    let before = paragraphs_target(vec![obj(vec![("text", s("hi"))])]);
    let after = paragraphs_target(vec![obj(vec![("text", s("hello"))])]);
    let diff = build_patch_diff("replace_runs", &range, before, after);
    assert_eq!(diff.summary.before_text_len, 2);
    assert_eq!(diff.summary.after_text_len, 5);
}

#[test]
fn patch_diff_location_carries_ranges() {
    let range = AffectedRange {
        section: 1,
        before: ParaRange { start: 3, end: 4 },
        after: ParaRange { start: 3, end: 6 },
        cell: Some(CellFocus { table_para: 3, row: 1, col: 2, cell_idx: Some(7), cell_para: Some(0) }),
    };
    let diff = build_patch_diff("insert_table", &range, paragraphs_target(vec![]), paragraphs_target(vec![]));
    assert_eq!(diff.location.section, 1);
    assert_eq!(diff.location.para_start_before, 3);
    assert_eq!(diff.location.para_end_before, 4);
    assert_eq!(diff.location.para_start_after, 3);
    assert_eq!(diff.location.para_end_after, 6);
    let cell = diff.location.cell.as_ref().expect("cell focus");
    assert_eq!(cell.cell_idx, Some(7));
}

#[test]
fn patch_diff_cell_and_paragraphs_targets_differ() {
    let range = cell_range(Some(0));
    let diff = build_patch_diff("replace_cell_runs", &range, cell_target(obj(vec![])), paragraphs_target(vec![]));
    assert!(diff.summary.changed);
}

#[test]
fn extract_compact_cell_returns_cell_by_index() {
    let paragraphs = table_slice(vec![
        obj(vec![("row", n(0)), ("col", n(0)), ("paragraphs", arr(vec![]))]),
        obj(vec![("row", n(0)), ("col", n(1)), ("paragraphs", arr(vec![obj(vec![("text", s("B"))])]))]),
        obj(vec![("row", n(1)), ("col", n(0)), ("paragraphs", arr(vec![]))]),
    ]);
    let cell = extract_compact_cell(&paragraphs, Some(1)).expect("cell 1");
    assert!(is_int(get(&cell, "col"), 1));
    assert!(is_str(get(item(get(&cell, "paragraphs").unwrap(), 0), "text"), "B"));
    assert!(extract_compact_cell(&paragraphs, Some(99)).is_none());
    assert!(extract_compact_cell(&paragraphs, None).is_none());
}

#[test]
fn slice_to_target_falls_back_to_paragraphs_when_no_cell_focus() {
    let paragraphs = vec![obj(vec![("text", s("본문"))])];
    let range = body_range();
    match slice_to_target(paragraphs, &range) {
        PatchTarget::Paragraphs { paragraphs } => {
            assert_eq!(paragraphs.len(), 1);
            assert!(is_str(get(&paragraphs[0], "text"), "본문"));
        },
        _ => panic!("paragraphs 가 와야"),
    }
}

#[test]
fn slice_to_target_extracts_cell_when_cell_idx_present() {
    let paragraphs = table_slice(vec![
        obj(vec![("row", n(0)), ("col", n(0)), ("paragraphs", arr(vec![]))]),
        obj(vec![("row", n(0)), ("col", n(1)), ("paragraphs", arr(vec![obj(vec![("text", s("타깃"))])]))]),
    ]);
    let range = cell_range(Some(1));
    match slice_to_target(paragraphs, &range) {
        PatchTarget::Cell { cell } => {
            assert!(is_int(get(&cell, "col"), 1));
            assert!(is_str(get(item(get(&cell, "paragraphs").unwrap(), 0), "text"), "타깃"));
        },
        _ => panic!("cell variant 가 와야"),
    }
}

#[test]
fn slice_to_target_falls_back_when_cell_idx_none() {
    let paragraphs = table_slice(vec![obj(vec![("row", n(0)), ("col", n(0)), ("paragraphs", arr(vec![]))])]);
    let range = cell_range(None);
    assert!(matches!(slice_to_target(paragraphs, &range), PatchTarget::Paragraphs { .. }));
}

#[test]
fn patch_summary_no_change_warning_present_when_unchanged() {
    let range = body_range();
    let before = paragraphs_target(vec![runs_para("same")]);
    let after = paragraphs_target(vec![runs_para("same")]);
    let diff = build_patch_diff("set_cell_style", &range, before, after);
    assert!(!diff.summary.changed);
    let warn = diff.summary.no_change_warning.as_deref().expect("warning 필드 필요");
    assert!(warn.contains("schema"), "warning 메시지가 schema 확인을 안내해야 함: {warn}");
}

#[test]
fn patch_summary_no_change_warning_absent_when_changed() {
    let range = body_range();
    let before = paragraphs_target(vec![runs_para("a")]);
    let after = paragraphs_target(vec![runs_para("b")]);
    let diff = build_patch_diff("insert_text", &range, before, after);
    assert!(diff.summary.changed);
    assert!(diff.summary.no_change_warning.is_none(), "changed=true 일 때 warning 은 None 이어야 함");
}

#[test]
fn text_len_of_table_paragraph_sums_cell_paragraphs() {
    let table = obj(vec![(
        "cells",
        arr(vec![
            obj(vec![("paragraphs", arr(vec![runs_para("ab"), obj(vec![("text", s("cde"))])]))]),
            obj(vec![("row", n(0))]),
            obj(vec![("paragraphs", arr(vec![runs_para("한글")]))]),
        ]),
    )]);
    assert_eq!(paragraph_text_len_recursive(&table), 7);
    assert_eq!(paragraph_text_len_recursive(&n(3)), 0);
    let t = paragraphs_target(vec![table, runs_para("xyz")]);
    assert_eq!(target_text_len(&t), 10);
    assert_eq!(target_para_count(&t), 2);
}
