use rhwp_edit::ir_compact::{
    CellBorder, CellBorderSpec, CellLocator, CellStyle, IrAnchor, IrDocMeta, ParagraphStyle, RunStyle,
};
use rhwp_edit::ir_outline::{
    omit_para_style_defaults, IrParagraph, IrRun, IrTableCell, IrTableParagraph, IrTextParagraph,
};
use rhwp_edit::ir_slice::{
    collect_runs, compact_cell, compact_ir_slice, compact_run, compact_table, compact_text, compute_doc_defaults,
    mode_name, mode_size, omit_run_style_defaults, same_style, DocDefaults, IrSlice,
};
use rhwp_edit::json::{get_member, to_json_string, JsonValue};

fn meta() -> IrDocMeta {
    IrDocMeta {
        edit_session_id: "t".to_string(),
        page: 1,
        total_pages: 1,
        anchor: IrAnchor { sec: 0, para_start: 0, para_end: 0 },
    }
}

fn text_para(sec: usize, para: i64, runs: Vec<IrRun>) -> IrTextParagraph {
    IrTextParagraph {
        id: format!("p_{sec}_{para}"),
        sec,
        para,
        style: ParagraphStyle::default(),
        runs,
        cell_locator: None,
        page_break: None,
    }
}

fn run(offset: usize, text: &str, style: RunStyle) -> IrRun {
    IrRun { char_offset: offset, length: text.chars().count(), text: text.to_string(), style }
}

fn sized(size: i64, name: &str) -> RunStyle {
    RunStyle { font_size: Some(size), font_name: Some(name.to_string()), ..Default::default() }
}

fn plain_defaults() -> DocDefaults {
    DocDefaults { run: RunStyle::default(), paragraph: ParagraphStyle::default() }
}

fn json(v: &JsonValue) -> String {
    to_json_string(v)
}

#[test]
fn collect_runs_single_style() {
    let s = RunStyle::default();
    let runs = collect_runs("ABC", &vec![s.clone(), s.clone(), s.clone()]);
    assert_eq!(runs.len(), 1);
    assert_eq!(runs[0].text, "ABC");
    assert_eq!(runs[0].length, 3);
    assert_eq!(runs[0].char_offset, 0);
}

#[test]
fn collect_runs_two_styles() {
    let bold = RunStyle { bold: Some(true), ..Default::default() };
    let plain = RunStyle::default();
    let styles: Vec<RunStyle> = (0..5).map(|off| if off < 2 { bold.clone() } else { plain.clone() }).collect();
    let runs = collect_runs("ABCDE", &styles);
    assert_eq!(runs.len(), 2);
    assert_eq!(runs[0].text, "AB");
    assert_eq!(runs[0].char_offset, 0);
    assert_eq!(runs[0].length, 2);
    assert_eq!(runs[0].style.bold, Some(true));
    assert_eq!(runs[1].text, "CDE");
    assert_eq!(runs[1].char_offset, 2);
    assert_eq!(runs[1].length, 3);
    assert!(runs[1].style.bold.is_none() || runs[1].style.bold == Some(false));
}

#[test]
fn collect_runs_empty_paragraph() {
    let runs = collect_runs("", &vec![RunStyle::default()]);
    assert_eq!(runs.len(), 1);
    assert_eq!(runs[0].length, 0);
    assert_eq!(runs[0].char_offset, 0);
    assert!(runs[0].text.is_empty());
}

#[test]
fn collect_runs_empty_paragraph_takes_style_from_callback() {
    let red_style = RunStyle { color: Some("#FF0000".into()), bold: Some(true), ..Default::default() };
    let runs = collect_runs("", &vec![red_style.clone()]);
    assert_eq!(runs.len(), 1);
    assert_eq!(runs[0].length, 0);
    assert_eq!(runs[0].style, red_style, "callback 이 반환한 style 이 placeholder 에 박혀야");
}

#[test]
fn collect_runs_merges_only_neighbours() {
    let a = RunStyle { italic: Some(true), ..Default::default() };
    let b = RunStyle { color: Some("#00FF00".into()), ..Default::default() };
    let styles = vec![a.clone(), b.clone(), b.clone(), a.clone(), a.clone(), a.clone()];
    let runs = collect_runs("가나다라마바", &styles);
    let got: Vec<(usize, usize, &str)> = runs.iter().map(|r| (r.char_offset, r.length, r.text.as_str())).collect();
    assert_eq!(got, vec![(0, 1, "가"), (1, 2, "나다"), (3, 3, "라마바")]);
    assert_eq!(runs[0].style, a);
    assert_eq!(runs[1].style, b);
    assert_eq!(runs[2].style, a);
    let joined: String = runs.iter().map(|r| r.text.as_str()).collect();
    assert_eq!(joined, "가나다라마바");
    for w in runs.windows(2) {
        assert_eq!(w[1].char_offset, w[0].char_offset + w[0].length);
        assert!(!same_style(&w[0].style, &w[1].style));
    }
}

#[test]
fn mode_returns_most_frequent_f64() {
    let v: Vec<i64> = vec![100, 200, 200, 300];
    assert_eq!(mode_size(&v), Some(200));
    let empty: Vec<i64> = vec![];
    assert_eq!(mode_size(&empty), None);
}

#[test]
fn mode_ties_keep_first_string() {
    let v: Vec<String> = vec!["a".into(), "b".into(), "a".into(), "b".into()];
    assert_eq!(mode_name(&v), Some("a".into()));
}

#[test]
fn mode_prefers_count_over_order() {
    assert_eq!(mode_size(&vec![5, 7, 7, 5, 7]), Some(7));
    assert_eq!(mode_size(&vec![9, 3, 3, 9]), Some(9));
    assert_eq!(mode_name(&vec!["x".to_string()]), Some("x".to_string()));
    assert_eq!(mode_name(&vec![]), None);
}

#[test]
fn compute_doc_defaults_from_empty_slice() {
    let slice = IrSlice { doc_meta: meta(), paragraphs: vec![] };
    let d = compute_doc_defaults(&slice);
    assert_eq!(d.run.bold, Some(false));
    assert_eq!(d.run.color.as_deref(), Some("#000000"));
    assert_eq!(d.run.font_size, Some(1000));
    assert_eq!(d.run.font_name.as_deref(), Some("맑은 고딕"));
    assert_eq!(d.paragraph.align.as_deref(), Some("left"));
    assert_eq!(d.paragraph.line_height, Some(160));
}

#[test]
fn compute_doc_defaults_counts_table_runs() {
    let cell_para = text_para(0, -1, vec![run(0, "x", sized(1200, "바탕")), run(1, "y", sized(1200, "바탕"))]);
    let table = IrTableParagraph {
        id: "p_0_1".into(),
        sec: 0,
        para: 1,
        rows: 1,
        cols: 1,
        cells: vec![IrTableCell {
            row: 0,
            col: 0,
            row_span: None,
            col_span: None,
            style: CellStyle { bgcolor: None, width: None, height: None, border: None, vertical_align: None },
            paragraphs: vec![IrParagraph::Text(cell_para)],
        }],
    };
    let body = text_para(0, 0, vec![run(0, "a", sized(1000, "돋움"))]);
    let slice = IrSlice { doc_meta: meta(), paragraphs: vec![IrParagraph::Text(body), IrParagraph::Table(table)] };
    let d = compute_doc_defaults(&slice);
    assert_eq!(d.run.font_size, Some(1200));
    assert_eq!(d.run.font_name.as_deref(), Some("바탕"));
    assert_eq!(d.run.char_width, Some(100));
    assert_eq!(d.run.vertical_align.as_deref(), Some("baseline"));
}

#[test]
fn omit_run_defaults_drops_matching() {
    let style = RunStyle { bold: Some(false), font_size: Some(2200), ..Default::default() };
    let defaults = RunStyle { bold: Some(false), font_size: Some(1100), ..Default::default() };
    let out = omit_run_style_defaults(&style, &defaults).unwrap();
    assert!(get_member(&out, "bold").is_none());
    assert!(matches!(get_member(&out, "font-size"), Some(JsonValue::Hundredths(2200))));
    assert_eq!(json(&out), "{\"font-size\":22.0}");
}

#[test]
fn omit_run_defaults_all_same_returns_none() {
    let s = RunStyle { bold: Some(false), ..Default::default() };
    let d = RunStyle { bold: Some(false), ..Default::default() };
    assert!(omit_run_style_defaults(&s, &d).is_none());
}

#[test]
fn omit_run_defaults_keeps_keys_in_order() {
    let s = RunStyle {
        underline: Some(true),
        color: Some("#112233".into()),
        char_spacing: Some(-5),
        font_size: Some(1050),
        font_name: Some("굴림".into()),
        vertical_align: Some("superscript".into()),
        ..Default::default()
    };
    let d = RunStyle { color: Some("#112233".into()), ..Default::default() };
    let out = omit_run_style_defaults(&s, &d).unwrap();
    assert_eq!(
        json(&out),
        "{\"char-spacing\":-5,\"font-name\":\"굴림\",\"font-size\":10.5,\"underline\":true,\"vertical-align\":\"superscript\"}"
    );
}

#[test]
fn compact_text_single_run_inline() {
    let t = text_para(0, 0, vec![run(0, "ABC", RunStyle::default())]);
    let defaults = plain_defaults();
    let v = compact_text(&t, &defaults, false);
    assert!(get_member(&v, "runs").is_none(), "단일 plain run 은 runs 생략");
    assert!(matches!(get_member(&v, "text"), Some(JsonValue::Str(s)) if s == "ABC"));
    assert!(get_member(&v, "id").is_none(), "id 키 잔존");
    assert!(get_member(&v, "type").is_none(), "기본 type 'text' 가 명시되어 있음");
    assert_eq!(json(get_member(&v, "sec").unwrap()), "0");
}

#[test]
fn compact_text_styled_run_keeps_runs() {
    let t = text_para(0, 0, vec![run(0, "ABC", RunStyle { bold: Some(true), ..Default::default() })]);
    let defaults =
        DocDefaults { run: RunStyle { bold: Some(false), ..Default::default() }, paragraph: ParagraphStyle::default() };
    let v = compact_text(&t, &defaults, false);
    assert!(get_member(&v, "text").is_none(), "styled run 은 runs 형태 유지");
    let runs = match get_member(&v, "runs") {
        Some(JsonValue::Array(items)) => items,
        _ => panic!("runs array"),
    };
    assert_eq!(json(get_member(get_member(&runs[0], "style").unwrap(), "bold").unwrap()), "true");
    assert!(get_member(&runs[0], "char_offset").is_none(), "첫 run 의 char_offset:0 이 잔존");
}

#[test]
fn compact_run_first_zero_offset_omitted() {
    let r = run(0, "abc", RunStyle::default());
    let defaults = plain_defaults();
    let v_first = compact_run(&r, &defaults, true);
    assert!(get_member(&v_first, "char_offset").is_none(), "첫 run 0 → omit");
    let v_not_first = compact_run(&r, &defaults, false);
    assert_eq!(json(get_member(&v_not_first, "char_offset").unwrap()), "0");
    let r2 = run(5, "d", RunStyle::default());
    let v_first_nonzero = compact_run(&r2, &defaults, true);
    assert_eq!(json(get_member(&v_first_nonzero, "char_offset").unwrap()), "5");
}

#[test]
fn compact_text_full_shape() {
    let mut t = text_para(2, 7, vec![run(0, "ab", sized(1000, "돋움")), run(2, "c", sized(1400, "돋움"))]);
    t.page_break = Some(true);
    t.cell_locator = Some(CellLocator { table_para: 3, row: 1, col: 2, cell_para: 0 });
    t.style = ParagraphStyle { align: Some("center".into()), indent: Some(0), line_height: Some(160) };
    let defaults = DocDefaults {
        run: sized(1000, "돋움"),
        paragraph: ParagraphStyle { align: Some("left".into()), indent: Some(0), line_height: Some(160) },
    };
    let v = compact_text(&t, &defaults, true);
    assert_eq!(
        json(&v),
        "{\"cell_locator\":{\"cell_para\":0,\"col\":2,\"row\":1,\"table_para\":3},\"page_break\":true,\"para\":7,\
         \"runs\":[{\"text\":\"ab\"},{\"char_offset\":2,\"style\":{\"font-size\":14.0},\"text\":\"c\"}],\
         \"style\":{\"align\":\"center\"}}"
    );
}

fn bordered_cell() -> IrTableCell {
    let line = || CellBorderSpec { border_type: Some(1), width: Some(2), color: Some("#000000".into()) };
    IrTableCell {
        row: 0,
        col: 1,
        row_span: None,
        col_span: Some(2),
        style: CellStyle {
            bgcolor: Some("#FFFFFF".into()),
            width: Some(1000),
            height: None,
            border: Some(CellBorder { left: Some(line()), right: Some(line()), top: Some(line()), bottom: Some(line()), all: None }),
            vertical_align: None,
        },
        paragraphs: vec![IrParagraph::Text(text_para(0, -1, vec![run(0, "in", RunStyle::default())]))],
    }
}

#[test]
fn compact_cell_uses_border_shorthand() {
    let v = compact_cell(&bordered_cell(), &plain_defaults(), true);
    assert_eq!(
        json(&v),
        "{\"col\":1,\"col_span\":2,\"paragraphs\":[{\"para\":-1,\"text\":\"in\"}],\"row\":0,\
         \"style\":{\"bgcolor\":\"#FFFFFF\",\"border\":{\"all\":{\"color\":\"#000000\",\"type\":1,\"width\":2}},\"width\":1000}}"
    );
}

#[test]
fn compact_table_keeps_type_and_sec() {
    let t = IrTableParagraph { id: "p_1_4".into(), sec: 1, para: 4, rows: 1, cols: 3, cells: vec![bordered_cell()] };
    let v = compact_table(&t, &plain_defaults(), false);
    assert!(get_member(&v, "id").is_none());
    assert_eq!(json(get_member(&v, "type").unwrap()), "\"table\"");
    assert_eq!(json(get_member(&v, "sec").unwrap()), "1");
    let v2 = compact_table(&t, &plain_defaults(), true);
    assert!(get_member(&v2, "sec").is_none());
    let inner = json(get_member(&v2, "cells").unwrap());
    assert!(!inner.contains("\"sec\""));
}

#[test]
fn compact_ir_slice_omits_sec_only_for_one_section() {
    let one = IrSlice {
        doc_meta: meta(),
        paragraphs: vec![
            IrParagraph::Text(text_para(0, 0, vec![run(0, "a", sized(1000, "돋움"))])),
            IrParagraph::Text(text_para(0, 1, vec![run(0, "b", sized(1000, "돋움"))])),
        ],
    };
    let c = compact_ir_slice(one);
    assert_eq!(c.doc_meta.anchor.sec, 0);
    assert_eq!(c.defaults.run.font_size, Some(1000));
    assert_eq!(c.paragraphs.len(), 2);
    assert_eq!(json(&c.paragraphs[0]), "{\"para\":0,\"text\":\"a\"}");
    let two = IrSlice {
        doc_meta: meta(),
        paragraphs: vec![
            IrParagraph::Text(text_para(0, 0, vec![run(0, "a", sized(1000, "돋움"))])),
            IrParagraph::Text(text_para(1, 0, vec![run(0, "b", sized(1000, "돋움"))])),
        ],
    };
    let c2 = compact_ir_slice(two);
    assert_eq!(json(&c2.paragraphs[1]), "{\"para\":0,\"sec\":1,\"text\":\"b\"}");
}

#[test]
fn hundredths_text_forms() {
    assert_eq!(json(&JsonValue::Hundredths(1000)), "10.0");
    assert_eq!(json(&JsonValue::Hundredths(1050)), "10.5");
    assert_eq!(json(&JsonValue::Hundredths(1025)), "10.25");
    assert_eq!(json(&JsonValue::Hundredths(-50)), "-0.5");
    assert_eq!(json(&JsonValue::Hundredths(7)), "0.07");
    assert_eq!(json(&JsonValue::Hundredths(0)), "0.0");
}

#[test]
fn run_style_serializes_with_hyphens() {
    let s = RunStyle {
        bold: Some(true),
        font_size: Some(1100),
        font_name: Some("맑은 고딕".into()),
        ..Default::default()
    };
    let v = omit_run_style_defaults(&s, &RunStyle::default()).unwrap();
    assert_eq!(json(&v), "{\"bold\":true,\"font-name\":\"맑은 고딕\",\"font-size\":11.0}");
}

#[test]
fn paragraph_style_serializes_with_hyphens() {
    let s = ParagraphStyle { align: Some("center".into()), line_height: Some(160), ..Default::default() };
    let v = omit_para_style_defaults(&s, &ParagraphStyle::default()).unwrap();
    assert_eq!(json(&v), "{\"align\":\"center\",\"line-height\":160}");
}
