use rhwp_edit::hwpx_table::{table_xml, write_table, RefSet, SerializeContext};
use rhwp_edit::model::{Control, Paragraph, Table};
use rhwp_edit::xml::XmlEvent;

fn empty_table(rows: u16, cols: u16) -> Table {
    let mut t = Table::new_grid(rows, cols);
    for cell in t.cells.iter_mut() {
        cell.width = 1000;
        cell.height = 300;
    }
    t
}

fn serialize(table: &Table) -> String {
    let mut ctx = SerializeContext::new();
    let bytes = table_xml(table, &mut ctx).expect("table serializes");
    String::from_utf8(bytes).expect("utf-8")
}

#[test]
fn tbl_root_attrs_in_canonical_order() {
    let t = empty_table(2, 3);
    let xml = serialize(&t);
    assert!(xml.contains("<hp:tbl "), "should emit <hp:tbl>: {}", xml);
    let ip = xml.find("id=").unwrap();
    let zp = xml.find("zOrder=").unwrap();
    let nt = xml.find("numberingType=").unwrap();
    let tw = xml.find("textWrap=").unwrap();
    let tf = xml.find("textFlow=").unwrap();
    let rc = xml.find("rowCnt=").unwrap();
    let cc = xml.find("colCnt=").unwrap();
    let bf = xml.find("borderFillIDRef=").unwrap();
    let na = xml.find("noAdjust=").unwrap();
    assert!(ip < zp && zp < nt && nt < tw && tw < tf && tf < rc && rc < cc && cc < bf && bf < na);
}

#[test]
fn tr_count_matches_row_count() {
    let t = empty_table(4, 2);
    let xml = serialize(&t);
    assert_eq!(xml.matches("<hp:tr>").count(), 4);
}

#[test]
fn tc_count_matches_cell_count() {
    let t = empty_table(2, 3);
    let xml = serialize(&t);
    assert_eq!(xml.matches("<hp:tc ").count(), 6);
}

#[test]
fn cells_have_canonical_child_order() {
    let t = empty_table(1, 1);
    let xml = serialize(&t);
    let sl = xml.find("<hp:subList ").unwrap();
    let ca = xml.find("<hp:cellAddr ").unwrap();
    let cs = xml.find("<hp:cellSpan ").unwrap();
    let cz = xml.find("<hp:cellSz ").unwrap();
    let cm = xml.find("<hp:cellMargin ").unwrap();
    assert!(sl < ca && ca < cs && cs < cz && cz < cm);
}

#[test]
fn cell_addr_reflects_coordinates() {
    let t = empty_table(2, 2);
    let xml = serialize(&t);
    assert!(xml.contains(r#"<hp:cellAddr colAddr="0" rowAddr="0"/>"#));
    assert!(xml.contains(r#"<hp:cellAddr colAddr="1" rowAddr="0"/>"#));
    assert!(xml.contains(r#"<hp:cellAddr colAddr="0" rowAddr="1"/>"#));
    assert!(xml.contains(r#"<hp:cellAddr colAddr="1" rowAddr="1"/>"#));
}

#[test]
fn cell_span_defaults_to_one() {
    let t = empty_table(1, 1);
    let xml = serialize(&t);
    assert!(xml.contains(r#"<hp:cellSpan colSpan="1" rowSpan="1"/>"#));
}

#[test]
fn border_fill_id_ref_registered_in_ctx() {
    let mut ctx = SerializeContext::new();
    let mut t = empty_table(1, 1);
    t.border_fill_id = 99;
    t.cells[0].border_fill_id = 99;
    let mut events: Vec<XmlEvent> = Vec::new();
    write_table(&mut events, &t, &mut ctx);
    assert!(ctx.border_fill_ids.unresolved().contains(&99u32));
}

#[test]
fn cells_written_by_row_then_column() {
    let mut t = empty_table(1, 2);
    t.cells.swap(0, 1);
    let xml = serialize(&t);
    let c0 = xml.find(r#"colAddr="0""#).unwrap();
    let c1 = xml.find(r#"colAddr="1""#).unwrap();
    assert!(c0 < c1);
}

#[test]
fn cell_text_is_written_in_a_run() {
    let mut t = empty_table(1, 1);
    t.cells[0].paragraphs[0] = Paragraph::with_text("셀 본문".to_string());
    let xml = serialize(&t);
    assert!(xml.contains("<hp:t>셀 본문</hp:t>"), "{}", xml);
}

#[test]
fn nested_table_is_written_inside_the_cell() {
    let mut outer = empty_table(1, 1);
    let inner = empty_table(2, 1);
    outer.cells[0].paragraphs[0].controls.push(Control::Table(Box::new(inner)));
    let xml = serialize(&outer);
    assert_eq!(xml.matches("<hp:tbl ").count(), 2);
    assert_eq!(xml.matches("<hp:tr>").count(), 3);
    assert_eq!(xml.matches("<hp:tc ").count(), 3);
}

#[test]
fn defined_ids_are_resolved() {
    let mut ctx = SerializeContext::new();
    ctx.border_fill_ids.defined.push(1);
    let mut t = empty_table(1, 1);
    t.border_fill_id = 1;
    t.cells[0].border_fill_id = 2;
    let mut events: Vec<XmlEvent> = Vec::new();
    write_table(&mut events, &t, &mut ctx);
    let unresolved = ctx.border_fill_ids.unresolved();
    assert_eq!(unresolved, vec![2u32]);
    assert!(ctx.para_shape_ids.referenced.contains(&0u32));
    assert!(ctx.style_ids.referenced.contains(&0u32));
}

#[test]
fn refset_reference_is_recorded_once() {
    let mut s = RefSet::new();
    s.reference(5);
    s.reference(5);
    s.reference(7);
    assert_eq!(s.referenced, vec![5u32, 7]);
    s.defined.push(7);
    assert_eq!(s.unresolved(), vec![5u32]);
}

#[test]
fn table_xml_records_paragraph_references() {
    let mut t = empty_table(1, 2);
    t.border_fill_id = 3;
    t.cells[0].border_fill_id = 4;
    t.cells[1].paragraphs[0].para_shape_id = 7;
    t.cells[1].paragraphs[0].style_id = 2;
    let mut ctx = SerializeContext::new();
    assert!(table_xml(&t, &mut ctx).is_some());
    assert!(ctx.border_fill_ids.referenced.contains(&3));
    assert!(ctx.border_fill_ids.referenced.contains(&4));
    assert!(ctx.para_shape_ids.referenced.contains(&7));
    assert!(ctx.style_ids.referenced.contains(&2));
}

#[test]
fn single_shape_paragraph_is_written_as_one_run_with_its_text() {
    let mut t = empty_table(1, 1);
    t.cells[0].paragraphs[0].text = "a<😀>&b".to_string();
    t.cells[0].paragraphs[0].char_shapes = vec![rhwp_edit::model::CharShapeRef { start_pos: 0, char_shape_id: 5 }];
    let xml = serialize(&t);
    assert!(
        xml.contains("<hp:run charPrIDRef=\"5\"><hp:t>a&lt;😀&gt;&amp;b</hp:t></hp:run>"),
        "one escaped run expected: {}",
        xml
    );
}
