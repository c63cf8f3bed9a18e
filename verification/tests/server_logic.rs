use rhwp_edit::session::{
    blank_document_filename, blank_document_format, default_filename, default_ir_slice_mode, export_disposition,
    export_extension, plan_ir_slice, save_as_path, session_format, upload_filename, upload_format,
};
use rhwp_edit::store::{assemble_session, restore_point};

#[test]
fn default_names() {
    assert_eq!(default_filename("abc", "hwpx"), "abc.hwpx");
    assert_eq!(default_ir_slice_mode(), "auto");
}

#[test]
fn ir_slice_plan_defaults_and_clamps() {
    let p = plan_ir_slice("f1", None, None, Some(50), Some(3), "auto", Some(10)).unwrap();
    assert_eq!((p.sec, p.para_start, p.para_end), (0, 0, 10));
    assert!(!p.raw);
    assert_eq!(p.page, Some(2));
    assert_eq!(p.edit_session_id, "cli_f1");
    let p = plan_ir_slice("f1", Some(1), Some(2), None, Some(0), "raw", Some(4)).unwrap();
    assert_eq!((p.sec, p.para_start, p.para_end), (1, 2, 4));
    assert!(p.raw);
    assert_eq!(p.page, None);
}

#[test]
fn ir_slice_plan_missing_section() {
    let e = plan_ir_slice("f1", Some(7), None, None, None, "compact", None).err().unwrap();
    assert_eq!(e, "section 7 없음");
}

#[test]
fn restore_from_snapshot_or_base() {
    assert_eq!(restore_point(&None), 0);
    assert_eq!(restore_point(&Some((4, vec![9]))), 4);

    let s = assemble_session("hwp".to_string(), vec![1, 2], None, vec![(1, "a".to_string()), (2, "b".to_string())]);
    assert_eq!(s.base_blob, vec![1, 2]);
    assert_eq!(s.last_seq, 2);
    assert_eq!(s.ops.len(), 2);

    let s = assemble_session("hwp".to_string(), vec![1, 2], Some((5, vec![7])), vec![]);
    assert_eq!(s.base_blob, vec![7]);
    assert_eq!(s.last_seq, 5);
    assert!(s.ops.is_empty());

    let s = assemble_session("hwpx".to_string(), vec![], Some((5, vec![7])), vec![(6, "x".to_string())]);
    assert_eq!(s.last_seq, 6);
    assert_eq!(s.format, "hwpx");
}

#[test]
fn blank_document_format_precedence() {
    assert_eq!(blank_document_format(Some("HWPX"), Some("a.hwp")), "hwpx");
    assert_eq!(blank_document_format(Some("Hwp"), Some("a.hwpx")), "hwp");
    assert_eq!(blank_document_format(Some("pdf"), Some("Report.HWPX")), "hwpx");
    assert_eq!(blank_document_format(None, Some("report.Hwp")), "hwp");
    assert_eq!(blank_document_format(None, Some("notes.txt")), "hwp");
    assert_eq!(blank_document_format(None, None), "hwp");
    assert_eq!(blank_document_format(Some(""), Some("x.hwpx")), "hwpx");
}

#[test]
fn blank_document_names() {
    assert_eq!(blank_document_filename(None, "hwpx"), "document.hwpx");
    assert_eq!(blank_document_filename(Some("plan.hwp"), "hwpx"), "plan.hwp");
}

#[test]
fn upload_format_and_name() {
    assert_eq!(upload_format("a.HWPX"), "hwpx");
    assert_eq!(upload_format("ahwpx"), "hwpx");
    assert_eq!(upload_format("a.hwp"), "hwp");
    assert_eq!(upload_format(""), "hwp");
    assert_eq!(upload_filename(None), "document.hwp");
    assert_eq!(upload_filename(Some("x.hwpx")), "x.hwpx");
}

#[test]
fn session_format_default() {
    assert_eq!(session_format(None), "hwpx");
    assert_eq!(session_format(Some("hwp")), "hwp");
}

#[test]
fn export_extension_and_disposition() {
    assert_eq!(export_extension(Some("hwpx"), "hwp"), "hwpx");
    assert_eq!(export_extension(Some("HWPX"), "hwpx"), "hwp");
    assert_eq!(export_extension(None, "hwpx"), "hwpx");
    assert_eq!(export_extension(None, "hwp"), "hwp");
    assert_eq!(export_disposition("f9", "hwpx"), "attachment; filename=\"f9.hwpx\"");
}

#[test]
fn save_as_path_prefers_store_location() {
    assert_eq!(save_as_path(Some("docs/a (1).hwp"), "/docs/", "a.hwp"), "docs/a (1).hwp");
    assert_eq!(save_as_path(None, "/docs//", "a.hwp"), "/docs/a.hwp");
    assert_eq!(save_as_path(None, "/docs", "a.hwp"), "/docs/a.hwp");
    assert_eq!(save_as_path(None, "/", "a.hwp"), "/a.hwp");
}
