//! The editable document and its native editing primitives.
use vstd::prelude::*;
use crate::error::{HwpError, render_error};
use crate::model::{Document, Paragraph, Section, Control, Table, Cell, ColumnBreakType, CharFormat, same_but_text, char_formats_view, fresh_cell};
use crate::para_list;
use crate::json::{JsonMember, JsonView, object_view, merge_keys, merge_members, members_to_json_string, json_text, find_member, find_key};
use crate::para_list::{
    insert_text_ok, insert_text_post, delete_text_ok, delete_text_post, split_ok, split_post,
    merge_ok, merge_post, insert_paragraph_post, delete_range_ok, delete_range_post, text_set,
    runs_set, char_format_added,
};

verus! {

/// A document being edited, with the font names and border fills it has registered.
#[derive(Debug)]
pub struct DocumentCore {
    pub document: Document,
    pub font_names: Vec<String>,
    pub border_fill_count: u16,
}

impl DocumentCore {
    /// The paragraphs of section `s`.
    pub open spec fn body(self, s: int) -> Seq<Paragraph> {
        self.document.sections@[s].paragraphs@
    }

    /// The number of sections.
    pub open spec fn section_count(self) -> int {
        self.document.sections@.len() as int
    }
}

/// `old` and `new` hold the same sections, fonts and border fills.
pub open spec fn unchanged(old: DocumentCore, new: DocumentCore) -> bool {
    &&& new.document.sections@ =~= old.document.sections@
    &&& new.font_names == old.font_names
    &&& new.border_fill_count == old.border_fill_count
}

/// Only the paragraphs of section `s`, and the count of border fills, may differ between
/// `old` and `new`.
pub open spec fn body_changed_except_fills(old: DocumentCore, new: DocumentCore, s: int) -> bool {
    &&& new.document.sections@.len() == old.document.sections@.len()
    &&& new.document.sections@[s].raw_stream == old.document.sections@[s].raw_stream
    &&& forall|j: int| 0 <= j < old.document.sections@.len() && j != s ==> new.document.sections@[j] == old.document.sections@[j]
    &&& new.font_names == old.font_names
}

/// Only the paragraphs of section `s` may differ between `old` and `new`.
pub open spec fn body_changed(old: DocumentCore, new: DocumentCore, s: int) -> bool {
    &&& body_changed_except_fills(old, new, s)
    &&& new.border_fill_count == old.border_fill_count
}

impl DocumentCore {
    /// A document of one section holding one empty paragraph.
    pub fn new_blank() -> (core: DocumentCore)
        ensures
            core.section_count() == 1,
            core.body(0).len() == 1,
            core.body(0)[0].text@.len() == 0,
            core.body(0)[0].controls@.len() == 0,
            core.font_names@.len() == 0,
            core.border_fill_count == 0,
    {
        let mut paragraphs: Vec<Paragraph> = Vec::new();
        paragraphs.push(Paragraph::with_text(String::new()));
        let mut sections: Vec<Section> = Vec::new();
        sections.push(Section { paragraphs, raw_stream: None });
        DocumentCore { document: Document { sections }, font_names: Vec::new(), border_fill_count: 0 }
    }

    /// A document with the given sections.
    pub fn from_document(document: Document) -> (core: DocumentCore)
        ensures
            core.document == document,
            core.font_names@.len() == 0,
            core.border_fill_count == 0,
    {
        DocumentCore { document, font_names: Vec::new(), border_fill_count: 0 }
    }

    fn check_section(&self, sec: usize) -> (r: Result<(), HwpError>)
        ensures
            r is Ok <==> sec < self.section_count(),
    {
        if sec < self.document.sections.len() {
            Ok(())
        } else {
            Err(render_error("section out of range"))
        }
    }

    /// Inserts `text` at character `offset` of body paragraph `(sec, para)`.
    pub fn insert_text_native(&mut self, sec: usize, para: usize, offset: usize, text: &str) -> (r: Result<(), HwpError>)
        ensures
            r is Ok <==> sec < old(self).section_count() && insert_text_ok(old(self).body(sec as int), para as int, offset as int),
            r is Ok ==> body_changed(*old(self), *final(self), sec as int)
                && insert_text_post(old(self).body(sec as int), final(self).body(sec as int), para as int, offset as int, text@),
            r is Err ==> unchanged(*old(self), *final(self)),
    {
        self.check_section(sec)?;
        para_list::insert_text(&mut self.document.sections[sec].paragraphs, para, offset, text)
    }

    /// Deletes `count` characters of body paragraph `(sec, para)` from `offset` on.
    pub fn delete_text_native(&mut self, sec: usize, para: usize, offset: usize, count: usize) -> (r: Result<(), HwpError>)
        ensures
            r is Ok <==> sec < old(self).section_count() && delete_text_ok(old(self).body(sec as int), para as int, offset as int, count as int),
            r is Ok ==> body_changed(*old(self), *final(self), sec as int)
                && delete_text_post(old(self).body(sec as int), final(self).body(sec as int), para as int, offset as int, count as int),
            r is Err ==> unchanged(*old(self), *final(self)),
    {
        self.check_section(sec)?;
        para_list::delete_text(&mut self.document.sections[sec].paragraphs, para, offset, count)
    }

    /// Splits body paragraph `(sec, para)` at `offset` (Enter).
    pub fn split_paragraph_native(&mut self, sec: usize, para: usize, offset: usize) -> (r: Result<(), HwpError>)
        ensures
            r is Ok <==> sec < old(self).section_count() && split_ok(old(self).body(sec as int), para as int, offset as int),
            r is Ok ==> body_changed(*old(self), *final(self), sec as int)
                && split_post(old(self).body(sec as int), final(self).body(sec as int), para as int, offset as int, ColumnBreakType::NoBreak),
            r is Err ==> unchanged(*old(self), *final(self)),
    {
        self.check_section(sec)?;
        para_list::split_paragraph(&mut self.document.sections[sec].paragraphs, para, offset, ColumnBreakType::NoBreak)
    }

    /// Splits body paragraph `(sec, para)` at `offset`; the new paragraph starts a new page.
    pub fn insert_page_break_native(&mut self, sec: usize, para: usize, offset: usize) -> (r: Result<(), HwpError>)
        ensures
            r is Ok <==> sec < old(self).section_count() && split_ok(old(self).body(sec as int), para as int, offset as int),
            r is Ok ==> body_changed(*old(self), *final(self), sec as int)
                && split_post(old(self).body(sec as int), final(self).body(sec as int), para as int, offset as int, ColumnBreakType::Page),
            r is Err ==> unchanged(*old(self), *final(self)),
    {
        self.check_section(sec)?;
        para_list::split_paragraph(&mut self.document.sections[sec].paragraphs, para, offset, ColumnBreakType::Page)
    }

    /// Merges body paragraph `(sec, para)` into the one before it (Backspace at its start).
    pub fn merge_paragraph_native(&mut self, sec: usize, para: usize) -> (r: Result<(), HwpError>)
        ensures
            r is Ok <==> sec < old(self).section_count() && merge_ok(old(self).body(sec as int), para as int),
            r is Ok ==> body_changed(*old(self), *final(self), sec as int)
                && merge_post(old(self).body(sec as int), final(self).body(sec as int), para as int),
            r is Err ==> unchanged(*old(self), *final(self)),
    {
        self.check_section(sec)?;
        para_list::merge_paragraph(&mut self.document.sections[sec].paragraphs, para)
    }

    /// Inserts an empty body paragraph at index `at` of section `sec`.
    pub fn insert_paragraph_native(&mut self, sec: usize, at: usize) -> (r: Result<(), HwpError>)
        ensures
            r is Ok <==> sec < old(self).section_count() && at <= old(self).body(sec as int).len(),
            r is Ok ==> body_changed(*old(self), *final(self), sec as int)
                && insert_paragraph_post(old(self).body(sec as int), final(self).body(sec as int), at as int),
            r is Err ==> unchanged(*old(self), *final(self)),
    {
        self.check_section(sec)?;
        para_list::insert_paragraph(&mut self.document.sections[sec].paragraphs, at)
    }

    /// Removes body paragraph `(sec, para)`.
    pub fn delete_paragraph_native(&mut self, sec: usize, para: usize) -> (r: Result<(), HwpError>)
        ensures
            r is Ok <==> sec < old(self).section_count() && para < old(self).body(sec as int).len(),
            r is Ok ==> body_changed(*old(self), *final(self), sec as int)
                && final(self).body(sec as int) == old(self).body(sec as int).remove(para as int),
            r is Err ==> unchanged(*old(self), *final(self)),
    {
        self.check_section(sec)?;
        para_list::delete_paragraph(&mut self.document.sections[sec].paragraphs, para)
    }

    /// Replaces the runs of body paragraph `(sec, para)`: it holds `text`, formatted by
    /// `formats` (and no other character formats).
    pub fn replace_runs_native(&mut self, sec: usize, para: usize, text: String, formats: Vec<CharFormat>) -> (r: Result<(), HwpError>)
        ensures
            r is Ok <==> sec < old(self).section_count() && para < old(self).body(sec as int).len(),
            r is Ok ==> body_changed(*old(self), *final(self), sec as int)
                && runs_set(old(self).body(sec as int), final(self).body(sec as int), para as int, text@, char_formats_view(formats@)),
            r is Err ==> unchanged(*old(self), *final(self)),
    {
        self.check_section(sec)?;
        para_list::set_runs(&mut self.document.sections[sec].paragraphs, para, text, formats)
    }

    /// Deletes the body text from `(ps_, cs)` to `(pe, ce)` of section `sec`.
    pub fn delete_range_native(&mut self, sec: usize, ps_: usize, cs: usize, pe: usize, ce: usize) -> (r: Result<(), HwpError>)
        ensures
            r is Ok <==> sec < old(self).section_count() && delete_range_ok(old(self).body(sec as int), ps_ as int, cs as int, pe as int, ce as int),
            r is Ok ==> body_changed(*old(self), *final(self), sec as int)
                && delete_range_post(old(self).body(sec as int), final(self).body(sec as int), ps_ as int, cs as int, pe as int, ce as int),
            r is Err ==> unchanged(*old(self), *final(self)),
    {
        self.check_section(sec)?;
        para_list::delete_range(&mut self.document.sections[sec].paragraphs, ps_, cs, pe, ce)
    }
}


/// The table of a control, when it is one.
pub open spec fn control_table(c: Control) -> Table {
    match c {
        Control::Table(t) => *t,
        _ => arbitrary(),
    }
}

impl DocumentCore {
    /// `(s, tp, ctrl, ci)` names a cell: paragraph `tp` of section `s` holds a table as
    /// control `ctrl`, and that table has a cell `ci`.
    pub open spec fn cell_addr_ok(self, s: int, tp: int, ctrl: int, ci: int) -> bool {
        &&& 0 <= s < self.section_count()
        &&& 0 <= tp < self.body(s).len()
        &&& 0 <= ctrl < self.body(s)[tp].controls@.len()
        &&& self.body(s)[tp].controls@[ctrl] is Table
        &&& 0 <= ci < control_table(self.body(s)[tp].controls@[ctrl]).cells@.len()
    }

    /// The table at control `ctrl` of paragraph `tp` of section `s`.
    pub open spec fn table_at(self, s: int, tp: int, ctrl: int) -> Table {
        control_table(self.body(s)[tp].controls@[ctrl])
    }

    /// The paragraphs of cell `ci` of that table.
    pub open spec fn cell_paras(self, s: int, tp: int, ctrl: int, ci: int) -> Seq<Paragraph> {
        self.table_at(s, tp, ctrl).cells@[ci].paragraphs@
    }
}

/// `a` and `b` agree on everything but their paragraphs.
pub open spec fn cell_same_but_paras(a: Cell, b: Cell) -> bool {
    &&& a.row == b.row
    &&& a.col == b.col
    &&& a.row_span == b.row_span
    &&& a.col_span == b.col_span
    &&& a.width == b.width
    &&& a.height == b.height
    &&& a.border_fill_id == b.border_fill_id
    &&& a.vertical_align == b.vertical_align
    &&& a.format == b.format
}

/// Only cell `ci` of table `(s, tp, ctrl)` may differ between `old` and `new`.
pub open spec fn cell_replaced(old: DocumentCore, new: DocumentCore, s: int, tp: int, ctrl: int, ci: int) -> bool {
    let op = old.body(s)[tp];
    let np = new.body(s)[tp];
    let ot = old.table_at(s, tp, ctrl);
    let nt = new.table_at(s, tp, ctrl);
    &&& body_changed_except_fills(old, new, s)
    &&& new.body(s).len() == old.body(s).len()
    &&& forall|j: int| 0 <= j < old.body(s).len() && j != tp ==> new.body(s)[j] == old.body(s)[j]
    &&& np.text == op.text
    &&& np.controls@.len() == op.controls@.len()
    &&& forall|j: int| 0 <= j < op.controls@.len() && j != ctrl ==> np.controls@[j] == op.controls@[j]
    &&& np.controls@[ctrl] is Table
    &&& nt.row_count == ot.row_count
    &&& nt.col_count == ot.col_count
    &&& nt.cells@.len() == ot.cells@.len()
    &&& forall|j: int| 0 <= j < ot.cells@.len() && j != ci ==> nt.cells@[j] == ot.cells@[j]
}

/// Only the paragraphs of cell `ci` of table `(s, tp, ctrl)` may differ between `old` and `new`.
pub open spec fn cell_changed(old: DocumentCore, new: DocumentCore, s: int, tp: int, ctrl: int, ci: int) -> bool {
    &&& cell_replaced(old, new, s, tp, ctrl, ci)
    &&& cell_same_but_paras(new.table_at(s, tp, ctrl).cells@[ci], old.table_at(s, tp, ctrl).cells@[ci])
}

impl DocumentCore {
    fn check_cell(&self, sec: usize, tp: usize, ctrl: usize, ci: usize) -> (r: Result<(), HwpError>)
        ensures
            r is Ok <==> self.cell_addr_ok(sec as int, tp as int, ctrl as int, ci as int),
    {
        if sec >= self.document.sections.len() {
            return Err(render_error("section out of range"));
        }
        if tp >= self.document.sections[sec].paragraphs.len() {
            return Err(render_error("table paragraph out of range"));
        }
        if ctrl >= self.document.sections[sec].paragraphs[tp].controls.len() {
            return Err(render_error("control index out of range"));
        }
        match &self.document.sections[sec].paragraphs[tp].controls[ctrl] {
            Control::Table(t) => {
                if ci < t.cells.len() {
                    Ok(())
                } else {
                    Err(render_error("cell index out of range"))
                }
            },
            _ => Err(render_error("control is not a table")),
        }
    }

    /// The paragraphs of cell `ci` of the table at `(sec, tp, ctrl)`.
    pub fn cell_paragraphs(&self, sec: usize, tp: usize, ctrl: usize, ci: usize) -> (r: &Vec<Paragraph>)
        requires
            self.cell_addr_ok(sec as int, tp as int, ctrl as int, ci as int),
        ensures
            r@ == self.cell_paras(sec as int, tp as int, ctrl as int, ci as int),
    {
        match &self.document.sections[sec].paragraphs[tp].controls[ctrl] {
            Control::Table(t) => &t.cells[ci].paragraphs,
            _ => vstd::pervasive::unreached(),
        }
    }

    /// Mutable access to the paragraphs of cell `ci` of the table at `(sec, tp, ctrl)`;
    /// nothing else changes.
    pub fn cell_paragraphs_mut(&mut self, sec: usize, tp: usize, ctrl: usize, ci: usize) -> (r: &mut Vec<Paragraph>)
        requires
            old(self).cell_addr_ok(sec as int, tp as int, ctrl as int, ci as int),
        ensures
            *r == old(self).table_at(sec as int, tp as int, ctrl as int).cells@[ci as int].paragraphs,
            final(self).cell_paras(sec as int, tp as int, ctrl as int, ci as int) == final(r)@,
            cell_changed(*old(self), *final(self), sec as int, tp as int, ctrl as int, ci as int),
            final(self).border_fill_count == old(self).border_fill_count,
    {
        match &mut self.document.sections[sec].paragraphs[tp].controls[ctrl] {
            Control::Table(t) => &mut t.cells[ci].paragraphs,
            _ => vstd::pervasive::unreached(),
        }
    }

    /// Inserts `text` at `offset` of paragraph `cell_para` of cell `ci` of the table at
    /// `(sec, tp, ctrl)`.
    pub fn insert_text_in_cell_native(
        &mut self,
        sec: usize,
        tp: usize,
        ctrl: usize,
        ci: usize,
        cell_para: usize,
        offset: usize,
        text: &str,
    ) -> (r: Result<(), HwpError>)
        ensures
            r is Ok <==> old(self).cell_addr_ok(sec as int, tp as int, ctrl as int, ci as int)
                && insert_text_ok(old(self).cell_paras(sec as int, tp as int, ctrl as int, ci as int), cell_para as int, offset as int),
            r is Ok ==> cell_changed(*old(self), *final(self), sec as int, tp as int, ctrl as int, ci as int)
                && final(self).border_fill_count == old(self).border_fill_count
                && insert_text_post(
                old(self).cell_paras(sec as int, tp as int, ctrl as int, ci as int),
                final(self).cell_paras(sec as int, tp as int, ctrl as int, ci as int),
                cell_para as int,
                offset as int,
                text@,
            ),
            r is Err ==> unchanged(*old(self), *final(self)),
    {
        self.check_cell(sec, tp, ctrl, ci)?;
        if !para_list::check_insert_text(self.cell_paragraphs(sec, tp, ctrl, ci), cell_para, offset) {
            return Err(render_error("insert_text_in_cell: position out of range"));
        }
        let paras = self.cell_paragraphs_mut(sec, tp, ctrl, ci);
        let _ = para_list::insert_text(paras, cell_para, offset, text);
        Ok(())
    }
}


/// Whether native cell properties ask for a new border fill (a fill or a border line).
pub open spec fn asks_new_fill(props: Seq<(Seq<char>, JsonView)>) -> bool {
    ||| find_key(props, "fillType"@) is Some
    ||| find_key(props, "borderLeft"@) is Some
    ||| find_key(props, "borderRight"@) is Some
    ||| find_key(props, "borderTop"@) is Some
    ||| find_key(props, "borderBottom"@) is Some
}

impl DocumentCore {
    /// Mutable access to cell `ci` of the table at `(sec, tp, ctrl)`; nothing else changes.
    pub fn cell_mut(&mut self, sec: usize, tp: usize, ctrl: usize, ci: usize) -> (r: &mut Cell)
        requires
            old(self).cell_addr_ok(sec as int, tp as int, ctrl as int, ci as int),
        ensures
            *r == old(self).table_at(sec as int, tp as int, ctrl as int).cells@[ci as int],
            final(self).table_at(sec as int, tp as int, ctrl as int).cells@[ci as int] == *final(r),
            cell_replaced(*old(self), *final(self), sec as int, tp as int, ctrl as int, ci as int),
            final(self).border_fill_count == old(self).border_fill_count,
    {
        match &mut self.document.sections[sec].paragraphs[tp].controls[ctrl] {
            Control::Table(t) => &mut t.cells[ci],
            _ => vstd::pervasive::unreached(),
        }
    }

    /// Splits paragraph `cell_para` of cell `ci` of the table at `(sec, tp, ctrl)` at `offset`.
    pub fn split_paragraph_in_cell_native(
        &mut self,
        sec: usize,
        tp: usize,
        ctrl: usize,
        ci: usize,
        cell_para: usize,
        offset: usize,
    ) -> (r: Result<(), HwpError>)
        ensures
            r is Ok <==> old(self).cell_addr_ok(sec as int, tp as int, ctrl as int, ci as int)
                && split_ok(old(self).cell_paras(sec as int, tp as int, ctrl as int, ci as int), cell_para as int, offset as int),
            r is Ok ==> cell_changed(*old(self), *final(self), sec as int, tp as int, ctrl as int, ci as int)
                && final(self).border_fill_count == old(self).border_fill_count
                && split_post(
                old(self).cell_paras(sec as int, tp as int, ctrl as int, ci as int),
                final(self).cell_paras(sec as int, tp as int, ctrl as int, ci as int),
                cell_para as int,
                offset as int,
                ColumnBreakType::NoBreak,
            ),
            r is Err ==> unchanged(*old(self), *final(self)),
    {
        self.check_cell(sec, tp, ctrl, ci)?;
        if !para_list::check_split(self.cell_paragraphs(sec, tp, ctrl, ci), cell_para, offset) {
            return Err(render_error("split_paragraph_in_cell: position out of range"));
        }
        let paras = self.cell_paragraphs_mut(sec, tp, ctrl, ci);
        let _ = para_list::split_paragraph(paras, cell_para, offset, ColumnBreakType::NoBreak);
        Ok(())
    }

    /// Deletes the text from `(ps_, cs)` to `(pe, ce)` inside cell `ci` of the table at
    /// `(sec, tp, ctrl)`.
    pub fn delete_range_in_cell_native(
        &mut self,
        sec: usize,
        tp: usize,
        ctrl: usize,
        ci: usize,
        ps_: usize,
        cs: usize,
        pe: usize,
        ce: usize,
    ) -> (r: Result<(), HwpError>)
        ensures
            r is Ok <==> old(self).cell_addr_ok(sec as int, tp as int, ctrl as int, ci as int)
                && delete_range_ok(old(self).cell_paras(sec as int, tp as int, ctrl as int, ci as int), ps_ as int, cs as int, pe as int, ce as int),
            r is Ok ==> cell_changed(*old(self), *final(self), sec as int, tp as int, ctrl as int, ci as int)
                && final(self).border_fill_count == old(self).border_fill_count
                && delete_range_post(
                old(self).cell_paras(sec as int, tp as int, ctrl as int, ci as int),
                final(self).cell_paras(sec as int, tp as int, ctrl as int, ci as int),
                ps_ as int,
                cs as int,
                pe as int,
                ce as int,
            ),
            r is Err ==> unchanged(*old(self), *final(self)),
    {
        self.check_cell(sec, tp, ctrl, ci)?;
        if !para_list::check_delete_range(self.cell_paragraphs(sec, tp, ctrl, ci), ps_, cs, pe, ce) {
            return Err(render_error("delete_range_in_cell: range out of bounds"));
        }
        let paras = self.cell_paragraphs_mut(sec, tp, ctrl, ci);
        let _ = para_list::delete_range(paras, ps_, cs, pe, ce);
        Ok(())
    }

    /// Replaces the runs of paragraph `cell_para` of cell `ci` of the table at
    /// `(sec, tp, ctrl)`: it holds `text`, formatted by `formats`.
    pub fn replace_cell_runs_native(
        &mut self,
        sec: usize,
        tp: usize,
        ctrl: usize,
        ci: usize,
        cell_para: usize,
        text: String,
        formats: Vec<CharFormat>,
    ) -> (r: Result<(), HwpError>)
        ensures
            r is Ok <==> old(self).cell_addr_ok(sec as int, tp as int, ctrl as int, ci as int)
                && cell_para < old(self).cell_paras(sec as int, tp as int, ctrl as int, ci as int).len(),
            r is Ok ==> cell_changed(*old(self), *final(self), sec as int, tp as int, ctrl as int, ci as int)
                && final(self).border_fill_count == old(self).border_fill_count
                && runs_set(
                old(self).cell_paras(sec as int, tp as int, ctrl as int, ci as int),
                final(self).cell_paras(sec as int, tp as int, ctrl as int, ci as int),
                cell_para as int,
                text@,
                char_formats_view(formats@),
            ),
            r is Err ==> unchanged(*old(self), *final(self)),
    {
        self.check_cell(sec, tp, ctrl, ci)?;
        if cell_para >= self.cell_paragraphs(sec, tp, ctrl, ci).len() {
            return Err(render_error("cell paragraph out of range"));
        }
        let paras = self.cell_paragraphs_mut(sec, tp, ctrl, ci);
        let _ = para_list::set_runs(paras, cell_para, text, formats);
        Ok(())
    }

    /// Applies native character properties `style` to the characters `[start, end)` of
    /// paragraph `cell_para` of a cell: a character format is added to the paragraph.
    pub fn apply_char_format_in_cell_native(
        &mut self,
        sec: usize,
        tp: usize,
        ctrl: usize,
        ci: usize,
        cell_para: usize,
        start: usize,
        end: usize,
        style: Vec<JsonMember>,
    ) -> (r: Result<(), HwpError>)
        ensures
            r is Ok <==> old(self).cell_addr_ok(sec as int, tp as int, ctrl as int, ci as int)
                && cell_para < old(self).cell_paras(sec as int, tp as int, ctrl as int, ci as int).len()
                && start <= end <= old(self).cell_paras(sec as int, tp as int, ctrl as int, ci as int)[cell_para as int].text@.len(),
            r is Ok ==> cell_changed(*old(self), *final(self), sec as int, tp as int, ctrl as int, ci as int)
                && final(self).border_fill_count == old(self).border_fill_count
                && char_format_added(
                old(self).cell_paras(sec as int, tp as int, ctrl as int, ci as int),
                final(self).cell_paras(sec as int, tp as int, ctrl as int, ci as int),
                cell_para as int,
                (start as int, end as int, object_view(style@)),
            ),
            r is Err ==> unchanged(*old(self), *final(self)),
    {
        self.check_cell(sec, tp, ctrl, ci)?;
        let paras = self.cell_paragraphs(sec, tp, ctrl, ci);
        if cell_para >= paras.len() {
            return Err(render_error("cell paragraph out of range"));
        }
        let len = crate::text_ops::char_len(paras[cell_para].text.as_str());
        if start > end || end > len {
            return Err(render_error("character range out of bounds"));
        }
        let paras = self.cell_paragraphs_mut(sec, tp, ctrl, ci);
        let _ = para_list::add_char_format(paras, cell_para, CharFormat { start, end, style });
        Ok(())
    }

    /// Sets native properties on cell `ci` of the table at `(sec, tp, ctrl)`: they are merged
    /// into the cell's format, and a fill or border line gives the cell a new border fill.
    pub fn set_cell_properties_native(
        &mut self,
        sec: usize,
        tp: usize,
        ctrl: usize,
        ci: usize,
        props: Vec<JsonMember>,
    ) -> (r: Result<(), HwpError>)
        ensures
            r is Ok <==> old(self).cell_addr_ok(sec as int, tp as int, ctrl as int, ci as int)
                && (asks_new_fill(object_view(props@)) ==> old(self).border_fill_count < u16::MAX),
            r is Ok ==> {
                let oc = old(self).table_at(sec as int, tp as int, ctrl as int).cells@[ci as int];
                let nc = final(self).table_at(sec as int, tp as int, ctrl as int).cells@[ci as int];
                &&& cell_replaced(*old(self), *final(self), sec as int, tp as int, ctrl as int, ci as int)
                &&& object_view(nc.format@) == merge_keys(object_view(oc.format@), object_view(props@), props@.len() as int)
                &&& nc.paragraphs == oc.paragraphs
                &&& nc.row == oc.row && nc.col == oc.col
                &&& if asks_new_fill(object_view(props@)) {
                    &&& final(self).border_fill_count == old(self).border_fill_count + 1
                    &&& nc.border_fill_id == final(self).border_fill_count
                } else {
                    &&& final(self).border_fill_count == old(self).border_fill_count
                    &&& nc.border_fill_id == oc.border_fill_id
                }
            },
            r is Err ==> unchanged(*old(self), *final(self)),
    {
        self.check_cell(sec, tp, ctrl, ci)?;
        let new_fill = find_member(&props, "fillType").is_some() || find_member(&props, "borderLeft").is_some()
            || find_member(&props, "borderRight").is_some() || find_member(&props, "borderTop").is_some()
            || find_member(&props, "borderBottom").is_some();
        if new_fill && self.border_fill_count == u16::MAX {
            return Err(render_error("too many border fills"));
        }
        let fill_id = if new_fill {
            self.border_fill_count + 1
        } else {
            0
        };
        let cell = self.cell_mut(sec, tp, ctrl, ci);
        merge_members(&mut cell.format, props);
        if new_fill {
            cell.border_fill_id = fill_id;
        }
        if new_fill {
            self.border_fill_count = fill_id;
        }
        Ok(())
    }

    /// Applies native paragraph properties to body paragraph `(sec, para)`: they are merged
    /// into the paragraph's format.
    pub fn apply_para_format_native(&mut self, sec: usize, para: usize, props: Vec<JsonMember>) -> (r: Result<(), HwpError>)
        ensures
            r is Ok <==> sec < old(self).section_count() && para < old(self).body(sec as int).len(),
            r is Ok ==> {
                let op = old(self).body(sec as int)[para as int];
                let np = final(self).body(sec as int)[para as int];
                &&& body_changed(*old(self), *final(self), sec as int)
                &&& final(self).body(sec as int).len() == old(self).body(sec as int).len()
                &&& forall|j: int| 0 <= j < old(self).body(sec as int).len() && j != para ==> final(self).body(sec as int)[j] == old(self).body(sec as int)[j]
                &&& object_view(np.format@) == merge_keys(object_view(op.format@), object_view(props@), props@.len() as int)
                &&& (Paragraph { format: np.format, ..op }) == np
            },
            r is Err ==> unchanged(*old(self), *final(self)),
    {
        self.check_section(sec)?;
        if para >= self.document.sections[sec].paragraphs.len() {
            return Err(render_error("paragraph out of range"));
        }
        merge_members(&mut self.document.sections[sec].paragraphs[para].format, props);
        Ok(())
    }

    /// The format of body paragraph `(sec, para)` as a JSON object.
    pub fn get_para_properties_at_native(&self, sec: usize, para: usize) -> (r: Result<String, HwpError>)
        ensures
            r is Ok <==> sec < self.section_count() && para < self.body(sec as int).len(),
            r matches Ok(s) ==> s@ == json_text(JsonView::Object(object_view(self.body(sec as int)[para as int].format@))),
    {
        self.check_section(sec)?;
        if para >= self.document.sections[sec].paragraphs.len() {
            return Err(render_error("paragraph out of range"));
        }
        Ok(members_to_json_string(&self.document.sections[sec].paragraphs[para].format))
    }

    /// Removes control `ctrl` of body paragraph `(sec, para)`, which must be a table.
    pub fn delete_table_control_native(&mut self, sec: usize, para: usize, ctrl: usize) -> (r: Result<(), HwpError>)
        ensures
            r is Ok <==> sec < old(self).section_count() && para < old(self).body(sec as int).len()
                && ctrl < old(self).body(sec as int)[para as int].controls@.len()
                && old(self).body(sec as int)[para as int].controls@[ctrl as int] is Table,
            r is Ok ==> {
                let op = old(self).body(sec as int)[para as int];
                let np = final(self).body(sec as int)[para as int];
                &&& body_changed(*old(self), *final(self), sec as int)
                &&& final(self).body(sec as int).len() == old(self).body(sec as int).len()
                &&& forall|j: int| 0 <= j < old(self).body(sec as int).len() && j != para ==> final(self).body(sec as int)[j] == old(self).body(sec as int)[j]
                &&& np.controls@ == op.controls@.remove(ctrl as int)
                &&& np.text == op.text
            },
            r is Err ==> unchanged(*old(self), *final(self)),
    {
        self.check_section(sec)?;
        if para >= self.document.sections[sec].paragraphs.len() {
            return Err(render_error("paragraph out of range"));
        }
        if ctrl >= self.document.sections[sec].paragraphs[para].controls.len() {
            return Err(render_error("control index out of range"));
        }
        let is_table = match &self.document.sections[sec].paragraphs[para].controls[ctrl] {
            Control::Table(_) => true,
            _ => false,
        };
        if !is_table {
            return Err(render_error("control is not a table"));
        }
        let _ = self.document.sections[sec].paragraphs[para].controls.remove(ctrl);
        Ok(())
    }

    /// The id of the font named `name`, registering it when it is new.
    pub fn find_or_create_font_id_native(&mut self, name: &str) -> (id: i32)
        ensures
            old(self).font_names@.len() < i32::MAX ==> id >= 0,
            id >= 0 ==> id < final(self).font_names@.len() && final(self).font_names@[id as int]@ == name@,
            old(self).font_names@.len() <= final(self).font_names@.len() <= old(self).font_names@.len() + 1,
            forall|j: int| 0 <= j < old(self).font_names@.len() ==> final(self).font_names@[j] == old(self).font_names@[j],
            final(self).document == old(self).document,
            final(self).border_fill_count == old(self).border_fill_count,
    {
        let mut i: usize = 0;
        while i < self.font_names.len()
            invariant
                i <= self.font_names@.len(),
                self.font_names == old(self).font_names,
                self.document == old(self).document,
                self.border_fill_count == old(self).border_fill_count,
            decreases self.font_names.len() - i,
        {
            if crate::json::str_eq(self.font_names[i].as_str(), name) {
                if i < i32::MAX as usize {
                    return i as i32;
                } else {
                    return -1;
                }
            }
            i += 1;
        }
        if self.font_names.len() >= i32::MAX as usize {
            return -1;
        }
        let id = self.font_names.len() as i32;
        self.font_names.push(String::from_str(name));
        id
    }
}


/// A paragraph holding only a new `rows` × `cols` table, its cells listed row by row.
pub open spec fn is_table_paragraph(p: Paragraph, rows: u16, cols: u16) -> bool {
    &&& p.text@.len() == 0
    &&& p.controls@.len() == 1
    &&& p.controls@[0] is Table
    &&& control_table(p.controls@[0]).row_count == rows
    &&& control_table(p.controls@[0]).col_count == cols
    &&& control_table(p.controls@[0]).cells@.len() == rows * cols
    &&& forall|i: int| 0 <= i < rows * cols ==> {
        let c = #[trigger] control_table(p.controls@[0]).cells@[i];
        &&& c.row == i / (cols as int)
        &&& c.col == i % (cols as int)
        &&& fresh_cell(c)
    }
}

/// The cell is inside the rectangle `[r1, r2] × [c1, c2]`.
pub open spec fn in_rect(c: Cell, r1: int, c1: int, r2: int, c2: int) -> bool {
    r1 <= c.row <= r2 && c1 <= c.col <= c2
}

/// The cells after merging the rectangle `[r1, r2] × [c1, c2]` into its top-left cell,
/// over the first `n` cells: that cell spans the rectangle, the other cells inside it go,
/// the cells outside stay in order.
pub open spec fn merged_cells(cells: Seq<Cell>, n: int, r1: int, c1: int, r2: int, c2: int) -> Seq<Cell>
    decreases n,
{
    if n <= 0 || n > cells.len() {
        Seq::empty()
    } else {
        let prev = merged_cells(cells, n - 1, r1, c1, r2, c2);
        let c = cells[n - 1];
        if c.row == r1 && c.col == c1 {
            prev.push(Cell { row_span: (r2 - r1 + 1) as u16, col_span: (c2 - c1 + 1) as u16, ..c })
        } else if in_rect(c, r1, c1, r2, c2) {
            prev
        } else {
            prev.push(c)
        }
    }
}

/// Only the table at `(s, tp, ctrl)` may differ between `old` and `new`.
pub open spec fn table_replaced(old: DocumentCore, new: DocumentCore, s: int, tp: int, ctrl: int) -> bool {
    let op = old.body(s)[tp];
    let np = new.body(s)[tp];
    &&& body_changed(old, new, s)
    &&& new.body(s).len() == old.body(s).len()
    &&& forall|j: int| 0 <= j < old.body(s).len() && j != tp ==> new.body(s)[j] == old.body(s)[j]
    &&& np.text == op.text
    &&& np.controls@.len() == op.controls@.len()
    &&& forall|j: int| 0 <= j < op.controls@.len() && j != ctrl ==> np.controls@[j] == op.controls@[j]
    &&& np.controls@[ctrl] is Table
}

impl DocumentCore {
    /// `(s, tp, ctrl)` names a table.
    pub open spec fn table_addr_ok(self, s: int, tp: int, ctrl: int) -> bool {
        &&& 0 <= s < self.section_count()
        &&& 0 <= tp < self.body(s).len()
        &&& 0 <= ctrl < self.body(s)[tp].controls@.len()
        &&& self.body(s)[tp].controls@[ctrl] is Table
    }

    fn check_table(&self, sec: usize, tp: usize, ctrl: usize) -> (r: Result<(), HwpError>)
        ensures
            r is Ok <==> self.table_addr_ok(sec as int, tp as int, ctrl as int),
    {
        if sec >= self.document.sections.len() {
            return Err(render_error("section out of range"));
        }
        if tp >= self.document.sections[sec].paragraphs.len() {
            return Err(render_error("table paragraph out of range"));
        }
        if ctrl >= self.document.sections[sec].paragraphs[tp].controls.len() {
            return Err(render_error("control index out of range"));
        }
        match &self.document.sections[sec].paragraphs[tp].controls[ctrl] {
            Control::Table(_) => Ok(()),
            _ => Err(render_error("control is not a table")),
        }
    }

    /// The table at `(sec, tp, ctrl)`.
    pub fn table_ref(&self, sec: usize, tp: usize, ctrl: usize) -> (t: &Table)
        requires
            self.table_addr_ok(sec as int, tp as int, ctrl as int),
        ensures
            *t == self.table_at(sec as int, tp as int, ctrl as int),
    {
        match &self.document.sections[sec].paragraphs[tp].controls[ctrl] {
            Control::Table(t) => t,
            _ => vstd::pervasive::unreached(),
        }
    }

    /// Mutable access to the table at `(sec, tp, ctrl)`; nothing else changes.
    pub fn table_mut(&mut self, sec: usize, tp: usize, ctrl: usize) -> (t: &mut Table)
        requires
            old(self).table_addr_ok(sec as int, tp as int, ctrl as int),
        ensures
            *t == old(self).table_at(sec as int, tp as int, ctrl as int),
            final(self).table_at(sec as int, tp as int, ctrl as int) == *final(t),
            table_replaced(*old(self), *final(self), sec as int, tp as int, ctrl as int),
    {
        match &mut self.document.sections[sec].paragraphs[tp].controls[ctrl] {
            Control::Table(t) => t,
            _ => vstd::pervasive::unreached(),
        }
    }

    /// Inserts a `rows` × `cols` table after character `offset` of body paragraph `(sec, para)`:
    /// the table gets a paragraph of its own at `para + 1`, and text after `offset`, if any,
    /// moves to the paragraph after the table.
    pub fn create_table_native(&mut self, sec: usize, para: usize, offset: usize, rows: u16, cols: u16) -> (r: Result<(), HwpError>)
        ensures
            r is Ok <==> sec < old(self).section_count() && split_ok(old(self).body(sec as int), para as int, offset as int)
                && rows > 0 && cols > 0,
            r is Ok ==> {
                let ob = old(self).body(sec as int);
                let nb = final(self).body(sec as int);
                let t = ob[para as int].text@;
                let tail = offset < t.len();
                let shift: int = if tail { 2 } else { 1 };
                &&& body_changed(*old(self), *final(self), sec as int)
                &&& nb.len() == ob.len() + shift
                &&& nb[para as int].text@ == t.subrange(0, offset as int)
                &&& same_but_text(nb[para as int], ob[para as int])
                &&& is_table_paragraph(nb[para + 1], rows, cols)
                &&& tail ==> nb[para + 2].text@ == t.subrange(offset as int, t.len() as int)
                &&& forall|j: int| 0 <= j < para ==> nb[j] == ob[j]
                &&& forall|j: int| para < j < ob.len() ==> nb[j + shift] == ob[j]
            },
            r is Err ==> unchanged(*old(self), *final(self)),
    {
        self.check_section(sec)?;
        if !para_list::check_split(&self.document.sections[sec].paragraphs, para, offset) || rows == 0 || cols == 0 {
            return Err(render_error("create_table: position or size out of range"));
        }
        let len = crate::text_ops::char_len(self.document.sections[sec].paragraphs[para].text.as_str());
        if offset < len {
            let _ = para_list::split_paragraph(&mut self.document.sections[sec].paragraphs, para, offset, ColumnBreakType::NoBreak);
        } else {
            assert(self.body(sec as int)[para as int].text@.subrange(0, offset as int) =~= self.body(sec as int)[para as int].text@);
        }
        let mut tp = Paragraph::with_text(String::new());
        tp.controls.push(Control::Table(Box::new(Table::new_grid(rows, cols))));
        let plen = self.document.sections[sec].paragraphs.len();
        assert(para < plen);
        self.document.sections[sec].paragraphs.insert(para + 1, tp);
        Ok(())
    }

    /// Merges the cells in rows `r1..=r2`, columns `c1..=c2` of the table at `(sec, tp, ctrl)`
    /// into the top-left one, which must exist.
    pub fn merge_table_cells_native(
        &mut self,
        sec: usize,
        tp: usize,
        ctrl: usize,
        r1: u16,
        c1: u16,
        r2: u16,
        c2: u16,
    ) -> (r: Result<(), HwpError>)
        ensures
            r is Ok <==> old(self).table_addr_ok(sec as int, tp as int, ctrl as int) && r1 <= r2 && c1 <= c2
                && r2 - r1 < u16::MAX && c2 - c1 < u16::MAX
                && exists|i: int| 0 <= i < old(self).table_at(sec as int, tp as int, ctrl as int).cells@.len()
                    && #[trigger] old(self).table_at(sec as int, tp as int, ctrl as int).cells@[i].row == r1
                    && old(self).table_at(sec as int, tp as int, ctrl as int).cells@[i].col == c1,
            r is Ok ==> {
                let ot = old(self).table_at(sec as int, tp as int, ctrl as int);
                let nt = final(self).table_at(sec as int, tp as int, ctrl as int);
                &&& table_replaced(*old(self), *final(self), sec as int, tp as int, ctrl as int)
                &&& nt.cells@ == merged_cells(ot.cells@, ot.cells@.len() as int, r1 as int, c1 as int, r2 as int, c2 as int)
                &&& nt.row_count == ot.row_count
                &&& nt.col_count == ot.col_count
            },
            r is Err ==> unchanged(*old(self), *final(self)),
    {
        self.check_table(sec, tp, ctrl)?;
        if r1 > r2 || c1 > c2 || r2 - r1 == u16::MAX || c2 - c1 == u16::MAX {
            return Err(render_error("merge_cells: invalid range"));
        }
        let found = {
            let t = self.table_ref(sec, tp, ctrl);
            let mut i: usize = 0;
            let mut found = false;
            while i < t.cells.len()
                invariant
                    i <= t.cells@.len(),
                    !found ==> forall|j: int| 0 <= j < i ==> !(#[trigger] t.cells@[j].row == r1 && t.cells@[j].col == c1),
                    found ==> exists|j: int| 0 <= j < t.cells@.len() && #[trigger] t.cells@[j].row == r1 && t.cells@[j].col == c1,
                decreases t.cells.len() - i,
            {
                if t.cells[i].row == r1 && t.cells[i].col == c1 {
                    found = true;
                }
                i += 1;
            }
            found
        };
        if !found {
            return Err(render_error("merge_cells: top-left cell not found"));
        }
        let t = self.table_mut(sec, tp, ctrl);
        let mut old_cells: Vec<Cell> = Vec::new();
        std::mem::swap(&mut old_cells, &mut t.cells);
        let ghost orig = old_cells@;
        let ghost rows0 = t.row_count;
        let ghost cols0 = t.col_count;
        let n0 = old_cells.len();
        let mut k: usize = 0;
        assert(old_cells@ =~= orig.subrange(0, orig.len() as int));
        while old_cells.len() > 0
            invariant
                k <= n0 == orig.len(),
                old_cells@ == orig.subrange(k as int, orig.len() as int),
                t.cells@ == merged_cells(orig, k as int, r1 as int, c1 as int, r2 as int, c2 as int),
                t.row_count == rows0,
                t.col_count == cols0,
                r1 <= r2,
                c1 <= c2,
                r2 - r1 < u16::MAX,
                c2 - c1 < u16::MAX,
            decreases old_cells.len(),
        {
            assert(old_cells@.len() == orig.len() - k);
            let mut c = old_cells.remove(0);
            assert(c == orig[k as int]);
            if c.row == r1 && c.col == c1 {
                c.row_span = r2 - r1 + 1;
                c.col_span = c2 - c1 + 1;
                t.cells.push(c);
            } else if r1 <= c.row && c.row <= r2 && c1 <= c.col && c.col <= c2 {
            } else {
                t.cells.push(c);
            }
            k += 1;
        }
        assert(k == n0);
        Ok(())
    }
}

} // verus!
