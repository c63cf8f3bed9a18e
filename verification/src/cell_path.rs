//! Paths to table cells at any nesting depth.
use vstd::prelude::*;
use crate::document_core::{DocumentCore, control_table};
use crate::error::{HwpError, render_error};
use crate::lookup::{first_cell_idx, first_cell, lemma_first_cell_idx};
use crate::model::{Paragraph, Cell, Control, Table, CharShapeRef};
use crate::json::{nat_digits, write_nat};
use crate::text::chars_of;
use crate::text_ops::concat_str;

verus! {

/// One step of a cell path: the paragraph that holds the table, the table's control index,
/// and the cell's coordinates.
#[derive(Clone, Copy, Debug, PartialEq, Eq)]
pub struct CellStep {
    pub para: usize,
    pub ctrl_idx: usize,
    pub row: u16,
    pub col: u16,
}

/// A path to a (possibly nested) table cell. `steps[0].para` indexes the section's
/// paragraphs; `steps[i + 1].para` indexes the paragraphs of the cell reached by `steps[i]`.
#[derive(Debug)]
pub struct CellPath {
    pub steps: Vec<CellStep>,
}

impl CellPath {
    pub fn new(steps: Vec<CellStep>) -> (p: CellPath)
        ensures
            p.steps@ == steps@,
    {
        CellPath { steps }
    }

    /// The number of table levels the path descends.
    pub fn depth(&self) -> (n: usize)
        ensures
            n == self.steps@.len(),
    {
        self.steps.len()
    }

    pub fn is_empty(&self) -> (b: bool)
        ensures
            b <==> self.steps@.len() == 0,
    {
        self.steps.len() == 0
    }
}

/// The index of the cell that step `st` picks in paragraph `p`: control `st.ctrl_idx` must be
/// a table, holding a cell at `(st.row, st.col)` (the first such cell).
pub open spec fn step_cell(p: Paragraph, st: CellStep) -> Option<int> {
    if st.ctrl_idx < p.controls@.len() && p.controls@[st.ctrl_idx as int] is Table {
        first_cell_idx(control_table(p.controls@[st.ctrl_idx as int]).cells@, st.row, st.col)
    } else {
        None
    }
}

/// The cell that `steps[i..]` reach from paragraph `p`.
pub open spec fn cell_at(p: Paragraph, steps: Seq<CellStep>, i: int) -> Option<Cell>
    decreases steps.len() - i,
{
    if 0 <= i < steps.len() {
        match step_cell(p, steps[i]) {
            Some(ci) => {
                let c = control_table(p.controls@[steps[i].ctrl_idx as int]).cells@[ci];
                if i == steps.len() - 1 {
                    Some(c)
                } else if steps[i + 1].para < c.paragraphs@.len() {
                    cell_at(c.paragraphs@[steps[i + 1].para as int], steps, i + 1)
                } else {
                    None
                }
            },
            None => None,
        }
    } else {
        None
    }
}

/// `np` is `op` with the cell that `steps[i..]` reach replaced by `c`, and nothing else changed.
pub open spec fn path_replaced(op: Paragraph, np: Paragraph, steps: Seq<CellStep>, i: int, c: Cell) -> bool
    decreases steps.len() - i,
{
    if 0 <= i < steps.len() {
        match step_cell(op, steps[i]) {
            Some(ci) => {
                let k = steps[i].ctrl_idx as int;
                let ot = control_table(op.controls@[k]);
                let nt = control_table(np.controls@[k]);
                let oc = ot.cells@[ci];
                let nc = nt.cells@[ci];
                &&& (Paragraph { controls: np.controls, ..op }) == np
                &&& np.controls@.len() == op.controls@.len()
                &&& forall|j: int| 0 <= j < op.controls@.len() && j != k ==> np.controls@[j] == op.controls@[j]
                &&& np.controls@[k] is Table
                &&& (Table { cells: nt.cells, ..ot }) == nt
                &&& nt.cells@.len() == ot.cells@.len()
                &&& forall|j: int| 0 <= j < ot.cells@.len() && j != ci ==> nt.cells@[j] == ot.cells@[j]
                &&& if i == steps.len() - 1 {
                    nc == c
                } else {
                    let q = steps[i + 1].para as int;
                    &&& (Cell { paragraphs: nc.paragraphs, ..oc }) == nc
                    &&& nc.paragraphs@.len() == oc.paragraphs@.len()
                    &&& forall|j: int| 0 <= j < oc.paragraphs@.len() && j != q ==> nc.paragraphs@[j] == oc.paragraphs@[j]
                    &&& 0 <= q < oc.paragraphs@.len()
                    &&& path_replaced(oc.paragraphs@[q], nc.paragraphs@[q], steps, i + 1, c)
                }
            },
            None => false,
        }
    } else {
        false
    }
}

impl DocumentCore {
    /// The cell that `steps` reach in section `s`.
    pub open spec fn cell_at_path(self, s: int, steps: Seq<CellStep>) -> Option<Cell> {
        if steps.len() > 0 && 0 <= s < self.section_count() && steps[0].para < self.body(s).len() {
            cell_at(self.body(s)[steps[0].para as int], steps, 0)
        } else {
            None
        }
    }
}

/// `new` is `old` with the cell that `steps` reach in section `s` replaced by `c` (the
/// section's saved raw stream aside).
pub open spec fn doc_path_replaced(old: DocumentCore, new: DocumentCore, s: int, steps: Seq<CellStep>, c: Cell) -> bool {
    let p0 = steps[0].para as int;
    &&& new.font_names == old.font_names
    &&& new.border_fill_count == old.border_fill_count
    &&& new.document.sections@.len() == old.document.sections@.len()
    &&& forall|j: int| 0 <= j < old.document.sections@.len() && j != s ==> new.document.sections@[j] == old.document.sections@[j]
    &&& new.body(s).len() == old.body(s).len()
    &&& forall|j: int| 0 <= j < old.body(s).len() && j != p0 ==> new.body(s)[j] == old.body(s)[j]
    &&& path_replaced(old.body(s)[p0], new.body(s)[p0], steps, 0, c)
}

/// The cell that `steps[i..]` reach from paragraph `p`, if any.
fn cell_ref_in<'a>(p: &'a Paragraph, steps: &Vec<CellStep>, i: usize) -> (r: Option<&'a Cell>)
    requires
        i < steps@.len(),
    ensures
        match r {
            Some(c) => cell_at(*p, steps@, i as int) == Some(*c),
            None => cell_at(*p, steps@, i as int) is None,
        },
    decreases steps@.len() - i,
{
    let st = steps[i];
    if st.ctrl_idx >= p.controls.len() {
        return None;
    }
    match &p.controls[st.ctrl_idx] {
        Control::Table(t) => {
            proof {
                lemma_first_cell_idx(t.cells@, st.row, st.col);
            }
            match first_cell(&t.cells, st.row, st.col) {
                Some(ci) => {
                    if i == steps.len() - 1 {
                        Some(&t.cells[ci])
                    } else {
                        let q = steps[i + 1].para;
                        if q < t.cells[ci].paragraphs.len() {
                            cell_ref_in(&t.cells[ci].paragraphs[q], steps, i + 1)
                        } else {
                            None
                        }
                    }
                },
                None => None,
            }
        },
        _ => None,
    }
}

/// How a cell lookup names step `i`: the last step is `마지막 step`, the others `step i`.
pub open spec fn step_name(steps: Seq<CellStep>, i: int) -> Seq<char> {
    if i == steps.len() - 1 {
        "마지막 step"@
    } else {
        "step "@ + nat_digits(i as nat)
    }
}

/// The message of a cell lookup along `steps[i..]` from paragraph `p` that fails: the first
/// check that fails (the step's control is missing or is no table, the table has no cell at
/// the step's coordinates, or the cell lacks the next step's paragraph), with its indices.
pub open spec fn walk_error(p: Paragraph, steps: Seq<CellStep>, i: int) -> Seq<char>
    decreases steps.len() - i,
{
    if 0 <= i < steps.len() {
        let st = steps[i];
        let head = "get_cell_mut_at_path: "@ + step_name(steps, i);
        if st.ctrl_idx >= p.controls@.len() {
            head + " 의 control "@ + nat_digits(st.ctrl_idx as nat) + " 범위 초과 (controls_len="@ + nat_digits(
                p.controls@.len(),
            ) + ")"@
        } else if !(p.controls@[st.ctrl_idx as int] is Table) {
            head + " 의 control 이 Table 아님"@
        } else {
            let t = control_table(p.controls@[st.ctrl_idx as int]);
            match first_cell_idx(t.cells@, st.row, st.col) {
                None => head + " 의 cell ("@ + nat_digits(st.row as nat) + ", "@ + nat_digits(st.col as nat) + ") 없음"@,
                Some(ci) => if i == steps.len() - 1 {
                    Seq::empty()
                } else {
                    let c = t.cells@[ci];
                    let q = steps[i + 1].para;
                    if q >= c.paragraphs@.len() {
                        head + " cell 의 paragraph "@ + nat_digits(q as nat) + " 범위 초과 (paragraphs_len="@ + nat_digits(
                            c.paragraphs@.len(),
                        ) + ")"@
                    } else {
                        walk_error(c.paragraphs@[q as int], steps, i + 1)
                    }
                },
            }
        }
    } else {
        Seq::empty()
    }
}

/// The message of a cell lookup along `steps` in section `s` that fails: an empty path, a
/// section or first paragraph out of range, or the first failing check of the walk.
pub open spec fn path_error(core: DocumentCore, s: int, steps: Seq<CellStep>) -> Seq<char> {
    if steps.len() == 0 {
        "get_cell_mut_at_path: 빈 path"@
    } else if !(0 <= s < core.section_count()) {
        "get_cell_mut_at_path: 섹션 "@ + nat_digits(s as nat) + " 범위 초과"@
    } else if steps[0].para >= core.body(s).len() {
        "get_cell_mut_at_path: step 0 의 paragraph "@ + nat_digits(steps[0].para as nat) + " 범위 초과"@
    } else {
        walk_error(core.body(s)[steps[0].para as int], steps, 0)
    }
}

/// The message of a failed replacement of the runs of paragraph `cp` of the cell that `steps`
/// reach: the lookup's (see `path_error`), or the paragraph index out of the cell's range.
pub open spec fn cell_runs_error(core: DocumentCore, s: int, steps: Seq<CellStep>, cp: int) -> Seq<char> {
    match core.cell_at_path(s, steps) {
        None => path_error(core, s, steps),
        Some(c) => "replace_cell_runs_at_path_native: cell_para "@ + nat_digits(cp as nat) + " 범위 초과 (paragraphs_len="@
            + nat_digits(c.paragraphs@.len()) + ")"@,
    }
}

/// `head`, the decimal digits of `a`, `mid`, the digits of `b`, then `tail`.
fn two_numbers(head: &str, a: usize, mid: &str, b: usize, tail: &str) -> (m: String)
    ensures
        m@ == head@ + nat_digits(a as nat) + mid@ + nat_digits(b as nat) + tail@,
{
    let mut m = String::from_str(head);
    write_nat(&mut m, a as u64);
    crate::text::push_str(&mut m, mid);
    write_nat(&mut m, b as u64);
    crate::text::push_str(&mut m, tail);
    m
}

/// `None` when `steps[i..]` reach a cell from paragraph `p`, else the message of the first
/// check that fails (see `walk_error`).
fn walk_failure(p: &Paragraph, steps: &Vec<CellStep>, i: usize) -> (r: Option<String>)
    requires
        i < steps@.len(),
    ensures
        r is None <==> cell_at(*p, steps@, i as int) is Some,
        r matches Some(m) ==> m@ == walk_error(*p, steps@, i as int),
    decreases steps@.len() - i,
{
    let st = steps[i];
    let last = i == steps.len() - 1;
    let mut head = String::from_str("get_cell_mut_at_path: ");
    if last {
        crate::text::push_str(&mut head, "마지막 step");
    } else {
        crate::text::push_str(&mut head, "step ");
        write_nat(&mut head, i as u64);
    }
    assert(head@ =~= "get_cell_mut_at_path: "@ + step_name(steps@, i as int));
    if st.ctrl_idx >= p.controls.len() {
        let tail = two_numbers(" 의 control ", st.ctrl_idx, " 범위 초과 (controls_len=", p.controls.len(), ")");
        let m = concat_str(head.as_str(), tail.as_str());
        return Some(m);
    }
    match &p.controls[st.ctrl_idx] {
        Control::Table(t) => {
            proof {
                lemma_first_cell_idx(t.cells@, st.row, st.col);
            }
            match first_cell(&t.cells, st.row, st.col) {
                Some(ci) => {
                    if last {
                        None
                    } else {
                        let q = steps[i + 1].para;
                        if q < t.cells[ci].paragraphs.len() {
                            walk_failure(&t.cells[ci].paragraphs[q], steps, i + 1)
                        } else {
                            let tail = two_numbers(" cell 의 paragraph ", q, " 범위 초과 (paragraphs_len=", t.cells[ci].paragraphs.len(), ")");
                            Some(concat_str(head.as_str(), tail.as_str()))
                        }
                    }
                },
                None => {
                    let tail = two_numbers(" 의 cell (", st.row as usize, ", ", st.col as usize, ") 없음");
                    Some(concat_str(head.as_str(), tail.as_str()))
                },
            }
        },
        _ => Some(concat_str(head.as_str(), " 의 control 이 Table 아님")),
    }
}

/// Mutable access to the cell that `steps[i..]` reach from paragraph `p`.
fn cell_mut_in<'a>(p: &'a mut Paragraph, steps: &Vec<CellStep>, i: usize) -> (r: &'a mut Cell)
    requires
        i < steps@.len(),
        cell_at(*old(p), steps@, i as int) is Some,
    ensures
        Some(*r) == cell_at(*old(p), steps@, i as int),
        path_replaced(*old(p), *final(p), steps@, i as int, *final(r)),
    decreases steps@.len() - i,
{
    let st = steps[i];
    let ghost op = *p;
    match &mut p.controls[st.ctrl_idx] {
        Control::Table(t) => {
            proof {
                lemma_first_cell_idx(t.cells@, st.row, st.col);
            }
            let ci = match first_cell(&t.cells, st.row, st.col) {
                Some(ci) => ci,
                None => vstd::pervasive::unreached(),
            };
            if i == steps.len() - 1 {
                &mut t.cells[ci]
            } else {
                let q = steps[i + 1].para;
                cell_mut_in(&mut t.cells[ci].paragraphs[q], steps, i + 1)
            }
        },
        _ => vstd::pervasive::unreached(),
    }
}

impl DocumentCore {
    /// The (possibly nested) cell that `path` reaches in section `section_idx`, if any.
    pub fn cell_ref_at_path(&self, section_idx: usize, path: &CellPath) -> (r: Option<&Cell>)
        ensures
            match r {
                Some(c) => self.cell_at_path(section_idx as int, path.steps@) == Some(*c),
                None => self.cell_at_path(section_idx as int, path.steps@) is None,
            },
    {
        if path.steps.len() == 0 || section_idx >= self.document.sections.len() {
            return None;
        }
        let p0 = path.steps[0].para;
        if p0 >= self.document.sections[section_idx].paragraphs.len() {
            return None;
        }
        cell_ref_in(&self.document.sections[section_idx].paragraphs[p0], &path.steps, 0)
    }

    /// Mutable access to the (possibly nested) cell that `path` reaches in section
    /// `section_idx`. Each step's control must be a table holding a cell at the step's
    /// coordinates; the next step then enters that cell's paragraph.
    pub fn get_cell_mut_at_path(&mut self, section_idx: usize, path: &CellPath) -> (r: Result<&mut Cell, HwpError>)
        ensures
            r is Ok <==> old(self).cell_at_path(section_idx as int, path.steps@) is Some,
            r matches Ok(c) ==> Some(*c) == old(self).cell_at_path(section_idx as int, path.steps@)
                && doc_path_replaced(*old(self), *final(self), section_idx as int, path.steps@, *final(c))
                && final(self).document.sections@[section_idx as int].raw_stream == old(self).document.sections@[section_idx as int].raw_stream,
            r matches Err(e) ==> e matches HwpError::RenderError(m) && m@ == path_error(*old(self), section_idx as int, path.steps@),
            r is Err ==> *final(self) == *old(self),
    {
        match self.path_failure(section_idx, path) {
            Some(m) => {
                return Err(HwpError::RenderError(m));
            },
            None => {},
        }
        let p0 = path.steps[0].para;
        Ok(cell_mut_in(&mut self.document.sections[section_idx].paragraphs[p0], &path.steps, 0))
    }

    /// `None` when `path` reaches a cell in section `section_idx`, else the message of the
    /// failed lookup (see `path_error`).
    fn path_failure(&self, section_idx: usize, path: &CellPath) -> (r: Option<String>)
        ensures
            r is None <==> self.cell_at_path(section_idx as int, path.steps@) is Some,
            r matches Some(m) ==> m@ == path_error(*self, section_idx as int, path.steps@),
    {
        if path.steps.len() == 0 {
            return Some(String::from_str("get_cell_mut_at_path: 빈 path"));
        }
        if section_idx >= self.document.sections.len() {
            let mut m = String::from_str("get_cell_mut_at_path: 섹션 ");
            write_nat(&mut m, section_idx as u64);
            crate::text::push_str(&mut m, " 범위 초과");
            return Some(m);
        }
        let p0 = path.steps[0].para;
        if p0 >= self.document.sections[section_idx].paragraphs.len() {
            let mut m = String::from_str("get_cell_mut_at_path: step 0 의 paragraph ");
            write_nat(&mut m, p0 as u64);
            crate::text::push_str(&mut m, " 범위 초과");
            return Some(m);
        }
        walk_failure(&self.document.sections[section_idx].paragraphs[p0], &path.steps, 0)
    }
}

/// The number of UTF-16 code units of `c`.
pub open spec fn utf16_width(c: char) -> nat {
    if (c as u32) >= 0x10000 {
        2
    } else {
        1
    }
}

/// The number of UTF-16 code units of `s`.
pub open spec fn utf16_len(s: Seq<char>) -> nat
    decreases s.len(),
{
    if s.len() == 0 {
        0
    } else {
        utf16_len(s.drop_last()) + utf16_width(s.last())
    }
}

/// A non-empty text has UTF-16 code units.
pub proof fn lemma_utf16_len_pos(s: Seq<char>)
    requires
        s.len() > 0,
    ensures
        utf16_len(s) > 0,
{
}

/// A text without UTF-16 code units is empty.
pub proof fn lemma_utf16_len_zero(s: Seq<char>)
    ensures
        utf16_len(s) == 0 ==> s.len() == 0,
{
}

pub proof fn lemma_utf16_prefix(s: Seq<char>, i: int)
    requires
        0 <= i <= s.len(),
    ensures
        utf16_len(s.take(i)) <= utf16_len(s),
    decreases s.len() - i,
{
    if i < s.len() {
        lemma_utf16_prefix(s, i + 1);
        assert(s.take(i + 1).drop_last() =~= s.take(i));
    } else {
        assert(s.take(i) =~= s);
    }
}

/// `np` is `op` holding `text`, laid out afresh: one character shape `base` from the start,
/// UTF-16 offsets for every character, a count that includes the paragraph end mark, and no
/// line segments (they are laid out again later).
pub open spec fn rebuilt(op: Paragraph, np: Paragraph, text: Seq<char>, base: u32) -> bool {
    &&& (Paragraph {
        text: np.text,
        char_count: np.char_count,
        char_shapes: np.char_shapes,
        char_offsets: np.char_offsets,
        line_segs: np.line_segs,
        ..op
    }) == np
    &&& np.text@ == text
    &&& np.char_count == utf16_len(text) + 1
    &&& np.char_shapes@ == seq![CharShapeRef { start_pos: 0, char_shape_id: base }]
    &&& np.char_offsets@.len() == text.len()
    &&& forall|i: int| 0 <= i < text.len() ==> np.char_offsets@[i] == utf16_len(#[trigger] text.take(i))
    &&& np.line_segs@.len() == 0
}

/// Gives `para` the text `text`, rebuilding its character count, shapes and offsets and
/// dropping its line segments.
pub fn rebuild_paragraph_text(para: &mut Paragraph, text: String, base_char_shape_id: u32)
    requires
        utf16_len(text@) < u32::MAX,
    ensures
        rebuilt(*old(para), *final(para), text@, base_char_shape_id),
{
    let cs = chars_of(text.as_str());
    let mut offsets: Vec<u32> = Vec::new();
    let mut pos: u32 = 0;
    let mut i: usize = 0;
    while i < cs.len()
        invariant
            i <= cs@.len(),
            cs@ == text@,
            utf16_len(text@) < u32::MAX,
            pos == utf16_len(text@.take(i as int)),
            offsets@.len() == i,
            forall|j: int| 0 <= j < i ==> offsets@[j] == utf16_len(#[trigger] text@.take(j)),
        decreases cs.len() - i,
    {
        offsets.push(pos);
        proof {
            assert(text@.take(i + 1).drop_last() =~= text@.take(i as int));
            lemma_utf16_prefix(text@, i + 1);
        }
        let w: u32 = if (cs[i] as u32) >= 0x10000 {
            2
        } else {
            1
        };
        pos = pos + w;
        i += 1;
    }
    assert(text@.take(cs@.len() as int) =~= text@);
    para.text = text;
    para.char_count = pos + 1;
    para.char_shapes = Vec::new();
    para.char_shapes.push(CharShapeRef { start_pos: 0, char_shape_id: base_char_shape_id });
    para.char_offsets = offsets;
    para.line_segs = Vec::new();
}

/// The views of optional strings.
pub open spec fn opt_views(ts: Seq<Option<String>>) -> Seq<Option<Seq<char>>> {
    Seq::new(ts.len(), |i: int| match ts[i] {
        Some(t) => Some(t@),
        None => None,
    })
}

/// The texts of the runs that have one, concatenated.
pub open spec fn present_texts(ts: Seq<Option<Seq<char>>>) -> Seq<char>
    decreases ts.len(),
{
    if ts.len() == 0 {
        Seq::empty()
    } else {
        present_texts(ts.drop_last()) + match ts.last() {
            Some(t) => t,
            None => Seq::empty(),
        }
    }
}

/// The texts of the runs that have one, concatenated, as a string.
pub fn concat_present_texts(ts: &Vec<Option<String>>) -> (s: String)
    ensures
        s@ == present_texts(opt_views(ts@)),
{
    let mut s = String::new();
    let mut i: usize = 0;
    while i < ts.len()
        invariant
            i <= ts@.len(),
            s@ == present_texts(opt_views(ts@.take(i as int))),
        decreases ts.len() - i,
    {
        if let Some(t) = &ts[i] {
            s = concat_str(s.as_str(), t.as_str());
        }
        assert(opt_views(ts@.take(i + 1)).drop_last() =~= opt_views(ts@.take(i as int)));
        i += 1;
    }
    assert(ts@.take(ts@.len() as int) =~= ts@);
    s
}

/// Whether `s` has fewer than `u32::MAX` UTF-16 code units.
pub fn utf16_len_fits(s: &str) -> (b: bool)
    ensures
        b <==> utf16_len(s@) < u32::MAX,
{
    let cs = chars_of(s);
    let mut n: u64 = 0;
    let mut i: usize = 0;
    while i < cs.len()
        invariant
            i <= cs@.len(),
            cs@ == s@,
            n == utf16_len(s@.take(i as int)),
            n < u32::MAX,
        decreases cs.len() - i,
    {
        assert(s@.take(i + 1).drop_last() =~= s@.take(i as int));
        let w: u64 = if (cs[i] as u32) >= 0x10000 {
            2
        } else {
            1
        };
        n = n + w;
        i += 1;
        if n >= u32::MAX as u64 {
            proof {
                lemma_utf16_prefix(s@, i as int);
            }
            return false;
        }
    }
    assert(s@.take(cs@.len() as int) =~= s@);
    true
}

/// The reply of a successful cell text replacement: `{"ok":true,"cellParaIdx":N}`.
pub open spec fn cell_para_reply(n: nat) -> Seq<char> {
    "{\"ok\":true,\"cellParaIdx\":"@ + nat_digits(n) + "}"@
}

/// The first character shape of a paragraph (0 when it has none).
pub open spec fn base_shape(p: Paragraph) -> u32 {
    if p.char_shapes@.len() > 0 {
        p.char_shapes@[0].char_shape_id
    } else {
        0
    }
}

/// `nc` is `oc` with paragraph `q` holding `text`, rebuilt on its first character shape.
pub open spec fn cell_para_rebuilt(oc: Cell, nc: Cell, q: int, text: Seq<char>) -> bool {
    &&& (Cell { paragraphs: nc.paragraphs, ..oc }) == nc
    &&& nc.paragraphs@.len() == oc.paragraphs@.len()
    &&& forall|j: int| 0 <= j < oc.paragraphs@.len() && j != q ==> nc.paragraphs@[j] == oc.paragraphs@[j]
    &&& rebuilt(oc.paragraphs@[q], nc.paragraphs@[q], text, base_shape(oc.paragraphs@[q]))
}

/// `new` is `old` with the saved raw stream of section `s` (when there is one) dropped.
pub open spec fn raw_dropped(old: DocumentCore, new: DocumentCore, s: int) -> bool {
    &&& new.font_names == old.font_names
    &&& new.border_fill_count == old.border_fill_count
    &&& new.document.sections@.len() == old.document.sections@.len()
    &&& forall|j: int| 0 <= j < old.document.sections@.len() && j != s ==> new.document.sections@[j] == old.document.sections@[j]
    &&& (0 <= s < old.document.sections@.len() ==> new.document.sections@[s].paragraphs == old.document.sections@[s].paragraphs
        && new.document.sections@[s].raw_stream is None)
}

impl DocumentCore {
    /// Replaces the text of paragraph `cell_para_idx` of the cell that `path` reaches with
    /// the run texts, concatenated. Editing drops the section's saved raw stream, so that it
    /// is written afresh.
    pub fn replace_cell_run_texts_at_path(
        &mut self,
        section_idx: usize,
        path: &CellPath,
        cell_para_idx: usize,
        run_texts: &Vec<Option<String>>,
    ) -> (r: Result<String, HwpError>)
        requires
            utf16_len(present_texts(opt_views(run_texts@))) < u32::MAX,
        ensures
            r is Ok <==> (old(self).cell_at_path(section_idx as int, path.steps@) matches Some(c)
                && cell_para_idx < c.paragraphs@.len()),
            r matches Ok(m) ==> m@ == cell_para_reply(cell_para_idx as nat)
                && final(self).document.sections@[section_idx as int].raw_stream is None
                && exists|nc: Cell|
                    doc_path_replaced(*old(self), *final(self), section_idx as int, path.steps@, nc)
                    && #[trigger] cell_para_rebuilt(
                        old(self).cell_at_path(section_idx as int, path.steps@)->Some_0,
                        nc,
                        cell_para_idx as int,
                        present_texts(opt_views(run_texts@)),
                    ),
            r is Err ==> raw_dropped(*old(self), *final(self), section_idx as int),
            r matches Err(e) ==> e matches HwpError::RenderError(m)
                && m@ == cell_runs_error(*old(self), section_idx as int, path.steps@, cell_para_idx as int),
    {
        let new_text = concat_present_texts(run_texts);
        if section_idx < self.document.sections.len() {
            self.document.sections[section_idx].raw_stream = None;
        }
        let ghost mid = *self;
        assert(path_error(mid, section_idx as int, path.steps@) == path_error(*old(self), section_idx as int, path.steps@)) by {
            if 0 <= section_idx < mid.section_count() {
                assert(mid.body(section_idx as int) == old(self).body(section_idx as int));
            }
        }
        match self.path_failure(section_idx, path) {
            Some(m) => {
                return Err(HwpError::RenderError(m));
            },
            None => {},
        }
        let n = match self.cell_ref_at_path(section_idx, path) {
            Some(c) => c.paragraphs.len(),
            None => vstd::pervasive::unreached(),
        };
        if cell_para_idx >= n {
            let m = two_numbers("replace_cell_runs_at_path_native: cell_para ", cell_para_idx, " 범위 초과 (paragraphs_len=", n, ")");
            return Err(HwpError::RenderError(m));
        }
        let cell = match self.get_cell_mut_at_path(section_idx, path) {
            Ok(c) => c,
            Err(_) => vstd::pervasive::unreached(),
        };
        let para = &mut cell.paragraphs[cell_para_idx];
        let base = if para.char_shapes.len() > 0 {
            para.char_shapes[0].char_shape_id
        } else {
            0
        };
        rebuild_paragraph_text(para, new_text, base);
        let mut reply = String::from_str("{\"ok\":true,\"cellParaIdx\":");
        write_nat(&mut reply, cell_para_idx as u64);
        let reply = concat_str(reply.as_str(), "}");
        proof {
            reveal_strlit("{\"ok\":true,\"cellParaIdx\":");
            reveal_strlit("}");
        }
        assert(reply@ == cell_para_reply(cell_para_idx as nat));
        assert(cell_para_rebuilt(mid.cell_at_path(section_idx as int, path.steps@)->Some_0, *final(cell), cell_para_idx as int, present_texts(opt_views(run_texts@))));
        Ok(reply)
    }
}

/// What `serde_json` reads from a JSON array of run objects: for each run, its `"text"`
/// member when that is a string; `None` when the input is not a JSON array of values.
pub uninterp spec fn json_run_texts(s: Seq<char>) -> Option<Seq<Option<Seq<char>>>>;

#[verifier::external_type_specification]
#[verifier::external_body]
pub struct ExJsonError(serde_json::Error);

/// Parses `runs_json` with `serde_json::from_str` as a `Vec<serde_json::Value>` and takes,
/// for each run, `run.get("text")` when it is a string. The contract claims only that the
/// result is the parse of the input: `json_run_texts` names it.
#[verifier::external_body]
fn parse_run_texts(runs_json: &str) -> (r: Result<Vec<Option<String>>, serde_json::Error>)
    ensures
        r is Ok <==> json_run_texts(runs_json@) is Some,
        r matches Ok(v) ==> json_run_texts(runs_json@) == Some(opt_views(v@)),
{
    let runs: Vec<serde_json::Value> = serde_json::from_str(runs_json)?;
    Ok(runs.iter().map(|run| run.get("text").and_then(|v| v.as_str()).map(|t| t.to_string())).collect())
}

/// The message of a `serde_json` error (its `Display` text); nothing is claimed of it.
#[verifier::external_body]
fn json_error_text(e: &serde_json::Error) -> String {
    e.to_string()
}

/// What `replace_cell_run_texts_at_path` does with run texts `text`: its result `r` and the
/// document after.
pub open spec fn cell_runs_replaced(
    old: DocumentCore,
    new: DocumentCore,
    s: int,
    steps: Seq<CellStep>,
    cp: int,
    text: Seq<char>,
    r: Result<String, HwpError>,
) -> bool {
    &&& r is Ok <==> (old.cell_at_path(s, steps) matches Some(c) && cp < c.paragraphs@.len())
    &&& r matches Ok(m) ==> m@ == cell_para_reply(cp as nat)
        && new.document.sections@[s].raw_stream is None
        && exists|nc: Cell|
            doc_path_replaced(old, new, s, steps, nc)
            && #[trigger] cell_para_rebuilt(old.cell_at_path(s, steps)->Some_0, nc, cp, text)
    &&& r is Err ==> raw_dropped(old, new, s)
    &&& r matches Err(e) ==> e matches HwpError::RenderError(m) && m@ == cell_runs_error(old, s, steps, cp)
}

impl DocumentCore {
    /// Replaces the text of paragraph `cell_para_idx` of the cell that `path` reaches with the
    /// texts of the runs in `runs_json` (a JSON array of `{"text": ..}` objects), concatenated.
    /// A text of `u32::MAX` or more UTF-16 code units does not fit a paragraph's character
    /// count and is refused.
    pub fn replace_cell_runs_at_path_native(
        &mut self,
        section_idx: usize,
        path: &CellPath,
        cell_para_idx: usize,
        runs_json: &str,
    ) -> (r: Result<String, HwpError>)
        ensures
            match json_run_texts(runs_json@) {
                None => r matches Err(HwpError::InvalidFile(_)) && *final(self) == *old(self),
                Some(ts) => if utf16_len(present_texts(ts)) < u32::MAX {
                    cell_runs_replaced(*old(self), *final(self), section_idx as int, path.steps@, cell_para_idx as int, present_texts(ts), r)
                } else {
                    r is Err && *final(self) == *old(self)
                },
            },
    {
        let texts = match parse_run_texts(runs_json) {
            Ok(t) => t,
            Err(e) => {
                let msg = concat_str("runs_json 파싱 실패: ", json_error_text(&e).as_str());
                return Err(HwpError::InvalidFile(msg));
            },
        };
        let joined = concat_present_texts(&texts);
        if !utf16_len_fits(joined.as_str()) {
            return Err(render_error("replace_cell_runs_at_path_native: text too long"));
        }
        self.replace_cell_run_texts_at_path(section_idx, path, cell_para_idx, &texts)
    }
}

} // verus!
