//! The two-way editing protocol: edit operations, the paragraph ranges they touch,
//! and the conversion of partial styles into the keys the native editors read.
use vstd::prelude::*;
use crate::cell_path::CellPath;
use crate::json::{JsonMember, JsonValue, JsonView, object_view, member, jstr, jstring, to_json_string, json_text, str_eq, push_member, set_member, set_key};
use crate::document_core::DocumentCore;
use crate::model::{CharFormat, char_formats_view};
use crate::error::{HwpError, render_error};

verus! {

/// A partial paragraph style. `None` keeps the current value.
/// `line_height` holds the line spacing already rounded to an integer percentage.
#[derive(Debug)]
pub struct PartialParagraphStyle {
    pub align: Option<String>,
    pub line_height: Option<i32>,
    pub margin_left: Option<i16>,
    pub margin_right: Option<i16>,
    pub indent: Option<i16>,
    pub spacing_before: Option<i16>,
    pub spacing_after: Option<i16>,
}

/// A partial cell style. `None` keeps the current value.
#[derive(Debug)]
pub struct PartialCellStyle {
    pub width: Option<u32>,
    pub height: Option<u32>,
    pub vertical_align: Option<String>,
    pub border_fill_id: Option<u16>,
    pub is_header: Option<bool>,
    pub cell_protect: Option<bool>,
    pub bgcolor: Option<String>,
    pub border: Option<BorderSpec>,
    pub padding_left: Option<i16>,
    pub padding_right: Option<i16>,
    pub padding_top: Option<i16>,
    pub padding_bottom: Option<i16>,
}

/// The four borders of a cell; `all` applies first, the sides override it.
#[derive(Debug)]
pub struct BorderSpec {
    pub all: Option<BorderLine>,
    pub left: Option<BorderLine>,
    pub right: Option<BorderLine>,
    pub top: Option<BorderLine>,
    pub bottom: Option<BorderLine>,
}

/// One border line.
#[derive(Debug)]
pub struct BorderLine {
    pub color: Option<String>,
    pub width: Option<u32>,
    pub line_type: Option<u8>,
}

/// A partial character style of a run. `font_size` is in 1/100 pt.
#[derive(Debug)]
pub struct PartialRunStyle {
    pub bold: Option<bool>,
    pub italic: Option<bool>,
    pub underline: Option<bool>,
    pub strikethrough: Option<bool>,
    pub font_size: Option<u16>,
    pub color: Option<String>,
    pub highlight: Option<String>,
    pub font_name: Option<String>,
}

/// A run: a piece of text with an optional partial style.
#[derive(Debug)]
pub struct RunSpec {
    pub text: String,
    pub style: Option<PartialRunStyle>,
}

impl Default for PartialParagraphStyle {
    fn default() -> (s: Self)
        ensures
            s.align is None && s.line_height is None && s.margin_left is None && s.margin_right is None
                && s.indent is None && s.spacing_before is None && s.spacing_after is None,
    {
        PartialParagraphStyle {
            align: None,
            line_height: None,
            margin_left: None,
            margin_right: None,
            indent: None,
            spacing_before: None,
            spacing_after: None,
        }
    }
}

impl Default for PartialCellStyle {
    fn default() -> (s: Self)
        ensures
            s.width is None && s.height is None && s.vertical_align is None && s.border_fill_id is None
                && s.is_header is None && s.cell_protect is None && s.bgcolor is None && s.border is None
                && s.padding_left is None && s.padding_right is None && s.padding_top is None && s.padding_bottom is None,
    {
        PartialCellStyle {
            width: None,
            height: None,
            vertical_align: None,
            border_fill_id: None,
            is_header: None,
            cell_protect: None,
            bgcolor: None,
            border: None,
            padding_left: None,
            padding_right: None,
            padding_top: None,
            padding_bottom: None,
        }
    }
}

impl Default for BorderSpec {
    fn default() -> (s: Self)
        ensures
            s.all is None && s.left is None && s.right is None && s.top is None && s.bottom is None,
    {
        BorderSpec { all: None, left: None, right: None, top: None, bottom: None }
    }
}

impl Default for PartialRunStyle {
    fn default() -> (s: Self)
        ensures
            s.bold is None && s.italic is None && s.underline is None && s.strikethrough is None
                && s.font_size is None && s.color is None && s.highlight is None && s.font_name is None,
    {
        PartialRunStyle {
            bold: None,
            italic: None,
            underline: None,
            strikethrough: None,
            font_size: None,
            color: None,
            highlight: None,
            font_name: None,
        }
    }
}

/// What `DeleteElement` removes.
#[derive(Clone, Copy, Debug, PartialEq, Eq)]
pub enum ElementType {
    Paragraph,
    Table,
}

/// An edit operation. All positions are 0-based.
#[derive(Debug)]
#[allow(inconsistent_fields)]
pub enum EditOperation {
    InsertText { section: usize, para: usize, offset: usize, text: String },
    DeleteText { section: usize, para: usize, offset: usize, count: usize, deleted_text: String },
    SplitParagraph { section: usize, para: usize, offset: usize },
    MergeParagraph { section: usize, para: usize, prev_len: usize },
    ReplaceRuns { section: usize, para: usize, runs: Vec<RunSpec> },
    SetParagraphStyle { section: usize, para: usize, style: PartialParagraphStyle },
    DeleteRange {
        section: usize,
        para_start: usize,
        char_start: usize,
        para_end: usize,
        char_end: usize,
    },
    InsertParagraph {
        section: usize,
        after_para: usize,
        count: usize,
        style: Option<PartialParagraphStyle>,
    },
    DeleteElement { section: usize, para: usize, element_type: ElementType },
    InsertTable { section: usize, insert_after_para: usize, rows: u16, cols: u16 },
    SetCellStyle {
        section: usize,
        table_para: usize,
        row: usize,
        col: usize,
        cell_idx: Option<usize>,
        ctrl_idx: Option<usize>,
        style: PartialCellStyle,
    },
    MergeCells {
        section: usize,
        table_para: usize,
        row_start: usize,
        col_start: usize,
        row_end: usize,
        col_end: usize,
        ctrl_idx: Option<usize>,
    },
    ReplaceCellRuns {
        section: usize,
        table_para: usize,
        row: usize,
        col: usize,
        cell_idx: Option<usize>,
        ctrl_idx: Option<usize>,
        cell_para: usize,
        runs: Vec<RunSpec>,
    },
    InsertTextInCell {
        section: usize,
        table_para: usize,
        row: usize,
        col: usize,
        cell_idx: Option<usize>,
        ctrl_idx: Option<usize>,
        cell_para: usize,
        offset: usize,
        text: String,
        style: Option<PartialRunStyle>,
    },
    DeleteRangeInCell {
        section: usize,
        table_para: usize,
        row: usize,
        col: usize,
        cell_idx: Option<usize>,
        ctrl_idx: Option<usize>,
        cell_para_start: usize,
        char_start: usize,
        cell_para_end: usize,
        char_end: usize,
    },
    InsertPageBreak { section: usize, para: usize, offset: usize },
    ReplaceCellRunsAtPath { section: usize, path: CellPath, cell_para: usize, runs: Vec<RunSpec> },
    PressEnter {
        section: usize,
        para: Option<usize>,
        table_para: Option<usize>,
        row: Option<usize>,
        col: Option<usize>,
        cell_para: Option<usize>,
        ctrl_idx: Option<usize>,
        cell_idx: Option<usize>,
        char_offset: i64,
        count: usize,
        style: Option<PartialParagraphStyle>,
        page_break: Option<bool>,
    },
}

/// The default `count` of paragraph-creating operations.
pub fn one_count() -> (n: usize)
    ensures
        n == 1,
{
    1
}

/// The default `char_offset` of `PressEnter`: the end of the paragraph.
pub fn default_char_offset() -> (n: i64)
    ensures
        n == -1,
{
    -1
}

/// A half-open range `[start, end)` of paragraph indices.
#[derive(Clone, Copy, Debug, PartialEq, Eq, Structural)]
pub struct ParaRange {
    pub start: usize,
    pub end: usize,
}

impl ParaRange {
    /// The range holding paragraph `para` alone.
    pub fn single(para: usize) -> (r: Self)
        requires
            para < usize::MAX,
        ensures
            r.start == para,
            r.end == para + 1,
    {
        ParaRange { start: para, end: para + 1 }
    }

    /// The empty range at `at`.
    pub fn empty(at: usize) -> (r: Self)
        ensures
            r.start == at,
            r.end == at,
    {
        ParaRange { start: at, end: at }
    }
}

/// The coordinates of a table-cell edit.
#[derive(Clone, Copy, Debug, PartialEq, Eq)]
pub struct CellFocus {
    pub table_para: usize,
    pub row: usize,
    pub col: usize,
    pub cell_idx: Option<usize>,
    pub cell_para: Option<usize>,
}

/// The paragraphs an operation touches before and after it applies, and the cell, if any.
#[derive(Clone, Copy, Debug, PartialEq, Eq)]
pub struct AffectedRange {
    pub section: usize,
    pub before: ParaRange,
    pub after: ParaRange,
    pub cell: Option<CellFocus>,
}

pub open spec fn single_range(p: int) -> ParaRange {
    ParaRange { start: p as usize, end: (p + 1) as usize }
}

pub open spec fn span_range(s: int, e: int) -> ParaRange {
    ParaRange { start: s as usize, end: e as usize }
}

pub open spec fn body_range(section: usize, before: ParaRange, after: ParaRange) -> AffectedRange {
    AffectedRange { section, before, after, cell: None }
}

pub open spec fn cell_range(
    section: usize,
    table_para: usize,
    row: usize,
    col: usize,
    cell_idx: Option<usize>,
    cell_para: Option<usize>,
) -> AffectedRange {
    AffectedRange {
        section,
        before: single_range(table_para as int),
        after: single_range(table_para as int),
        cell: Some(CellFocus { table_para, row, col, cell_idx, cell_para }),
    }
}

impl EditOperation {
    /// The index arithmetic of `affected_range` stays within `usize`.
    pub open spec fn affected_range_fits(&self) -> bool {
        match *self {
            EditOperation::InsertText { para, .. } => para + 1 <= usize::MAX,
            EditOperation::DeleteText { para, .. } => para + 1 <= usize::MAX,
            EditOperation::SplitParagraph { para, .. } => para + 2 <= usize::MAX,
            EditOperation::MergeParagraph { para, .. } => para + 1 <= usize::MAX,
            EditOperation::ReplaceRuns { para, .. } => para + 1 <= usize::MAX,
            EditOperation::SetParagraphStyle { para, .. } => para + 1 <= usize::MAX,
            EditOperation::DeleteRange { para_start, .. } => para_start + 1 <= usize::MAX,
            EditOperation::InsertParagraph { after_para, count, .. } => after_para + 1 + count
                <= usize::MAX,
            EditOperation::DeleteElement { para, .. } => para + 1 <= usize::MAX,
            EditOperation::InsertTable { insert_after_para, .. } => insert_after_para + 2
                <= usize::MAX,
            EditOperation::SetCellStyle { table_para, .. } => table_para + 1 <= usize::MAX,
            EditOperation::MergeCells { table_para, .. } => table_para + 1 <= usize::MAX,
            EditOperation::ReplaceCellRuns { table_para, .. } => table_para + 1 <= usize::MAX,
            EditOperation::InsertTextInCell { table_para, .. } => table_para + 1 <= usize::MAX,
            EditOperation::DeleteRangeInCell { table_para, .. } => table_para + 1 <= usize::MAX,
            EditOperation::InsertPageBreak { para, .. } => para + 2 <= usize::MAX,
            EditOperation::ReplaceCellRunsAtPath { path, .. } => path.steps@.len() == 0
                || path.steps@[0].para + 1 <= usize::MAX,
            EditOperation::PressEnter { para, table_para, cell_para, count, .. } => match table_para {
                Some(tp) => tp + 1 <= usize::MAX && match cell_para {
                    Some(cp) => cp + count <= usize::MAX,
                    None => true,
                },
                None => match para {
                    Some(p) => p + 1 + count <= usize::MAX,
                    None => 1 + count <= usize::MAX,
                },
            },
        }
    }

    /// Whether `affected_range` can be computed within `usize` (see `affected_range_fits`).
    pub fn range_fits(&self) -> (b: bool)
        ensures
            b == self.affected_range_fits(),
    {
        match self {
            EditOperation::InsertText { para, .. } => *para < usize::MAX,
            EditOperation::DeleteText { para, .. } => *para < usize::MAX,
            EditOperation::SplitParagraph { para, .. } => *para < usize::MAX - 1,
            EditOperation::MergeParagraph { para, .. } => *para < usize::MAX,
            EditOperation::ReplaceRuns { para, .. } => *para < usize::MAX,
            EditOperation::SetParagraphStyle { para, .. } => *para < usize::MAX,
            EditOperation::DeleteRange { para_start, .. } => *para_start < usize::MAX,
            EditOperation::InsertParagraph { after_para, count, .. } => *after_para < usize::MAX && *count
                <= usize::MAX - 1 - *after_para,
            EditOperation::DeleteElement { para, .. } => *para < usize::MAX,
            EditOperation::InsertTable { insert_after_para, .. } => *insert_after_para < usize::MAX - 1,
            EditOperation::SetCellStyle { table_para, .. } => *table_para < usize::MAX,
            EditOperation::MergeCells { table_para, .. } => *table_para < usize::MAX,
            EditOperation::ReplaceCellRuns { table_para, .. } => *table_para < usize::MAX,
            EditOperation::InsertTextInCell { table_para, .. } => *table_para < usize::MAX,
            EditOperation::DeleteRangeInCell { table_para, .. } => *table_para < usize::MAX,
            EditOperation::InsertPageBreak { para, .. } => *para < usize::MAX - 1,
            EditOperation::ReplaceCellRunsAtPath { path, .. } => path.steps.len() == 0 || path.steps[0].para
                < usize::MAX,
            EditOperation::PressEnter { para, table_para, cell_para, count, .. } => match table_para {
                Some(tp) => *tp < usize::MAX && match cell_para {
                    Some(cp) => *cp <= usize::MAX - *count,
                    None => true,
                },
                None => match para {
                    Some(p) => *p < usize::MAX && *count <= usize::MAX - 1 - *p,
                    None => *count < usize::MAX,
                },
            },
        }
    }

    /// The paragraphs (and cell) an operation touches, before and after it applies.
    pub open spec fn affected_range_spec(&self) -> AffectedRange {
        match *self {
            EditOperation::InsertText { section, para, .. } => body_range(
                section,
                single_range(para as int),
                single_range(para as int),
            ),
            EditOperation::DeleteText { section, para, .. } => body_range(
                section,
                single_range(para as int),
                single_range(para as int),
            ),
            EditOperation::SplitParagraph { section, para, .. } => body_range(
                section,
                single_range(para as int),
                span_range(para as int, para + 2),
            ),
            EditOperation::MergeParagraph { section, para, .. } => {
                let prev: int = if para == 0 { 0 } else { para - 1 };
                body_range(section, span_range(prev, para + 1), single_range(prev))
            },
            EditOperation::ReplaceRuns { section, para, .. } => body_range(
                section,
                single_range(para as int),
                single_range(para as int),
            ),
            EditOperation::SetParagraphStyle { section, para, .. } => body_range(
                section,
                single_range(para as int),
                single_range(para as int),
            ),
            EditOperation::DeleteRange { section, para_start, para_end, .. } => {
                let end: int = if para_end == usize::MAX { usize::MAX as int } else { para_end + 1 };
                body_range(section, span_range(para_start as int, end), single_range(para_start as int))
            },
            EditOperation::InsertParagraph { section, after_para, count, .. } => body_range(
                section,
                single_range(after_para as int),
                span_range(after_para as int, after_para + 1 + count),
            ),
            EditOperation::DeleteElement { section, para, element_type } => match element_type {
                ElementType::Paragraph => body_range(
                    section,
                    single_range(para as int),
                    span_range(para as int, para as int),
                ),
                ElementType::Table => body_range(
                    section,
                    single_range(para as int),
                    single_range(para as int),
                ),
            },
            EditOperation::InsertTable { section, insert_after_para, .. } => body_range(
                section,
                single_range(insert_after_para as int),
                span_range(insert_after_para as int, insert_after_para + 2),
            ),
            EditOperation::SetCellStyle { section, table_para, row, col, cell_idx, .. } =>
                cell_range(section, table_para, row, col, cell_idx, None),
            EditOperation::MergeCells { section, table_para, row_start, col_start, .. } =>
                cell_range(section, table_para, row_start, col_start, None, None),
            EditOperation::ReplaceCellRuns {
                section,
                table_para,
                row,
                col,
                cell_idx,
                cell_para,
                ..
            } => cell_range(section, table_para, row, col, cell_idx, Some(cell_para)),
            EditOperation::InsertTextInCell {
                section,
                table_para,
                row,
                col,
                cell_idx,
                cell_para,
                ..
            } => cell_range(section, table_para, row, col, cell_idx, Some(cell_para)),
            EditOperation::DeleteRangeInCell {
                section,
                table_para,
                row,
                col,
                cell_idx,
                cell_para_start,
                ..
            } => cell_range(section, table_para, row, col, cell_idx, Some(cell_para_start)),
            EditOperation::InsertPageBreak { section, para, .. } => body_range(
                section,
                single_range(para as int),
                span_range(para as int, para + 2),
            ),
            EditOperation::ReplaceCellRunsAtPath { section, path, .. } => {
                let outer: int = if path.steps@.len() == 0 { 0 } else { path.steps@[0].para as int };
                body_range(section, single_range(outer), single_range(outer))
            },
            EditOperation::PressEnter {
                section,
                para,
                table_para,
                row,
                col,
                cell_para,
                cell_idx,
                count,
                ..
            } => match table_para {
                Some(tp) => cell_range(
                    section,
                    tp,
                    match row { Some(r) => r, None => 0 },
                    match col { Some(c) => c, None => 0 },
                    cell_idx,
                    match cell_para { Some(cp) => Some((cp + count) as usize), None => None },
                ),
                None => {
                    let p: int = match para { Some(p) => p as int, None => 0 };
                    body_range(section, single_range(p), span_range(p, p + 1 + count))
                },
            },
        }
    }

    /// The paragraph range (and cell) that this operation touches, before and after it applies.
    pub fn affected_range(&self) -> (r: AffectedRange)
        requires
            self.affected_range_fits(),
        ensures
            r == self.affected_range_spec(),
    {
        match self {
            EditOperation::InsertText { section, para, .. } => AffectedRange {
                section: *section,
                before: ParaRange::single(*para),
                after: ParaRange::single(*para),
                cell: None,
            },
            EditOperation::DeleteText { section, para, .. } => AffectedRange {
                section: *section,
                before: ParaRange::single(*para),
                after: ParaRange::single(*para),
                cell: None,
            },
            EditOperation::SplitParagraph { section, para, .. } => AffectedRange {
                section: *section,
                before: ParaRange::single(*para),
                after: ParaRange { start: *para, end: *para + 2 },
                cell: None,
            },
            EditOperation::MergeParagraph { section, para, .. } => {
                let prev = para.saturating_sub(1);
                AffectedRange {
                    section: *section,
                    before: ParaRange { start: prev, end: *para + 1 },
                    after: ParaRange::single(prev),
                    cell: None,
                }
            },
            EditOperation::ReplaceRuns { section, para, .. } => AffectedRange {
                section: *section,
                before: ParaRange::single(*para),
                after: ParaRange::single(*para),
                cell: None,
            },
            EditOperation::SetParagraphStyle { section, para, .. } => AffectedRange {
                section: *section,
                before: ParaRange::single(*para),
                after: ParaRange::single(*para),
                cell: None,
            },
            EditOperation::DeleteRange { section, para_start, para_end, .. } => {
                let end_exclusive = para_end.saturating_add(1);
                AffectedRange {
                    section: *section,
                    before: ParaRange { start: *para_start, end: end_exclusive },
                    after: ParaRange::single(*para_start),
                    cell: None,
                }
            },
            EditOperation::InsertParagraph { section, after_para, count, .. } => AffectedRange {
                section: *section,
                before: ParaRange::single(*after_para),
                after: ParaRange { start: *after_para, end: *after_para + 1 + *count },
                cell: None,
            },
            EditOperation::DeleteElement { section, para, element_type } => match element_type {
                ElementType::Paragraph => AffectedRange {
                    section: *section,
                    before: ParaRange::single(*para),
                    after: ParaRange::empty(*para),
                    cell: None,
                },
                ElementType::Table => AffectedRange {
                    section: *section,
                    before: ParaRange::single(*para),
                    after: ParaRange::single(*para),
                    cell: None,
                },
            },
            EditOperation::InsertTable { section, insert_after_para, .. } => AffectedRange {
                section: *section,
                before: ParaRange::single(*insert_after_para),
                after: ParaRange { start: *insert_after_para, end: *insert_after_para + 2 },
                cell: None,
            },
            EditOperation::SetCellStyle { section, table_para, row, col, cell_idx, .. } =>
                AffectedRange {
                section: *section,
                before: ParaRange::single(*table_para),
                after: ParaRange::single(*table_para),
                cell: Some(
                    CellFocus {
                        table_para: *table_para,
                        row: *row,
                        col: *col,
                        cell_idx: *cell_idx,
                        cell_para: None,
                    },
                ),
            },
            EditOperation::MergeCells { section, table_para, row_start, col_start, .. } =>
                AffectedRange {
                section: *section,
                before: ParaRange::single(*table_para),
                after: ParaRange::single(*table_para),
                cell: Some(
                    CellFocus {
                        table_para: *table_para,
                        row: *row_start,
                        col: *col_start,
                        cell_idx: None,
                        cell_para: None,
                    },
                ),
            },
            EditOperation::ReplaceCellRuns {
                section,
                table_para,
                row,
                col,
                cell_idx,
                cell_para,
                ..
            } => AffectedRange {
                section: *section,
                before: ParaRange::single(*table_para),
                after: ParaRange::single(*table_para),
                cell: Some(
                    CellFocus {
                        table_para: *table_para,
                        row: *row,
                        col: *col,
                        cell_idx: *cell_idx,
                        cell_para: Some(*cell_para),
                    },
                ),
            },
            EditOperation::InsertTextInCell {
                section,
                table_para,
                row,
                col,
                cell_idx,
                cell_para,
                ..
            } => AffectedRange {
                section: *section,
                before: ParaRange::single(*table_para),
                after: ParaRange::single(*table_para),
                cell: Some(
                    CellFocus {
                        table_para: *table_para,
                        row: *row,
                        col: *col,
                        cell_idx: *cell_idx,
                        cell_para: Some(*cell_para),
                    },
                ),
            },
            EditOperation::DeleteRangeInCell {
                section,
                table_para,
                row,
                col,
                cell_idx,
                cell_para_start,
                ..
            } => AffectedRange {
                section: *section,
                before: ParaRange::single(*table_para),
                after: ParaRange::single(*table_para),
                cell: Some(
                    CellFocus {
                        table_para: *table_para,
                        row: *row,
                        col: *col,
                        cell_idx: *cell_idx,
                        cell_para: Some(*cell_para_start),
                    },
                ),
            },
            EditOperation::InsertPageBreak { section, para, .. } => AffectedRange {
                section: *section,
                before: ParaRange::single(*para),
                after: ParaRange { start: *para, end: *para + 2 },
                cell: None,
            },
            EditOperation::ReplaceCellRunsAtPath { section, path, .. } => {
                let outer_para = if path.steps.len() == 0 {
                    0
                } else {
                    path.steps[0].para
                };
                AffectedRange {
                    section: *section,
                    before: ParaRange::single(outer_para),
                    after: ParaRange::single(outer_para),
                    cell: None,
                }
            },
            EditOperation::PressEnter {
                section,
                para,
                table_para,
                row,
                col,
                cell_para,
                cell_idx,
                count,
                ..
            } => {
                match table_para {
                    Some(tp) => {
                        let r = match row {
                            Some(r) => *r,
                            None => 0,
                        };
                        let c = match col {
                            Some(c) => *c,
                            None => 0,
                        };
                        let cp = match cell_para {
                            Some(cp) => Some(*cp + *count),
                            None => None,
                        };
                        AffectedRange {
                            section: *section,
                            before: ParaRange::single(*tp),
                            after: ParaRange::single(*tp),
                            cell: Some(
                                CellFocus {
                                    table_para: *tp,
                                    row: r,
                                    col: c,
                                    cell_idx: *cell_idx,
                                    cell_para: cp,
                                },
                            ),
                        }
                    },
                    None => {
                        let p = match para {
                            Some(p) => *p,
                            None => 0,
                        };
                        AffectedRange {
                            section: *section,
                            before: ParaRange::single(p),
                            after: ParaRange { start: p, end: p + 1 + *count },
                            cell: None,
                        }
                    },
                }
            },
        }
    }
}

} // verus!

verus! {

pub type Members = Seq<(Seq<char>, JsonView)>;

pub open spec fn om_u32(key: Seq<char>, o: Option<u32>) -> Members {
    match o {
        Some(x) => seq![(key, JsonView::Int(x as int))],
        None => Seq::empty(),
    }
}

pub open spec fn om_u16(key: Seq<char>, o: Option<u16>) -> Members {
    match o {
        Some(x) => seq![(key, JsonView::Int(x as int))],
        None => Seq::empty(),
    }
}

pub open spec fn om_i16(key: Seq<char>, o: Option<i16>) -> Members {
    match o {
        Some(x) => seq![(key, JsonView::Int(x as int))],
        None => Seq::empty(),
    }
}

pub open spec fn om_i32(key: Seq<char>, o: Option<i32>) -> Members {
    match o {
        Some(x) => seq![(key, JsonView::Int(x as int))],
        None => Seq::empty(),
    }
}

pub open spec fn om_u8(key: Seq<char>, o: Option<u8>) -> Members {
    match o {
        Some(x) => seq![(key, JsonView::Int(x as int))],
        None => Seq::empty(),
    }
}

pub open spec fn om_bool(key: Seq<char>, o: Option<bool>) -> Members {
    match o {
        Some(x) => seq![(key, JsonView::Bool(x))],
        None => Seq::empty(),
    }
}

pub open spec fn om_str(key: Seq<char>, o: Option<String>) -> Members {
    match o {
        Some(x) => seq![(key, JsonView::Str(x@))],
        None => Seq::empty(),
    }
}

/// The native code of a cell's vertical alignment: top 0, middle/center 1, bottom 2
/// (anything else counts as top).
pub open spec fn valign_code(s: Seq<char>) -> int {
    if s == "middle"@ || s == "center"@ {
        1
    } else if s == "bottom"@ {
        2
    } else {
        0
    }
}

/// The native object of one border line.
pub open spec fn border_line_view(b: BorderLine) -> JsonView {
    JsonView::Object(om_str("color"@, b.color) + om_u32("width"@, b.width) + om_u8("type"@, b.line_type))
}

/// A side's own line, else the line given for all sides.
pub open spec fn side_or_all(side: Option<BorderLine>, all: Option<BorderLine>) -> Option<BorderLine> {
    match side {
        Some(l) => Some(l),
        None => all,
    }
}

pub open spec fn om_border(key: Seq<char>, o: Option<BorderLine>) -> Members {
    match o {
        Some(l) => seq![(key, border_line_view(l))],
        None => Seq::empty(),
    }
}

/// The native border members: each side takes its own line, else `all`.
pub open spec fn border_members(b: BorderSpec) -> Members {
    om_border("borderLeft"@, side_or_all(b.left, b.all)) + om_border(
        "borderRight"@,
        side_or_all(b.right, b.all),
    ) + om_border("borderTop"@, side_or_all(b.top, b.all)) + om_border(
        "borderBottom"@,
        side_or_all(b.bottom, b.all),
    )
}

pub open spec fn valign_members(o: Option<String>) -> Members {
    match o {
        Some(v) => seq![("verticalAlign"@, JsonView::Int(valign_code(v@)))],
        None => Seq::empty(),
    }
}

pub open spec fn fill_members(o: Option<String>) -> Members {
    match o {
        Some(bg) => seq![("fillType"@, JsonView::Str("solid"@)), ("fillColor"@, JsonView::Str(bg@))],
        None => Seq::empty(),
    }
}

pub open spec fn opt_border_members(o: Option<BorderSpec>) -> Members {
    match o {
        Some(b) => border_members(b),
        None => Seq::empty(),
    }
}

/// The native members of a partial cell style.
pub open spec fn cell_native_members(s: PartialCellStyle) -> Members {
    om_u32("width"@, s.width) + om_u32("height"@, s.height) + valign_members(s.vertical_align)
        + om_u16("borderFillId"@, s.border_fill_id) + om_bool("isHeader"@, s.is_header) + om_bool(
        "cellProtect"@,
        s.cell_protect,
    ) + fill_members(s.bgcolor) + opt_border_members(s.border) + om_i16(
        "paddingLeft"@,
        s.padding_left,
    ) + om_i16("paddingRight"@, s.padding_right) + om_i16("paddingTop"@, s.padding_top) + om_i16(
        "paddingBottom"@,
        s.padding_bottom,
    )
}

/// The native members of a partial run style (the font name is resolved separately).
pub open spec fn run_native_members(s: PartialRunStyle) -> Members {
    om_bool("bold"@, s.bold) + om_bool("italic"@, s.italic) + om_bool("underline"@, s.underline)
        + om_bool("strikethrough"@, s.strikethrough) + om_u16("fontSize"@, s.font_size) + om_str(
        "textColor"@,
        s.color,
    ) + om_str("shadeColor"@, s.highlight)
}

/// The native members of a partial paragraph style.
pub open spec fn para_native_members(s: PartialParagraphStyle) -> Members {
    om_str("alignment"@, s.align) + om_i32("lineSpacing"@, s.line_height) + om_i16(
        "marginLeft"@,
        s.margin_left,
    ) + om_i16("marginRight"@, s.margin_right) + om_i16("indent"@, s.indent) + om_i16(
        "spacingBefore"@,
        s.spacing_before,
    ) + om_i16("spacingAfter"@, s.spacing_after)
}

fn push_opt_u32(m: &mut Vec<JsonMember>, key: &str, o: Option<u32>)
    ensures
        object_view(final(m)@) == object_view(old(m)@) + om_u32(key@, o),
{
    if let Some(v) = o {
        push_member(m, key, JsonValue::Int(v as i64));
    }
    assert(object_view(m@) =~= object_view(old(m)@) + om_u32(key@, o));
}

fn push_opt_u16(m: &mut Vec<JsonMember>, key: &str, o: Option<u16>)
    ensures
        object_view(final(m)@) == object_view(old(m)@) + om_u16(key@, o),
{
    if let Some(v) = o {
        push_member(m, key, JsonValue::Int(v as i64));
    }
    assert(object_view(m@) =~= object_view(old(m)@) + om_u16(key@, o));
}

fn push_opt_i16(m: &mut Vec<JsonMember>, key: &str, o: Option<i16>)
    ensures
        object_view(final(m)@) == object_view(old(m)@) + om_i16(key@, o),
{
    if let Some(v) = o {
        push_member(m, key, JsonValue::Int(v as i64));
    }
    assert(object_view(m@) =~= object_view(old(m)@) + om_i16(key@, o));
}

fn push_opt_i32(m: &mut Vec<JsonMember>, key: &str, o: Option<i32>)
    ensures
        object_view(final(m)@) == object_view(old(m)@) + om_i32(key@, o),
{
    if let Some(v) = o {
        push_member(m, key, JsonValue::Int(v as i64));
    }
    assert(object_view(m@) =~= object_view(old(m)@) + om_i32(key@, o));
}

fn push_opt_u8(m: &mut Vec<JsonMember>, key: &str, o: Option<u8>)
    ensures
        object_view(final(m)@) == object_view(old(m)@) + om_u8(key@, o),
{
    if let Some(v) = o {
        push_member(m, key, JsonValue::Int(v as i64));
    }
    assert(object_view(m@) =~= object_view(old(m)@) + om_u8(key@, o));
}

fn push_opt_bool(m: &mut Vec<JsonMember>, key: &str, o: Option<bool>)
    ensures
        object_view(final(m)@) == object_view(old(m)@) + om_bool(key@, o),
{
    if let Some(v) = o {
        push_member(m, key, JsonValue::Bool(v));
    }
    assert(object_view(m@) =~= object_view(old(m)@) + om_bool(key@, o));
}

fn push_opt_str(m: &mut Vec<JsonMember>, key: &str, o: &Option<String>)
    ensures
        object_view(final(m)@) == object_view(old(m)@) + om_str(key@, *o),
{
    if let Some(v) = o {
        push_member(m, key, jstring(v));
    }
    assert(object_view(m@) =~= object_view(old(m)@) + om_str(key@, *o));
}

/// The native object of one border line: `color`, `width`, `type`.
pub fn border_line_to_json(b: &BorderLine) -> (v: JsonValue)
    ensures
        v@ == border_line_view(*b),
{
    let mut m: Vec<JsonMember> = Vec::new();
    assert(object_view(m@) =~= Seq::empty());
    push_opt_str(&mut m, "color", &b.color);
    push_opt_u32(&mut m, "width", b.width);
    push_opt_u8(&mut m, "type", b.line_type);
    assert(object_view(m@) =~= om_str("color"@, b.color) + om_u32("width"@, b.width) + om_u8(
        "type"@,
        b.line_type,
    ));
    JsonValue::Object(m)
}

fn push_border(m: &mut Vec<JsonMember>, key: &str, o: Option<&BorderLine>)
    ensures
        object_view(final(m)@) == object_view(old(m)@) + om_border(
            key@,
            match o {
                Some(l) => Some(*l),
                None => None,
            },
        ),
{
    if let Some(l) = o {
        push_member(m, key, border_line_to_json(l));
    }
    assert(object_view(m@) =~= object_view(old(m)@) + om_border(
        key@,
        match o {
            Some(l) => Some(*l),
            None => None,
        },
    ));
}

fn side_line<'a>(side: &'a Option<BorderLine>, all: Option<&'a BorderLine>) -> (r: Option<&'a BorderLine>)
    ensures
        match r {
            Some(l) => Some(*l),
            None => None,
        } == side_or_all(
            *side,
            match all {
                Some(l) => Some(*l),
                None => None,
            },
        ),
{
    match side {
        Some(l) => Some(l),
        None => all,
    }
}

fn push_valign(m: &mut Vec<JsonMember>, o: &Option<String>)
    ensures
        object_view(final(m)@) == object_view(old(m)@) + valign_members(*o),
{
    if let Some(s) = o {
        let u: i64 = if str_eq(s.as_str(), "middle") || str_eq(s.as_str(), "center") {
            1
        } else if str_eq(s.as_str(), "bottom") {
            2
        } else {
            0
        };
        push_member(m, "verticalAlign", JsonValue::Int(u));
    }
    assert(object_view(m@) =~= object_view(old(m)@) + valign_members(*o));
}

fn push_fill(m: &mut Vec<JsonMember>, o: &Option<String>)
    ensures
        object_view(final(m)@) == object_view(old(m)@) + fill_members(*o),
{
    if let Some(bg) = o {
        push_member(m, "fillType", jstr("solid"));
        push_member(m, "fillColor", jstring(bg));
    }
    assert(object_view(m@) =~= object_view(old(m)@) + fill_members(*o));
}

fn push_borders(m: &mut Vec<JsonMember>, o: &Option<BorderSpec>)
    ensures
        object_view(final(m)@) == object_view(old(m)@) + opt_border_members(*o),
{
    if let Some(border) = o {
        let base = match &border.all {
            Some(l) => Some(l),
            None => None,
        };
        push_border(m, "borderLeft", side_line(&border.left, base));
        push_border(m, "borderRight", side_line(&border.right, base));
        push_border(m, "borderTop", side_line(&border.top, base));
        push_border(m, "borderBottom", side_line(&border.bottom, base));
    }
    assert(object_view(m@) =~= object_view(old(m)@) + opt_border_members(*o));
}

/// The members that set a cell's properties natively: `bgcolor` becomes a solid fill,
/// `border.all` spreads to the four sides before a side's own line overrides it, and the
/// vertical alignment becomes a code.
#[verifier::rlimit(30)]
pub fn partial_cell_style_to_native(style: &PartialCellStyle) -> (v: JsonValue)
    ensures
        v@ == JsonView::Object(cell_native_members(*style)),
{
    let mut m: Vec<JsonMember> = Vec::new();
    assert(object_view(m@) =~= Seq::empty());
    push_opt_u32(&mut m, "width", style.width);
    push_opt_u32(&mut m, "height", style.height);
    push_valign(&mut m, &style.vertical_align);
    push_opt_u16(&mut m, "borderFillId", style.border_fill_id);
    push_opt_bool(&mut m, "isHeader", style.is_header);
    push_opt_bool(&mut m, "cellProtect", style.cell_protect);
    let ghost p6 = object_view(m@);
    assert(p6 =~= om_u32("width"@, style.width) + om_u32("height"@, style.height) + valign_members(
        style.vertical_align,
    ) + om_u16("borderFillId"@, style.border_fill_id) + om_bool("isHeader"@, style.is_header)
        + om_bool("cellProtect"@, style.cell_protect));
    push_fill(&mut m, &style.bgcolor);
    push_borders(&mut m, &style.border);
    push_opt_i16(&mut m, "paddingLeft", style.padding_left);
    push_opt_i16(&mut m, "paddingRight", style.padding_right);
    push_opt_i16(&mut m, "paddingTop", style.padding_top);
    push_opt_i16(&mut m, "paddingBottom", style.padding_bottom);
    assert(object_view(m@) =~= cell_native_members(*style));
    JsonValue::Object(m)
}

/// The native JSON text of a partial cell style.
pub fn partial_cell_style_to_native_json(style: &PartialCellStyle) -> (s: String)
    ensures
        s@ == json_text(JsonView::Object(cell_native_members(*style))),
{
    to_json_string(&partial_cell_style_to_native(style))
}

/// The members that apply a partial run style natively: `color` becomes `textColor`,
/// `highlight` becomes `shadeColor`; the font name is left for the caller to resolve.
pub fn partial_run_style_to_native(style: &PartialRunStyle) -> (v: JsonValue)
    ensures
        v@ == JsonView::Object(run_native_members(*style)),
{
    let mut m: Vec<JsonMember> = Vec::new();
    assert(object_view(m@) =~= Seq::empty());
    push_opt_bool(&mut m, "bold", style.bold);
    push_opt_bool(&mut m, "italic", style.italic);
    push_opt_bool(&mut m, "underline", style.underline);
    push_opt_bool(&mut m, "strikethrough", style.strikethrough);
    push_opt_u16(&mut m, "fontSize", style.font_size);
    push_opt_str(&mut m, "textColor", &style.color);
    push_opt_str(&mut m, "shadeColor", &style.highlight);
    assert(object_view(m@) =~= run_native_members(*style));
    JsonValue::Object(m)
}

/// The native JSON text of a partial run style.
pub fn partial_run_style_to_native_json(style: &PartialRunStyle) -> (s: String)
    ensures
        s@ == json_text(JsonView::Object(run_native_members(*style))),
{
    to_json_string(&partial_run_style_to_native(style))
}

/// The members that apply a partial paragraph style natively: `align` becomes `alignment`,
/// `line_height` becomes `lineSpacing`.
pub fn partial_paragraph_style_to_native(style: &PartialParagraphStyle) -> (v: JsonValue)
    ensures
        v@ == JsonView::Object(para_native_members(*style)),
{
    let mut m: Vec<JsonMember> = Vec::new();
    assert(object_view(m@) =~= Seq::empty());
    push_opt_str(&mut m, "alignment", &style.align);
    push_opt_i32(&mut m, "lineSpacing", style.line_height);
    push_opt_i16(&mut m, "marginLeft", style.margin_left);
    push_opt_i16(&mut m, "marginRight", style.margin_right);
    push_opt_i16(&mut m, "indent", style.indent);
    push_opt_i16(&mut m, "spacingBefore", style.spacing_before);
    push_opt_i16(&mut m, "spacingAfter", style.spacing_after);
    assert(object_view(m@) =~= para_native_members(*style));
    JsonValue::Object(m)
}

/// The native JSON text of a partial paragraph style.
pub fn partial_paragraph_style_to_native_json(style: &PartialParagraphStyle) -> (s: String)
    ensures
        s@ == json_text(JsonView::Object(para_native_members(*style))),
{
    to_json_string(&partial_paragraph_style_to_native(style))
}

} // verus!

verus! {

/// A run as the native editors take it: its text and, when styled, the native style members.
#[derive(Debug)]
pub struct NativeRun {
    pub text: String,
    pub style: Option<Vec<JsonMember>>,
}

/// The font name of a style, when it names one (an empty name names none).
pub open spec fn named_font(s: PartialRunStyle) -> Option<Seq<char>> {
    match s.font_name {
        Some(n) => if n@.len() > 0 {
            Some(n@)
        } else {
            None
        },
        None => None,
    }
}

/// `m` is the native form of the run style `s`: its native members, with `fontId` the index
/// in `fonts` of the font it names.
pub open spec fn native_style_of(s: PartialRunStyle, m: Seq<(Seq<char>, JsonView)>, fonts: Seq<String>) -> bool {
    match named_font(s) {
        None => m == run_native_members(s),
        Some(name) => exists|id: int|
            0 <= id < fonts.len() && #[trigger] fonts[id]@ == name && m == set_key(
                run_native_members(s),
                ("fontId"@, JsonView::Int((id as u16) as int)),
            ),
    }
}

/// `nr` is the native form of `run`, with font ids taken from `fonts`.
pub open spec fn native_run_of(run: RunSpec, nr: NativeRun, fonts: Seq<String>) -> bool {
    &&& nr.text@ == run.text@
    &&& match (run.style, nr.style) {
        (None, None) => true,
        (Some(s), Some(m)) => native_style_of(s, object_view(m@), fonts),
        _ => false,
    }
}

/// Each of `v` is the native form of the run of `runs` at its place.
pub open spec fn natives_of(runs: Seq<RunSpec>, v: Seq<NativeRun>, fonts: Seq<String>) -> bool {
    &&& v.len() == runs.len()
    &&& forall|i: int| 0 <= i < runs.len() ==> native_run_of(#[trigger] runs[i], v[i], fonts)
}

/// The texts of native runs, concatenated.
pub open spec fn natives_text(v: Seq<NativeRun>) -> Seq<char>
    decreases v.len(),
{
    if v.len() == 0 {
        Seq::empty()
    } else {
        natives_text(v.drop_last()) + v.last().text@
    }
}

/// The character formats that native runs give their concatenated text: one for each styled
/// run, over that run's characters, with its style members.
pub open spec fn run_formats(v: Seq<NativeRun>) -> Seq<(int, int, Seq<(Seq<char>, JsonView)>)>
    decreases v.len(),
{
    if v.len() == 0 {
        Seq::empty()
    } else {
        let start = natives_text(v.drop_last()).len() as int;
        match v.last().style {
            Some(m) => run_formats(v.drop_last()).push((start, start + v.last().text@.len(), object_view(m@))),
            None => run_formats(v.drop_last()),
        }
    }
}

/// `fs` are the character formats that `runs` give their concatenated text (see
/// `runs_text`): one for each styled run, over that run's characters, with the native form
/// of its style (fonts looked up in `fonts`).
pub open spec fn runs_formatted(runs: Seq<RunSpec>, fs: Seq<(int, int, Seq<(Seq<char>, JsonView)>)>, fonts: Seq<String>) -> bool
    decreases runs.len(),
{
    if runs.len() == 0 {
        fs.len() == 0
    } else {
        let start = runs_text(runs.drop_last()).len() as int;
        match runs.last().style {
            None => runs_formatted(runs.drop_last(), fs, fonts),
            Some(st) => {
                &&& fs.len() > 0
                &&& fs.last().0 == start
                &&& fs.last().1 == start + runs.last().text@.len()
                &&& native_style_of(st, fs.last().2, fonts)
                &&& runs_formatted(runs.drop_last(), fs.drop_last(), fonts)
            },
        }
    }
}

/// Native runs have the texts of the runs they stand for, and give them their formats.
pub proof fn lemma_natives_layout(runs: Seq<RunSpec>, v: Seq<NativeRun>, fonts: Seq<String>)
    requires
        natives_of(runs, v, fonts),
    ensures
        natives_text(v) == runs_text(runs),
        runs_formatted(runs, run_formats(v), fonts),
    decreases runs.len(),
{
    if runs.len() > 0 {
        let n = runs.len() - 1;
        assert(native_run_of(runs[n], v[n], fonts));
        assert forall|i: int| 0 <= i < runs.drop_last().len() implies native_run_of(#[trigger] runs.drop_last()[i], v.drop_last()[i], fonts) by {
            assert(native_run_of(runs[i], v[i], fonts));
        }
        lemma_natives_layout(runs.drop_last(), v.drop_last(), fonts);
        if let Some(m) = v.last().style {
            assert(run_formats(v).drop_last() =~= run_formats(v.drop_last()));
        }
    }
}

/// The concatenated text of native runs and the character formats they give it (see
/// `run_formats`).
pub fn native_runs_layout(v: Vec<NativeRun>) -> (r: (String, Vec<CharFormat>))
    ensures
        r.0@ == natives_text(v@),
        char_formats_view(r.1@) == run_formats(v@),
{
    let ghost orig = v@;
    let mut v = v;
    let mut text = String::new();
    let mut fs: Vec<CharFormat> = Vec::new();
    let ghost mut k: int = 0;
    while v.len() > 0
        invariant
            0 <= k <= orig.len(),
            v@ == orig.subrange(k, orig.len() as int),
            text@ == natives_text(orig.take(k)),
            char_formats_view(fs@) == run_formats(orig.take(k)),
        decreases v@.len(),
    {
        let NativeRun { text: t, style } = v.remove(0);
        assert(orig[k] == NativeRun { text: t, style });
        let start = crate::text_ops::char_len(text.as_str());
        text = crate::text_ops::concat_str(text.as_str(), t.as_str());
        let end = crate::text_ops::char_len(text.as_str());
        let ghost before = fs@;
        proof {
            assert(orig.take(k + 1).drop_last() =~= orig.take(k));
        }
        match style {
            Some(m) => {
                let ghost mv = object_view(m@);
                fs.push(CharFormat { start, end, style: m });
                assert(char_formats_view(fs@) =~= char_formats_view(before).push((start as int, end as int, mv)));
            },
            None => {},
        }
        proof {
            assert(v@ =~= orig.subrange(k + 1, orig.len() as int));
            k = k + 1;
        }
    }
    assert(orig.take(k) =~= orig);
    (text, fs)
}

/// The concatenated texts of runs.
pub open spec fn runs_text(runs: Seq<RunSpec>) -> Seq<char>
    decreases runs.len(),
{
    if runs.len() == 0 {
        Seq::empty()
    } else {
        runs_text(runs.drop_last()) + runs.last().text@
    }
}

/// Adds `fontId` to native style members when the style names a font; the font is looked up
/// in, or added to, the document's font table.
pub fn inject_font_id_into_run_style_json(
    core: &mut DocumentCore,
    members: Vec<JsonMember>,
    font_name: &Option<String>,
) -> (r: Result<Vec<JsonMember>, HwpError>)
    ensures
        final(core).document == old(core).document,
        final(core).border_fill_count == old(core).border_fill_count,
        forall|j: int| 0 <= j < old(core).font_names@.len() ==> final(core).font_names@[j] == old(core).font_names@[j],
        old(core).font_names@.len() <= final(core).font_names@.len() <= old(core).font_names@.len() + 1,
        r matches Err(e) ==> (font_name is Some && old(core).font_names@.len() >= i32::MAX
            && (e matches HwpError::RenderError(msg) && msg@ == "font_name 변환 실패: "@ + font_name->Some_0@)),
        r matches Ok(m) ==> match font_name {
            Some(n) => if n@.len() > 0 {
                exists|id: int|
                    0 <= id < final(core).font_names@.len() && #[trigger] final(core).font_names@[id]@ == n@
                        && object_view(m@) == set_key(object_view(members@), ("fontId"@, JsonView::Int((id as u16) as int)))
            } else {
                m == members
            },
            None => m == members,
        },
{
    let name = match font_name {
        Some(n) => n,
        None => {
            return Ok(members);
        },
    };
    if crate::text_ops::char_len(name.as_str()) == 0 {
        return Ok(members);
    }
    let font_id = core.find_or_create_font_id_native(name.as_str());
    if font_id < 0 {
        let msg = crate::text_ops::concat_str("font_name 변환 실패: ", name.as_str());
        return Err(HwpError::RenderError(msg));
    }
    let mut m = members;
    let short_id: u16 = #[verifier::truncate] (font_id as u16);
    set_member(&mut m, member("fontId", JsonValue::Int(short_id as i64)));
    assert(core.font_names@[font_id as int]@ == name@);
    Ok(m)
}

/// The native form of runs: each style becomes native members, with `fontId` added for
/// named fonts (registering new fonts in the document).
pub fn runs_to_native(core: &mut DocumentCore, runs: &Vec<RunSpec>) -> (r: Result<Vec<NativeRun>, HwpError>)
    ensures
        final(core).document == old(core).document,
        final(core).border_fill_count == old(core).border_fill_count,
        old(core).font_names@.len() <= final(core).font_names@.len() <= old(core).font_names@.len() + runs@.len(),
        forall|j: int| 0 <= j < old(core).font_names@.len() ==> final(core).font_names@[j] == old(core).font_names@[j],
        r matches Ok(v) ==> v@.len() == runs@.len() && forall|i: int|
            0 <= i < runs@.len() ==> native_run_of(#[trigger] runs@[i], v@[i], final(core).font_names@),
        r is Err ==> old(core).font_names@.len() + runs@.len() > i32::MAX
            && exists|i: int| 0 <= i < runs@.len() && (#[trigger] runs@[i]).style is Some,
{
    let mut out: Vec<NativeRun> = Vec::new();
    let mut i: usize = 0;
    while i < runs.len()
        invariant
            i <= runs@.len(),
            out@.len() == i,
            core.document == old(core).document,
            core.border_fill_count == old(core).border_fill_count,
            old(core).font_names@.len() <= core.font_names@.len() <= old(core).font_names@.len() + i,
            forall|j: int| 0 <= j < old(core).font_names@.len() ==> core.font_names@[j] == old(core).font_names@[j],
            forall|k: int| 0 <= k < i ==> native_run_of(#[trigger] runs@[k], out@[k], core.font_names@),
        decreases runs.len() - i,
    {
        let run = &runs[i];
        let ghost fonts_before = core.font_names@;
        let style = match &run.style {
            Some(s) => {
                let base = match partial_run_style_to_native(s) {
                    JsonValue::Object(m) => m,
                    _ => vstd::pervasive::unreached(),
                };
                match inject_font_id_into_run_style_json(core, base, &s.font_name) {
                    Ok(m) => Some(m),
                    Err(e) => {
                        return Err(e);
                    },
                }
            },
            None => None,
        };
        let nr = NativeRun { text: run.text.clone(), style };
        assert forall|k: int| 0 <= k < i implies native_run_of(#[trigger] runs@[k], out@[k], core.font_names@) by {
            let rk = runs@[k];
            if let (Some(s), Some(m)) = (rk.style, out@[k].style) {
                if let Some(name) = named_font(s) {
                    let id = choose|id: int|
                        0 <= id < fonts_before.len() && #[trigger] fonts_before[id]@ == name && object_view(m@) == set_key(
                            run_native_members(s),
                            ("fontId"@, JsonView::Int((id as u16) as int)),
                        );
                    assert(core.font_names@[id] == fonts_before[id]);
                }
            }
        }
        out.push(nr);
        i += 1;
    }
    Ok(out)
}

/// The concatenated texts of runs, as a string.
pub fn concat_run_texts(runs: &Vec<RunSpec>) -> (s: String)
    ensures
        s@ == runs_text(runs@),
{
    let mut s = String::new();
    let mut i: usize = 0;
    while i < runs.len()
        invariant
            i <= runs@.len(),
            s@ == runs_text(runs@.take(i as int)),
        decreases runs.len() - i,
    {
        s = crate::text_ops::concat_str(s.as_str(), runs[i].text.as_str());
        assert(runs@.take(i + 1).drop_last() =~= runs@.take(i as int));
        i += 1;
    }
    assert(runs@.take(runs@.len() as int) =~= runs@);
    s
}

/// A native run as JSON: its style members (when it has a style) under `style`, and its
/// text under `text`, in key order.
pub open spec fn native_run_view(nr: NativeRun) -> JsonView {
    JsonView::Object(
        (match nr.style {
            Some(m) => seq![("style"@, JsonView::Object(object_view(m@)))],
            None => Seq::empty(),
        }) + seq![("text"@, JsonView::Str(nr.text@))],
    )
}

/// Native runs as a JSON array (see `native_run_view`).
pub open spec fn native_runs_view(runs: Seq<NativeRun>) -> JsonView {
    JsonView::Array(Seq::new(runs.len(), |i: int| native_run_view(runs[i])))
}

/// The native runs as a JSON array of `{"style": .., "text": ..}` objects (see
/// `native_runs_view`).
pub fn native_runs_to_json(runs: Vec<NativeRun>) -> (v: JsonValue)
    ensures
        v@ == native_runs_view(runs@),
{
    let ghost orig = runs@;
    let ghost n = runs@.len();
    let mut items: Vec<JsonValue> = Vec::new();
    let mut runs = runs;
    while runs.len() > 0
        invariant
            items@.len() + runs@.len() == n,
            n == orig.len(),
            runs@ == orig.subrange(items@.len() as int, n as int),
            forall|j: int| 0 <= j < items@.len() ==> #[trigger] items@[j]@ == native_run_view(orig[j]),
        decreases runs.len(),
    {
        let ghost k: int = items@.len() as int;
        let r = runs.remove(0);
        assert(r == orig[k]);
        assert(runs@ =~= orig.subrange(k + 1, n as int));
        let mut m: Vec<JsonMember> = Vec::new();
        proof {
            crate::json::lemma_members_view(m@, 0);
        }
        assert(object_view(m@) =~= Seq::<(Seq<char>, JsonView)>::empty());
        let ghost rs = r.style;
        let ghost rt = r.text;
        if let Some(st) = r.style {
            proof {
                crate::json::lemma_members_view(st@, st@.len() as int);
            }
            push_member(&mut m, "style", JsonValue::Object(st));
        }
        push_member(&mut m, "text", JsonValue::Str(r.text));
        proof {
            crate::json::lemma_members_view(m@, m@.len() as int);
        }
        assert(object_view(m@) =~= native_run_view(orig[k as int])->Object_0);
        items.push(JsonValue::Object(m));
    }
    assert(crate::json::vals(items@) =~= Seq::new(n, |i: int| native_run_view(orig[i])));
    proof {
        crate::json::lemma_items_vals(items@);
    }
    JsonValue::Array(items)
}

/// The native JSON text of runs (see `native_runs_view`): each run's text and native style,
/// fonts resolved against, and added to, the document's font table as by `runs_to_native`.
pub fn runs_to_native_json(core: &mut DocumentCore, runs: &Vec<RunSpec>) -> (r: Result<String, HwpError>)
    ensures
        final(core).document == old(core).document,
        final(core).border_fill_count == old(core).border_fill_count,
        old(core).font_names@.len() <= final(core).font_names@.len() <= old(core).font_names@.len() + runs@.len(),
        forall|j: int| 0 <= j < old(core).font_names@.len() ==> final(core).font_names@[j] == old(core).font_names@[j],
        r matches Ok(s) ==> exists|v: Seq<NativeRun>|
            v.len() == runs@.len() && (forall|i: int|
                0 <= i < runs@.len() ==> native_run_of(#[trigger] runs@[i], v[i], final(core).font_names@))
                && s@ == json_text(native_runs_view(v)),
        r is Err ==> old(core).font_names@.len() + runs@.len() > i32::MAX
            && exists|i: int| 0 <= i < runs@.len() && (#[trigger] runs@[i]).style is Some,
{
    let native = runs_to_native(core, runs)?;
    let ghost v = native@;
    let s = to_json_string(&native_runs_to_json(native));
    assert(v.len() == runs@.len() && (forall|i: int|
        0 <= i < runs@.len() ==> native_run_of(#[trigger] runs@[i], v[i], core.font_names@))
        && s@ == json_text(native_runs_view(v)));
    Ok(s)
}

} // verus!
