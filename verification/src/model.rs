//! The document model: sections of paragraphs, paragraphs that carry controls,
//! tables whose cells hold paragraphs again.
use vstd::prelude::*;
use crate::json::{JsonMember, JsonView, object_view};

verus! {

/// A char-shape reference: from `start_pos` (a UTF-16 offset) on, `char_shape_id` applies.
#[derive(Clone, Copy, Debug, PartialEq, Eq)]
pub struct CharShapeRef {
    pub start_pos: u32,
    pub char_shape_id: u32,
}

/// One laid-out line of a paragraph.
#[derive(Clone, Copy, Debug, PartialEq, Eq)]
pub struct LineSeg {
    pub text_start: u32,
    pub vertical_pos: i32,
    pub line_height: i32,
    pub text_height: i32,
    pub baseline_distance: i32,
    pub line_spacing: i32,
    pub column_start: i32,
    pub segment_width: i32,
    pub tag: u32,
}

/// How a paragraph starts relative to the layout flow.
#[derive(Clone, Copy, Debug, PartialEq, Eq)]
pub enum ColumnBreakType {
    NoBreak,
    Section,
    MultiColumn,
    Page,
    Column,
}

/// Inner margins of a cell or table.
#[derive(Clone, Copy, Debug, PartialEq, Eq)]
pub struct Padding {
    pub left: i16,
    pub right: i16,
    pub top: i16,
    pub bottom: i16,
}

/// Vertical alignment of the content of a cell.
#[derive(Clone, Copy, Debug, PartialEq, Eq)]
pub enum VerticalAlign {
    Top,
    Center,
    Bottom,
}

/// Text wrapping of a floating object.
#[derive(Clone, Copy, Debug, PartialEq, Eq)]
pub enum TextWrap {
    Square,
    Tight,
    Through,
    TopAndBottom,
    BehindText,
    InFrontOfText,
}

/// How a table is split over pages.
#[derive(Clone, Copy, Debug, PartialEq, Eq)]
pub enum TablePageBreak {
    NoBreak,
    CellBreak,
    RowBreak,
}

#[derive(Clone, Copy, Debug, PartialEq, Eq)]
pub enum VertRelTo {
    Paper,
    Page,
    Para,
}

#[derive(Clone, Copy, Debug, PartialEq, Eq)]
pub enum HorzRelTo {
    Paper,
    Page,
    Column,
    Para,
}

#[derive(Clone, Copy, Debug, PartialEq, Eq)]
pub enum VertAlign {
    Top,
    Center,
    Bottom,
    Inside,
    Outside,
}

#[derive(Clone, Copy, Debug, PartialEq, Eq)]
pub enum HorzAlign {
    Left,
    Center,
    Right,
    Inside,
    Outside,
}

/// Placement attributes shared by floating objects.
#[derive(Clone, Copy, Debug, PartialEq, Eq)]
pub struct CommonObjAttr {
    pub instance_id: u32,
    pub z_order: i32,
    pub width: u32,
    pub height: u32,
    pub treat_as_char: bool,
    pub vertical_offset: u32,
    pub horizontal_offset: u32,
    pub text_wrap: TextWrap,
    pub vert_rel_to: VertRelTo,
    pub horz_rel_to: HorzRelTo,
    pub vert_align: VertAlign,
    pub horz_align: HorzAlign,
}

/// A paragraph: its text and the controls anchored in it.
#[derive(Debug)]
pub struct Paragraph {
    pub text: String,
    pub char_count: u32,
    pub para_shape_id: u16,
    pub style_id: u8,
    pub char_shapes: Vec<CharShapeRef>,
    pub char_offsets: Vec<u32>,
    pub line_segs: Vec<LineSeg>,
    pub controls: Vec<Control>,
    pub column_type: ColumnBreakType,
    /// Paragraph formatting applied through partial styles (key → value).
    pub format: Vec<JsonMember>,
    /// Character formatting applied through run styles, in the order applied (a later one
    /// wins where two overlap).
    pub char_format: Vec<CharFormat>,
}

/// Character formatting of a range: the characters from `start` up to `end` (character
/// offsets into the paragraph's text) carry the native style members `style`.
#[derive(Debug)]
pub struct CharFormat {
    pub start: usize,
    pub end: usize,
    pub style: Vec<JsonMember>,
}

/// The content of character formats: range and style members.
pub open spec fn char_formats_view(fs: Seq<CharFormat>) -> Seq<(int, int, Seq<(Seq<char>, JsonView)>)> {
    Seq::new(fs.len(), |i: int| (fs[i].start as int, fs[i].end as int, object_view(fs[i].style@)))
}

/// A table cell.
#[derive(Debug)]
pub struct Cell {
    pub row: u16,
    pub col: u16,
    pub row_span: u16,
    pub col_span: u16,
    pub width: u32,
    pub height: u32,
    pub border_fill_id: u16,
    pub vertical_align: VerticalAlign,
    pub text_direction: u8,
    pub is_header: bool,
    pub apply_inner_margin: bool,
    pub field_name: Option<String>,
    pub padding: Padding,
    pub paragraphs: Vec<Paragraph>,
    /// Cell properties applied through partial styles (key → value).
    pub format: Vec<JsonMember>,
}

/// A zone of cells sharing a border fill.
#[derive(Clone, Copy, Debug, PartialEq, Eq)]
pub struct CellZone {
    pub border_fill_id: u16,
}

/// A table control.
#[derive(Debug)]
pub struct Table {
    pub row_count: u16,
    pub col_count: u16,
    pub cell_spacing: i16,
    pub border_fill_id: u16,
    pub repeat_header: bool,
    pub page_break: TablePageBreak,
    pub attr: u32,
    pub raw_table_record_attr: u32,
    pub outer_margin_left: i16,
    pub outer_margin_right: i16,
    pub outer_margin_top: i16,
    pub outer_margin_bottom: i16,
    pub padding: Padding,
    pub common: CommonObjAttr,
    pub zones: Vec<CellZone>,
    pub cells: Vec<Cell>,
}

/// A control anchored in a paragraph. Only tables carry content that the editing logic reads.
#[derive(Debug)]
pub enum Control {
    SectionDef,
    ColumnDef,
    Table(Box<Table>),
    Shape,
    Picture,
    Header,
    Footer,
    Footnote,
    Endnote,
    AutoNumber,
    NewNumber,
    PageNumberPos,
    Bookmark,
    Hyperlink,
    Ruby,
    CharOverlap,
    PageHide,
    HiddenComment,
    Equation,
    Field,
    Form,
    Unknown,
}

/// A section: a run of paragraphs, and the raw record stream it was read from, if any.
#[derive(Debug)]
pub struct Section {
    pub paragraphs: Vec<Paragraph>,
    pub raw_stream: Option<Vec<u8>>,
}

/// A document: its sections.
#[derive(Debug)]
pub struct Document {
    pub sections: Vec<Section>,
}

} // verus!

verus! {

impl Paragraph {
    /// A paragraph holding `text` and nothing else.
    pub fn with_text(text: String) -> (p: Paragraph)
        ensures
            p.text@ == text@,
            p.char_count == 0,
            p.para_shape_id == 0,
            p.style_id == 0,
            p.char_shapes@.len() == 0,
            p.char_offsets@.len() == 0,
            p.line_segs@.len() == 0,
            p.controls@.len() == 0,
            p.column_type == ColumnBreakType::NoBreak,
            p.format@.len() == 0,
            p.char_format@.len() == 0,
    {
        Paragraph {
            text,
            char_count: 0,
            para_shape_id: 0,
            style_id: 0,
            char_shapes: Vec::new(),
            char_offsets: Vec::new(),
            line_segs: Vec::new(),
            controls: Vec::new(),
            column_type: ColumnBreakType::NoBreak,
            format: Vec::new(),
            char_format: Vec::new(),
        }
    }
}

/// The texts of a list of paragraphs.
pub open spec fn texts(ps: Seq<Paragraph>) -> Seq<Seq<char>> {
    Seq::new(ps.len(), |i: int| ps[i].text@)
}

/// `a` and `b` agree on everything but the text.
pub open spec fn same_but_text(a: Paragraph, b: Paragraph) -> bool {
    &&& a.char_count == b.char_count
    &&& a.para_shape_id == b.para_shape_id
    &&& a.style_id == b.style_id
    &&& a.char_shapes == b.char_shapes
    &&& a.char_offsets == b.char_offsets
    &&& a.line_segs == b.line_segs
    &&& a.controls == b.controls
    &&& a.column_type == b.column_type
    &&& a.format == b.format
    &&& a.char_format == b.char_format
}

} // verus!

verus! {

impl CommonObjAttr {
    /// Placement of an inline object with no offset and no size yet.
    pub fn inline_default() -> (c: CommonObjAttr)
        ensures
            c.width == 0 && c.height == 0 && c.treat_as_char,
    {
        CommonObjAttr {
            instance_id: 0,
            z_order: 0,
            width: 0,
            height: 0,
            treat_as_char: true,
            vertical_offset: 0,
            horizontal_offset: 0,
            text_wrap: TextWrap::TopAndBottom,
            vert_rel_to: VertRelTo::Para,
            horz_rel_to: HorzRelTo::Para,
            vert_align: VertAlign::Top,
            horz_align: HorzAlign::Left,
        }
    }
}

impl Padding {
    pub fn zero() -> (p: Padding)
        ensures
            p.left == 0 && p.right == 0 && p.top == 0 && p.bottom == 0,
    {
        Padding { left: 0, right: 0, top: 0, bottom: 0 }
    }
}

impl Cell {
    /// An empty cell at `(row, col)`, spanning one row and one column, holding one empty paragraph.
    pub fn new(row: u16, col: u16) -> (c: Cell)
        ensures
            c.row == row,
            c.col == col,
            c.row_span == 1,
            c.col_span == 1,
            c.border_fill_id == 0,
            c.paragraphs@.len() == 1,
            c.paragraphs@[0].text@.len() == 0,
            c.paragraphs@[0].controls@.len() == 0,
            c.format@.len() == 0,
    {
        let mut paragraphs: Vec<Paragraph> = Vec::new();
        paragraphs.push(Paragraph::with_text(String::new()));
        Cell {
            row,
            col,
            row_span: 1,
            col_span: 1,
            width: 0,
            height: 0,
            border_fill_id: 0,
            vertical_align: VerticalAlign::Top,
            text_direction: 0,
            is_header: false,
            apply_inner_margin: false,
            field_name: None,
            padding: Padding::zero(),
            paragraphs,
            format: Vec::new(),
        }
    }
}

/// A cell as a new table has it: spanning one row and one column, holding one empty
/// paragraph with no controls.
pub open spec fn fresh_cell(c: Cell) -> bool {
    &&& c.row_span == 1
    &&& c.col_span == 1
    &&& c.paragraphs@.len() == 1
    &&& c.paragraphs@[0].text@.len() == 0
    &&& c.paragraphs@[0].controls@.len() == 0
}

impl Table {
    /// A table with no cells yet.
    pub fn empty(rows: u16, cols: u16) -> (t: Table)
        ensures
            t.row_count == rows,
            t.col_count == cols,
            t.cells@.len() == 0,
            t.border_fill_id == 0,
    {
        Table {
            row_count: rows,
            col_count: cols,
            cell_spacing: 0,
            border_fill_id: 0,
            repeat_header: false,
            page_break: TablePageBreak::CellBreak,
            attr: 0,
            raw_table_record_attr: 0,
            outer_margin_left: 0,
            outer_margin_right: 0,
            outer_margin_top: 0,
            outer_margin_bottom: 0,
            padding: Padding::zero(),
            common: CommonObjAttr::inline_default(),
            zones: Vec::new(),
            cells: Vec::new(),
        }
    }

    /// A `rows` × `cols` table of empty cells, listed row by row.
    pub fn new_grid(rows: u16, cols: u16) -> (t: Table)
        ensures
            t.row_count == rows,
            t.col_count == cols,
            t.cells@.len() == rows * cols,
            forall|i: int| 0 <= i < t.cells@.len() ==> {
                &&& #[trigger] t.cells@[i].row == i / (cols as int)
                &&& t.cells@[i].col == i % (cols as int)
                &&& fresh_cell(t.cells@[i])
            },
    {
        let mut t = Table::empty(rows, cols);
        let mut r: u16 = 0;
        while r < rows
            invariant
                r <= rows,
                t.row_count == rows,
                t.col_count == cols,
                t.cells@.len() == r * cols,
                forall|i: int| 0 <= i < t.cells@.len() ==> {
                    &&& #[trigger] t.cells@[i].row == i / (cols as int)
                    &&& t.cells@[i].col == i % (cols as int)
                    &&& fresh_cell(t.cells@[i])
                },
            decreases rows - r,
        {
            let mut c: u16 = 0;
            while c < cols
                invariant
                    r < rows,
                    c <= cols,
                    t.row_count == rows,
                    t.col_count == cols,
                    t.cells@.len() == r * cols + c,
                    forall|i: int| 0 <= i < t.cells@.len() ==> {
                        &&& #[trigger] t.cells@[i].row == i / (cols as int)
                        &&& t.cells@[i].col == i % (cols as int)
                        &&& fresh_cell(t.cells@[i])
                    },
                decreases cols - c,
            {
                proof {
                    let i = (r * cols + c) as int;
                    assert(i / (cols as int) == r as int && i % (cols as int) == c as int) by (nonlinear_arith)
                        requires
                            i == r * cols + c,
                            0 <= c < cols,
                            0 <= r,
                    {
                        vstd::arithmetic::div_mod::lemma_fundamental_div_mod_converse(i, cols as int, r as int, c as int);
                    }
                }
                t.cells.push(Cell::new(r, c));
                c += 1;
            }
            proof {
                assert((r + 1) * cols == r * cols + cols) by (nonlinear_arith);
            }
            r += 1;
        }
        t
    }
}

} // verus!
