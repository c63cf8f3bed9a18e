//! Building the IR paragraphs of a slice from the document tree: text paragraphs with their
//! runs of equal style, tables with their cells and the cells' paragraphs. The styles come
//! from the document's formatting tables and from the character styles the document engine
//! resolves, which the caller hands in.
use vstd::prelude::*;
use crate::ir_compact::{
    BuildOptions, IrAnchor, IrDocMeta, CellLocator, ParaShape, page_display, slice_anchor, slice_range, ParagraphStyle, ResolvedBorderStyle, RunStyle, cell_to_cell_style, is_cell_style_of,
    is_para_style_of, para_shape_to_para_style,
};
use crate::ir_outline::{IrParagraph, IrTableCell, IrTableParagraph, IrTextParagraph};
use crate::ir_slice::{CompactIrSlice, IrSlice, StyleView, compact_ir_slice, compacted_slice, collect_runs, copy_style, runs_of, style_view, views_of};
use crate::edit_op::{AffectedRange, ParaRange};
use crate::ir_compact::{Detail, StyleLevel, TableLevel};
use crate::ir_filter::{apply_style_filter, apply_table_filter, para_filtered, table_filtered};
use crate::ir_slice::{omit_run_style_defaults, run_style_diff};
use crate::ir_outline::{omit_para_style_defaults, style_diff};
use crate::ir_outline::{build_outline_paragraph, build_structure_paragraph, outline_view, structure_view};
use crate::json::{JsonMember, JsonValue, JsonView, lemma_members_view, nat_digits, object_view, push_member, write_nat};
use crate::patch::{PatchTarget, is_target_of, slice_to_target};
use crate::model::{Cell, ColumnBreakType, Control, Document, Paragraph, Table};
use crate::text::push_str;

verus! {

/// The formatting tables paragraphs are styled from: the document's paragraph shapes, and
/// the border styles resolved from its border fills (fill id `n` is entry `n - 1`).
#[derive(Debug)]
pub struct StyleTables {
    pub para_shapes: Vec<ParaShape>,
    pub border_styles: Vec<ResolvedBorderStyle>,
}

/// The character styles the document engine resolves for one body paragraph: one per
/// character of its text, and, for its first table, one per character of each paragraph of
/// each cell (`cells[cell][paragraph][character]`). A missing entry stands for the plain
/// style.
#[derive(Debug)]
pub struct ParagraphCharStyles {
    pub text: Vec<RunStyle>,
    pub cells: Vec<Vec<Vec<RunStyle>>>,
}

// ─── styles ─────────────────────────────────────────────────────────────

/// The view of the plain style (nothing set).
pub open spec fn plain_view() -> StyleView {
    ((None, None, None, None), (None, None, None, None), (None, None, None))
}

/// The style view of character `k` under `st`: its entry, the plain style past the end.
pub open spec fn style_at(st: Seq<RunStyle>, k: int) -> StyleView {
    if 0 <= k < st.len() {
        style_view(st[k])
    } else {
        plain_view()
    }
}

/// The style views of a text of `n` characters (one view for an empty text).
pub open spec fn char_views(st: Seq<RunStyle>, n: int) -> Seq<StyleView> {
    Seq::new(
        if n <= 0 {
            1nat
        } else {
            n as nat
        },
        |k: int| style_at(st, k),
    )
}

/// `st` is the served style of paragraph shape `id`: the shape's when the table has it,
/// else nothing set.
pub open spec fn para_style_for(shapes: Seq<ParaShape>, id: int, st: ParagraphStyle) -> bool {
    if 0 <= id < shapes.len() {
        is_para_style_of(st, shapes[id])
    } else {
        st.align is None && st.indent is None && st.line_height is None
    }
}

/// The resolved border style of border fill `id` (none for 0 or an unknown fill).
pub open spec fn border_for(styles: Seq<ResolvedBorderStyle>, id: int) -> Option<ResolvedBorderStyle> {
    if 1 <= id && id - 1 < styles.len() {
        Some(styles[id - 1])
    } else {
        None
    }
}

fn para_style_for_id(shapes: &Vec<ParaShape>, id: u16) -> (st: ParagraphStyle)
    ensures
        para_style_for(shapes@, id as int, st),
{
    if (id as usize) < shapes.len() {
        para_shape_to_para_style(&shapes[id as usize])
    } else {
        ParagraphStyle { align: None, indent: None, line_height: None }
    }
}

fn plain_style() -> (s: RunStyle)
    ensures
        style_view(s) == plain_view(),
{
    RunStyle {
        bold: None,
        italic: None,
        underline: None,
        strikethrough: None,
        color: None,
        highlight: None,
        font_size: None,
        font_name: None,
        char_spacing: None,
        char_width: None,
        vertical_align: None,
    }
}

/// The styles of a text of `len` characters: one per character (one for an empty text),
/// taken from `st`, plain past its end.
fn styles_for(st: &Vec<RunStyle>, len: usize) -> (r: Vec<RunStyle>)
    ensures
        views_of(r@) == char_views(st@, len as int),
        r@.len() == if len == 0 {
            1
        } else {
            len
        },
{
    let n: usize = if len == 0 {
        1
    } else {
        len
    };
    let mut r: Vec<RunStyle> = Vec::new();
    let mut k: usize = 0;
    while k < n
        invariant
            k <= n,
            r@.len() == k,
            forall|j: int| 0 <= j < k ==> #[trigger] style_view(r@[j]) == style_at(st@, j),
        decreases n - k,
    {
        if k < st.len() {
            r.push(copy_style(&st[k]));
        } else {
            r.push(plain_style());
        }
        k += 1;
    }
    assert(views_of(r@) =~= char_views(st@, len as int));
    r
}

// ─── ids ────────────────────────────────────────────────────────────────

/// The id of body paragraph `para` of section `sec`: `p_<sec>_<para>`.
pub open spec fn body_id(sec: nat, para: nat) -> Seq<char> {
    "p_"@ + nat_digits(sec) + "_"@ + nat_digits(para)
}

/// The id of a cell paragraph: `p_<sec>_<table paragraph>_c<control>_<cell>_<paragraph>`.
pub open spec fn cell_para_id(sec: nat, parent: nat, ctrl: nat, cell: nat, cp: nat) -> Seq<char> {
    "p_"@ + nat_digits(sec) + "_"@ + nat_digits(parent) + "_c"@ + nat_digits(ctrl) + "_"@ + nat_digits(cell)
        + "_"@ + nat_digits(cp)
}

fn make_body_id(sec: usize, para: usize) -> (s: String)
    ensures
        s@ == body_id(sec as nat, para as nat),
{
    let mut s = String::from_str("p_");
    write_nat(&mut s, sec as u64);
    push_str(&mut s, "_");
    write_nat(&mut s, para as u64);
    proof {
        reveal_strlit("p_");
        reveal_strlit("_");
    }
    assert(s@ =~= body_id(sec as nat, para as nat));
    s
}

fn make_cell_para_id(sec: usize, parent: usize, ctrl: usize, cell: usize, cp: usize) -> (s: String)
    ensures
        s@ == cell_para_id(sec as nat, parent as nat, ctrl as nat, cell as nat, cp as nat),
{
    let mut s = String::from_str("p_");
    write_nat(&mut s, sec as u64);
    push_str(&mut s, "_");
    write_nat(&mut s, parent as u64);
    push_str(&mut s, "_c");
    write_nat(&mut s, ctrl as u64);
    push_str(&mut s, "_");
    write_nat(&mut s, cell as u64);
    push_str(&mut s, "_");
    write_nat(&mut s, cp as u64);
    proof {
        reveal_strlit("p_");
        reveal_strlit("_");
        reveal_strlit("_c");
    }
    assert(s@ =~= cell_para_id(sec as nat, parent as nat, ctrl as nat, cell as nat, cp as nat));
    s
}

// ─── text paragraphs ────────────────────────────────────────────────────

/// Whether a paragraph starts a new page.
pub open spec fn starts_page(p: Paragraph) -> bool {
    p.column_type == ColumnBreakType::Page
}

/// `t` is body paragraph `para` of section `sec` (paragraph `p`) as built: its id, section
/// and index, its shape's style, its runs under the character styles `st`, no locator, and
/// the page-break marker when it starts a page.
pub open spec fn text_para_built(
    t: IrTextParagraph,
    p: Paragraph,
    shapes: Seq<ParaShape>,
    sec: usize,
    para: usize,
    st: Seq<RunStyle>,
) -> bool {
    &&& t.id@ == body_id(sec as nat, para as nat)
    &&& t.sec == sec
    &&& t.para == para as i64
    &&& para_style_for(shapes, p.para_shape_id as int, t.style)
    &&& runs_of(t.runs@, p.text@, char_views(st, p.text@.len() as int))
    &&& t.cell_locator is None
    &&& t.page_break == if starts_page(p) {
        Some(true)
    } else {
        None
    }
}

/// Builds body paragraph `para` of section `sec` (see `text_para_built`); `st` holds the
/// character styles of its text.
pub fn build_text_paragraph(doc: &Document, tables: &StyleTables, sec: usize, para: usize, st: &Vec<RunStyle>) -> (t: IrTextParagraph)
    requires
        sec < doc.sections@.len(),
        para < doc.sections@[sec as int].paragraphs@.len(),
    ensures
        text_para_built(t, doc.sections@[sec as int].paragraphs@[para as int], tables.para_shapes@, sec, para, st@),
{
    let p = &doc.sections[sec].paragraphs[para];
    let len = crate::text_ops::char_len(p.text.as_str());
    let para_style = para_style_for_id(&tables.para_shapes, p.para_shape_id);
    let styles = styles_for(st, len);
    let runs = collect_runs(p.text.as_str(), &styles);
    let page_break = match p.column_type {
        ColumnBreakType::Page => Some(true),
        _ => None,
    };
    IrTextParagraph {
        id: make_body_id(sec, para),
        sec,
        para: #[verifier::truncate] (para as i64),
        style: para_style,
        runs,
        cell_locator: None,
        page_break,
    }
}

// ─── tables ─────────────────────────────────────────────────────────────

/// The table of control `ctrl` of body paragraph `para` of section `sec`, if that control
/// exists and is a table.
pub open spec fn table_at(doc: Document, sec: int, para: int, ctrl: int) -> Option<Table> {
    if 0 <= sec < doc.sections@.len() && 0 <= para < doc.sections@[sec].paragraphs@.len() && 0 <= ctrl
        < doc.sections@[sec].paragraphs@[para].controls@.len() {
        match doc.sections@[sec].paragraphs@[para].controls@[ctrl] {
            Control::Table(t) => Some(*t),
            _ => None,
        }
    } else {
        None
    }
}

/// Cell `cell` of that table, if it exists.
pub open spec fn cell_at(doc: Document, sec: int, para: int, ctrl: int, cell: int) -> Option<Cell> {
    match table_at(doc, sec, para, ctrl) {
        Some(t) => if 0 <= cell < t.cells@.len() {
            Some(t.cells@[cell])
        } else {
            None
        },
        None => None,
    }
}

/// Paragraph `cp` of that cell, if it exists.
pub open spec fn cell_para_at(doc: Document, sec: int, para: int, ctrl: int, cell: int, cp: int) -> Option<Paragraph> {
    match cell_at(doc, sec, para, ctrl, cell) {
        Some(c) => if 0 <= cp < c.paragraphs@.len() {
            Some(c.paragraphs@[cp])
        } else {
            None
        },
        None => None,
    }
}

/// `t` is cell paragraph `cp` of cell `cell` as built, `found` the paragraph when it
/// exists: its id, section, index -1, its shape's style (shape 0 when it does not exist),
/// its runs under the character styles `st` (one empty plain run when it does not exist),
/// its locator, and no page-break marker.
pub open spec fn cell_para_built(
    t: IrTextParagraph,
    found: Option<Paragraph>,
    shapes: Seq<ParaShape>,
    sec: usize,
    parent: usize,
    ctrl: usize,
    cell: usize,
    cp: usize,
    row: u16,
    col: u16,
    st: Seq<RunStyle>,
) -> bool {
    &&& t.id@ == cell_para_id(sec as nat, parent as nat, ctrl as nat, cell as nat, cp as nat)
    &&& t.sec == sec
    &&& t.para == -1
    &&& para_style_for(
        shapes,
        match found {
            Some(p) => p.para_shape_id as int,
            None => 0,
        },
        t.style,
    )
    &&& match found {
        Some(p) => runs_of(t.runs@, p.text@, char_views(st, p.text@.len() as int)),
        None => runs_of(t.runs@, Seq::empty(), seq![plain_view()]),
    }
    &&& t.cell_locator == Some(CellLocator { table_para: parent, row, col, cell_para: cp })
    &&& t.page_break is None
}

fn find_cell_para<'a>(doc: &'a Document, sec: usize, parent: usize, ctrl: usize, cell: usize, cp: usize) -> (r: Option<&'a Paragraph>)
    ensures
        match r {
            Some(p) => cell_para_at(*doc, sec as int, parent as int, ctrl as int, cell as int, cp as int) == Some(*p),
            None => cell_para_at(*doc, sec as int, parent as int, ctrl as int, cell as int, cp as int) is None,
        },
{
    if sec >= doc.sections.len() || parent >= doc.sections[sec].paragraphs.len() || ctrl
        >= doc.sections[sec].paragraphs[parent].controls.len() {
        return None;
    }
    match &doc.sections[sec].paragraphs[parent].controls[ctrl] {
        Control::Table(t) => {
            if cell < t.cells.len() && cp < t.cells[cell].paragraphs.len() {
                Some(&t.cells[cell].paragraphs[cp])
            } else {
                None
            }
        },
        _ => None,
    }
}

/// Builds paragraph `cp` of cell `cell` of the table in control `ctrl` of body paragraph
/// `parent` (see `cell_para_built`); `st` holds the character styles of its text. Never
/// fails: a missing paragraph gives an empty one.
pub fn build_cell_paragraph(
    doc: &Document,
    tables: &StyleTables,
    sec: usize,
    parent_para: usize,
    control_idx: usize,
    cell_idx: usize,
    cell_para: usize,
    cell_row: u16,
    cell_col: u16,
    st: &Vec<RunStyle>,
) -> (t: IrTextParagraph)
    ensures
        cell_para_built(
            t,
            cell_para_at(*doc, sec as int, parent_para as int, control_idx as int, cell_idx as int, cell_para as int),
            tables.para_shapes@,
            sec,
            parent_para,
            control_idx,
            cell_idx,
            cell_para,
            cell_row,
            cell_col,
            st@,
        ),
{
    let found = find_cell_para(doc, sec, parent_para, control_idx, cell_idx, cell_para);
    let (para_style, runs) = match found {
        Some(p) => {
            let len = crate::text_ops::char_len(p.text.as_str());
            let styles = styles_for(st, len);
            (para_style_for_id(&tables.para_shapes, p.para_shape_id), collect_runs(p.text.as_str(), &styles))
        },
        None => {
            let styles = vec![plain_style()];
            assert(views_of(styles@) =~= seq![plain_view()]);
            proof {
                reveal_strlit("");
            }
            (para_style_for_id(&tables.para_shapes, 0), collect_runs("", &styles))
        },
    };
    IrTextParagraph {
        id: make_cell_para_id(sec, parent_para, control_idx, cell_idx, cell_para),
        sec,
        para: -1,
        style: para_style,
        runs,
        cell_locator: Some(CellLocator { table_para: parent_para, row: cell_row, col: cell_col, cell_para }),
        page_break: None,
    }
}

/// The character styles of paragraph `cp` of a cell: its entry, none past the end.
pub open spec fn styles_of(st: Seq<Vec<RunStyle>>, cp: int) -> Seq<RunStyle> {
    if 0 <= cp < st.len() {
        st[cp]@
    } else {
        Seq::empty()
    }
}

/// The character styles of the paragraphs of cell `i`: its entry, none past the end.
pub open spec fn cell_styles_of(st: Seq<Vec<Vec<RunStyle>>>, i: int) -> Seq<Vec<RunStyle>> {
    if 0 <= i < st.len() {
        st[i]@
    } else {
        Seq::empty()
    }
}

/// `c` is cell `idx` (`cell`) of the table in control `ctrl` of body paragraph `parent` as
/// built: its row and column, its spans when above 1, its style under its border fill's
/// resolved style, and each of its paragraphs as a text paragraph.
pub open spec fn cell_built(
    c: IrTableCell,
    cell: Cell,
    tables: StyleTables,
    sec: usize,
    parent: usize,
    ctrl: usize,
    idx: usize,
    st: Seq<Vec<RunStyle>>,
) -> bool {
    &&& c.row == cell.row
    &&& c.col == cell.col
    &&& c.row_span == if cell.row_span > 1 {
        Some(cell.row_span)
    } else {
        None
    }
    &&& c.col_span == if cell.col_span > 1 {
        Some(cell.col_span)
    } else {
        None
    }
    &&& is_cell_style_of(c.style, cell, border_for(tables.border_styles@, cell.border_fill_id as int))
    &&& c.paragraphs@.len() == cell.paragraphs@.len()
    &&& forall|cp: int|
        0 <= cp < c.paragraphs@.len() ==> (#[trigger] c.paragraphs@[cp] matches IrParagraph::Text(t)
            && cell_para_built(
            t,
            Some(cell.paragraphs@[cp]),
            tables.para_shapes@,
            sec,
            parent,
            ctrl,
            idx,
            cp as usize,
            cell.row,
            cell.col,
            styles_of(st, cp),
        ))
}

fn find_cell<'a>(doc: &'a Document, sec: usize, parent: usize, ctrl: usize, cell: usize) -> (r: Option<&'a Cell>)
    ensures
        match r {
            Some(c) => cell_at(*doc, sec as int, parent as int, ctrl as int, cell as int) == Some(*c),
            None => cell_at(*doc, sec as int, parent as int, ctrl as int, cell as int) is None,
        },
{
    if sec >= doc.sections.len() || parent >= doc.sections[sec].paragraphs.len() || ctrl
        >= doc.sections[sec].paragraphs[parent].controls.len() {
        return None;
    }
    match &doc.sections[sec].paragraphs[parent].controls[ctrl] {
        Control::Table(t) => {
            if cell < t.cells.len() {
                Some(&t.cells[cell])
            } else {
                None
            }
        },
        _ => None,
    }
}

/// Builds cell `cell_idx` of the table in control `control_idx` of body paragraph
/// `parent_para` (see `cell_built`); `st` holds the character styles of its paragraphs.
/// `None` when there is no such table or cell.
pub fn try_build_cell(
    doc: &Document,
    tables: &StyleTables,
    sec: usize,
    parent_para: usize,
    control_idx: usize,
    cell_idx: usize,
    st: &Vec<Vec<RunStyle>>,
) -> (r: Option<IrTableCell>)
    ensures
        match r {
            Some(c) => cell_at(*doc, sec as int, parent_para as int, control_idx as int, cell_idx as int) matches Some(
                cell,
            ) && cell_built(c, cell, *tables, sec, parent_para, control_idx, cell_idx, st@),
            None => cell_at(*doc, sec as int, parent_para as int, control_idx as int, cell_idx as int) is None,
        },
{
    let cell = match find_cell(doc, sec, parent_para, control_idx, cell_idx) {
        Some(c) => c,
        None => {
            return None;
        },
    };
    let border_style = if cell.border_fill_id > 0 && ((cell.border_fill_id - 1) as usize) < tables.border_styles.len() {
        Some(&tables.border_styles[(cell.border_fill_id - 1) as usize])
    } else {
        None
    };
    let style = cell_to_cell_style(cell, border_style);
    let empty: Vec<RunStyle> = Vec::new();
    let mut paragraphs: Vec<IrParagraph> = Vec::new();
    let mut cp: usize = 0;
    while cp < cell.paragraphs.len()
        invariant
            cp <= cell.paragraphs.len(),
            cell_at(*doc, sec as int, parent_para as int, control_idx as int, cell_idx as int) == Some(*cell),
            empty@.len() == 0,
            paragraphs@.len() == cp,
            forall|k: int|
                0 <= k < cp ==> (#[trigger] paragraphs@[k] matches IrParagraph::Text(t) && cell_para_built(
                    t,
                    Some(cell.paragraphs@[k]),
                    tables.para_shapes@,
                    sec,
                    parent_para,
                    control_idx,
                    cell_idx,
                    k as usize,
                    cell.row,
                    cell.col,
                    styles_of(st@, k),
                )),
        decreases cell.paragraphs.len() - cp,
    {
        let s = if cp < st.len() {
            &st[cp]
        } else {
            &empty
        };
        assert(s@ == styles_of(st@, cp as int));
        let t = build_cell_paragraph(doc, tables, sec, parent_para, control_idx, cell_idx, cp, cell.row, cell.col, s);
        paragraphs.push(IrParagraph::Text(t));
        cp += 1;
    }
    Some(IrTableCell {
        row: cell.row,
        col: cell.col,
        row_span: if cell.row_span > 1 {
            Some(cell.row_span)
        } else {
            None
        },
        col_span: if cell.col_span > 1 {
            Some(cell.col_span)
        } else {
            None
        },
        style,
        paragraphs,
    })
}

/// `tp` is the table in control `ctrl` of body paragraph `para` (`table`) as built: the
/// paragraph's id, section and index, the table's size, and each of its cells as built
/// (see `cell_built`) under the character styles `st`.
pub open spec fn table_built(
    tp: IrTableParagraph,
    table: Table,
    tables: StyleTables,
    sec: usize,
    para: usize,
    ctrl: usize,
    st: Seq<Vec<Vec<RunStyle>>>,
) -> bool {
    &&& tp.id@ == body_id(sec as nat, para as nat)
    &&& tp.sec == sec
    &&& tp.para == para
    &&& tp.rows == table.row_count
    &&& tp.cols == table.col_count
    &&& tp.cells@.len() == table.cells@.len()
    &&& forall|i: int|
        0 <= i < tp.cells@.len() ==> cell_built(
            #[trigger] tp.cells@[i],
            table.cells@[i],
            tables,
            sec,
            para,
            ctrl,
            i as usize,
            cell_styles_of(st, i),
        )
}

/// Builds the table in control `control_idx` of body paragraph `para` (see `table_built`);
/// `st` holds the character styles of its cells' paragraphs. `None` when that control is
/// not a table.
pub fn build_table_paragraph(
    doc: &Document,
    tables: &StyleTables,
    sec: usize,
    para: usize,
    control_idx: usize,
    st: &Vec<Vec<Vec<RunStyle>>>,
) -> (r: Option<IrTableParagraph>)
    ensures
        match r {
            Some(tp) => table_at(*doc, sec as int, para as int, control_idx as int) matches Some(t) && table_built(
                tp,
                t,
                *tables,
                sec,
                para,
                control_idx,
                st@,
            ),
            None => table_at(*doc, sec as int, para as int, control_idx as int) is None,
        },
{
    if sec >= doc.sections.len() || para >= doc.sections[sec].paragraphs.len() || control_idx
        >= doc.sections[sec].paragraphs[para].controls.len() {
        return None;
    }
    let table: &Table = match &doc.sections[sec].paragraphs[para].controls[control_idx] {
        Control::Table(t) => t,
        _ => {
            return None;
        },
    };
    let empty: Vec<Vec<RunStyle>> = Vec::new();
    let mut cells: Vec<IrTableCell> = Vec::new();
    let mut i: usize = 0;
    while i < table.cells.len()
        invariant
            i <= table.cells.len(),
            table_at(*doc, sec as int, para as int, control_idx as int) == Some(*table),
            empty@.len() == 0,
            cells@.len() == i,
            forall|k: int|
                0 <= k < i ==> cell_built(
                    #[trigger] cells@[k],
                    table.cells@[k],
                    *tables,
                    sec,
                    para,
                    control_idx,
                    k as usize,
                    cell_styles_of(st@, k),
                ),
        decreases table.cells.len() - i,
    {
        let s = if i < st.len() {
            &st[i]
        } else {
            &empty
        };
        assert(s@ == cell_styles_of(st@, i as int));
        match try_build_cell(doc, tables, sec, para, control_idx, i, s) {
            Some(c) => {
                cells.push(c);
            },
            None => {
                assert(false);
            },
        }
        i += 1;
    }
    Some(IrTableParagraph {
        id: make_body_id(sec, para),
        sec,
        para,
        rows: table.row_count,
        cols: table.col_count,
        cells,
    })
}

/// The index of the first table among `controls`, if any.
pub open spec fn first_table(controls: Seq<Control>) -> Option<int>
    decreases controls.len(),
{
    if controls.len() == 0 {
        None
    } else {
        match first_table(controls.drop_last()) {
            Some(i) => Some(i),
            None => if controls.last() is Table {
                Some(controls.len() - 1)
            } else {
                None
            },
        }
    }
}

/// `e` is body paragraph `para` of section `sec` (`p`) as built under the character
/// styles `text` (of its text) and `cells` (of its first table's cells): that table when it
/// has one, else the paragraph as text.
pub open spec fn entry_built(
    e: IrParagraph,
    p: Paragraph,
    tables: StyleTables,
    sec: usize,
    para: usize,
    text: Seq<RunStyle>,
    cells: Seq<Vec<Vec<RunStyle>>>,
) -> bool {
    match first_table(p.controls@) {
        Some(ci) => e matches IrParagraph::Table(tp) && p.controls@[ci] matches Control::Table(t) && table_built(
            tp,
            *t,
            tables,
            sec,
            para,
            ci as usize,
            cells,
        ),
        None => e matches IrParagraph::Text(t) && text_para_built(t, p, tables.para_shapes@, sec, para, text),
    }
}

proof fn lemma_first_table_bound(controls: Seq<Control>)
    ensures
        first_table(controls) matches Some(i) ==> 0 <= i < controls.len() && controls[i] is Table,
        first_table(controls) is None ==> forall|i: int| 0 <= i < controls.len() ==> !(#[trigger] controls[i] is Table),
    decreases controls.len(),
{
    if controls.len() > 0 {
        lemma_first_table_bound(controls.drop_last());
        assert forall|i: int| 0 <= i < controls.len() - 1 implies controls.drop_last()[i] == controls[i] by {}
    }
}

fn find_first_table(controls: &Vec<Control>) -> (r: Option<usize>)
    ensures
        match r {
            Some(i) => first_table(controls@) == Some(i as int),
            None => first_table(controls@) is None,
        },
{
    let mut i: usize = 0;
    while i < controls.len()
        invariant
            i <= controls.len(),
            first_table(controls@.take(i as int)) is None,
        decreases controls.len() - i,
    {
        assert(controls@.take(i + 1).drop_last() =~= controls@.take(i as int));
        if let Control::Table(_) = &controls[i] {
            proof {
                lemma_first_table_prefix(controls@, i as int + 1);
            }
            return Some(i);
        }
        i += 1;
    }
    assert(controls@.take(controls.len() as int) =~= controls@);
    None
}

proof fn lemma_first_table_prefix(controls: Seq<Control>, n: int)
    requires
        0 < n <= controls.len(),
        first_table(controls.take(n)) is Some,
    ensures
        first_table(controls) == first_table(controls.take(n)),
    decreases controls.len() - n,
{
    if n < controls.len() {
        assert(controls.take(n + 1).drop_last() =~= controls.take(n));
        lemma_first_table_prefix(controls, n + 1);
    } else {
        assert(controls.take(n) =~= controls);
    }
}

/// Builds body paragraph `para` of section `sec` (see `entry_built`): one entry, none when
/// the paragraph does not exist.
pub fn build_paragraph(doc: &Document, tables: &StyleTables, sec: usize, para: usize, st: &ParagraphCharStyles) -> (r: Vec<IrParagraph>)
    ensures
        if sec < doc.sections@.len() && para < doc.sections@[sec as int].paragraphs@.len() {
            r@.len() == 1 && entry_built(
                r@[0],
                doc.sections@[sec as int].paragraphs@[para as int],
                *tables,
                sec,
                para,
                st.text@,
                st.cells@,
            )
        } else {
            r@.len() == 0
        },
{
    if sec >= doc.sections.len() || para >= doc.sections[sec].paragraphs.len() {
        return Vec::new();
    }
    let p = &doc.sections[sec].paragraphs[para];
    proof {
        lemma_first_table_bound(p.controls@);
    }
    match find_first_table(&p.controls) {
        Some(ci) => {
            match build_table_paragraph(doc, tables, sec, para, ci, &st.cells) {
                Some(tp) => vec![IrParagraph::Table(tp)],
                None => {
                    assert(false);
                    Vec::new()
                },
            }
        },
        None => vec![IrParagraph::Text(build_text_paragraph(doc, tables, sec, para, &st.text))],
    }
}

// ─── slices ─────────────────────────────────────────────────────────────

/// How many paragraphs of section `sec` lie in `[start, end)`.
pub open spec fn present_count(doc: Document, sec: int, start: int, end: int) -> int {
    if 0 <= sec < doc.sections@.len() {
        let n = doc.sections@[sec].paragraphs@.len() as int;
        let e = if end < n {
            end
        } else {
            n
        };
        if e > start {
            e - start
        } else {
            0
        }
    } else {
        0
    }
}

/// The character styles of the text of the `i`-th paragraph of a slice.
pub open spec fn text_styles(st: Seq<ParagraphCharStyles>, i: int) -> Seq<RunStyle> {
    if 0 <= i < st.len() {
        st[i].text@
    } else {
        Seq::empty()
    }
}

/// The character styles of the table cells of the `i`-th paragraph of a slice.
pub open spec fn table_styles(st: Seq<ParagraphCharStyles>, i: int) -> Seq<Vec<Vec<RunStyle>>> {
    if 0 <= i < st.len() {
        st[i].cells@
    } else {
        Seq::empty()
    }
}

/// The number of paragraphs of section `sec`, when it exists.
pub open spec fn section_len(doc: Document, sec: int) -> Option<usize> {
    if 0 <= sec < doc.sections@.len() {
        Some(doc.sections@[sec].paragraphs@.len() as usize)
    } else {
        None
    }
}

/// `s` is the slice built from `doc` (see `build_ir_slice`).
pub open spec fn slice_built(
    s: IrSlice,
    doc: Document,
    tables: StyleTables,
    opts: BuildOptions,
    paginated: Option<(usize, usize, usize)>,
    paginated_pages: u32,
    now_ms: u64,
    styles: Seq<ParagraphCharStyles>,
) -> bool {
    &&& {
        let (sec, start, end) = slice_range(
            opts.page,
            opts.page_override_range,
            paginated,
            opts.sec,
            opts.para_start,
            opts.para_end,
            match section_len(doc, opts.sec as int) {
                Some(n) => n,
                None => 0,
            },
        );
        &&& s.doc_meta.anchor == (IrAnchor { sec, para_start: start, para_end: end })
        &&& s.paragraphs@.len() == present_count(doc, sec as int, start as int, end as int)
        &&& forall|i: int|
            0 <= i < s.paragraphs@.len() ==> entry_built(
                #[trigger] s.paragraphs@[i],
                doc.sections@[sec as int].paragraphs@[start + i],
                tables,
                sec,
                (start + i) as usize,
                text_styles(styles, i),
                table_styles(styles, i),
            )
    }
    &&& s.doc_meta.edit_session_id@ == match opts.edit_session_id {
        Some(x) => x@,
        None => "ed_"@ + nat_digits(now_ms as nat),
    }
    &&& s.doc_meta.page == match opts.page {
        Some(x) => x + 1,
        None => 1,
    }
    &&& s.doc_meta.total_pages == match opts.total_pages_override {
        Some(t) => t,
        None => if paginated_pages >= 1 {
            paginated_pages
        } else {
            1
        },
    }
}

/// Builds a slice: its range (see `slice_range`; `paginated` is the paginator's range for
/// the asked page), its id (the one asked for, else `ed_<now_ms>`), its 1-based page, its
/// page count (the one asked for, else the paginator's, at least 1), and the entries of the
/// paragraphs of its range that exist (see `entry_built`), `styles[i]` holding the
/// character styles of the `i`-th.
pub fn build_ir_slice(
    doc: &Document,
    tables: &StyleTables,
    opts: &BuildOptions,
    paginated: Option<(usize, usize, usize)>,
    paginated_pages: u32,
    now_ms: u64,
    styles: &Vec<ParagraphCharStyles>,
) -> (s: IrSlice)
    requires
        opts.page matches Some(x) ==> x < u32::MAX,
    ensures
        slice_built(s, *doc, *tables, *opts, paginated, paginated_pages, now_ms, styles@),
{
    let sec_len = if opts.sec < doc.sections.len() {
        Some(doc.sections[opts.sec].paragraphs.len())
    } else {
        None
    };
    let anchor = slice_anchor(opts, paginated, sec_len);
    let sec = anchor.sec;
    let start = anchor.para_start;
    let end = anchor.para_end;
    let edit_session_id = match &opts.edit_session_id {
        Some(x) => x.clone(),
        None => {
            let mut id = String::from_str("ed_");
            write_nat(&mut id, now_ms);
            proof {
                reveal_strlit("ed_");
            }
            assert(id@ =~= "ed_"@ + nat_digits(now_ms as nat));
            id
        },
    };
    let mut paragraphs: Vec<IrParagraph> = Vec::new();
    if sec < doc.sections.len() {
        let n = doc.sections[sec].paragraphs.len();
        let e = if end < n {
            end
        } else {
            n
        };
        let empty = ParagraphCharStyles { text: Vec::new(), cells: Vec::new() };
        let mut p: usize = start;
        while p < e
            invariant
                sec < doc.sections@.len(),
                e <= doc.sections@[sec as int].paragraphs@.len(),
                start <= p <= e || (start >= e && p == start),
                empty.text@.len() == 0,
                empty.cells@.len() == 0,
                paragraphs@.len() == p - start,
                forall|i: int|
                    0 <= i < paragraphs@.len() ==> entry_built(
                        #[trigger] paragraphs@[i],
                        doc.sections@[sec as int].paragraphs@[start + i],
                        *tables,
                        sec,
                        (start + i) as usize,
                        text_styles(styles@, i),
                        table_styles(styles@, i),
                    ),
            decreases e - p,
        {
            let k = p - start;
            let st = if k < styles.len() {
                &styles[k]
            } else {
                &empty
            };
            assert(st.text@ == text_styles(styles@, k as int));
            assert(st.cells@ == table_styles(styles@, k as int));
            let mut built = build_paragraph(doc, tables, sec, p, st);
            let item = built.pop();
            match item {
                Some(x) => {
                    paragraphs.push(x);
                },
                None => {
                    assert(false);
                },
            }
            p += 1;
        }
    }
    let total_pages = match opts.total_pages_override {
        Some(t) => t,
        None => if paginated_pages >= 1 {
            paginated_pages
        } else {
            1
        },
    };
    IrSlice {
        doc_meta: IrDocMeta { edit_session_id, page: page_display(opts.page), total_pages, anchor },
        paragraphs,
    }
}

/// The compact form of the slice built from `doc` (see `build_ir_slice` and
/// `compact_ir_slice`).
pub fn build_compact_ir_slice(
    doc: &Document,
    tables: &StyleTables,
    opts: &BuildOptions,
    paginated: Option<(usize, usize, usize)>,
    paginated_pages: u32,
    now_ms: u64,
    styles: &Vec<ParagraphCharStyles>,
) -> (c: CompactIrSlice)
    requires
        opts.page matches Some(x) ==> x < u32::MAX,
    ensures
        exists|ir: IrSlice|
            slice_built(ir, *doc, *tables, *opts, paginated, paginated_pages, now_ms, styles@) && compacted_slice(c, ir),
{
    let ir = build_ir_slice(doc, tables, opts, paginated, paginated_pages, now_ms, styles);
    let ghost g = ir;
    let c = compact_ir_slice(ir);
    assert(slice_built(g, *doc, *tables, *opts, paginated, paginated_pages, now_ms, styles@) && compacted_slice(c, g));
    c
}

/// A slice's metadata as served: its anchor (paragraph end, start, section), id, page and
/// page count.
pub open spec fn doc_meta_view(m: IrDocMeta) -> JsonView {
    JsonView::Object(
        seq![
            ("anchor"@, JsonView::Object(
                seq![
                    ("para_end"@, JsonView::Int(m.anchor.para_end as int)),
                    ("para_start"@, JsonView::Int(m.anchor.para_start as int)),
                    ("sec"@, JsonView::Int(m.anchor.sec as int)),
                ],
            )),
            ("edit_session_id"@, JsonView::Str(m.edit_session_id@)),
            ("page"@, JsonView::Int(m.page as int)),
            ("total_pages"@, JsonView::Int(m.total_pages as int)),
        ],
    )
}

/// A slice's metadata as served (see `doc_meta_view`).
pub fn doc_meta_json(m: &IrDocMeta) -> (v: JsonValue)
    ensures
        v@ == doc_meta_view(*m),
{
    let mut a: Vec<JsonMember> = Vec::new();
    proof {
        lemma_members_view(a@, 0);
    }
    assert(object_view(a@) =~= Seq::<(Seq<char>, JsonView)>::empty());
    push_member(&mut a, "para_end", crate::ir_outline::uint(m.anchor.para_end));
    push_member(&mut a, "para_start", crate::ir_outline::uint(m.anchor.para_start));
    push_member(&mut a, "sec", crate::ir_outline::uint(m.anchor.sec));
    proof {
        lemma_members_view(a@, a@.len() as int);
    }
    assert(object_view(a@) =~= seq![
        ("para_end"@, JsonView::Int(m.anchor.para_end as int)),
        ("para_start"@, JsonView::Int(m.anchor.para_start as int)),
        ("sec"@, JsonView::Int(m.anchor.sec as int)),
    ]);
    let mut ms: Vec<JsonMember> = Vec::new();
    proof {
        lemma_members_view(ms@, 0);
    }
    assert(object_view(ms@) =~= Seq::<(Seq<char>, JsonView)>::empty());
    push_member(&mut ms, "anchor", JsonValue::Object(a));
    push_member(&mut ms, "edit_session_id", JsonValue::Str(m.edit_session_id.clone()));
    push_member(&mut ms, "page", JsonValue::Int(m.page as i64));
    push_member(&mut ms, "total_pages", JsonValue::Int(m.total_pages as i64));
    proof {
        lemma_members_view(ms@, ms@.len() as int);
    }
    assert(object_view(ms@) =~= doc_meta_view(*m)->Object_0);
    JsonValue::Object(ms)
}

/// The outline of a slice: its metadata and each paragraph's outline (text cut to
/// `opts.max_text_chars`).
pub open spec fn outline_slice_view(ir: IrSlice, max_chars: Option<u32>) -> JsonView {
    JsonView::Object(
        seq![
            ("doc_meta"@, doc_meta_view(ir.doc_meta)),
            ("paragraphs"@, JsonView::Array(
                Seq::new(ir.paragraphs@.len(), |i: int| outline_view(ir.paragraphs@[i], max_chars)),
            )),
        ],
    )
}

/// The structure of a slice: its metadata and each paragraph's structure.
pub open spec fn structure_slice_view(ir: IrSlice, tables: TableLevel) -> JsonView {
    JsonView::Object(
        seq![
            ("doc_meta"@, doc_meta_view(ir.doc_meta)),
            ("paragraphs"@, JsonView::Array(
                Seq::new(ir.paragraphs@.len(), |i: int| structure_view(ir.paragraphs@[i], tables)),
            )),
        ],
    )
}

fn slice_json(meta: JsonValue, paragraphs: Vec<JsonValue>) -> (v: JsonValue)
    ensures
        v@ == JsonView::Object(
            seq![("doc_meta"@, meta@), ("paragraphs"@, JsonView::Array(crate::json::vals(paragraphs@)))],
        ),
{
    proof {
        crate::json::lemma_items_vals(paragraphs@);
    }
    let ghost pv = crate::json::vals(paragraphs@);
    let mut ms: Vec<JsonMember> = Vec::new();
    proof {
        lemma_members_view(ms@, 0);
    }
    assert(object_view(ms@) =~= Seq::<(Seq<char>, JsonView)>::empty());
    push_member(&mut ms, "doc_meta", meta);
    push_member(&mut ms, "paragraphs", JsonValue::Array(paragraphs));
    proof {
        lemma_members_view(ms@, ms@.len() as int);
    }
    assert(object_view(ms@) =~= seq![("doc_meta"@, meta@), ("paragraphs"@, JsonView::Array(pv))]);
    JsonValue::Object(ms)
}

/// The outline of the slice built from `doc` (see `build_ir_slice`).
pub fn build_outline_slice(
    doc: &Document,
    tables: &StyleTables,
    opts: &BuildOptions,
    paginated: Option<(usize, usize, usize)>,
    paginated_pages: u32,
    now_ms: u64,
    styles: &Vec<ParagraphCharStyles>,
) -> (v: JsonValue)
    requires
        opts.page matches Some(x) ==> x < u32::MAX,
    ensures
        exists|ir: IrSlice|
            slice_built(ir, *doc, *tables, *opts, paginated, paginated_pages, now_ms, styles@) && v@
                == outline_slice_view(ir, opts.max_text_chars),
{
    let ir = build_ir_slice(doc, tables, opts, paginated, paginated_pages, now_ms, styles);
    let mut ps: Vec<JsonValue> = Vec::new();
    let mut i: usize = 0;
    while i < ir.paragraphs.len()
        invariant
            i <= ir.paragraphs.len(),
            ps@.len() == i,
            forall|j: int| 0 <= j < i ==> #[trigger] ps@[j]@ == outline_view(ir.paragraphs@[j], opts.max_text_chars),
        decreases ir.paragraphs.len() - i,
    {
        ps.push(build_outline_paragraph(&ir.paragraphs[i], opts.max_text_chars));
        i += 1;
    }
    assert(crate::json::vals(ps@) =~= Seq::new(
        ir.paragraphs@.len(),
        |i: int| outline_view(ir.paragraphs@[i], opts.max_text_chars),
    ));
    let meta = doc_meta_json(&ir.doc_meta);
    let v = slice_json(meta, ps);
    assert(v@ =~= outline_slice_view(ir, opts.max_text_chars));
    v
}

/// The structure of the slice built from `doc` (see `build_ir_slice`).
pub fn build_structure_slice(
    doc: &Document,
    tables: &StyleTables,
    opts: &BuildOptions,
    paginated: Option<(usize, usize, usize)>,
    paginated_pages: u32,
    now_ms: u64,
    styles: &Vec<ParagraphCharStyles>,
) -> (v: JsonValue)
    requires
        opts.page matches Some(x) ==> x < u32::MAX,
    ensures
        exists|ir: IrSlice|
            slice_built(ir, *doc, *tables, *opts, paginated, paginated_pages, now_ms, styles@) && v@
                == structure_slice_view(ir, opts.include_tables),
{
    let ir = build_ir_slice(doc, tables, opts, paginated, paginated_pages, now_ms, styles);
    let mut ps: Vec<JsonValue> = Vec::new();
    let mut i: usize = 0;
    while i < ir.paragraphs.len()
        invariant
            i <= ir.paragraphs.len(),
            ps@.len() == i,
            forall|j: int| 0 <= j < i ==> #[trigger] ps@[j]@ == structure_view(ir.paragraphs@[j], opts.include_tables),
        decreases ir.paragraphs.len() - i,
    {
        ps.push(build_structure_paragraph(&ir.paragraphs[i], opts.include_tables));
        i += 1;
    }
    assert(crate::json::vals(ps@) =~= Seq::new(
        ir.paragraphs@.len(),
        |i: int| structure_view(ir.paragraphs@[i], opts.include_tables),
    ));
    let meta = doc_meta_json(&ir.doc_meta);
    let v = slice_json(meta, ps);
    assert(v@ =~= structure_slice_view(ir, opts.include_tables));
    v
}

/// The options of the slice a patch target is taken from: paragraphs `r` of section
/// `section`, otherwise the defaults.
pub open spec fn target_opts(section: usize, r: ParaRange) -> BuildOptions {
    BuildOptions {
        sec: section,
        para_start: r.start,
        para_end: Some(r.end),
        edit_session_id: None,
        page: None,
        page_override_range: None,
        total_pages_override: None,
        detail: Detail::Compact,
        include_style: StyleLevel::Essential,
        include_tables: TableLevel::Full,
        max_text_chars: None,
    }
}

fn make_target_opts(section: usize, r: &ParaRange) -> (o: BuildOptions)
    ensures
        o == target_opts(section, *r),
{
    BuildOptions {
        sec: section,
        para_start: r.start,
        para_end: Some(r.end),
        edit_session_id: None,
        page: None,
        page_override_range: None,
        total_pages_override: None,
        detail: Detail::Compact,
        include_style: StyleLevel::Essential,
        include_tables: TableLevel::Full,
        max_text_chars: None,
    }
}

/// `t` is the patch target of paragraphs `r` of section `section`: taken (see
/// `slice_to_target`) from the compact form of their slice. The slice's id and page count
/// do not reach a target.
pub open spec fn target_captured(
    t: PatchTarget,
    doc: Document,
    tables: StyleTables,
    range: AffectedRange,
    r: ParaRange,
    styles: Seq<ParagraphCharStyles>,
) -> bool {
    exists|ir: IrSlice, c: CompactIrSlice|
        slice_built(ir, doc, tables, target_opts(range.section, r), None, 0, 0, styles) && compacted_slice(c, ir)
            && is_target_of(t, c.paragraphs, range)
}

fn capture_target(
    doc: &Document,
    tables: &StyleTables,
    range: &AffectedRange,
    r: &ParaRange,
    styles: &Vec<ParagraphCharStyles>,
) -> (t: PatchTarget)
    ensures
        target_captured(t, *doc, *tables, *range, *r, styles@),
{
    let opts = make_target_opts(range.section, r);
    let ir = build_ir_slice(doc, tables, &opts, None, 0, 0, styles);
    let ghost g = ir;
    let c = compact_ir_slice(ir);
    let ghost gc = c;
    let t = slice_to_target(c.paragraphs, range);
    assert(slice_built(g, *doc, *tables, target_opts(range.section, *r), None, 0, 0, styles@) && compacted_slice(gc, g)
        && is_target_of(t, gc.paragraphs, *range));
    t
}

/// The patch target of an edit before it is applied: of its range before the edit.
pub fn capture_before_target(
    doc: &Document,
    tables: &StyleTables,
    range: &AffectedRange,
    styles: &Vec<ParagraphCharStyles>,
) -> (t: PatchTarget)
    ensures
        target_captured(t, *doc, *tables, *range, range.before, styles@),
{
    capture_target(doc, tables, range, &range.before, styles)
}

/// The patch target of an edit after it is applied: of its range after the edit.
pub fn capture_after_target(
    doc: &Document,
    tables: &StyleTables,
    range: &AffectedRange,
    styles: &Vec<ParagraphCharStyles>,
) -> (t: PatchTarget)
    ensures
        target_captured(t, *doc, *tables, *range, range.after, styles@),
{
    capture_target(doc, tables, range, &range.after, styles)
}

// ─── pages ──────────────────────────────────────────────────────────────

/// One page as the paginator laid it out: its section, and the body paragraph of each item
/// on it (every column, in order).
#[derive(Debug)]
pub struct PageParas {
    pub section_index: usize,
    pub para_indices: Vec<usize>,
}

/// The smallest of a non-empty sequence.
pub open spec fn seq_min(s: Seq<usize>) -> usize
    decreases s.len(),
{
    if s.len() <= 1 {
        s[0]
    } else {
        let m = seq_min(s.drop_last());
        if s.last() < m {
            s.last()
        } else {
            m
        }
    }
}

/// The largest of a non-empty sequence.
pub open spec fn seq_max(s: Seq<usize>) -> usize
    decreases s.len(),
{
    if s.len() <= 1 {
        s[0]
    } else {
        let m = seq_max(s.drop_last());
        if s.last() > m {
            s.last()
        } else {
            m
        }
    }
}

/// The paragraph range of page `page_num` (0-based over the whole document, `pages` in
/// section order): its section, its first paragraph and one past its last; none when there
/// is no such page or nothing is on it.
pub open spec fn page_range(pages: Seq<PageParas>, page_num: int) -> Option<(usize, usize, usize)> {
    if 0 <= page_num < pages.len() && pages[page_num].para_indices@.len() > 0 {
        let ps = pages[page_num].para_indices@;
        Some((pages[page_num].section_index, seq_min(ps), (seq_max(ps) + 1) as usize))
    } else {
        None
    }
}

/// The paragraph range of a page (see `page_range`).
pub fn page_to_para_range(pages: &Vec<PageParas>, page_num: u32) -> (r: Option<(usize, usize, usize)>)
    requires
        forall|i: int, j: int|
            0 <= i < pages@.len() && 0 <= j < pages@[i].para_indices@.len() ==> #[trigger] pages@[i].para_indices@[j]
                < usize::MAX,
    ensures
        r == page_range(pages@, page_num as int),
{
    if (page_num as usize) >= pages.len() {
        return None;
    }
    let page = &pages[page_num as usize];
    let ps = &page.para_indices;
    if ps.len() == 0 {
        return None;
    }
    let mut lo: usize = ps[0];
    let mut hi: usize = ps[0];
    let mut k: usize = 1;
    while k < ps.len()
        invariant
            1 <= k <= ps@.len(),
            lo == seq_min(ps@.take(k as int)),
            hi == seq_max(ps@.take(k as int)),
            forall|j: int| 0 <= j < ps@.len() ==> #[trigger] ps@[j] < usize::MAX,
        decreases ps.len() - k,
    {
        assert(ps@.take(k + 1).drop_last() =~= ps@.take(k as int));
        if ps[k] < lo {
            lo = ps[k];
        }
        if ps[k] > hi {
            hi = ps[k];
        }
        k += 1;
    }
    assert(ps@.take(ps.len() as int) =~= ps@);
    proof {
        lemma_max_in(ps@);
    }
    Some((page.section_index, lo, hi + 1))
}

proof fn lemma_max_in(s: Seq<usize>)
    requires
        s.len() > 0,
    ensures
        exists|j: int| 0 <= j < s.len() && s[j] == seq_max(s),
    decreases s.len(),
{
    if s.len() > 1 {
        lemma_max_in(s.drop_last());
        let j = choose|j: int| 0 <= j < s.drop_last().len() && s.drop_last()[j] == seq_max(s.drop_last());
        assert(s[j] == s.drop_last()[j]);
    } else {
        assert(s[0] == seq_max(s));
    }
}

// ─── served slices ──────────────────────────────────────────────────────

/// The run style with nothing set.
pub open spec fn no_run_style() -> RunStyle {
    RunStyle {
        bold: None,
        italic: None,
        underline: None,
        strikethrough: None,
        color: None,
        highlight: None,
        font_size: None,
        font_name: None,
        char_spacing: None,
        char_width: None,
        vertical_align: None,
    }
}

/// The paragraph style with nothing set.
pub open spec fn no_para_style() -> ParagraphStyle {
    ParagraphStyle { align: None, indent: None, line_height: None }
}

/// A compact slice as served, with `paragraphs` in place of its paragraphs: its defaults
/// (paragraph and run styles, the keys they set), its metadata, and the paragraphs.
pub open spec fn compact_slice_view(c: CompactIrSlice, paragraphs: Seq<JsonView>) -> JsonView {
    JsonView::Object(
        seq![
            ("defaults"@, JsonView::Object(
                seq![
                    ("paragraph"@, JsonView::Object(style_diff(c.defaults.paragraph, no_para_style()))),
                    ("run"@, JsonView::Object(run_style_diff(c.defaults.run, no_run_style()))),
                ],
            )),
            ("doc_meta"@, doc_meta_view(c.doc_meta)),
            ("paragraphs"@, JsonView::Array(paragraphs)),
        ],
    )
}

/// Paragraphs after the table filter at `level` (unchanged at `Full`).
pub open spec fn tables_filtered(ps: Seq<JsonView>, level: TableLevel) -> Seq<JsonView> {
    if level == TableLevel::Full {
        ps
    } else {
        Seq::new(ps.len(), |j: int| table_filtered(ps[j], level))
    }
}

/// Paragraphs after the style filter at `level` (unchanged at `Full`).
pub open spec fn styles_filtered(ps: Seq<JsonView>, level: StyleLevel) -> Seq<JsonView> {
    if level == StyleLevel::Full {
        ps
    } else {
        Seq::new(ps.len(), |j: int| para_filtered(ps[j], level))
    }
}

fn style_object(r: Option<JsonValue>) -> (v: JsonValue)
    requires
        r matches Some(x) ==> x@ is Object,
    ensures
        match r {
            Some(x) => v@ == x@,
            None => v@ == JsonView::Object(Seq::empty()),
        },
{
    match r {
        Some(x) => x,
        None => {
            let ms: Vec<JsonMember> = Vec::new();
            proof {
                lemma_members_view(ms@, 0);
            }
            JsonValue::Object(ms)
        },
    }
}

/// A compact slice as served (see `compact_slice_view`), its paragraphs filtered by table
/// and then by style level.
pub fn compact_slice_json(c: CompactIrSlice, tables: TableLevel, style: StyleLevel) -> (v: JsonValue)
    ensures
        v@ == compact_slice_view(c, styles_filtered(tables_filtered(crate::json::vals(c.paragraphs@), tables), style)),
{
    let dr = crate::ir_compact::RunStyle::default();
    assert(dr == no_run_style());
    let dp = ParagraphStyle { align: None, indent: None, line_height: None };
    let run = style_object(omit_run_style_defaults(&c.defaults.run, &dr));
    let para = style_object(omit_para_style_defaults(&c.defaults.paragraph, &dp));
    assert(run@ == JsonView::Object(run_style_diff(c.defaults.run, no_run_style())));
    assert(para@ == JsonView::Object(style_diff(c.defaults.paragraph, no_para_style())));
    let mut d: Vec<JsonMember> = Vec::new();
    proof {
        lemma_members_view(d@, 0);
    }
    assert(object_view(d@) =~= Seq::<(Seq<char>, JsonView)>::empty());
    push_member(&mut d, "paragraph", para);
    push_member(&mut d, "run", run);
    proof {
        lemma_members_view(d@, d@.len() as int);
    }
    assert(object_view(d@) =~= seq![
        ("paragraph"@, JsonView::Object(style_diff(c.defaults.paragraph, no_para_style()))),
        ("run"@, JsonView::Object(run_style_diff(c.defaults.run, no_run_style()))),
    ]);
    let meta = doc_meta_json(&c.doc_meta);
    let mut ps = c.paragraphs;
    let ghost p0 = crate::json::vals(ps@);
    apply_table_filter(&mut ps, tables);
    let ghost p1 = crate::json::vals(ps@);
    assert(p1 =~= tables_filtered(p0, tables));
    apply_style_filter(&mut ps, style);
    assert(crate::json::vals(ps@) =~= styles_filtered(p1, style));
    proof {
        crate::json::lemma_items_vals(ps@);
    }
    let mut ms: Vec<JsonMember> = Vec::new();
    proof {
        lemma_members_view(ms@, 0);
    }
    assert(object_view(ms@) =~= Seq::<(Seq<char>, JsonView)>::empty());
    push_member(&mut ms, "defaults", JsonValue::Object(d));
    push_member(&mut ms, "doc_meta", meta);
    push_member(&mut ms, "paragraphs", JsonValue::Array(ps));
    proof {
        lemma_members_view(ms@, ms@.len() as int);
    }
    assert(object_view(ms@) =~= compact_slice_view(
        c,
        styles_filtered(tables_filtered(crate::json::vals(c.paragraphs@), tables), style),
    )->Object_0);
    JsonValue::Object(ms)
}

/// The slice served at the detail level `opts.detail`: the compact form (for raw and
/// compact) with its paragraphs filtered at `opts.include_tables` and `opts.include_style`,
/// the outline, or the structure.
pub fn detail_slice_json(
    doc: &Document,
    tables: &StyleTables,
    opts: &BuildOptions,
    paginated: Option<(usize, usize, usize)>,
    paginated_pages: u32,
    now_ms: u64,
    styles: &Vec<ParagraphCharStyles>,
) -> (v: JsonValue)
    requires
        opts.page matches Some(x) ==> x < u32::MAX,
    ensures
        match opts.detail {
            Detail::Outline => exists|ir: IrSlice|
                slice_built(ir, *doc, *tables, *opts, paginated, paginated_pages, now_ms, styles@) && v@
                    == outline_slice_view(ir, opts.max_text_chars),
            Detail::Structure => exists|ir: IrSlice|
                slice_built(ir, *doc, *tables, *opts, paginated, paginated_pages, now_ms, styles@) && v@
                    == structure_slice_view(ir, opts.include_tables),
            _ => exists|ir: IrSlice, c: CompactIrSlice|
                slice_built(ir, *doc, *tables, *opts, paginated, paginated_pages, now_ms, styles@)
                    && compacted_slice(c, ir) && v@ == compact_slice_view(
                    c,
                    styles_filtered(
                        tables_filtered(crate::json::vals(c.paragraphs@), opts.include_tables),
                        opts.include_style,
                    ),
                ),
        },
{
    match opts.detail {
        Detail::Outline => build_outline_slice(doc, tables, opts, paginated, paginated_pages, now_ms, styles),
        Detail::Structure => build_structure_slice(doc, tables, opts, paginated, paginated_pages, now_ms, styles),
        _ => {
            let ir = build_ir_slice(doc, tables, opts, paginated, paginated_pages, now_ms, styles);
            let ghost g = ir;
            let c = compact_ir_slice(ir);
            let ghost gc = c;
            let v = compact_slice_json(c, opts.include_tables, opts.include_style);
            assert(slice_built(g, *doc, *tables, *opts, paginated, paginated_pages, now_ms, styles@)
                && compacted_slice(gc, g));
            v
        },
    }
}

} // verus!
