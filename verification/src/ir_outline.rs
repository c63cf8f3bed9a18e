//! The IR paragraphs a slice is built from, and their lighter JSON forms: the outline (text,
//! page breaks, alignment) and the structure (character counts, table shapes). Objects list
//! their members in key order, as a sorted JSON map does.
use vstd::prelude::*;
use crate::ir_compact::{CellLocator, CellStyle, ParagraphStyle, RunStyle, TableLevel, truncate_text};
use crate::json::{JsonMember, JsonValue, JsonView, object_view, push_member, lemma_members_view};
use crate::patch::sat;

verus! {

/// A run of a paragraph: where it starts, its length, its text and its character style.
#[derive(Debug)]
pub struct IrRun {
    pub char_offset: usize,
    pub length: usize,
    pub text: String,
    pub style: RunStyle,
}

/// A text paragraph of a slice.
#[derive(Debug)]
pub struct IrTextParagraph {
    pub id: String,
    pub sec: usize,
    pub para: i64,
    pub style: ParagraphStyle,
    pub runs: Vec<IrRun>,
    pub cell_locator: Option<CellLocator>,
    pub page_break: Option<bool>,
}

/// A cell of a table paragraph.
#[derive(Debug)]
pub struct IrTableCell {
    pub row: u16,
    pub col: u16,
    pub row_span: Option<u16>,
    pub col_span: Option<u16>,
    pub style: CellStyle,
    pub paragraphs: Vec<IrParagraph>,
}

/// A table paragraph of a slice.
#[derive(Debug)]
pub struct IrTableParagraph {
    pub id: String,
    pub sec: usize,
    pub para: usize,
    pub rows: u16,
    pub cols: u16,
    pub cells: Vec<IrTableCell>,
}

/// A paragraph of a slice.
#[derive(Debug)]
pub enum IrParagraph {
    Text(IrTextParagraph),
    Table(IrTableParagraph),
}

/// The text of the first `n` runs, concatenated.
pub open spec fn runs_text(runs: Seq<IrRun>, n: int) -> Seq<char>
    decreases n,
{
    if n <= 0 || n > runs.len() {
        Seq::empty()
    } else {
        runs_text(runs, n - 1) + runs[n - 1].text@
    }
}

/// The number of characters of the first `n` runs.
pub open spec fn runs_chars(runs: Seq<IrRun>, n: int) -> nat
    decreases n,
{
    if n <= 0 || n > runs.len() {
        0
    } else {
        runs_chars(runs, n - 1) + runs[n - 1].text@.len()
    }
}

/// `text` cut to `max_chars` characters, and whether it was cut.
pub open spec fn truncated(text: Seq<char>, max_chars: Option<u32>) -> (Seq<char>, bool) {
    match max_chars {
        Some(n) => if text.len() <= n {
            (text, false)
        } else {
            (text.take(n as int), true)
        },
        None => (text, false),
    }
}

/// A cell locator as JSON.
pub open spec fn locator_view(c: CellLocator) -> JsonView {
    JsonView::Object(
        seq![
            ("cell_para"@, JsonView::Int(c.cell_para as int)),
            ("col"@, JsonView::Int(c.col as int)),
            ("row"@, JsonView::Int(c.row as int)),
            ("table_para"@, JsonView::Int(c.table_para as int)),
        ],
    )
}

/// The `cell_locator` member, when there is a locator.
pub open spec fn locator_member(c: Option<CellLocator>) -> Seq<(Seq<char>, JsonView)> {
    match c {
        Some(l) => seq![("cell_locator"@, locator_view(l))],
        None => Seq::empty(),
    }
}

/// The member `(key, true)` when `b` holds.
pub open spec fn flag_member(key: Seq<char>, b: bool) -> Seq<(Seq<char>, JsonView)> {
    if b {
        seq![(key, JsonView::Bool(true))]
    } else {
        Seq::empty()
    }
}

/// A table paragraph's size: columns, paragraph, rows and type.
pub open spec fn table_head(cols: u16, para: usize, rows: u16) -> Seq<(Seq<char>, JsonView)> {
    seq![
        ("cols"@, JsonView::Int(cols as int)),
        ("para"@, JsonView::Int(para as int)),
        ("rows"@, JsonView::Int(rows as int)),
        ("type"@, JsonView::Str("table"@)),
    ]
}

/// The outline of a paragraph: a text paragraph's locator, page-break marker, index,
/// alignment, text (cut to `max_chars`) and cut marker; a table's size.
pub open spec fn outline_view(p: IrParagraph, max_chars: Option<u32>) -> JsonView {
    match p {
        IrParagraph::Text(t) => {
            let (text, cut) = truncated(runs_text(t.runs@, t.runs@.len() as int), max_chars);
            JsonView::Object(
                locator_member(t.cell_locator) + flag_member("page_break"@, t.page_break == Some(true)) + seq![
                    ("para"@, JsonView::Int(t.para as int)),
                ] + match t.style.align {
                    Some(a) => seq![("style"@, JsonView::Object(seq![("align"@, JsonView::Str(a@))]))],
                    None => Seq::empty(),
                } + seq![("text"@, JsonView::Str(text))] + flag_member("text_truncated"@, cut),
            )
        },
        IrParagraph::Table(tt) => JsonView::Object(table_head(tt.cols, tt.para, tt.rows)),
    }
}

/// A cell's shape: its column and row, and its spans when it has them.
pub open spec fn cell_shape_view(c: IrTableCell) -> JsonView {
    JsonView::Object(
        seq![("col"@, JsonView::Int(c.col as int))] + match c.col_span {
            Some(s) => seq![("col_span"@, JsonView::Int(s as int))],
            None => Seq::empty(),
        } + seq![("row"@, JsonView::Int(c.row as int))] + match c.row_span {
            Some(s) => seq![("row_span"@, JsonView::Int(s as int))],
            None => Seq::empty(),
        },
    )
}

/// The structure of a paragraph: a text paragraph's locator, character count (saturated)
/// and index; a table's cell shapes (unless only counted) and size.
pub open spec fn structure_view(p: IrParagraph, tables: TableLevel) -> JsonView {
    match p {
        IrParagraph::Text(t) => JsonView::Object(
            locator_member(t.cell_locator) + seq![
                ("char_count"@, JsonView::Int(sat(runs_chars(t.runs@, t.runs@.len() as int)) as int)),
                ("para"@, JsonView::Int(t.para as int)),
            ],
        ),
        IrParagraph::Table(tt) => JsonView::Object(
            (if tables == TableLevel::Count {
                Seq::empty()
            } else {
                seq![
                    ("cells"@, JsonView::Array(
                        Seq::new(tt.cells@.len(), |j: int| cell_shape_view(tt.cells@[j])),
                    )),
                ]
            }) + table_head(tt.cols, tt.para, tt.rows),
        ),
    }
}

pub(crate) fn uint(x: usize) -> (v: JsonValue)
    ensures
        v@ == JsonView::Int(x as int),
{
    JsonValue::UInt(x as u64)
}

pub(crate) fn locator_json(c: &CellLocator) -> (v: JsonValue)
    ensures
        v@ == locator_view(*c),
{
    let mut ms: Vec<JsonMember> = Vec::new();
    push_member(&mut ms, "cell_para", uint(c.cell_para));
    push_member(&mut ms, "col", JsonValue::Int(c.col as i64));
    push_member(&mut ms, "row", JsonValue::Int(c.row as i64));
    push_member(&mut ms, "table_para", uint(c.table_para));
    proof {
        lemma_members_view(ms@, ms@.len() as int);
    }
    assert(object_view(ms@) =~= locator_view(*c)->Object_0);
    JsonValue::Object(ms)
}

fn push_locator(ms: &mut Vec<JsonMember>, c: &Option<CellLocator>)
    ensures
        object_view(final(ms)@) == object_view(old(ms)@) + locator_member(*c),
{
    match c {
        Some(l) => push_member(ms, "cell_locator", locator_json(l)),
        None => {
            assert(object_view(ms@) =~= object_view(ms@) + Seq::<(Seq<char>, JsonView)>::empty());
        },
    }
}

fn push_flag(ms: &mut Vec<JsonMember>, key: &str, b: bool)
    ensures
        object_view(final(ms)@) == object_view(old(ms)@) + flag_member(key@, b),
{
    if b {
        push_member(ms, key, JsonValue::Bool(true));
        assert(object_view(ms@) =~= object_view(old(ms)@) + flag_member(key@, b));
    } else {
        assert(object_view(ms@) =~= object_view(ms@) + Seq::<(Seq<char>, JsonView)>::empty());
    }
}

fn push_table_head(ms: &mut Vec<JsonMember>, cols: u16, para: usize, rows: u16)
    ensures
        object_view(final(ms)@) == object_view(old(ms)@) + table_head(cols, para, rows),
{
    let ghost o = object_view(ms@);
    push_member(ms, "cols", JsonValue::Int(cols as i64));
    push_member(ms, "para", uint(para));
    push_member(ms, "rows", JsonValue::Int(rows as i64));
    push_member(ms, "type", JsonValue::Str(String::from_str("table")));
    assert(object_view(ms@) =~= o + table_head(cols, para, rows));
}

/// The text of runs, concatenated.
fn join_runs(runs: &Vec<IrRun>) -> (s: String)
    ensures
        s@ == runs_text(runs@, runs@.len() as int),
{
    let mut s = String::new();
    let mut i: usize = 0;
    while i < runs.len()
        invariant
            i <= runs@.len(),
            s@ == runs_text(runs@, i as int),
        decreases runs.len() - i,
    {
        crate::text::push_str(&mut s, runs[i].text.as_str());
        i += 1;
    }
    s
}

/// The outline of a paragraph (see `outline_view`).
pub fn build_outline_paragraph(p: &IrParagraph, max_chars: Option<u32>) -> (v: JsonValue)
    ensures
        v@ == outline_view(*p, max_chars),
{
    let mut ms: Vec<JsonMember> = Vec::new();
    match p {
        IrParagraph::Text(t) => {
            let full = join_runs(&t.runs);
            let (text, cut) = truncate_text(full.as_str(), max_chars);
            let ghost o0 = object_view(ms@);
            push_locator(&mut ms, &t.cell_locator);
            let pb = match t.page_break {
                Some(b) => b,
                None => false,
            };
            push_flag(&mut ms, "page_break", pb);
            push_member(&mut ms, "para", JsonValue::Int(t.para));
            let ghost o1 = object_view(ms@);
            match &t.style.align {
                Some(a) => {
                    let mut st: Vec<JsonMember> = Vec::new();
                    push_member(&mut st, "align", JsonValue::Str(a.clone()));
                    proof {
                        lemma_members_view(st@, st@.len() as int);
                    }
                    push_member(&mut ms, "style", JsonValue::Object(st));
                },
                None => {},
            }
            let ghost o2 = object_view(ms@);
            push_member(&mut ms, "text", JsonValue::Str(text));
            push_flag(&mut ms, "text_truncated", cut);
            assert(o0.len() == 0) by {
                lemma_members_view(Seq::<JsonMember>::empty(), 0);
            }
            assert(object_view(ms@) =~= outline_view(*p, max_chars)->Object_0);
        },
        IrParagraph::Table(tt) => {
            assert(object_view(ms@).len() == 0) by {
                lemma_members_view(ms@, 0);
            }
            push_table_head(&mut ms, tt.cols, tt.para, tt.rows);
            assert(object_view(ms@) =~= outline_view(*p, max_chars)->Object_0);
        },
    }
    JsonValue::Object(ms)
}

/// The shape of a cell (see `cell_shape_view`).
fn cell_shape_json(c: &IrTableCell) -> (v: JsonValue)
    ensures
        v@ == cell_shape_view(*c),
{
    let mut ms: Vec<JsonMember> = Vec::new();
    proof {
        lemma_members_view(ms@, 0);
    }
    push_member(&mut ms, "col", JsonValue::Int(c.col as i64));
    let ghost o1 = object_view(ms@);
    match c.col_span {
        Some(s) => push_member(&mut ms, "col_span", JsonValue::Int(s as i64)),
        None => {},
    }
    push_member(&mut ms, "row", JsonValue::Int(c.row as i64));
    let ghost o2 = object_view(ms@);
    match c.row_span {
        Some(s) => push_member(&mut ms, "row_span", JsonValue::Int(s as i64)),
        None => {},
    }
    assert(object_view(ms@) =~= cell_shape_view(*c)->Object_0);
    JsonValue::Object(ms)
}

/// The number of characters of runs, saturated.
fn count_run_chars(runs: &Vec<IrRun>) -> (n: usize)
    ensures
        n == sat(runs_chars(runs@, runs@.len() as int)),
{
    let mut total: usize = 0;
    let mut i: usize = 0;
    while i < runs.len()
        invariant
            i <= runs@.len(),
            total == sat(runs_chars(runs@, i as int)),
        decreases runs.len() - i,
    {
        total = total.saturating_add(crate::text_ops::char_len(runs[i].text.as_str()));
        i += 1;
    }
    total
}

/// The structure of a paragraph (see `structure_view`).
pub fn build_structure_paragraph(p: &IrParagraph, tables: TableLevel) -> (v: JsonValue)
    ensures
        v@ == structure_view(*p, tables),
{
    let mut ms: Vec<JsonMember> = Vec::new();
    proof {
        lemma_members_view(ms@, 0);
    }
    match p {
        IrParagraph::Text(t) => {
            push_locator(&mut ms, &t.cell_locator);
            push_member(&mut ms, "char_count", uint(count_run_chars(&t.runs)));
            push_member(&mut ms, "para", JsonValue::Int(t.para));
            assert(object_view(ms@) =~= structure_view(*p, tables)->Object_0);
        },
        IrParagraph::Table(tt) => {
            if tables != TableLevel::Count {
                let mut cells: Vec<JsonValue> = Vec::new();
                let mut j: usize = 0;
                while j < tt.cells.len()
                    invariant
                        j <= tt.cells@.len(),
                        cells@.len() == j,
                        crate::json::vals(cells@) =~= Seq::new(j as nat, |k: int| cell_shape_view(tt.cells@[k])),
                    decreases tt.cells.len() - j,
                {
                    let ghost before = cells@;
                    let c = cell_shape_json(&tt.cells[j]);
                    cells.push(c);
                    assert forall|k: int| 0 <= k <= j implies #[trigger] crate::json::vals(cells@)[k] == cell_shape_view(tt.cells@[k]) by {
                        if k < j {
                            assert(cells@[k] == before[k]);
                            assert(crate::json::vals(before)[k] == cell_shape_view(tt.cells@[k]));
                        }
                    }
                    assert(crate::json::vals(cells@) =~= Seq::new((j + 1) as nat, |k: int| cell_shape_view(tt.cells@[k])));
                    j += 1;
                }
                proof {
                    crate::json::lemma_items_vals(cells@);
                }
                push_member(&mut ms, "cells", JsonValue::Array(cells));
            }
            let ghost o = object_view(ms@);
            push_table_head(&mut ms, tt.cols, tt.para, tt.rows);
            assert(object_view(ms@) =~= structure_view(*p, tables)->Object_0);
        },
    }
    JsonValue::Object(ms)
}

/// The non-empty members of a paragraph style that differ from the defaults.
pub open spec fn style_diff(style: ParagraphStyle, defaults: ParagraphStyle) -> Seq<(Seq<char>, JsonView)> {
    (match style.align {
        Some(a) => if defaults.align matches Some(d) && d@ == a@ {
            Seq::empty()
        } else {
            seq![("align"@, JsonView::Str(a@))]
        },
        None => Seq::empty(),
    }) + (match style.indent {
        Some(i) => if defaults.indent == Some(i) {
            Seq::empty()
        } else {
            seq![("indent"@, JsonView::Int(i as int))]
        },
        None => Seq::empty(),
    }) + (match style.line_height {
        Some(h) => if defaults.line_height == Some(h) {
            Seq::empty()
        } else {
            seq![("line-height"@, JsonView::Int(h as int))]
        },
        None => Seq::empty(),
    })
}

/// The keys of `style` whose values differ from `defaults` (a key the defaults lack
/// differs), as an object; `None` when nothing differs.
pub fn omit_para_style_defaults(style: &ParagraphStyle, defaults: &ParagraphStyle) -> (r: Option<JsonValue>)
    ensures
        match r {
            Some(v) => style_diff(*style, *defaults).len() > 0 && v@ == JsonView::Object(style_diff(*style, *defaults)),
            None => style_diff(*style, *defaults).len() == 0,
        },
{
    let mut ms: Vec<JsonMember> = Vec::new();
    proof {
        lemma_members_view(ms@, 0);
    }
    match &style.align {
        Some(a) => {
            let same = match &defaults.align {
                Some(d) => crate::json::str_eq(d.as_str(), a.as_str()),
                None => false,
            };
            if !same {
                push_member(&mut ms, "align", JsonValue::Str(a.clone()));
            }
        },
        None => {},
    }
    let ghost o1 = object_view(ms@);
    match style.indent {
        Some(i) => {
            let same = match defaults.indent {
                Some(d) => d == i,
                None => false,
            };
            if !same {
                push_member(&mut ms, "indent", JsonValue::Int(i as i64));
            }
        },
        None => {},
    }
    let ghost o2 = object_view(ms@);
    match style.line_height {
        Some(h) => {
            let same = match defaults.line_height {
                Some(d) => d == h,
                None => false,
            };
            if !same {
                push_member(&mut ms, "line-height", JsonValue::Int(h as i64));
            }
        },
        None => {},
    }
    assert(object_view(ms@) =~= style_diff(*style, *defaults));
    proof {
        lemma_members_view(ms@, ms@.len() as int);
    }
    if ms.len() == 0 {
        None
    } else {
        Some(JsonValue::Object(ms))
    }
}

} // verus!
