//! HWPX serialization of tables (`<hp:tbl>`): rows, cells, cell paragraphs with their runs
//! and line segments, and nested tables, as XML events; and the ids the table refers to.
//! Attribute and child order follow the OWPML table element.
use vstd::prelude::*;
use crate::json::{nat_digits, int_text};
use crate::model::{
    Table, Cell, Paragraph, Control, CommonObjAttr, LineSeg, TextWrap, TablePageBreak, VertRelTo, HorzRelTo, VertAlign,
    HorzAlign, VerticalAlign,
};
use crate::xml::{XmlAttr, XmlEvent, XmlView, events_view, attr, push_event, dec_u64, dec_i64};

verus! {

proof fn lemma_push_contains(s: Seq<u32>, v: u32, x: u32)
    ensures
        s.push(v).contains(x) <==> s.contains(x) || v == x,
{
    if s.push(v).contains(x) {
        let k = choose|k: int| 0 <= k < s.push(v).len() && s.push(v)[k] == x;
        if k < s.len() {
            assert(s[k] == x);
        }
    }
    if s.contains(x) {
        let k = choose|k: int| 0 <= k < s.len() && s[k] == x;
        assert(s.push(v)[k] == x);
    }
    assert(s.push(v)[s.len() as int] == v);
}

/// Ids a serialization defines and the ids it refers to.
#[derive(Debug)]
pub struct RefSet {
    pub defined: Vec<u32>,
    pub referenced: Vec<u32>,
}

impl RefSet {
    /// No ids.
    pub fn new() -> (s: RefSet)
        ensures
            s.defined@.len() == 0,
            s.referenced@.len() == 0,
    {
        RefSet { defined: Vec::new(), referenced: Vec::new() }
    }

    /// Records a reference to `id`.
    pub fn reference(&mut self, id: u32)
        ensures
            final(self).defined == old(self).defined,
            forall|x: u32| final(self).referenced@.contains(x) <==> old(self).referenced@.contains(x) || x == id,
    {
        let mut i: usize = 0;
        while i < self.referenced.len()
            invariant
                i <= self.referenced@.len(),
                self.referenced == old(self).referenced,
                self.defined == old(self).defined,
                forall|j: int| 0 <= j < i ==> self.referenced@[j] != id,
            decreases self.referenced.len() - i,
        {
            if self.referenced[i] == id {
                return;
            }
            i += 1;
        }
        let ghost before = self.referenced@;
        self.referenced.push(id);
        assert forall|x: u32| self.referenced@.contains(x) implies before.contains(x) || x == id by {
            let j = choose|j: int| 0 <= j < self.referenced@.len() && self.referenced@[j] == x;
            if j < before.len() {
                assert(before[j] == x);
            }
        }
        assert forall|x: u32| before.contains(x) implies self.referenced@.contains(x) by {
            let j = choose|j: int| 0 <= j < before.len() && before[j] == x;
            assert(self.referenced@[j] == x);
        }
        assert(self.referenced@[before.len() as int] == id);
    }

    /// The ids referred to but not defined.
    pub fn unresolved(&self) -> (r: Vec<u32>)
        ensures
            forall|x: u32| r@.contains(x) <==> self.referenced@.contains(x) && !self.defined@.contains(x),
    {
        let mut r: Vec<u32> = Vec::new();
        let mut i: usize = 0;
        while i < self.referenced.len()
            invariant
                i <= self.referenced@.len(),
                forall|x: u32| r@.contains(x) <==> self.referenced@.take(i as int).contains(x) && !self.defined@.contains(x),
            decreases self.referenced.len() - i,
        {
            let x = self.referenced[i];
            let mut d = false;
            let mut j: usize = 0;
            while j < self.defined.len()
                invariant
                    j <= self.defined@.len(),
                    d <==> self.defined@.take(j as int).contains(x),
                decreases self.defined.len() - j,
            {
                if self.defined[j] == x {
                    d = true;
                }
                proof {
                    assert(self.defined@.take(j + 1) =~= self.defined@.take(j as int).push(self.defined@[j as int]));
                    lemma_push_contains(self.defined@.take(j as int), self.defined@[j as int], x);
                }
                j += 1;
            }
            assert(self.defined@.take(self.defined@.len() as int) =~= self.defined@);
            let ghost before = r@;
            if !d {
                r.push(x);
            }
            proof {
                let t = self.referenced@.take(i as int);
                assert(self.referenced@.take(i + 1) =~= t.push(x));
                assert forall|y: u32| r@.contains(y) <==> t.push(x).contains(y) && !self.defined@.contains(y) by {
                    if r@.contains(y) && !before.contains(y) {
                        assert(y == x);
                        assert(t.push(x)[t.len() as int] == x);
                    }
                    if t.push(x).contains(y) && !self.defined@.contains(y) {
                        let k = choose|k: int| 0 <= k < t.push(x).len() && t.push(x)[k] == y;
                        if k < t.len() {
                            assert(t[k] == y);
                        } else {
                            assert(r@[r@.len() - 1] == x);
                        }
                    }
                    if before.contains(y) {
                        let k = choose|k: int| 0 <= k < before.len() && before[k] == y;
                        assert(r@[k] == y);
                    }
                }
            }
            i += 1;
        }
        assert(self.referenced@.take(self.referenced@.len() as int) =~= self.referenced@);
        r
    }
}

/// The ids a document serialization tracks: border fills, paragraph shapes, styles and
/// character shapes.
#[derive(Debug)]
pub struct SerializeContext {
    pub border_fill_ids: RefSet,
    pub para_shape_ids: RefSet,
    pub style_ids: RefSet,
    pub char_shape_ids: RefSet,
}

impl SerializeContext {
    /// A context with nothing defined and nothing referenced yet.
    pub fn new() -> (c: SerializeContext)
        ensures
            c.border_fill_ids.defined@.len() == 0 && c.border_fill_ids.referenced@.len() == 0,
            c.para_shape_ids.defined@.len() == 0 && c.para_shape_ids.referenced@.len() == 0,
            c.style_ids.defined@.len() == 0 && c.style_ids.referenced@.len() == 0,
            c.char_shape_ids.defined@.len() == 0 && c.char_shape_ids.referenced@.len() == 0,
    {
        SerializeContext {
            border_fill_ids: RefSet::new(),
            para_shape_ids: RefSet::new(),
            style_ids: RefSet::new(),
            char_shape_ids: RefSet::new(),
        }
    }
}

/// `b` has the definitions of `a` and every reference of `a` (and maybe more).
pub open spec fn refs_grow(a: RefSet, b: RefSet) -> bool {
    &&& b.defined == a.defined
    &&& forall|x: u32| a.referenced@.contains(x) ==> b.referenced@.contains(x)
}

/// Every set of `b` grows from that of `a`.
pub open spec fn ctx_grows(a: SerializeContext, b: SerializeContext) -> bool {
    &&& refs_grow(a.border_fill_ids, b.border_fill_ids)
    &&& refs_grow(a.para_shape_ids, b.para_shape_ids)
    &&& refs_grow(a.style_ids, b.style_ids)
    &&& refs_grow(a.char_shape_ids, b.char_shape_ids)
}

/// `ctx` records a paragraph's character shapes: each of them when it has text, else the
/// first.
pub open spec fn shapes_held(ctx: SerializeContext, p: Paragraph) -> bool {
    &&& p.char_shapes@.len() > 0 ==> ctx.char_shape_ids.referenced@.contains(p.char_shapes@[0].char_shape_id)
    &&& p.text@.len() > 0 ==> forall|i: int|
        0 <= i < p.char_shapes@.len() ==> ctx.char_shape_ids.referenced@.contains(
            #[trigger] p.char_shapes@[i].char_shape_id,
        )
}

/// `ctx` records what a written paragraph references: its paragraph shape, its style, and
/// its character shapes (see `shapes_held`).
pub open spec fn para_refs_held(ctx: SerializeContext, p: Paragraph) -> bool {
    &&& ctx.para_shape_ids.referenced@.contains(p.para_shape_id as u32)
    &&& ctx.style_ids.referenced@.contains(p.style_id as u32)
    &&& shapes_held(ctx, p)
}

/// `ctx` records what every paragraph of cell `c` references.
pub open spec fn cell_refs_held(ctx: SerializeContext, c: Cell) -> bool {
    forall|pi: int| 0 <= pi < c.paragraphs@.len() ==> para_refs_held(ctx, #[trigger] c.paragraphs@[pi])
}

proof fn lemma_para_refs_kept(a: SerializeContext, b: SerializeContext, p: Paragraph)
    requires
        ctx_grows(a, b),
        para_refs_held(a, p),
    ensures
        para_refs_held(b, p),
{
}

proof fn lemma_cell_refs_kept(a: SerializeContext, b: SerializeContext, c: Cell)
    requires
        ctx_grows(a, b),
        cell_refs_held(a, c),
    ensures
        cell_refs_held(b, c),
{
    assert forall|pi: int| 0 <= pi < c.paragraphs@.len() implies para_refs_held(b, #[trigger] c.paragraphs@[pi]) by {
        lemma_para_refs_kept(a, b, c.paragraphs@[pi]);
    }
}

pub open spec fn b01(b: bool) -> Seq<char> {
    if b { "1"@ } else { "0"@ }
}

/// `"1"` or `"0"`.
pub fn bool01(b: bool) -> (s: &'static str)
    ensures
        s@ == b01(b),
{
    if b {
        "1"
    } else {
        "0"
    }
}

pub open spec fn wrap_name(w: TextWrap) -> Seq<char> {
    match w {
        TextWrap::Square => "SQUARE"@,
        TextWrap::Tight => "TIGHT"@,
        TextWrap::Through => "THROUGH"@,
        TextWrap::TopAndBottom => "TOP_AND_BOTTOM"@,
        TextWrap::BehindText => "BEHIND_TEXT"@,
        TextWrap::InFrontOfText => "IN_FRONT_OF_TEXT"@,
    }
}

pub fn text_wrap_str(w: TextWrap) -> (s: &'static str)
    ensures
        s@ == wrap_name(w),
{
    match w {
        TextWrap::Square => "SQUARE",
        TextWrap::Tight => "TIGHT",
        TextWrap::Through => "THROUGH",
        TextWrap::TopAndBottom => "TOP_AND_BOTTOM",
        TextWrap::BehindText => "BEHIND_TEXT",
        TextWrap::InFrontOfText => "IN_FRONT_OF_TEXT",
    }
}

/// The text flow of a table: both sides, whatever the wrap.
pub fn text_flow_str(w: TextWrap) -> (s: &'static str)
    ensures
        s@ == "BOTH_SIDES"@,
{
    "BOTH_SIDES"
}

/// HWPX names the splitting modes the other way round: a row break is `CELL`, a cell break
/// is `TABLE`.
pub open spec fn page_break_name(pb: TablePageBreak) -> Seq<char> {
    match pb {
        TablePageBreak::NoBreak => "NONE"@,
        TablePageBreak::RowBreak => "CELL"@,
        TablePageBreak::CellBreak => "TABLE"@,
    }
}

pub fn table_page_break_str(pb: TablePageBreak) -> (s: &'static str)
    ensures
        s@ == page_break_name(pb),
{
    match pb {
        TablePageBreak::NoBreak => "NONE",
        TablePageBreak::RowBreak => "CELL",
        TablePageBreak::CellBreak => "TABLE",
    }
}

pub open spec fn vert_rel_name(v: VertRelTo) -> Seq<char> {
    match v {
        VertRelTo::Paper => "PAPER"@,
        VertRelTo::Page => "PAGE"@,
        VertRelTo::Para => "PARA"@,
    }
}

pub fn vert_rel_to_str(v: VertRelTo) -> (s: &'static str)
    ensures
        s@ == vert_rel_name(v),
{
    match v {
        VertRelTo::Paper => "PAPER",
        VertRelTo::Page => "PAGE",
        VertRelTo::Para => "PARA",
    }
}

pub open spec fn horz_rel_name(h: HorzRelTo) -> Seq<char> {
    match h {
        HorzRelTo::Paper => "PAPER"@,
        HorzRelTo::Page => "PAGE"@,
        HorzRelTo::Column => "COLUMN"@,
        HorzRelTo::Para => "PARA"@,
    }
}

pub fn horz_rel_to_str(h: HorzRelTo) -> (s: &'static str)
    ensures
        s@ == horz_rel_name(h),
{
    match h {
        HorzRelTo::Paper => "PAPER",
        HorzRelTo::Page => "PAGE",
        HorzRelTo::Column => "COLUMN",
        HorzRelTo::Para => "PARA",
    }
}

pub open spec fn vert_align_name(v: VertAlign) -> Seq<char> {
    match v {
        VertAlign::Top => "TOP"@,
        VertAlign::Center => "CENTER"@,
        VertAlign::Bottom => "BOTTOM"@,
        VertAlign::Inside => "INSIDE"@,
        VertAlign::Outside => "OUTSIDE"@,
    }
}

pub fn vert_align_str(v: VertAlign) -> (s: &'static str)
    ensures
        s@ == vert_align_name(v),
{
    match v {
        VertAlign::Top => "TOP",
        VertAlign::Center => "CENTER",
        VertAlign::Bottom => "BOTTOM",
        VertAlign::Inside => "INSIDE",
        VertAlign::Outside => "OUTSIDE",
    }
}

pub open spec fn horz_align_name(h: HorzAlign) -> Seq<char> {
    match h {
        HorzAlign::Left => "LEFT"@,
        HorzAlign::Center => "CENTER"@,
        HorzAlign::Right => "RIGHT"@,
        HorzAlign::Inside => "INSIDE"@,
        HorzAlign::Outside => "OUTSIDE"@,
    }
}

pub fn horz_align_str(h: HorzAlign) -> (s: &'static str)
    ensures
        s@ == horz_align_name(h),
{
    match h {
        HorzAlign::Left => "LEFT",
        HorzAlign::Center => "CENTER",
        HorzAlign::Right => "RIGHT",
        HorzAlign::Inside => "INSIDE",
        HorzAlign::Outside => "OUTSIDE",
    }
}

pub open spec fn cell_valign_name(v: VerticalAlign) -> Seq<char> {
    match v {
        VerticalAlign::Top => "TOP"@,
        VerticalAlign::Center => "CENTER"@,
        VerticalAlign::Bottom => "BOTTOM"@,
    }
}

pub fn cell_vert_align_str(v: VerticalAlign) -> (s: &'static str)
    ensures
        s@ == cell_valign_name(v),
{
    match v {
        VerticalAlign::Top => "TOP",
        VerticalAlign::Center => "CENTER",
        VerticalAlign::Bottom => "BOTTOM",
    }
}

pub open spec fn nd(n: int) -> Seq<char> {
    nat_digits(n as nat)
}

/// `<hp:sz>` of a table.
pub open spec fn sz_view(c: CommonObjAttr) -> XmlView {
    XmlView::Empty("hp:sz"@, seq![
        ("width"@, nd(c.width as int)), ("widthRelTo"@, "ABSOLUTE"@), ("height"@, nd(c.height as int)),
        ("heightRelTo"@, "ABSOLUTE"@), ("protect"@, "0"@),
    ])
}

/// `<hp:pos>` of a table.
pub open spec fn pos_view(c: CommonObjAttr) -> XmlView {
    XmlView::Empty("hp:pos"@, seq![
        ("treatAsChar"@, b01(c.treat_as_char)), ("affectLSpacing"@, "0"@), ("flowWithText"@, "1"@),
        ("allowOverlap"@, "0"@), ("holdAnchorAndSO"@, "0"@), ("vertRelTo"@, vert_rel_name(c.vert_rel_to)),
        ("horzRelTo"@, horz_rel_name(c.horz_rel_to)), ("vertAlign"@, vert_align_name(c.vert_align)),
        ("horzAlign"@, horz_align_name(c.horz_align)), ("vertOffset"@, nd(c.vertical_offset as int)),
        ("horzOffset"@, nd(c.horizontal_offset as int)),
    ])
}

/// A margin element.
pub open spec fn margin_view(name: Seq<char>, l: i64, r: i64, t: i64, b: i64) -> XmlView {
    XmlView::Empty(name, seq![
        ("left"@, int_text(l as int)), ("right"@, int_text(r as int)), ("top"@, int_text(t as int)),
        ("bottom"@, int_text(b as int)),
    ])
}

/// The `<hp:tbl>` start tag.
pub open spec fn tbl_start_view(t: Table) -> XmlView {
    XmlView::Start("hp:tbl"@, seq![
        ("id"@, nd(t.common.instance_id as int)), ("zOrder"@, int_text(t.common.z_order as int)),
        ("numberingType"@, "TABLE"@), ("textWrap"@, wrap_name(t.common.text_wrap)), ("textFlow"@, "BOTH_SIDES"@),
        ("lock"@, "0"@), ("dropcapstyle"@, "None"@), ("pageBreak"@, page_break_name(t.page_break)),
        ("repeatHeader"@, b01(t.repeat_header)), ("rowCnt"@, nd(t.row_count as int)), ("colCnt"@, nd(t.col_count as int)),
        ("cellSpacing"@, int_text(t.cell_spacing as int)), ("borderFillIDRef"@, nd(t.border_fill_id as int)),
        ("noAdjust"@, b01((t.attr | t.raw_table_record_attr) & 8 != 0)),
    ])
}

/// The `<hp:tc>` start tag.
pub open spec fn tc_start_view(c: Cell) -> XmlView {
    XmlView::Start("hp:tc"@, seq![
        ("name"@, match c.field_name { Some(n) => n@, None => Seq::empty() }), ("header"@, b01(c.is_header)),
        ("hasMargin"@, b01(c.apply_inner_margin)), ("protect"@, "0"@), ("editable"@, "0"@), ("dirty"@, "0"@),
        ("borderFillIDRef"@, nd(c.border_fill_id as int)),
    ])
}

/// The elements after a cell's sub-list: address, span (at least 1), size and margins.
pub open spec fn cell_tail_view(c: Cell) -> Seq<XmlView> {
    seq![
        XmlView::Empty("hp:cellAddr"@, seq![("colAddr"@, nd(c.col as int)), ("rowAddr"@, nd(c.row as int))]),
        XmlView::Empty("hp:cellSpan"@, seq![
            ("colSpan"@, nd(if c.col_span >= 1 { c.col_span as int } else { 1 })),
            ("rowSpan"@, nd(if c.row_span >= 1 { c.row_span as int } else { 1 })),
        ]),
        XmlView::Empty("hp:cellSz"@, seq![("width"@, nd(c.width as int)), ("height"@, nd(c.height as int))]),
        margin_view("hp:cellMargin"@, c.padding.left as i64, c.padding.right as i64, c.padding.top as i64, c.padding.bottom as i64),
        XmlView::End("hp:tc"@),
    ]
}

/// The `<hp:subList>` start tag of a cell.
pub open spec fn sublist_start_view(c: Cell) -> XmlView {
    XmlView::Start("hp:subList"@, seq![
        ("id"@, Seq::empty()), ("textDirection"@, if c.text_direction == 1 { "VERTICAL"@ } else { "HORIZONTAL"@ }),
        ("lineWrap"@, "BREAK"@), ("vertAlign"@, cell_valign_name(c.vertical_align)), ("linkListIDRef"@, "0"@),
        ("linkListNextIDRef"@, "0"@), ("textWidth"@, "0"@), ("textHeight"@, "0"@), ("hasTextRef"@, "0"@),
        ("hasNumRef"@, "0"@),
    ])
}

/// The `<hp:p>` start tag of the `pi`-th paragraph of a cell.
pub open spec fn p_start_view(p: Paragraph, pi: int) -> XmlView {
    XmlView::Start("hp:p"@, seq![
        ("id"@, nd(pi)), ("paraPrIDRef"@, nd(p.para_shape_id as int)), ("styleIDRef"@, nd(p.style_id as int)),
        ("pageBreak"@, "0"@), ("columnBreak"@, "0"@), ("merged"@, "0"@),
    ])
}

/// One `<hp:lineseg>`.
pub open spec fn lineseg_view(s: LineSeg) -> XmlView {
    XmlView::Empty("hp:lineseg"@, seq![
        ("textpos"@, nd(s.text_start as int)), ("vertpos"@, int_text(s.vertical_pos as int)),
        ("vertsize"@, int_text(s.line_height as int)), ("textheight"@, int_text(s.text_height as int)),
        ("baseline"@, int_text(s.baseline_distance as int)), ("spacing"@, int_text(s.line_spacing as int)),
        ("horzpos"@, int_text(s.column_start as int)), ("horzsize"@, int_text(s.segment_width as int)),
        ("flags"@, nd(s.tag as int)),
    ])
}

/// The line segment written for a paragraph that has none.
pub open spec fn default_lineseg_view() -> XmlView {
    XmlView::Empty("hp:lineseg"@, seq![
        ("textpos"@, "0"@), ("vertpos"@, "0"@), ("vertsize"@, "1000"@), ("textheight"@, "1000"@), ("baseline"@, "850"@),
        ("spacing"@, "600"@), ("horzpos"@, "0"@), ("horzsize"@, "12964"@), ("flags"@, "393216"@),
    ])
}

/// The line segments of a paragraph, written one by one.
pub open spec fn linesegs_view(segs: Seq<LineSeg>, n: int) -> Seq<XmlView>
    decreases n,
{
    if n <= 0 || n > segs.len() {
        Seq::empty()
    } else {
        linesegs_view(segs, n - 1).push(lineseg_view(segs[n - 1]))
    }
}

/// `<hp:linesegarray>` of a paragraph.
pub open spec fn lineseg_array_view(p: Paragraph) -> Seq<XmlView> {
    seq![XmlView::Start("hp:linesegarray"@, Seq::empty())] + (if p.line_segs@.len() > 0 {
        linesegs_view(p.line_segs@, p.line_segs@.len() as int)
    } else {
        seq![default_lineseg_view()]
    }) + seq![XmlView::End("hp:linesegarray"@)]
}

fn sz_event(c: &CommonObjAttr) -> (e: XmlEvent)
    ensures
        e@ == sz_view(*c),
{
    let mut a: Vec<XmlAttr> = Vec::new();
    a.push(attr("width", dec_u64(c.width as u64)));
    a.push(attr("widthRelTo", String::from_str("ABSOLUTE")));
    a.push(attr("height", dec_u64(c.height as u64)));
    a.push(attr("heightRelTo", String::from_str("ABSOLUTE")));
    a.push(attr("protect", String::from_str("0")));
    let e = XmlEvent::Empty(String::from_str("hp:sz"), a);
    assert(crate::xml::attrs_view(a@) =~= match sz_view(*c) { XmlView::Empty(_, x) => x, _ => Seq::empty() });
    e
}

fn lit(v: &str) -> (s: String)
    ensures
        s@ == v@,
{
    String::from_str(v)
}

fn pos_event(c: &CommonObjAttr) -> (e: XmlEvent)
    ensures
        e@ == pos_view(*c),
{
    let mut a: Vec<XmlAttr> = Vec::new();
    a.push(attr("treatAsChar", lit(bool01(c.treat_as_char))));
    a.push(attr("affectLSpacing", lit("0")));
    a.push(attr("flowWithText", lit("1")));
    a.push(attr("allowOverlap", lit("0")));
    a.push(attr("holdAnchorAndSO", lit("0")));
    a.push(attr("vertRelTo", lit(vert_rel_to_str(c.vert_rel_to))));
    a.push(attr("horzRelTo", lit(horz_rel_to_str(c.horz_rel_to))));
    a.push(attr("vertAlign", lit(vert_align_str(c.vert_align))));
    a.push(attr("horzAlign", lit(horz_align_str(c.horz_align))));
    a.push(attr("vertOffset", dec_u64(c.vertical_offset as u64)));
    a.push(attr("horzOffset", dec_u64(c.horizontal_offset as u64)));
    assert(crate::xml::attrs_view(a@) =~= match pos_view(*c) { XmlView::Empty(_, x) => x, _ => Seq::empty() });
    XmlEvent::Empty(lit("hp:pos"), a)
}

fn margin_event(name: &str, l: i64, r: i64, t: i64, b: i64) -> (e: XmlEvent)
    ensures
        e@ == margin_view(name@, l, r, t, b),
{
    let mut a: Vec<XmlAttr> = Vec::new();
    a.push(attr("left", dec_i64(l)));
    a.push(attr("right", dec_i64(r)));
    a.push(attr("top", dec_i64(t)));
    a.push(attr("bottom", dec_i64(b)));
    assert(crate::xml::attrs_view(a@) =~= match margin_view(name@, l, r, t, b) { XmlView::Empty(_, x) => x, _ => Seq::empty() });
    XmlEvent::Empty(lit(name), a)
}

fn tbl_start_event(t: &Table) -> (e: XmlEvent)
    ensures
        e@ == tbl_start_view(*t),
{
    let mut a: Vec<XmlAttr> = Vec::new();
    a.push(attr("id", dec_u64(t.common.instance_id as u64)));
    a.push(attr("zOrder", dec_i64(t.common.z_order as i64)));
    a.push(attr("numberingType", lit("TABLE")));
    a.push(attr("textWrap", lit(text_wrap_str(t.common.text_wrap))));
    a.push(attr("textFlow", lit(text_flow_str(t.common.text_wrap))));
    a.push(attr("lock", lit(bool01(false))));
    a.push(attr("dropcapstyle", lit("None")));
    a.push(attr("pageBreak", lit(table_page_break_str(t.page_break))));
    a.push(attr("repeatHeader", lit(bool01(t.repeat_header))));
    a.push(attr("rowCnt", dec_u64(t.row_count as u64)));
    a.push(attr("colCnt", dec_u64(t.col_count as u64)));
    a.push(attr("cellSpacing", dec_i64(t.cell_spacing as i64)));
    a.push(attr("borderFillIDRef", dec_u64(t.border_fill_id as u64)));
    a.push(attr("noAdjust", lit(bool01((t.attr | t.raw_table_record_attr) & 8 != 0))));
    assert(crate::xml::attrs_view(a@) =~= match tbl_start_view(*t) { XmlView::Start(_, x) => x, _ => Seq::empty() });
    XmlEvent::Start(lit("hp:tbl"), a)
}

fn tc_start_event(c: &Cell) -> (e: XmlEvent)
    ensures
        e@ == tc_start_view(*c),
{
    let name = match &c.field_name {
        Some(n) => n.clone(),
        None => String::new(),
    };
    let mut a: Vec<XmlAttr> = Vec::new();
    a.push(attr("name", name));
    a.push(attr("header", lit(bool01(c.is_header))));
    a.push(attr("hasMargin", lit(bool01(c.apply_inner_margin))));
    a.push(attr("protect", lit("0")));
    a.push(attr("editable", lit("0")));
    a.push(attr("dirty", lit("0")));
    a.push(attr("borderFillIDRef", dec_u64(c.border_fill_id as u64)));
    assert(crate::xml::attrs_view(a@) =~= match tc_start_view(*c) { XmlView::Start(_, x) => x, _ => Seq::empty() });
    XmlEvent::Start(lit("hp:tc"), a)
}

fn push_cell_tail(out: &mut Vec<XmlEvent>, c: &Cell)
    ensures
        events_view(final(out)@) == events_view(old(out)@) + cell_tail_view(*c),
{
    let mut a: Vec<XmlAttr> = Vec::new();
    a.push(attr("colAddr", dec_u64(c.col as u64)));
    a.push(attr("rowAddr", dec_u64(c.row as u64)));
    let e1 = XmlEvent::Empty(lit("hp:cellAddr"), a);
    assert(e1@ == cell_tail_view(*c)[0]) by {
        assert(crate::xml::attrs_view(a@) =~= seq![("colAddr"@, nd(c.col as int)), ("rowAddr"@, nd(c.row as int))]);
    }
    let cs: u16 = if c.col_span >= 1 {
        c.col_span
    } else {
        1
    };
    let rs: u16 = if c.row_span >= 1 {
        c.row_span
    } else {
        1
    };
    let mut b: Vec<XmlAttr> = Vec::new();
    b.push(attr("colSpan", dec_u64(cs as u64)));
    b.push(attr("rowSpan", dec_u64(rs as u64)));
    let e2 = XmlEvent::Empty(lit("hp:cellSpan"), b);
    assert(e2@ == cell_tail_view(*c)[1]) by {
        assert(crate::xml::attrs_view(b@) =~= seq![("colSpan"@, nd(cs as int)), ("rowSpan"@, nd(rs as int))]);
    }
    let mut d: Vec<XmlAttr> = Vec::new();
    d.push(attr("width", dec_u64(c.width as u64)));
    d.push(attr("height", dec_u64(c.height as u64)));
    let e3 = XmlEvent::Empty(lit("hp:cellSz"), d);
    assert(e3@ == cell_tail_view(*c)[2]) by {
        assert(crate::xml::attrs_view(d@) =~= seq![("width"@, nd(c.width as int)), ("height"@, nd(c.height as int))]);
    }
    let e4 = margin_event("hp:cellMargin", c.padding.left as i64, c.padding.right as i64, c.padding.top as i64, c.padding.bottom as i64);
    let ghost o = events_view(out@);
    push_event(out, e1);
    push_event(out, e2);
    push_event(out, e3);
    push_event(out, e4);
    push_event(out, XmlEvent::End(lit("hp:tc")));
    assert(events_view(out@) =~= o + cell_tail_view(*c));
}

fn sublist_start_event(c: &Cell) -> (e: XmlEvent)
    ensures
        e@ == sublist_start_view(*c),
{
    let dir = if c.text_direction == 1 {
        "VERTICAL"
    } else {
        "HORIZONTAL"
    };
    let mut a: Vec<XmlAttr> = Vec::new();
    a.push(attr("id", String::new()));
    a.push(attr("textDirection", lit(dir)));
    a.push(attr("lineWrap", lit("BREAK")));
    a.push(attr("vertAlign", lit(cell_vert_align_str(c.vertical_align))));
    a.push(attr("linkListIDRef", lit("0")));
    a.push(attr("linkListNextIDRef", lit("0")));
    a.push(attr("textWidth", lit("0")));
    a.push(attr("textHeight", lit("0")));
    a.push(attr("hasTextRef", lit("0")));
    a.push(attr("hasNumRef", lit("0")));
    assert(crate::xml::attrs_view(a@) =~= match sublist_start_view(*c) { XmlView::Start(_, x) => x, _ => Seq::empty() });
    XmlEvent::Start(lit("hp:subList"), a)
}

fn p_start_event(p: &Paragraph, pi: usize) -> (e: XmlEvent)
    ensures
        e@ == p_start_view(*p, pi as int),
{
    let mut a: Vec<XmlAttr> = Vec::new();
    a.push(attr("id", dec_u64(pi as u64)));
    a.push(attr("paraPrIDRef", dec_u64(p.para_shape_id as u64)));
    a.push(attr("styleIDRef", dec_u64(p.style_id as u64)));
    a.push(attr("pageBreak", lit("0")));
    a.push(attr("columnBreak", lit("0")));
    a.push(attr("merged", lit("0")));
    assert(crate::xml::attrs_view(a@) =~= match p_start_view(*p, pi as int) { XmlView::Start(_, x) => x, _ => Seq::empty() });
    XmlEvent::Start(lit("hp:p"), a)
}

fn lineseg_event(sg: &LineSeg) -> (e: XmlEvent)
    ensures
        e@ == lineseg_view(*sg),
{
    let mut a: Vec<XmlAttr> = Vec::new();
    a.push(attr("textpos", dec_u64(sg.text_start as u64)));
    a.push(attr("vertpos", dec_i64(sg.vertical_pos as i64)));
    a.push(attr("vertsize", dec_i64(sg.line_height as i64)));
    a.push(attr("textheight", dec_i64(sg.text_height as i64)));
    a.push(attr("baseline", dec_i64(sg.baseline_distance as i64)));
    a.push(attr("spacing", dec_i64(sg.line_spacing as i64)));
    a.push(attr("horzpos", dec_i64(sg.column_start as i64)));
    a.push(attr("horzsize", dec_i64(sg.segment_width as i64)));
    a.push(attr("flags", dec_u64(sg.tag as u64)));
    assert(crate::xml::attrs_view(a@) =~= match lineseg_view(*sg) { XmlView::Empty(_, x) => x, _ => Seq::empty() });
    XmlEvent::Empty(lit("hp:lineseg"), a)
}

fn push_lineseg_array(out: &mut Vec<XmlEvent>, p: &Paragraph)
    ensures
        events_view(final(out)@) == events_view(old(out)@) + lineseg_array_view(*p),
{
    let ghost o = events_view(out@);
    push_event(out, XmlEvent::Start(lit("hp:linesegarray"), Vec::new()));
    assert(crate::xml::attrs_view(Seq::<XmlAttr>::empty()) =~= Seq::empty());
    let ghost o1 = events_view(out@);
    if p.line_segs.len() > 0 {
        let mut i: usize = 0;
        while i < p.line_segs.len()
            invariant
                i <= p.line_segs@.len(),
                events_view(out@) == o1 + linesegs_view(p.line_segs@, i as int),
            decreases p.line_segs.len() - i,
        {
            push_event(out, lineseg_event(&p.line_segs[i]));
            i += 1;
        }
    } else {
        let mut a: Vec<XmlAttr> = Vec::new();
        a.push(attr("textpos", lit("0")));
        a.push(attr("vertpos", lit("0")));
        a.push(attr("vertsize", lit("1000")));
        a.push(attr("textheight", lit("1000")));
        a.push(attr("baseline", lit("850")));
        a.push(attr("spacing", lit("600")));
        a.push(attr("horzpos", lit("0")));
        a.push(attr("horzsize", lit("12964")));
        a.push(attr("flags", lit("393216")));
        assert(crate::xml::attrs_view(a@) =~= match default_lineseg_view() { XmlView::Empty(_, x) => x, _ => Seq::empty() });
        push_event(out, XmlEvent::Empty(lit("hp:lineseg"), a));
    }
    push_event(out, XmlEvent::End(lit("hp:linesegarray")));
    assert(events_view(out@) =~= o + lineseg_array_view(*p));
}

/// The UTF-16 code units of a character.
pub open spec fn char_units(c: char) -> Seq<u16> {
    let v = c as u32;
    if v < 0x10000 {
        seq![v as u16]
    } else {
        let w = v - 0x10000;
        seq![(0xD800 + w / 1024) as u16, (0xDC00 + w % 1024) as u16]
    }
}

/// The UTF-16 code units of a text.
pub open spec fn utf16_units(s: Seq<char>) -> Seq<u16>
    decreases s.len(),
{
    if s.len() == 0 {
        Seq::empty()
    } else {
        utf16_units(s.drop_last()) + char_units(s.last())
    }
}

/// UTF-16 code units decoded from the front: a leading surrogate followed by a trailing one
/// is one character; any other surrogate becomes U+FFFD; any other unit is its character.
pub open spec fn utf16_lossy(u: Seq<u16>) -> Seq<char>
    decreases u.len(),
{
    if u.len() == 0 {
        Seq::empty()
    } else if 0xD800 <= u[0] < 0xDC00 && u.len() >= 2 && 0xDC00 <= u[1] < 0xE000 {
        seq![(0x10000 + (u[0] - 0xD800) * 1024 + (u[1] - 0xDC00)) as char] + utf16_lossy(u.subrange(2, u.len() as int))
    } else if 0xD800 <= u[0] < 0xE000 {
        seq!['\u{FFFD}'] + utf16_lossy(u.drop_first())
    } else {
        seq![u[0] as char] + utf16_lossy(u.drop_first())
    }
}

/// Decodes UTF-16 code units with `String::from_utf16_lossy`, which decodes as `utf16_lossy`
/// says (its documentation: invalid data is replaced with U+FFFD).
#[verifier::external_body]
fn string_from_utf16_lossy(units: &[u16]) -> (s: String)
    ensures
        s@ == utf16_lossy(units@),
{
    String::from_utf16_lossy(units)
}

/// The UTF-16 code units of `s`.
pub fn utf16_of(s: &str) -> (u: Vec<u16>)
    ensures
        u@ == utf16_units(s@),
{
    let cs = crate::text::chars_of(s);
    let mut u: Vec<u16> = Vec::new();
    let mut i: usize = 0;
    while i < cs.len()
        invariant
            i <= cs@.len(),
            cs@ == s@,
            u@ == utf16_units(s@.take(i as int)),
        decreases cs.len() - i,
    {
        let v = cs[i] as u32;
        let ghost before = u@;
        if v < 0x10000 {
            u.push(v as u16);
        } else {
            let w = v - 0x10000;
            u.push((0xD800 + w / 1024) as u16);
            u.push((0xDC00 + w % 1024) as u16);
        }
        assert(s@.take(i + 1).drop_last() =~= s@.take(i as int));
        assert(u@ =~= before + char_units(cs@[i as int]));
        i += 1;
    }
    assert(s@.take(cs@.len() as int) =~= s@);
    u
}

/// The first character shape of a paragraph (0 when it has none).
pub open spec fn first_shape(p: Paragraph) -> u32 {
    if p.char_shapes@.len() > 0 {
        p.char_shapes@[0].char_shape_id
    } else {
        0
    }
}

/// `<hp:run charPrIDRef=..>`.
pub open spec fn run_start_view(id: u32) -> XmlView {
    XmlView::Start("hp:run"@, seq![("charPrIDRef"@, nd(id as int))])
}

/// `<hp:t>` holding a text (no text node for an empty text).
pub open spec fn t_view(text: Seq<char>) -> Seq<XmlView> {
    seq![XmlView::Start("hp:t"@, Seq::empty())] + (if text.len() > 0 {
        seq![XmlView::Text(text)]
    } else {
        Seq::empty()
    }) + seq![XmlView::End("hp:t"@)]
}

/// The UTF-16 range of character shape `i`: from its start to the next one's start (or the
/// end), both clamped to the text.
pub open spec fn shape_range(p: Paragraph, i: int) -> (int, int) {
    let n = utf16_units(p.text@).len() as int;
    let css = p.char_shapes@;
    let start = if css[i].start_pos < n { css[i].start_pos as int } else { n };
    let end_raw = if i + 1 < css.len() { css[i + 1].start_pos as int } else { n };
    (start, if end_raw < n { end_raw } else { n })
}

/// The run of character shape `i` (none when its range is empty).
pub open spec fn shape_run_view(p: Paragraph, i: int) -> Seq<XmlView> {
    let (start, end) = shape_range(p, i);
    if end <= start {
        Seq::empty()
    } else {
        seq![run_start_view(p.char_shapes@[i].char_shape_id)] + t_view(utf16_lossy(utf16_units(p.text@).subrange(start, end)))
            + seq![XmlView::End("hp:run"@)]
    }
}

/// The runs of the first `k` character shapes.
pub open spec fn shape_runs_view(p: Paragraph, k: int) -> Seq<XmlView>
    decreases k,
{
    if k <= 0 || k > p.char_shapes@.len() {
        Seq::empty()
    } else {
        shape_runs_view(p, k - 1) + shape_run_view(p, k - 1)
    }
}

/// The text runs of a paragraph: one run per character shape over its range of the text, or
/// one run with the whole text (in the first shape) when there is no shape or no text.
pub open spec fn runs_view(p: Paragraph) -> Seq<XmlView> {
    if p.char_shapes@.len() == 0 || p.text@.len() == 0 {
        seq![run_start_view(first_shape(p))] + t_view(p.text@) + seq![XmlView::End("hp:run"@)]
    } else {
        shape_runs_view(p, p.char_shapes@.len() as int)
    }
}

proof fn lemma_units_cons(c: char, x: Seq<char>)
    ensures
        utf16_units(seq![c] + x) == char_units(c) + utf16_units(x),
    decreases x.len(),
{
    let cx = seq![c] + x;
    if x.len() == 0 {
        assert(cx =~= seq![c]);
        assert(cx.drop_last() =~= Seq::<char>::empty());
        assert(utf16_units(cx) == utf16_units(cx.drop_last()) + char_units(cx.last()));
        assert(utf16_units(cx) =~= char_units(c));
        assert(char_units(c) + utf16_units(x) =~= char_units(c));
    } else {
        lemma_units_cons(c, x.drop_last());
        assert(cx.drop_last() =~= seq![c] + x.drop_last());
        assert(cx.last() == x.last());
        assert(utf16_units(cx) == utf16_units(cx.drop_last()) + char_units(cx.last()));
        assert(utf16_units(x) == utf16_units(x.drop_last()) + char_units(x.last()));
        assert(utf16_units(cx) =~= char_units(c) + utf16_units(x));
    }
}

/// Decoding the UTF-16 code units of a text (as the text runs of a paragraph are written)
/// gives the text back.
pub proof fn law_utf16_round_trip(s: Seq<char>)
    ensures
        utf16_lossy(utf16_units(s)) == s,
    decreases s.len(),
{
    if s.len() > 0 {
        let c = s[0];
        let x = s.drop_first();
        assert(s =~= seq![c] + x);
        lemma_units_cons(c, x);
        law_utf16_round_trip(x);
        let u = utf16_units(s);
        let v = c as u32;
        vstd::utf8::char_is_scalar(c);
        vstd::utf8::char_u32_cast(c, v);
        if v < 0x10000 {
            assert(u[0] == v as u16);
            assert(u.drop_first() =~= utf16_units(x));
            assert(!(0xD800 <= v < 0xE000));
            assert(utf16_lossy(u) == seq![u[0] as char] + utf16_lossy(u.drop_first()));
            assert((u[0] as int) == (v as int));
            assert(u[0] as char == c);
            assert(utf16_lossy(u) =~= s);
        } else {
            let w = v - 0x10000;
            assert(w < 0x100000);
            let hi = u[0];
            let lo = u[1];
            assert(hi == (0xD800 + w / 1024) as u16);
            assert(lo == (0xDC00 + w % 1024) as u16);
            assert(u.subrange(2, u.len() as int) =~= utf16_units(x));
            assert(0x10000 + (w / 1024) * 1024 + w % 1024 == v);
            assert(0x10000 + (hi - 0xD800) * 1024 + (lo - 0xDC00) == v as int);
            assert((0x10000 + (hi - 0xD800) * 1024 + (lo - 0xDC00)) as char == c);
            assert(utf16_lossy(u) =~= s);
        }
    }
}

proof fn lemma_units_len(s: Seq<char>)
    ensures
        utf16_units(s).len() == crate::cell_path::utf16_len(s),
    decreases s.len(),
{
    if s.len() > 0 {
        lemma_units_len(s.drop_last());
    }
}

/// A paragraph whose text is all in one character shape, from the start (as a cell paragraph
/// is after its runs are replaced along a path), is written as one run holding its whole text.
pub proof fn law_single_shape_is_one_run(p: Paragraph)
    requires
        p.char_shapes@.len() == 1,
        p.char_shapes@[0].start_pos == 0,
    ensures
        runs_view(p) == seq![run_start_view(p.char_shapes@[0].char_shape_id)] + t_view(p.text@) + seq![XmlView::End("hp:run"@)],
{
    if p.text@.len() > 0 {
        let u = utf16_units(p.text@);
        lemma_units_len(p.text@);
        crate::cell_path::lemma_utf16_len_pos(p.text@);
        law_utf16_round_trip(p.text@);
        assert(u.subrange(0, u.len() as int) =~= u);
        assert(shape_range(p, 0) == (0int, u.len() as int));
        assert(shape_runs_view(p, 0) =~= Seq::<XmlView>::empty());
        assert(shape_runs_view(p, 1) =~= shape_run_view(p, 0));
    }
}

fn push_t(out: &mut Vec<XmlEvent>, text: String)
    ensures
        events_view(final(out)@) == events_view(old(out)@) + t_view(text@),
{
    let ghost o = events_view(out@);
    let ghost tv = text@;
    push_event(out, XmlEvent::Start(lit("hp:t"), Vec::new()));
    assert(crate::xml::attrs_view(Seq::<XmlAttr>::empty()) =~= Seq::empty());
    let nonempty = crate::text_ops::char_len(text.as_str()) > 0;
    if nonempty {
        push_event(out, XmlEvent::Text(text));
    }
    push_event(out, XmlEvent::End(lit("hp:t")));
    assert(events_view(out@) =~= o + t_view(tv));
}

fn run_start_event(id: u32) -> (e: XmlEvent)
    ensures
        e@ == run_start_view(id),
{
    let mut a: Vec<XmlAttr> = Vec::new();
    a.push(attr("charPrIDRef", dec_u64(id as u64)));
    assert(crate::xml::attrs_view(a@) =~= seq![("charPrIDRef"@, nd(id as int))]);
    XmlEvent::Start(lit("hp:run"), a)
}

fn copy_units(u: &Vec<u16>, from: usize, to: usize) -> (r: Vec<u16>)
    requires
        from <= to <= u@.len(),
    ensures
        r@ == u@.subrange(from as int, to as int),
{
    let mut r: Vec<u16> = Vec::new();
    let mut i = from;
    while i < to
        invariant
            from <= i <= to <= u@.len(),
            r@ == u@.subrange(from as int, i as int),
        decreases to - i,
    {
        r.push(u[i]);
        assert(u@.subrange(from as int, i + 1) =~= u@.subrange(from as int, i as int).push(u@[i as int]));
        i += 1;
    }
    r
}

/// Writes the text runs of a paragraph and records their character shapes.
fn push_runs(out: &mut Vec<XmlEvent>, p: &Paragraph, ctx: &mut SerializeContext)
    ensures
        events_view(final(out)@) == events_view(old(out)@) + runs_view(*p),
        ctx_grows(*old(ctx), *final(ctx)),
        p.text@.len() > 0 ==> forall|i: int|
            0 <= i < p.char_shapes@.len() ==> final(ctx).char_shape_ids.referenced@.contains(
                #[trigger] p.char_shapes@[i].char_shape_id,
            ),
{
    let ghost o = events_view(out@);
    let units = utf16_of(p.text.as_str());
    let n = units.len();
    if p.char_shapes.len() == 0 || n == 0 {
        proof {
            lemma_units_len(p.text@);
            if p.text@.len() > 0 {
                crate::cell_path::lemma_utf16_len_pos(p.text@);
            }
        }
        let cs = if p.char_shapes.len() > 0 {
            ctx.char_shape_ids.reference(p.char_shapes[0].char_shape_id);
            p.char_shapes[0].char_shape_id
        } else {
            0
        };
        push_event(out, run_start_event(cs));
        push_t(out, p.text.clone());
        push_event(out, XmlEvent::End(lit("hp:run")));
        assert(events_view(out@) =~= o + runs_view(*p));
    } else {
        proof {
            lemma_units_len(p.text@);
            crate::cell_path::lemma_utf16_len_zero(p.text@);
        }
        let k = p.char_shapes.len();
        let mut i: usize = 0;
        while i < k
            invariant
                i <= k == p.char_shapes@.len(),
                units@ == utf16_units(p.text@),
                n == units@.len(),
                events_view(out@) == o + shape_runs_view(*p, i as int),
                ctx_grows(*old(ctx), *ctx),
                forall|q: int| 0 <= q < i ==> ctx.char_shape_ids.referenced@.contains(
                    #[trigger] p.char_shapes@[q].char_shape_id,
                ),
            decreases k - i,
        {
            let cs_ref = p.char_shapes[i];
            ctx.char_shape_ids.reference(cs_ref.char_shape_id);
            let start = if (cs_ref.start_pos as usize) < n {
                cs_ref.start_pos as usize
            } else {
                n
            };
            let end_raw = if i + 1 < k {
                p.char_shapes[i + 1].start_pos as usize
            } else {
                n
            };
            let end = if end_raw < n {
                end_raw
            } else {
                n
            };
            let ghost before = events_view(out@);
            if end > start {
                let seg = copy_units(&units, start, end);
                let text = string_from_utf16_lossy(seg.as_slice());
                push_event(out, run_start_event(cs_ref.char_shape_id));
                push_t(out, text);
                push_event(out, XmlEvent::End(lit("hp:run")));
            }
            assert(events_view(out@) =~= before + shape_run_view(*p, i as int));
            i += 1;
        }
    }
}

/// Inserts cell index `i` into `sorted` (ordered by column) after every cell whose column is
/// not greater than its own.
pub open spec fn insert_by_col(sorted: Seq<int>, i: int, cells: Seq<Cell>) -> Seq<int>
    decreases sorted.len(),
{
    if sorted.len() == 0 {
        seq![i]
    } else if cells[sorted.last()].col <= cells[i].col {
        sorted.push(i)
    } else {
        insert_by_col(sorted.drop_last(), i, cells).push(sorted.last())
    }
}

/// The indices, among the first `n` cells, of the cells of row `row`, ordered by column
/// (cells of the same column keep their order).
pub open spec fn row_order(cells: Seq<Cell>, row: int, n: int) -> Seq<int>
    decreases n,
{
    if n <= 0 || n > cells.len() {
        Seq::empty()
    } else {
        let prev = row_order(cells, row, n - 1);
        if cells[n - 1].row == row {
            insert_by_col(prev, n - 1, cells)
        } else {
            prev
        }
    }
}

/// The controls include a table or a picture (they are written inside a run).
pub open spec fn has_inline(cs: Seq<Control>) -> bool {
    exists|j: int| 0 <= j < cs.len() && (cs[j] is Table || cs[j] is Picture)
}

/// A table: its start tag, size, position and margins, its rows, and its end tag.
pub open spec fn table_view(t: Table) -> Seq<XmlView>
    decreases t, 3int, 0int,
{
    seq![
        tbl_start_view(t),
        sz_view(t.common),
        pos_view(t.common),
        margin_view("hp:outMargin"@, t.outer_margin_left as i64, t.outer_margin_right as i64, t.outer_margin_top as i64, t.outer_margin_bottom as i64),
        margin_view("hp:inMargin"@, t.padding.left as i64, t.padding.right as i64, t.padding.top as i64, t.padding.bottom as i64),
    ] + rows_view(t, t.row_count as int) + seq![XmlView::End("hp:tbl"@)]
}

/// A start tag has an attribute named `k`, and every attribute named `k` reads (as decimal
/// digits) as `n`.
pub open spec fn attr_reads(e: XmlView, k: Seq<char>, n: int) -> bool {
    match e {
        XmlView::Start(_, a) => {
            &&& exists|i: int| 0 <= i < a.len() && #[trigger] a[i].0 == k
            &&& forall|i: int| 0 <= i < a.len() && #[trigger] a[i].0 == k ==> crate::json::dec_value(a[i].1) == n
        },
        _ => false,
    }
}

/// The attribute names of `<hp:tbl>` other than `rowCnt` and `colCnt` are neither of them.
proof fn lemma_tbl_keys(t: Table, i: int)
    requires
        tbl_start_view(t) matches XmlView::Start(_, a) && 0 <= i < a.len(),
    ensures
        tbl_start_view(t) matches XmlView::Start(_, a) && (i != 9 ==> a[i].0 != "rowCnt"@) && (i != 10 ==> a[i].0 != "colCnt"@)
            && (i != 0 ==> a[i].0 != "id"@) && (i != 12 ==> a[i].0 != "borderFillIDRef"@),
{
    reveal_strlit("rowCnt");
    reveal_strlit("colCnt");
    reveal_strlit("id");
    reveal_strlit("borderFillIDRef");
    if let XmlView::Start(_, a) = tbl_start_view(t) {
        let k = a[i].0;
        if i == 0 {
            reveal_strlit("id");
            assert(k.len() == 2);
        } else if i == 1 {
            reveal_strlit("zOrder");
            assert(k[0] == 'z');
        } else if i == 2 {
            reveal_strlit("numberingType");
            assert(k.len() == 13);
        } else if i == 3 {
            reveal_strlit("textWrap");
            assert(k.len() == 8);
        } else if i == 4 {
            reveal_strlit("textFlow");
            assert(k.len() == 8);
        } else if i == 5 {
            reveal_strlit("lock");
            assert(k.len() == 4);
        } else if i == 6 {
            reveal_strlit("dropcapstyle");
            assert(k.len() == 12);
        } else if i == 7 {
            reveal_strlit("pageBreak");
            assert(k.len() == 9);
        } else if i == 8 {
            reveal_strlit("repeatHeader");
            assert(k.len() == 12);
        } else if i == 9 {
            assert(k[0] == 'r');
        } else if i == 10 {
            assert(k[0] == 'c' && k[1] == 'o');
        } else if i == 11 {
            reveal_strlit("cellSpacing");
            assert(k.len() == 11);
        } else if i == 12 {
            reveal_strlit("borderFillIDRef");
            assert(k.len() == 15);
        } else {
            reveal_strlit("noAdjust");
            assert(k.len() == 8);
        }
    }
}

proof fn lemma_table_view_first(t: Table)
    ensures
        table_view(t)[0] == tbl_start_view(t),
{
    let head = seq![
        tbl_start_view(t),
        sz_view(t.common),
        pos_view(t.common),
        margin_view("hp:outMargin"@, t.outer_margin_left as i64, t.outer_margin_right as i64, t.outer_margin_top as i64, t.outer_margin_bottom as i64),
        margin_view("hp:inMargin"@, t.padding.left as i64, t.padding.right as i64, t.padding.top as i64, t.padding.bottom as i64),
    ];
    let tail = rows_view(t, t.row_count as int) + seq![XmlView::End("hp:tbl"@)];
    assert(table_view(t) == head + rows_view(t, t.row_count as int) + seq![XmlView::End("hp:tbl"@)]);
    assert((head + rows_view(t, t.row_count as int))[0] == head[0]);
}

proof fn lemma_tbl_attrs(t: Table)
    ensures
        attr_reads(tbl_start_view(t), "rowCnt"@, t.row_count as int),
        attr_reads(tbl_start_view(t), "colCnt"@, t.col_count as int),
        attr_reads(tbl_start_view(t), "id"@, t.common.instance_id as int),
        attr_reads(tbl_start_view(t), "borderFillIDRef"@, t.border_fill_id as int),
{
    crate::json::lemma_nat_digits_value(t.row_count as nat);
    crate::json::lemma_nat_digits_value(t.col_count as nat);
    crate::json::lemma_nat_digits_value(t.common.instance_id as nat);
    crate::json::lemma_nat_digits_value(t.border_fill_id as nat);
    if let XmlView::Start(_, a) = tbl_start_view(t) {
        assert(a[0] == ("id"@, nd(t.common.instance_id as int)));
        assert(a[12] == ("borderFillIDRef"@, nd(t.border_fill_id as int)));
        assert(exists|i: int| 0 <= i < a.len() && #[trigger] a[i].0 == "id"@) by {
            assert(a[0].0 == "id"@);
        }
        assert(exists|i: int| 0 <= i < a.len() && #[trigger] a[i].0 == "borderFillIDRef"@) by {
            assert(a[12].0 == "borderFillIDRef"@);
        }
        assert forall|i: int| 0 <= i < a.len() && #[trigger] a[i].0 == "id"@ implies crate::json::dec_value(a[i].1) == t.common.instance_id as int by {
            lemma_tbl_keys(t, i);
        }
        assert forall|i: int| 0 <= i < a.len() && #[trigger] a[i].0 == "borderFillIDRef"@ implies crate::json::dec_value(a[i].1) == t.border_fill_id as int by {
            lemma_tbl_keys(t, i);
        }
        assert(a[9] == ("rowCnt"@, nd(t.row_count as int)));
        assert(a[10] == ("colCnt"@, nd(t.col_count as int)));
        assert(a.len() == 14);
        assert(exists|i: int| 0 <= i < a.len() && #[trigger] a[i].0 == "rowCnt"@) by {
            assert(a[9].0 == "rowCnt"@);
        }
        assert(exists|i: int| 0 <= i < a.len() && #[trigger] a[i].0 == "colCnt"@) by {
            assert(a[10].0 == "colCnt"@);
        }
        assert forall|i: int| 0 <= i < a.len() && #[trigger] a[i].0 == "rowCnt"@ implies crate::json::dec_value(a[i].1) == t.row_count as int by {
            lemma_tbl_keys(t, i);
        }
        assert forall|i: int| 0 <= i < a.len() && #[trigger] a[i].0 == "colCnt"@ implies crate::json::dec_value(a[i].1) == t.col_count as int by {
            lemma_tbl_keys(t, i);
        }
    }
}

/// A table is written starting with an `<hp:tbl>` tag whose `rowCnt` attribute reads as its
/// row count, whose `colCnt` attribute reads as its column count, and whose `id` and
/// `borderFillIDRef` attributes read as its instance id and border fill.
pub proof fn law_tbl_tag_counts(t: Table)
    ensures
        table_view(t)[0] matches XmlView::Start(name, _) && name == "hp:tbl"@,
        attr_reads(table_view(t)[0], "rowCnt"@, t.row_count as int),
        attr_reads(table_view(t)[0], "colCnt"@, t.col_count as int),
        attr_reads(table_view(t)[0], "id"@, t.common.instance_id as int),
        attr_reads(table_view(t)[0], "borderFillIDRef"@, t.border_fill_id as int),
{
    lemma_table_view_first(t);
    lemma_tbl_attrs(t);
}

/// Rows `0..r` of a table, each `<hp:tr>` holding the cells of that row ordered by column.
pub open spec fn rows_view(t: Table, r: int) -> Seq<XmlView>
    decreases t, 2int, r,
{
    if r <= 0 {
        Seq::empty()
    } else {
        let order = row_order(t.cells@, r - 1, t.cells@.len() as int);
        rows_view(t, r - 1) + seq![XmlView::Start("hp:tr"@, Seq::empty())] + row_cells_view(t, order, order.len() as int)
            + seq![XmlView::End("hp:tr"@)]
    }
}

/// The cells `order[0..k]` of a table.
pub open spec fn row_cells_view(t: Table, order: Seq<int>, k: int) -> Seq<XmlView>
    decreases t, 1int, k,
{
    if k <= 0 || k > order.len() {
        Seq::empty()
    } else {
        let i = order[k - 1];
        if 0 <= i < t.cells@.len() {
            proof {
                assert(decreases_to!(t => t.cells));
                assert(decreases_to!(t.cells => t.cells@));
                assert(decreases_to!(t.cells@ => t.cells@[i]));
            }
            row_cells_view(t, order, k - 1) + cell_view(t.cells@[i])
        } else {
            row_cells_view(t, order, k - 1)
        }
    }
}

/// A cell: its start tag, its sub-list of paragraphs, address, span, size, margins, end tag.
pub open spec fn cell_view(c: Cell) -> Seq<XmlView>
    decreases c, 3int, 0int,
{
    seq![tc_start_view(c), sublist_start_view(c)] + paras_view(c, c.paragraphs@.len() as int) + seq![
        XmlView::End("hp:subList"@),
    ] + cell_tail_view(c)
}

/// The first `n` paragraphs of a cell.
pub open spec fn paras_view(c: Cell, n: int) -> Seq<XmlView>
    decreases c, 2int, n,
{
    if n <= 0 || n > c.paragraphs@.len() {
        Seq::empty()
    } else {
        proof {
            assert(decreases_to!(c => c.paragraphs));
            assert(decreases_to!(c.paragraphs => c.paragraphs@));
            assert(decreases_to!(c.paragraphs@ => c.paragraphs@[n - 1]));
        }
        paras_view(c, n - 1) + para_view(c.paragraphs@[n - 1], n - 1)
    }
}

/// The `pi`-th paragraph of a cell: start tag, text runs, a run holding its tables (when it
/// has a table or picture), line segments, end tag.
pub open spec fn para_view(p: Paragraph, pi: int) -> Seq<XmlView>
    decreases p, 3int, 0int,
{
    seq![p_start_view(p, pi)] + runs_view(p) + (if has_inline(p.controls@) {
        seq![run_start_view(first_shape(p))] + ctrl_tables_view(p, p.controls@.len() as int) + seq![XmlView::End("hp:run"@)]
    } else {
        Seq::empty()
    }) + lineseg_array_view(p) + seq![XmlView::End("hp:p"@)]
}

/// The tables among the first `n` controls of a paragraph.
pub open spec fn ctrl_tables_view(p: Paragraph, n: int) -> Seq<XmlView>
    decreases p, 1int, n,
{
    if n <= 0 || n > p.controls@.len() {
        Seq::empty()
    } else {
        match p.controls@[n - 1] {
            Control::Table(t) => {
                proof {
                    assert(decreases_to!(p => p.controls));
                    assert(decreases_to!(p.controls => p.controls@));
                    assert(decreases_to!(p.controls@ => p.controls@[n - 1]));
                }
                ctrl_tables_view(p, n - 1) + table_view(*t)
            },
            _ => ctrl_tables_view(p, n - 1),
        }
    }
}

/// Indices as integers.
pub open spec fn idx_view(v: Seq<usize>) -> Seq<int> {
    Seq::new(v.len(), |i: int| v[i] as int)
}

proof fn lemma_insert_by_col(sorted: Seq<int>, i: int, cells: Seq<Cell>, pos: int)
    requires
        0 <= pos <= sorted.len(),
        0 <= i < cells.len(),
        forall|j: int| 0 <= j < sorted.len() ==> 0 <= #[trigger] sorted[j] < cells.len(),
        forall|j: int| pos <= j < sorted.len() ==> cells[#[trigger] sorted[j]].col > cells[i].col,
        pos == 0 || cells[sorted[pos - 1]].col <= cells[i].col,
    ensures
        insert_by_col(sorted, i, cells) == sorted.insert(pos, i),
    decreases sorted.len(),
{
    if sorted.len() == 0 {
        assert(sorted.insert(pos, i) =~= seq![i]);
    } else if pos == sorted.len() {
        assert(sorted.insert(pos, i) =~= sorted.push(i));
    } else {
        let d = sorted.drop_last();
        assert forall|j: int| 0 <= j < d.len() implies 0 <= #[trigger] d[j] < cells.len() by {
            assert(d[j] == sorted[j]);
        }
        assert forall|j: int| pos <= j < d.len() implies cells[#[trigger] d[j]].col > cells[i].col by {
            assert(d[j] == sorted[j]);
        }
        lemma_insert_by_col(d, i, cells, pos);
        assert(sorted.insert(pos, i) =~= d.insert(pos, i).push(sorted.last()));
    }
}

proof fn lemma_row_order_valid(cells: Seq<Cell>, row: int, n: int)
    requires
        0 <= n <= cells.len(),
    ensures
        forall|j: int| 0 <= j < row_order(cells, row, n).len() ==> 0 <= #[trigger] row_order(cells, row, n)[j] < n,
    decreases n,
{
    if n > 0 {
        lemma_row_order_valid(cells, row, n - 1);
        let prev = row_order(cells, row, n - 1);
        if cells[n - 1].row == row {
            lemma_insert_valid(prev, n - 1, cells, n);
        }
    }
}

proof fn lemma_insert_valid(sorted: Seq<int>, i: int, cells: Seq<Cell>, n: int)
    requires
        0 <= i < n <= cells.len(),
        forall|j: int| 0 <= j < sorted.len() ==> 0 <= #[trigger] sorted[j] < n,
    ensures
        forall|j: int| 0 <= j < insert_by_col(sorted, i, cells).len() ==> 0 <= #[trigger] insert_by_col(sorted, i, cells)[j] < n,
    decreases sorted.len(),
{
    let r = insert_by_col(sorted, i, cells);
    if sorted.len() == 0 {
        assert(r =~= seq![i]);
    } else if cells[sorted.last()].col <= cells[i].col {
        assert forall|j: int| 0 <= j < r.len() implies 0 <= #[trigger] r[j] < n by {
            if j < sorted.len() {
                assert(r[j] == sorted[j]);
            }
        }
    } else {
        let d = sorted.drop_last();
        assert forall|j: int| 0 <= j < d.len() implies 0 <= #[trigger] d[j] < n by {
            assert(d[j] == sorted[j]);
        }
        lemma_insert_valid(d, i, cells, n);
        let q = insert_by_col(d, i, cells);
        assert forall|j: int| 0 <= j < r.len() implies 0 <= #[trigger] r[j] < n by {
            if j < q.len() {
                assert(r[j] == q[j]);
            } else {
                assert(r[j] == sorted.last());
                assert(sorted[sorted.len() - 1] == sorted.last());
            }
        }
    }
}

/// Cell indices whose columns never decrease.
pub open spec fn col_sorted(ro: Seq<int>, cells: Seq<Cell>) -> bool {
    forall|a: int, b: int| 0 <= a < b < ro.len() ==> cells[#[trigger] ro[a]].col <= cells[#[trigger] ro[b]].col
}

proof fn lemma_insert_by_col_members(s: Seq<int>, i: int, cells: Seq<Cell>)
    ensures
        insert_by_col(s, i, cells).len() == s.len() + 1,
        forall|x: int| #[trigger] insert_by_col(s, i, cells).contains(x) <==> s.contains(x) || x == i,
    decreases s.len(),
{
    let r = insert_by_col(s, i, cells);
    if s.len() == 0 {
        assert(r =~= seq![i]);
        assert forall|x: int| #[trigger] r.contains(x) <==> s.contains(x) || x == i by {
            if x == i {
                assert(r[0] == i);
            }
        }
    } else if cells[s.last()].col <= cells[i].col {
        assert forall|x: int| #[trigger] r.contains(x) <==> s.contains(x) || x == i by {
            if r.contains(x) {
                let k = choose|k: int| 0 <= k < r.len() && r[k] == x;
                if k < s.len() {
                    assert(s[k] == x);
                }
            }
            if s.contains(x) {
                let k = choose|k: int| 0 <= k < s.len() && s[k] == x;
                assert(r[k] == x);
            }
            if x == i {
                assert(r[s.len() as int] == i);
            }
        }
    } else {
        let d = s.drop_last();
        let last = s.last();
        lemma_insert_by_col_members(d, i, cells);
        let q = insert_by_col(d, i, cells);
        assert(r == q.push(last));
        assert forall|x: int| #[trigger] r.contains(x) <==> s.contains(x) || x == i by {
            if r.contains(x) {
                let k = choose|k: int| 0 <= k < r.len() && r[k] == x;
                if k < q.len() {
                    assert(q[k] == x);
                    assert(q.contains(x));
                    if d.contains(x) {
                        let m = choose|m: int| 0 <= m < d.len() && d[m] == x;
                        assert(s[m] == x);
                    }
                } else {
                    assert(s[s.len() - 1] == x);
                }
            }
            if s.contains(x) {
                let k = choose|k: int| 0 <= k < s.len() && s[k] == x;
                if k < s.len() - 1 {
                    assert(d[k] == x);
                    assert(d.contains(x));
                    assert(q.contains(x));
                    let m = choose|m: int| 0 <= m < q.len() && q[m] == x;
                    assert(r[m] == x);
                } else {
                    assert(r[q.len() as int] == x);
                }
            }
            if x == i {
                assert(q.contains(i));
                let m = choose|m: int| 0 <= m < q.len() && q[m] == i;
                assert(r[m] == x);
            }
        }
    }
}

proof fn lemma_insert_by_col_props(s: Seq<int>, i: int, cells: Seq<Cell>)
    requires
        0 <= i < cells.len(),
        forall|j: int| 0 <= j < s.len() ==> 0 <= #[trigger] s[j] < cells.len(),
        col_sorted(s, cells),
        s.no_duplicates(),
        !s.contains(i),
    ensures
        col_sorted(insert_by_col(s, i, cells), cells),
        insert_by_col(s, i, cells).no_duplicates(),
    decreases s.len(),
{
    lemma_insert_by_col_members(s, i, cells);
    let r = insert_by_col(s, i, cells);
    if s.len() == 0 {
        assert(r =~= seq![i]);
    } else if cells[s.last()].col <= cells[i].col {
        assert(r == s.push(i));
        assert forall|a: int, b: int| 0 <= a < b < r.len() implies cells[#[trigger] r[a]].col <= cells[#[trigger] r[b]].col by {
            if b == s.len() {
                assert(r[a] == s[a]);
                if a < s.len() - 1 {
                    assert(cells[s[a]].col <= cells[s[s.len() - 1]].col);
                }
            } else {
                assert(r[a] == s[a] && r[b] == s[b]);
            }
        }
        assert forall|a: int, b: int| 0 <= a < r.len() && 0 <= b < r.len() && a != b implies r[a] != r[b] by {
            if a < s.len() && b < s.len() {
                assert(r[a] == s[a] && r[b] == s[b]);
            } else if a < s.len() {
                assert(r[a] == s[a] && r[b] == i);
            } else {
                assert(r[b] == s[b] && r[a] == i);
            }
        }
    } else {
        let d = s.drop_last();
        let last = s.last();
        assert forall|j: int| 0 <= j < d.len() implies 0 <= #[trigger] d[j] < cells.len() by {
            assert(d[j] == s[j]);
        }
        assert forall|a: int, b: int| 0 <= a < b < d.len() implies cells[#[trigger] d[a]].col <= cells[#[trigger] d[b]].col by {
            assert(d[a] == s[a] && d[b] == s[b]);
        }
        assert forall|a: int, b: int| 0 <= a < d.len() && 0 <= b < d.len() && a != b implies d[a] != d[b] by {
            assert(d[a] == s[a] && d[b] == s[b]);
        }
        assert(!d.contains(i)) by {
            if d.contains(i) {
                let k = choose|k: int| 0 <= k < d.len() && d[k] == i;
                assert(s[k] == i);
            }
        }
        lemma_insert_by_col_props(d, i, cells);
        lemma_insert_by_col_members(d, i, cells);
        let q = insert_by_col(d, i, cells);
        assert(r == q.push(last));
        assert forall|k: int| 0 <= k < q.len() implies cells[#[trigger] q[k]].col <= cells[last].col && q[k] != last by {
            let x = q[k];
            assert(q.contains(x));
            if d.contains(x) {
                let m = choose|m: int| 0 <= m < d.len() && d[m] == x;
                assert(s[m] == x);
                assert(cells[s[m]].col <= cells[s[s.len() - 1]].col);
                assert(s[m] != s[s.len() - 1]);
            } else {
                assert(x == i);
                assert(s[s.len() - 1] == last);
            }
        }
        assert forall|a: int, b: int| 0 <= a < b < r.len() implies cells[#[trigger] r[a]].col <= cells[#[trigger] r[b]].col by {
            if b == q.len() {
                assert(r[a] == q[a]);
            } else {
                assert(r[a] == q[a] && r[b] == q[b]);
            }
        }
        assert forall|a: int, b: int| 0 <= a < r.len() && 0 <= b < r.len() && a != b implies r[a] != r[b] by {
            if a < q.len() && b < q.len() {
                assert(r[a] == q[a] && r[b] == q[b]);
            } else if a < q.len() {
                assert(r[a] == q[a]);
            } else {
                assert(r[b] == q[b]);
            }
        }
    }
}

/// The cells of a row are written in column order, each cell of the row once: the order of
/// row `row` (over the first `n` cells) is sorted by column and holds exactly the indices of
/// that row's cells, without repeats.
pub proof fn law_row_cells_in_column_order(cells: Seq<Cell>, row: int, n: int)
    requires
        0 <= n <= cells.len(),
    ensures
        col_sorted(row_order(cells, row, n), cells),
        row_order(cells, row, n).no_duplicates(),
        forall|x: int| row_order(cells, row, n).contains(x) <==> 0 <= x < n && cells[x].row == row,
    decreases n,
{
    if n > 0 {
        law_row_cells_in_column_order(cells, row, n - 1);
        lemma_row_order_valid(cells, row, n - 1);
        let prev = row_order(cells, row, n - 1);
        if cells[n - 1].row == row {
            assert(!prev.contains(n - 1)) by {
                if prev.contains(n - 1) {
                    let k = choose|k: int| 0 <= k < prev.len() && prev[k] == n - 1;
                    assert(prev[k] < n - 1);
                }
            }
            assert forall|j: int| 0 <= j < prev.len() implies 0 <= #[trigger] prev[j] < cells.len() by {}
            lemma_insert_by_col_props(prev, n - 1, cells);
            lemma_insert_by_col_members(prev, n - 1, cells);
        }
    }
}

/// The indices of the cells of row `row`, ordered by column (stable).
fn row_order_of(cells: &Vec<Cell>, row: u16) -> (order: Vec<usize>)
    ensures
        idx_view(order@) == row_order(cells@, row as int, cells@.len() as int),
        forall|j: int| 0 <= j < order@.len() ==> #[trigger] order@[j] < cells@.len(),
{
    let mut order: Vec<usize> = Vec::new();
    let mut i: usize = 0;
    while i < cells.len()
        invariant
            i <= cells@.len(),
            idx_view(order@) == row_order(cells@, row as int, i as int),
            forall|j: int| 0 <= j < order@.len() ==> #[trigger] order@[j] < i,
        decreases cells.len() - i,
    {
        if cells[i].row == row {
            let c = cells[i].col;
            let mut pos = order.len();
            while pos > 0 && cells[order[pos - 1]].col > c
                invariant
                    pos <= order@.len(),
                    i < cells@.len(),
                    c == cells@[i as int].col,
                    forall|j: int| 0 <= j < order@.len() ==> #[trigger] order@[j] < i,
                    forall|j: int| pos <= j < order@.len() ==> cells@[#[trigger] order@[j] as int].col > c,
                decreases pos,
            {
                pos -= 1;
            }
            let ghost before = order@;
            proof {
                let sv = idx_view(before);
                assert forall|j: int| 0 <= j < sv.len() implies 0 <= #[trigger] sv[j] < cells@.len() by {}
                assert forall|j: int| pos <= j < sv.len() implies cells@[#[trigger] sv[j]].col > cells@[i as int].col by {
                    assert(sv[j] == before[j] as int);
                }
                lemma_insert_by_col(sv, i as int, cells@, pos as int);
            }
            order.insert(pos, i);
            assert(idx_view(order@) =~= idx_view(before).insert(pos as int, i as int));
        }
        i += 1;
    }
    order
}

/// Records the border fills of a table, of its zones and of its cells as referenced.
fn reference_table_fills(table: &Table, ctx: &mut SerializeContext)
    ensures
        ctx_grows(*old(ctx), *final(ctx)),
        final(ctx).border_fill_ids.referenced@.contains(table.border_fill_id as u32),
        forall|j: int| 0 <= j < table.zones@.len() ==> final(ctx).border_fill_ids.referenced@.contains(#[trigger] table.zones@[j].border_fill_id as u32),
        forall|j: int| 0 <= j < table.cells@.len() ==> final(ctx).border_fill_ids.referenced@.contains(#[trigger] table.cells@[j].border_fill_id as u32),
{
    let ghost ctx0 = *ctx;
    ctx.border_fill_ids.reference(table.border_fill_id as u32);
    let mut z: usize = 0;
    while z < table.zones.len()
        invariant
            z <= table.zones@.len(),
            ctx_grows(ctx0, *ctx),
            ctx.border_fill_ids.referenced@.contains(table.border_fill_id as u32),
            forall|j: int| 0 <= j < z ==> ctx.border_fill_ids.referenced@.contains(#[trigger] table.zones@[j].border_fill_id as u32),
        decreases table.zones.len() - z,
    {
        ctx.border_fill_ids.reference(table.zones[z].border_fill_id as u32);
        z += 1;
    }
    let mut k: usize = 0;
    while k < table.cells.len()
        invariant
            k <= table.cells@.len(),
            ctx_grows(ctx0, *ctx),
            ctx.border_fill_ids.referenced@.contains(table.border_fill_id as u32),
            forall|j: int| 0 <= j < table.zones@.len() ==> ctx.border_fill_ids.referenced@.contains(#[trigger] table.zones@[j].border_fill_id as u32),
            forall|j: int| 0 <= j < k ==> ctx.border_fill_ids.referenced@.contains(#[trigger] table.cells@[j].border_fill_id as u32),
        decreases table.cells.len() - k,
    {
        ctx.border_fill_ids.reference(table.cells[k].border_fill_id as u32);
        k += 1;
    }
}

/// Writes a table (`<hp:tbl>`, see `table_view`) and records the border fills of the table,
/// its zones and its cells, and the shapes and styles of its paragraphs.
#[verifier::rlimit(60)]
#[verifier::spinoff_prover]
pub fn write_table(out: &mut Vec<XmlEvent>, table: &Table, ctx: &mut SerializeContext)
    ensures
        events_view(final(out)@) == events_view(old(out)@) + table_view(*table),
        ctx_grows(*old(ctx), *final(ctx)),
        final(ctx).border_fill_ids.referenced@.contains(table.border_fill_id as u32),
        forall|j: int| 0 <= j < table.zones@.len() ==> final(ctx).border_fill_ids.referenced@.contains(#[trigger] table.zones@[j].border_fill_id as u32),
        forall|j: int| 0 <= j < table.cells@.len() ==> final(ctx).border_fill_ids.referenced@.contains(#[trigger] table.cells@[j].border_fill_id as u32),
        forall|j: int|
            0 <= j < table.cells@.len() && table.cells@[j].row < table.row_count ==> cell_refs_held(
                *final(ctx),
                #[trigger] table.cells@[j],
            ),
    decreases table, 1int,
{
    reference_table_fills(table, ctx);
    let ghost ctx1 = *ctx;
    let ghost o = events_view(out@);
    push_event(out, tbl_start_event(table));
    push_event(out, sz_event(&table.common));
    push_event(out, pos_event(&table.common));
    push_event(
        out,
        margin_event(
            "hp:outMargin",
            table.outer_margin_left as i64,
            table.outer_margin_right as i64,
            table.outer_margin_top as i64,
            table.outer_margin_bottom as i64,
        ),
    );
    push_event(
        out,
        margin_event("hp:inMargin", table.padding.left as i64, table.padding.right as i64, table.padding.top as i64, table.padding.bottom as i64),
    );
    let ghost head = events_view(out@);
    let mut r: u16 = 0;
    while r < table.row_count
        invariant
            r <= table.row_count,
            events_view(out@) == head + rows_view(*table, r as int),
            ctx_grows(ctx1, *ctx),
            forall|j: int|
                0 <= j < table.cells@.len() && table.cells@[j].row < r ==> cell_refs_held(
                    *ctx,
                    #[trigger] table.cells@[j],
                ),
        decreases table.row_count - r,
    {
        let ghost before = *ctx;
        write_row(out, table, r, ctx);
        proof {
            law_row_cells_in_column_order(table.cells@, r as int, table.cells@.len() as int);
            assert forall|j: int|
                0 <= j < table.cells@.len() && table.cells@[j].row < r + 1 implies cell_refs_held(
                    *ctx,
                    #[trigger] table.cells@[j],
                ) by {
                if table.cells@[j].row < r {
                    lemma_cell_refs_kept(before, *ctx, table.cells@[j]);
                } else {
                    assert(row_order(table.cells@, r as int, table.cells@.len() as int).contains(j));
                }
            }
        }
        assert(events_view(out@) =~= head + rows_view(*table, r + 1));
        r += 1;
    }
    push_event(out, XmlEvent::End(lit("hp:tbl")));
    assert(events_view(out@) =~= o + table_view(*table));
}

/// Writes row `r` of a table (`<hp:tr>` and the row's cells ordered by column).
#[verifier::rlimit(30)]
fn write_row(out: &mut Vec<XmlEvent>, table: &Table, r: u16, ctx: &mut SerializeContext)
    ensures
        events_view(final(out)@) == events_view(old(out)@) + seq![XmlView::Start("hp:tr"@, Seq::empty())] + row_cells_view(
            *table,
            row_order(table.cells@, r as int, table.cells@.len() as int),
            row_order(table.cells@, r as int, table.cells@.len() as int).len() as int,
        ) + seq![XmlView::End("hp:tr"@)],
        ctx_grows(*old(ctx), *final(ctx)),
        forall|x: int|
            row_order(table.cells@, r as int, table.cells@.len() as int).contains(x) ==> cell_refs_held(
                *final(ctx),
                #[trigger] table.cells@[x],
            ),
    decreases table, 0int,
{
    let ghost o = events_view(out@);
    let order = row_order_of(&table.cells, r);
    let ghost ov = idx_view(order@);
    push_event(out, XmlEvent::Start(lit("hp:tr"), Vec::new()));
    assert(crate::xml::attrs_view(Seq::<XmlAttr>::empty()) =~= Seq::empty());
    let ghost row_head = events_view(out@);
    let mut j: usize = 0;
    while j < order.len()
        invariant
            j <= order@.len(),
            ov == idx_view(order@),
            forall|q: int| 0 <= q < order@.len() ==> #[trigger] order@[q] < table.cells@.len(),
            events_view(out@) == row_head + row_cells_view(*table, ov, j as int),
            ctx_grows(*old(ctx), *ctx),
            forall|q: int| 0 <= q < j ==> cell_refs_held(*ctx, #[trigger] table.cells@[ov[q]]),
        decreases order.len() - j,
    {
        let idx = order[j];
        proof {
            assert(decreases_to!(table => table.cells));
            assert(decreases_to!(table.cells => table.cells@));
            assert(decreases_to!(table.cells@ => table.cells@[idx as int]));
        }
        let ghost before = *ctx;
        write_cell(out, &table.cells[idx], ctx);
        assert forall|q: int| 0 <= q < j + 1 implies cell_refs_held(*ctx, #[trigger] table.cells@[ov[q]]) by {
            if q < j {
                lemma_cell_refs_kept(before, *ctx, table.cells@[ov[q]]);
            } else {
                assert(ov[q] == idx as int);
            }
        }
        j += 1;
    }
    assert forall|x: int|
        row_order(table.cells@, r as int, table.cells@.len() as int).contains(x) implies cell_refs_held(
            *ctx,
            #[trigger] table.cells@[x],
        ) by {
        let q = choose|q: int| 0 <= q < ov.len() && ov[q] == x;
        assert(cell_refs_held(*ctx, table.cells@[ov[q]]));
    }
    push_event(out, XmlEvent::End(lit("hp:tr")));
}

/// Writes a cell (`<hp:tc>`, see `cell_view`).
#[verifier::rlimit(40)]
#[verifier::spinoff_prover]
fn write_cell(out: &mut Vec<XmlEvent>, c: &Cell, ctx: &mut SerializeContext)
    ensures
        events_view(final(out)@) == events_view(old(out)@) + cell_view(*c),
        ctx_grows(*old(ctx), *final(ctx)),
        cell_refs_held(*final(ctx), *c),
    decreases c, 1int,
{
    let ghost o = events_view(out@);
    push_event(out, tc_start_event(c));
    push_event(out, sublist_start_event(c));
    let ghost head = events_view(out@);
    let mut pi: usize = 0;
    while pi < c.paragraphs.len()
        invariant
            pi <= c.paragraphs@.len(),
            events_view(out@) == head + paras_view(*c, pi as int),
            ctx_grows(*old(ctx), *ctx),
            forall|q: int| 0 <= q < pi ==> para_refs_held(*ctx, #[trigger] c.paragraphs@[q]),
        decreases c.paragraphs.len() - pi,
    {
        proof {
            assert(decreases_to!(c => c.paragraphs));
            assert(decreases_to!(c.paragraphs => c.paragraphs@));
            assert(decreases_to!(c.paragraphs@ => c.paragraphs@[pi as int]));
        }
        let ghost before = *ctx;
        write_para(out, &c.paragraphs[pi], pi, ctx);
        assert forall|q: int| 0 <= q < pi + 1 implies para_refs_held(*ctx, #[trigger] c.paragraphs@[q]) by {
            if q < pi {
                lemma_para_refs_kept(before, *ctx, c.paragraphs@[q]);
            }
        }
        pi += 1;
    }
    push_event(out, XmlEvent::End(lit("hp:subList")));
    push_cell_tail(out, c);
    assert(events_view(out@) =~= o + cell_view(*c));
}

/// Whether the controls include a table or a picture.
fn has_inline_control(controls: &Vec<Control>) -> (b: bool)
    ensures
        b == has_inline(controls@),
{
    let mut inline = false;
    let mut j: usize = 0;
    while j < controls.len()
        invariant
            j <= controls@.len(),
            inline <==> exists|q: int| 0 <= q < j && (controls@[q] is Table || controls@[q] is Picture),
        decreases controls.len() - j,
    {
        match &controls[j] {
            Control::Table(_) => {
                inline = true;
            },
            Control::Picture => {
                inline = true;
            },
            _ => {},
        }
        j += 1;
    }
    inline
}

/// Writes the run that holds the tables among a paragraph's controls.
#[verifier::rlimit(60)]
#[verifier::spinoff_prover]
fn write_inline_run(out: &mut Vec<XmlEvent>, p: &Paragraph, ctx: &mut SerializeContext)
    ensures
        events_view(final(out)@) == events_view(old(out)@) + seq![run_start_view(first_shape(*p))] + ctrl_tables_view(*p, p.controls@.len() as int)
            + seq![XmlView::End("hp:run"@)],
        ctx_grows(*old(ctx), *final(ctx)),
    decreases p, 0int,
{
    let ghost o = events_view(out@);
    let cs = if p.char_shapes.len() > 0 {
        p.char_shapes[0].char_shape_id
    } else {
        0
    };
    push_event(out, run_start_event(cs));
    let ghost run_head = events_view(out@);
    let mut q: usize = 0;
    while q < p.controls.len()
        invariant
            q <= p.controls@.len(),
            events_view(out@) == run_head + ctrl_tables_view(*p, q as int),
            ctx_grows(*old(ctx), *ctx),
        decreases p.controls.len() - q,
    {
        match &p.controls[q] {
            Control::Table(t) => {
                proof {
                    assert(decreases_to!(p => p.controls));
                    assert(decreases_to!(p.controls => p.controls@));
                    assert(decreases_to!(p.controls@ => p.controls@[q as int]));
                }
                write_table(out, t, ctx);
            },
            _ => {},
        }
        assert(events_view(out@) =~= run_head + ctrl_tables_view(*p, q + 1));
        q += 1;
    }
    push_event(out, XmlEvent::End(lit("hp:run")));
    assert(events_view(out@) =~= o + seq![run_start_view(first_shape(*p))] + ctrl_tables_view(*p, p.controls@.len() as int)
        + seq![XmlView::End("hp:run"@)]);
}

/// Writes the `pi`-th paragraph of a cell (`<hp:p>`, see `para_view`).
fn write_para(out: &mut Vec<XmlEvent>, p: &Paragraph, pi: usize, ctx: &mut SerializeContext)
    ensures
        events_view(final(out)@) == events_view(old(out)@) + para_view(*p, pi as int),
        ctx_grows(*old(ctx), *final(ctx)),
        para_refs_held(*final(ctx), *p),
    decreases p, 1int,
{
    ctx.para_shape_ids.reference(p.para_shape_id as u32);
    ctx.style_ids.reference(p.style_id as u32);
    if p.char_shapes.len() > 0 {
        ctx.char_shape_ids.reference(p.char_shapes[0].char_shape_id);
    }
    let ghost ctx1 = *ctx;
    let ghost o = events_view(out@);
    push_event(out, p_start_event(p, pi));
    push_runs(out, p, ctx);
    assert(para_refs_held(*ctx, *p));
    let ghost ctx2 = *ctx;
    let ghost after_runs = events_view(out@);
    let inline = has_inline_control(&p.controls);
    if inline {
        write_inline_run(out, p, ctx);
        proof {
            lemma_para_refs_kept(ctx2, *ctx, *p);
        }
    }
    push_lineseg_array(out, p);
    push_event(out, XmlEvent::End(lit("hp:p")));
    assert(events_view(out@) =~= o + para_view(*p, pi as int));
}

/// The XML bytes of a table (see `write_table` and `render_xml`). The table's, its zones'
/// and its cells' border fills are recorded as referenced, and so are the paragraph shape,
/// style and character shapes (see `shapes_held`) of every paragraph of every cell in the
/// table's rows.
pub fn table_xml(table: &Table, ctx: &mut SerializeContext) -> (r: Option<Vec<u8>>)
    ensures
        r is Some,
        r matches Some(b) ==> b@ == crate::xml::xml_bytes(table_view(*table)),
        ctx_grows(*old(ctx), *final(ctx)),
        final(ctx).border_fill_ids.referenced@.contains(table.border_fill_id as u32),
        forall|j: int| 0 <= j < table.zones@.len() ==> final(ctx).border_fill_ids.referenced@.contains(#[trigger] table.zones@[j].border_fill_id as u32),
        forall|j: int| 0 <= j < table.cells@.len() ==> final(ctx).border_fill_ids.referenced@.contains(#[trigger] table.cells@[j].border_fill_id as u32),
        forall|j: int|
            0 <= j < table.cells@.len() && table.cells@[j].row < table.row_count ==> cell_refs_held(
                *final(ctx),
                #[trigger] table.cells@[j],
            ),
{
    let mut events: Vec<XmlEvent> = Vec::new();
    write_table(&mut events, table, ctx);
    assert(events_view(events@) =~= table_view(*table));
    crate::xml::render_xml(&events)
}

} // verus!
