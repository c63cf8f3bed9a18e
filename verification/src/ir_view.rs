//! A stable, read-only view of a document for querying: texts, paragraph metadata,
//! character-shape runs and a summary of each control.
use vstd::prelude::*;
use crate::model::{Document, Section, Paragraph, Control, CharShapeRef};
use crate::document_core::control_table;
use crate::json::{JsonMember, JsonValue, JsonView, object_view, push_member, lemma_members_view, vals, lemma_items_vals, json_text, to_json_string};

verus! {

/// The version of the view's schema; it changes when the schema changes incompatibly.
pub const IR_VIEW_SCHEMA_VERSION: u32 = 1;

/// The whole document.
#[derive(Debug)]
pub struct DocumentIrView {
    pub schema_version: u32,
    pub section_count: usize,
    pub sections: Vec<SectionView>,
}

/// One section.
#[derive(Debug)]
pub struct SectionView {
    pub index: usize,
    pub paragraph_count: usize,
    pub paragraphs: Vec<ParagraphView>,
}

/// One paragraph.
#[derive(Debug)]
pub struct ParagraphView {
    pub index: usize,
    pub text: String,
    pub char_count: u32,
    pub para_shape_id: u16,
    pub style_id: u8,
    /// Character-shape runs (start position → shape id).
    pub char_runs: Vec<CharRunView>,
    /// The controls anchored in the paragraph.
    pub controls: Vec<ControlView>,
}

/// One character-shape run.
#[derive(Clone, Copy, Debug, PartialEq, Eq)]
pub struct CharRunView {
    pub start: u32,
    pub char_shape_id: u32,
}

/// A control's kind, and a table's size.
#[derive(Clone, Copy, Debug)]
pub struct ControlView {
    pub kind: &'static str,
    pub rows: Option<u16>,
    pub cols: Option<u16>,
}

/// The identifier of a control's kind.
pub open spec fn kind_name(c: Control) -> Seq<char> {
    match c {
        Control::SectionDef => "section_def"@,
        Control::ColumnDef => "column_def"@,
        Control::Table(_) => "table"@,
        Control::Shape => "shape"@,
        Control::Picture => "picture"@,
        Control::Header => "header"@,
        Control::Footer => "footer"@,
        Control::Footnote => "footnote"@,
        Control::Endnote => "endnote"@,
        Control::AutoNumber => "auto_number"@,
        Control::NewNumber => "new_number"@,
        Control::PageNumberPos => "page_number_pos"@,
        Control::Bookmark => "bookmark"@,
        Control::Hyperlink => "hyperlink"@,
        Control::Ruby => "ruby"@,
        Control::CharOverlap => "char_overlap"@,
        Control::PageHide => "page_hide"@,
        Control::HiddenComment => "hidden_comment"@,
        Control::Equation => "equation"@,
        Control::Field => "field"@,
        Control::Form => "form"@,
        Control::Unknown => "unknown"@,
    }
}

/// `v` summarizes control `c`: its kind, and for a table its rows and columns.
pub open spec fn control_viewed(v: ControlView, c: Control) -> bool {
    &&& v.kind@ == kind_name(c)
    &&& v.rows == if c is Table { Some(control_table(c).row_count) } else { None::<u16> }
    &&& v.cols == if c is Table { Some(control_table(c).col_count) } else { None::<u16> }
}

/// `v` is the view of paragraph `p`, the `i`-th of its section.
pub open spec fn paragraph_viewed(v: ParagraphView, p: Paragraph, i: int) -> bool {
    &&& v.index == i
    &&& v.text@ == p.text@
    &&& v.char_count == p.char_count
    &&& v.para_shape_id == p.para_shape_id
    &&& v.style_id == p.style_id
    &&& v.char_runs@.len() == p.char_shapes@.len()
    &&& forall|k: int| 0 <= k < p.char_shapes@.len() ==> (#[trigger] v.char_runs@[k]).start == p.char_shapes@[k].start_pos
        && v.char_runs@[k].char_shape_id == p.char_shapes@[k].char_shape_id
    &&& v.controls@.len() == p.controls@.len()
    &&& forall|k: int| 0 <= k < p.controls@.len() ==> control_viewed(#[trigger] v.controls@[k], p.controls@[k])
}

/// `v` is the view of section `s`, the `i`-th of the document.
pub open spec fn section_viewed(v: SectionView, s: Section, i: int) -> bool {
    &&& v.index == i
    &&& v.paragraph_count == s.paragraphs@.len()
    &&& v.paragraphs@.len() == s.paragraphs@.len()
    &&& forall|k: int| 0 <= k < s.paragraphs@.len() ==> paragraph_viewed(#[trigger] v.paragraphs@[k], s.paragraphs@[k], k)
}

/// The identifier of a control's kind.
pub fn control_kind(c: &Control) -> (k: &'static str)
    ensures
        k@ == kind_name(*c),
{
    let k = match c {
        Control::SectionDef => "section_def",
        Control::ColumnDef => "column_def",
        Control::Table(_) => "table",
        Control::Shape => "shape",
        Control::Picture => "picture",
        Control::Header => "header",
        Control::Footer => "footer",
        Control::Footnote => "footnote",
        Control::Endnote => "endnote",
        Control::AutoNumber => "auto_number",
        Control::NewNumber => "new_number",
        Control::PageNumberPos => "page_number_pos",
        Control::Bookmark => "bookmark",
        Control::Hyperlink => "hyperlink",
        Control::Ruby => "ruby",
        Control::CharOverlap => "char_overlap",
        Control::PageHide => "page_hide",
        Control::HiddenComment => "hidden_comment",
        Control::Equation => "equation",
        Control::Field => "field",
        Control::Form => "form",
        Control::Unknown => "unknown",
    };
    k
}

/// The summary of a control.
pub fn control_view(c: &Control) -> (v: ControlView)
    ensures
        control_viewed(v, *c),
{
    match c {
        Control::Table(t) => ControlView { kind: "table", rows: Some(t.row_count), cols: Some(t.col_count) },
        _ => ControlView { kind: control_kind(c), rows: None, cols: None },
    }
}

fn char_runs_of(shapes: &Vec<CharShapeRef>) -> (v: Vec<CharRunView>)
    ensures
        v@.len() == shapes@.len(),
        forall|k: int| 0 <= k < shapes@.len() ==> (#[trigger] v@[k]).start == shapes@[k].start_pos
            && v@[k].char_shape_id == shapes@[k].char_shape_id,
{
    let mut v: Vec<CharRunView> = Vec::new();
    let mut k: usize = 0;
    while k < shapes.len()
        invariant
            k <= shapes@.len(),
            v@.len() == k,
            forall|j: int| 0 <= j < k ==> (#[trigger] v@[j]).start == shapes@[j].start_pos
                && v@[j].char_shape_id == shapes@[j].char_shape_id,
        decreases shapes.len() - k,
    {
        v.push(CharRunView { start: shapes[k].start_pos, char_shape_id: shapes[k].char_shape_id });
        k += 1;
    }
    v
}

fn controls_of(cs: &Vec<Control>) -> (v: Vec<ControlView>)
    ensures
        v@.len() == cs@.len(),
        forall|k: int| 0 <= k < cs@.len() ==> control_viewed(#[trigger] v@[k], cs@[k]),
{
    let mut v: Vec<ControlView> = Vec::new();
    let mut k: usize = 0;
    while k < cs.len()
        invariant
            k <= cs@.len(),
            v@.len() == k,
            forall|j: int| 0 <= j < k ==> control_viewed(#[trigger] v@[j], cs@[j]),
        decreases cs.len() - k,
    {
        v.push(control_view(&cs[k]));
        k += 1;
    }
    v
}

fn paragraph_view(p: &Paragraph, i: usize) -> (v: ParagraphView)
    ensures
        paragraph_viewed(v, *p, i as int),
{
    ParagraphView {
        index: i,
        text: p.text.clone(),
        char_count: p.char_count,
        para_shape_id: p.para_shape_id,
        style_id: p.style_id,
        char_runs: char_runs_of(&p.char_shapes),
        controls: controls_of(&p.controls),
    }
}

fn section_view(s: &Section, i: usize) -> (v: SectionView)
    ensures
        section_viewed(v, *s, i as int),
{
    let mut ps: Vec<ParagraphView> = Vec::new();
    let mut k: usize = 0;
    while k < s.paragraphs.len()
        invariant
            k <= s.paragraphs@.len(),
            ps@.len() == k,
            forall|j: int| 0 <= j < k ==> paragraph_viewed(#[trigger] ps@[j], s.paragraphs@[j], j),
        decreases s.paragraphs.len() - k,
    {
        ps.push(paragraph_view(&s.paragraphs[k], k));
        k += 1;
    }
    SectionView { index: i, paragraph_count: s.paragraphs.len(), paragraphs: ps }
}

impl Document {
    /// The query view of the document.
    pub fn to_ir_view(&self) -> (v: DocumentIrView)
        ensures
            v.schema_version == IR_VIEW_SCHEMA_VERSION,
            v.section_count == self.sections@.len(),
            v.sections@.len() == self.sections@.len(),
            forall|i: int| 0 <= i < self.sections@.len() ==> section_viewed(#[trigger] v.sections@[i], self.sections@[i], i),
    {
        let mut ss: Vec<SectionView> = Vec::new();
        let mut i: usize = 0;
        while i < self.sections.len()
            invariant
                i <= self.sections@.len(),
                ss@.len() == i,
                forall|j: int| 0 <= j < i ==> section_viewed(#[trigger] ss@[j], self.sections@[j], j),
            decreases self.sections.len() - i,
        {
            ss.push(section_view(&self.sections[i], i));
            i += 1;
        }
        DocumentIrView { schema_version: IR_VIEW_SCHEMA_VERSION, section_count: self.sections.len(), sections: ss }
    }
}

} // verus!

verus! {

/// The JSON of a control's summary: its kind, and a table's rows and columns.
pub open spec fn control_json(c: Control) -> JsonView {
    JsonView::Object(
        seq![("kind"@, JsonView::Str(kind_name(c)))] + if c is Table {
            seq![
                ("rows"@, JsonView::Int(control_table(c).row_count as int)),
                ("cols"@, JsonView::Int(control_table(c).col_count as int)),
            ]
        } else {
            Seq::empty()
        },
    )
}

/// The JSON of a character-shape run.
pub open spec fn char_run_json(r: CharShapeRef) -> JsonView {
    JsonView::Object(seq![("start"@, JsonView::Int(r.start_pos as int)), ("char_shape_id"@, JsonView::Int(r.char_shape_id as int))])
}

/// The JSON of the view of paragraph `p`, the `i`-th of its section; empty run and control
/// lists are left out.
pub open spec fn paragraph_json(p: Paragraph, i: int) -> JsonView {
    JsonView::Object(
        seq![
            ("index"@, JsonView::Int(i)),
            ("text"@, JsonView::Str(p.text@)),
            ("char_count"@, JsonView::Int(p.char_count as int)),
            ("para_shape_id"@, JsonView::Int(p.para_shape_id as int)),
            ("style_id"@, JsonView::Int(p.style_id as int)),
        ] + (if p.char_shapes@.len() > 0 {
            seq![("char_runs"@, JsonView::Array(Seq::new(p.char_shapes@.len(), |k: int| char_run_json(p.char_shapes@[k]))))]
        } else {
            Seq::empty()
        }) + (if p.controls@.len() > 0 {
            seq![("controls"@, JsonView::Array(Seq::new(p.controls@.len(), |k: int| control_json(p.controls@[k]))))]
        } else {
            Seq::empty()
        }),
    )
}

/// The JSON of the view of section `s`, the `i`-th of the document.
pub open spec fn section_json(s: Section, i: int) -> JsonView {
    JsonView::Object(
        seq![
            ("index"@, JsonView::Int(i)),
            ("paragraph_count"@, JsonView::Int(s.paragraphs@.len() as int)),
            ("paragraphs"@, JsonView::Array(Seq::new(s.paragraphs@.len(), |k: int| paragraph_json(s.paragraphs@[k], k)))),
        ],
    )
}

/// The JSON of the document's view.
pub open spec fn document_json(d: Document) -> JsonView {
    JsonView::Object(
        seq![
            ("schema_version"@, JsonView::Int(IR_VIEW_SCHEMA_VERSION as int)),
            ("section_count"@, JsonView::Int(d.sections@.len() as int)),
            ("sections"@, JsonView::Array(Seq::new(d.sections@.len(), |i: int| section_json(d.sections@[i], i)))),
        ],
    )
}

fn uint(x: usize) -> (v: JsonValue)
    ensures
        v@ == JsonView::Int(x as int),
{
    JsonValue::UInt(x as u64)
}

fn control_json_value(c: &Control) -> (v: JsonValue)
    ensures
        v@ == control_json(*c),
{
    let mut ms: Vec<JsonMember> = Vec::new();
    proof {
        lemma_members_view(ms@, 0);
    }
    push_member(&mut ms, "kind", JsonValue::Str(String::from_str(control_kind(c))));
    match c {
        Control::Table(t) => {
            push_member(&mut ms, "rows", JsonValue::Int(t.row_count as i64));
            push_member(&mut ms, "cols", JsonValue::Int(t.col_count as i64));
        },
        _ => {},
    }
    assert(object_view(ms@) =~= control_json(*c)->Object_0);
    JsonValue::Object(ms)
}

fn char_run_json_value(r: &CharShapeRef) -> (v: JsonValue)
    ensures
        v@ == char_run_json(*r),
{
    let mut ms: Vec<JsonMember> = Vec::new();
    proof {
        lemma_members_view(ms@, 0);
    }
    push_member(&mut ms, "start", JsonValue::Int(r.start_pos as i64));
    push_member(&mut ms, "char_shape_id", JsonValue::Int(r.char_shape_id as i64));
    assert(object_view(ms@) =~= char_run_json(*r)->Object_0);
    JsonValue::Object(ms)
}

fn paragraph_json_value(p: &Paragraph, i: usize) -> (v: JsonValue)
    ensures
        v@ == paragraph_json(*p, i as int),
{
    let mut ms: Vec<JsonMember> = Vec::new();
    proof {
        lemma_members_view(ms@, 0);
    }
    push_member(&mut ms, "index", uint(i));
    push_member(&mut ms, "text", JsonValue::Str(p.text.clone()));
    push_member(&mut ms, "char_count", JsonValue::Int(p.char_count as i64));
    push_member(&mut ms, "para_shape_id", JsonValue::Int(p.para_shape_id as i64));
    push_member(&mut ms, "style_id", JsonValue::Int(p.style_id as i64));
    let ghost head = object_view(ms@);
    if p.char_shapes.len() > 0 {
        let mut runs: Vec<JsonValue> = Vec::new();
        let mut k: usize = 0;
        while k < p.char_shapes.len()
            invariant
                k <= p.char_shapes@.len(),
                runs@.len() == k,
                vals(runs@) =~= Seq::new(k as nat, |j: int| char_run_json(p.char_shapes@[j])),
            decreases p.char_shapes.len() - k,
        {
            let ghost before = runs@;
            runs.push(char_run_json_value(&p.char_shapes[k]));
            assert forall|j: int| 0 <= j <= k implies #[trigger] vals(runs@)[j] == char_run_json(p.char_shapes@[j]) by {
                if j < k {
                    assert(runs@[j] == before[j]);
                    assert(vals(before)[j] == char_run_json(p.char_shapes@[j]));
                }
            }
            assert(vals(runs@) =~= Seq::new((k + 1) as nat, |j: int| char_run_json(p.char_shapes@[j])));
            k += 1;
        }
        proof {
            lemma_items_vals(runs@);
        }
        push_member(&mut ms, "char_runs", JsonValue::Array(runs));
    }
    let ghost mid = object_view(ms@);
    if p.controls.len() > 0 {
        let mut cs: Vec<JsonValue> = Vec::new();
        let mut k: usize = 0;
        while k < p.controls.len()
            invariant
                k <= p.controls@.len(),
                cs@.len() == k,
                vals(cs@) =~= Seq::new(k as nat, |j: int| control_json(p.controls@[j])),
            decreases p.controls.len() - k,
        {
            let ghost before = cs@;
            cs.push(control_json_value(&p.controls[k]));
            assert forall|j: int| 0 <= j <= k implies #[trigger] vals(cs@)[j] == control_json(p.controls@[j]) by {
                if j < k {
                    assert(cs@[j] == before[j]);
                    assert(vals(before)[j] == control_json(p.controls@[j]));
                }
            }
            assert(vals(cs@) =~= Seq::new((k + 1) as nat, |j: int| control_json(p.controls@[j])));
            k += 1;
        }
        proof {
            lemma_items_vals(cs@);
        }
        push_member(&mut ms, "controls", JsonValue::Array(cs));
    }
    assert(object_view(ms@) =~= paragraph_json(*p, i as int)->Object_0);
    JsonValue::Object(ms)
}

fn section_json_value(s: &Section, i: usize) -> (v: JsonValue)
    ensures
        v@ == section_json(*s, i as int),
{
    let mut ps: Vec<JsonValue> = Vec::new();
    let mut k: usize = 0;
    while k < s.paragraphs.len()
        invariant
            k <= s.paragraphs@.len(),
            ps@.len() == k,
            vals(ps@) =~= Seq::new(k as nat, |j: int| paragraph_json(s.paragraphs@[j], j)),
        decreases s.paragraphs.len() - k,
    {
        let ghost before = ps@;
        ps.push(paragraph_json_value(&s.paragraphs[k], k));
        assert forall|j: int| 0 <= j <= k implies #[trigger] vals(ps@)[j] == paragraph_json(s.paragraphs@[j], j) by {
            if j < k {
                assert(ps@[j] == before[j]);
                assert(vals(before)[j] == paragraph_json(s.paragraphs@[j], j));
            }
        }
        assert(vals(ps@) =~= Seq::new((k + 1) as nat, |j: int| paragraph_json(s.paragraphs@[j], j)));
        k += 1;
    }
    proof {
        lemma_items_vals(ps@);
    }
    let mut ms: Vec<JsonMember> = Vec::new();
    proof {
        lemma_members_view(ms@, 0);
    }
    push_member(&mut ms, "index", uint(i));
    push_member(&mut ms, "paragraph_count", uint(s.paragraphs.len()));
    push_member(&mut ms, "paragraphs", JsonValue::Array(ps));
    assert(object_view(ms@) =~= section_json(*s, i as int)->Object_0);
    JsonValue::Object(ms)
}

impl Document {
    /// The query view of the document as compact JSON (see `document_json`).
    pub fn to_ir_json(&self) -> (s: String)
        ensures
            s@ == json_text(document_json(*self)),
    {
        let mut ss: Vec<JsonValue> = Vec::new();
        let mut i: usize = 0;
        while i < self.sections.len()
            invariant
                i <= self.sections@.len(),
                ss@.len() == i,
                vals(ss@) =~= Seq::new(i as nat, |j: int| section_json(self.sections@[j], j)),
            decreases self.sections.len() - i,
        {
            let ghost before = ss@;
            ss.push(section_json_value(&self.sections[i], i));
            assert forall|j: int| 0 <= j <= i implies #[trigger] vals(ss@)[j] == section_json(self.sections@[j], j) by {
                if j < i {
                    assert(ss@[j] == before[j]);
                    assert(vals(before)[j] == section_json(self.sections@[j], j));
                }
            }
            assert(vals(ss@) =~= Seq::new((i + 1) as nat, |j: int| section_json(self.sections@[j], j)));
            i += 1;
        }
        proof {
            lemma_items_vals(ss@);
        }
        let mut ms: Vec<JsonMember> = Vec::new();
        proof {
            lemma_members_view(ms@, 0);
        }
        push_member(&mut ms, "schema_version", JsonValue::Int(IR_VIEW_SCHEMA_VERSION as i64));
        push_member(&mut ms, "section_count", uint(self.sections.len()));
        push_member(&mut ms, "sections", JsonValue::Array(ss));
        assert(object_view(ms@) =~= document_json(*self)->Object_0);
        let v = JsonValue::Object(ms);
        to_json_string(&v)
    }
}

} // verus!
