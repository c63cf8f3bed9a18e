//! Applying edit operations to a document, and undoing the invertible ones.
use vstd::prelude::*;
use crate::document_core::{DocumentCore, body_changed, unchanged, cell_changed, cell_replaced, asks_new_fill, table_replaced, merged_cells, is_table_paragraph};
use crate::edit_op::{
    EditOperation, ElementType, RunSpec, PartialParagraphStyle, PartialCellStyle, PartialRunStyle, runs_to_native,
    concat_run_texts, runs_text, partial_paragraph_style_to_native, partial_cell_style_to_native,
    partial_run_style_to_native, para_native_members, cell_native_members, run_native_members,
    native_style_of, runs_formatted, lemma_natives_layout, native_runs_layout,
};
use crate::error::{HwpError, render_error, indexed_error};
use crate::text_ops::splice;
use crate::json::{JsonValue, JsonMember, JsonView, object_view, merge_keys, lemma_members_view, nat_digits};
use crate::model::{Paragraph, ColumnBreakType, Control, Cell, texts, same_but_text, char_formats_view};
use crate::cell_path::{CellPath, CellStep, doc_path_replaced, cell_runs_error, path_error, cell_para_rebuilt, raw_dropped, present_texts, opt_views, utf16_len};
use crate::para_list::{blank_but_format, runs_set,
    insert_text_ok, insert_text_post, delete_text_ok, delete_text_post, split_ok, split_post,
    merge_ok, merge_post, insert_paragraph_post, delete_range_ok, delete_range_post,
};

verus! {

/// `k` empty texts.
pub open spec fn empties(k: int) -> Seq<Seq<char>> {
    Seq::new(k as nat, |i: int| Seq::<char>::empty())
}

/// The texts after splitting paragraph `q` at `off`.
pub proof fn lemma_split_texts(old_ps: Seq<Paragraph>, new_ps: Seq<Paragraph>, q: int, off: int, ct: ColumnBreakType)
    requires
        split_ok(old_ps, q, off),
        split_post(old_ps, new_ps, q, off, ct),
    ensures
        texts(new_ps) == texts(old_ps).take(q) + seq![
            old_ps[q].text@.subrange(0, off),
            old_ps[q].text@.subrange(off, old_ps[q].text@.len() as int),
        ] + texts(old_ps).skip(q + 1),
{
    let l = texts(old_ps).take(q) + seq![
        old_ps[q].text@.subrange(0, off),
        old_ps[q].text@.subrange(off, old_ps[q].text@.len() as int),
    ] + texts(old_ps).skip(q + 1);
    assert forall|j: int| 0 <= j < new_ps.len() implies #[trigger] texts(new_ps)[j] == l[j] by {
        if j > q + 1 {
            assert(new_ps[(j - 1) + 1] == old_ps[j - 1]);
        }
    }
    assert(texts(new_ps) =~= l);
}

/// Splitting paragraph `q` at its start inserts an empty text before it.
pub proof fn lemma_split_at_start_texts(old_ps: Seq<Paragraph>, new_ps: Seq<Paragraph>, q: int, ct: ColumnBreakType)
    requires
        split_ok(old_ps, q, 0),
        split_post(old_ps, new_ps, q, 0, ct),
    ensures
        texts(new_ps) == texts(old_ps).insert(q, Seq::empty()),
{
    lemma_split_texts(old_ps, new_ps, q, 0, ct);
    assert(old_ps[q].text@.subrange(0, 0) =~= Seq::<char>::empty());
    assert(old_ps[q].text@.subrange(0, old_ps[q].text@.len() as int) =~= old_ps[q].text@);
    assert(texts(new_ps) =~= texts(old_ps).insert(q, Seq::empty()));
}

/// Inserting an empty paragraph at `at` inserts an empty text there.
pub proof fn lemma_insert_paragraph_texts(old_ps: Seq<Paragraph>, new_ps: Seq<Paragraph>, at: int)
    requires
        0 <= at <= old_ps.len(),
        insert_paragraph_post(old_ps, new_ps, at),
    ensures
        texts(new_ps) == texts(old_ps).insert(at, Seq::empty()),
{
    assert forall|j: int| 0 <= j < new_ps.len() implies #[trigger] texts(new_ps)[j] == texts(old_ps).insert(at, Seq::empty())[j] by {
        if j > at {
            assert(new_ps[(j - 1) + 1] == old_ps[j - 1]);
        }
    }
    assert(texts(new_ps) =~= texts(old_ps).insert(at, Seq::empty()));
}

/// The offset at which Enter splits a paragraph of `len` characters: a negative request means
/// the end, a larger one is clamped to the end.
pub open spec fn enter_offset(char_offset: i64, len: int) -> int {
    if char_offset < 0 {
        len
    } else if char_offset > len {
        len
    } else {
        char_offset as int
    }
}

/// The texts after `count` Enters at `off` of paragraph `p`: the head stays, `count - 1`
/// empty paragraphs follow, then the tail.
pub open spec fn enter_texts(ts: Seq<Seq<char>>, p: int, off: int, count: int) -> Seq<Seq<char>> {
    if count == 0 {
        ts
    } else {
        let t = ts[p];
        ts.take(p) + seq![t.subrange(0, off)] + empties(count - 1) + seq![
            t.subrange(off, t.len() as int),
        ] + ts.skip(p + 1)
    }
}

/// Setting every member of `props`, in order, on `base`.
pub open spec fn merge_all(base: Seq<(Seq<char>, JsonView)>, props: Seq<(Seq<char>, JsonView)>) -> Seq<(Seq<char>, JsonView)> {
    merge_keys(base, props, props.len() as int)
}

/// `np` is `op` with `props` merged into its format, and nothing else changed.
pub open spec fn formatted(op: Paragraph, np: Paragraph, props: Seq<(Seq<char>, JsonView)>) -> bool {
    &&& object_view(np.format@) == merge_all(object_view(op.format@), props)
    &&& (Paragraph { format: np.format, ..op }) == np
}

/// Only body paragraph `(s, p)` changed: `props` were merged into its format.
pub open spec fn body_para_formatted(old: DocumentCore, new: DocumentCore, s: int, p: int, props: Seq<(Seq<char>, JsonView)>) -> bool {
    &&& body_changed(old, new, s)
    &&& new.body(s).len() == old.body(s).len()
    &&& forall|j: int| 0 <= j < old.body(s).len() && j != p ==> new.body(s)[j] == old.body(s)[j]
    &&& formatted(old.body(s)[p], new.body(s)[p], props)
}

/// The native members of an optional paragraph style.
pub open spec fn style_members(style: Option<PartialParagraphStyle>) -> Option<Seq<(Seq<char>, JsonView)>> {
    match style {
        Some(st) => Some(para_native_members(st)),
        None => None,
    }
}

/// The members that apply a paragraph style natively.
fn para_style_members(style: &PartialParagraphStyle) -> (m: Vec<JsonMember>)
    ensures
        object_view(m@) == para_native_members(*style),
        m@.len() == para_native_members(*style).len(),
{
    let v = partial_paragraph_style_to_native(style);
    match v {
        JsonValue::Object(m) => {
            proof {
                lemma_members_view(m@, m@.len() as int);
            }
            m
        },
        _ => vstd::pervasive::unreached(),
    }
}

/// A paragraph that an insertion made: blank, and carrying the style (if any), merged once
/// into its empty format.
pub open spec fn inserted_paragraph(p: Paragraph, props: Option<Seq<(Seq<char>, JsonView)>>) -> bool {
    &&& blank_but_format(p)
    &&& carries_style(p, props)
}

/// A new paragraph's format: empty, or the style (if any) merged once into it.
pub open spec fn carries_style(p: Paragraph, props: Option<Seq<(Seq<char>, JsonView)>>) -> bool {
    match props {
        None => p.format@.len() == 0,
        Some(m) => object_view(p.format@) == merge_all(seq![], m),
    }
}

/// `count` paragraphs were inserted at `a` of section `s`, each blank and carrying the style
/// (if any); the paragraphs from `a` on moved down by `count`, unchanged.
pub open spec fn paragraphs_inserted(
    old: DocumentCore,
    new: DocumentCore,
    s: int,
    a: int,
    count: int,
    props: Option<Seq<(Seq<char>, JsonView)>>,
) -> bool {
    let ob = old.body(s);
    let nb = new.body(s);
    &&& body_changed(old, new, s)
    &&& nb.len() == ob.len() + count
    &&& forall|j: int| 0 <= j < a ==> nb[j] == ob[j]
    &&& forall|j: int| a <= j < a + count ==> inserted_paragraph(#[trigger] nb[j], props)
    &&& forall|j: int| a <= j < ob.len() ==> nb[j + count] == ob[j]
}

impl DocumentCore {
    /// Inserts `count` paragraphs at `after_para` of section `s`, one at a time, giving each
    /// new paragraph the style (if any).
    fn apply_insert_paragraph(&mut self, s: usize, a: usize, count: usize, style: &Option<PartialParagraphStyle>) -> (r: Result<(), HwpError>)
        requires
            a + count <= usize::MAX,
        ensures
            count == 0 ==> r is Ok && *final(self) == *old(self),
            count > 0 ==> {
                let room = s < old(self).section_count() && a <= old(self).body(s as int).len();
                &&& r is Ok <==> room
                &&& r is Ok ==> paragraphs_inserted(*old(self), *final(self), s as int, a as int, count as int, style_members(*style))
                &&& r is Err ==> unchanged(*old(self), *final(self))
            },
    {
        let mut i: usize = 0;
        while i < count
            invariant
                i <= count,
                a + count <= usize::MAX,
                i == 0 ==> *self == *old(self),
                i > 0 ==> s < old(self).section_count() && a <= old(self).body(s as int).len()
                    && paragraphs_inserted(*old(self), *self, s as int, a as int, i as int, style_members(*style)),
            decreases count - i,
        {
            let ghost before = *self;
            self.insert_paragraph_native(s, a + i)?;
            let ghost mid = *self;
            proof {
                let ob = old(self).body(s as int);
                let bb = before.body(s as int);
                let mb = mid.body(s as int);
                if i > 0 {
                    assert forall|j: int| a <= j < ob.len() implies mb[j + i + 1] == ob[j] by {
                        assert(bb[j + i] == ob[j]);
                    }
                    assert forall|j: int| a <= j < a + i implies inserted_paragraph(#[trigger] mb[j], style_members(*style)) by {
                        assert(mb[j] == bb[j]);
                    }
                } else {
                    assert forall|j: int| a <= j < ob.len() implies mb[j + 1] == ob[j] by {
                        assert(mb[j + 1] == bb[j]);
                    }
                }
            }
            match style {
                Some(st) => {
                    let m = para_style_members(st);
                    let ghost mv = object_view(m@);
                    let ghost empty: Seq<JsonMember> = seq![];
                    let res = self.apply_para_format_native(s, a + i, m);
                    proof {
                        let mb = mid.body(s as int);
                        let nb = self.body(s as int);
                        lemma_members_view(empty, 0);
                        assert(object_view(empty) =~= seq![]);
                        assert(mb[a + i].format@ =~= empty);
                        assert(res is Ok);
                        assert(object_view(nb[a + i].format@) == merge_all(seq![], mv));
                        assert(blank_but_format(nb[a + i]));
                        assert(inserted_paragraph(nb[a + i], style_members(*style)));
                    }
                },
                None => {},
            }
            proof {
                let ob = old(self).body(s as int);
                let nb = self.body(s as int);
                let mb = mid.body(s as int);
                assert(forall|j: int| 0 <= j < nb.len() && j != a + i ==> nb[j] == mb[j]);
                assert(body_changed(*old(self), *self, s as int));
                assert(nb.len() == ob.len() + i + 1);
                assert(forall|j: int| 0 <= j < a ==> nb[j] == ob[j]);
                assert forall|j: int| a <= j < a + i + 1 implies inserted_paragraph(#[trigger] nb[j], style_members(*style)) by {
                    if j < a + i {
                        assert(nb[j] == mb[j]);
                    }
                }
                assert forall|j: int| a <= j < ob.len() implies nb[j + i + 1] == ob[j] by {
                    assert(nb[j + i + 1] == mb[j + i + 1]);
                }
            }
            i += 1;
        }
        Ok(())
    }
}

/// One more Enter at the start of the paragraph after the empties (or of the tail) adds one
/// more empty paragraph.
pub proof fn lemma_enter_step(ts: Seq<Seq<char>>, p: int, off: int, i: int)
    requires
        0 <= p < ts.len(),
        0 <= off <= ts[p].len(),
        i >= 1,
    ensures
        enter_texts(ts, p, off, i + 1) == enter_texts(ts, p, off, i).insert(p + i, Seq::empty()),
        enter_texts(ts, p, off, i).len() == ts.len() + i,
{
    let a = enter_texts(ts, p, off, i);
    let b = enter_texts(ts, p, off, i + 1);
    assert(empties(i - 1).len() == i - 1);
    assert(empties(i).len() == i);
    assert(b =~= a.insert(p + i, Seq::empty()));
}

/// The first Enter splits the paragraph in two.
pub proof fn lemma_enter_first(ts: Seq<Seq<char>>, p: int, off: int)
    requires
        0 <= p < ts.len(),
        0 <= off <= ts[p].len(),
    ensures
        enter_texts(ts, p, off, 1) == ts.take(p) + seq![ts[p].subrange(0, off), ts[p].subrange(off, ts[p].len() as int)]
            + ts.skip(p + 1),
{
    assert(empties(0) =~= Seq::<Seq<char>>::empty());
    assert(enter_texts(ts, p, off, 1) =~= ts.take(p) + seq![ts[p].subrange(0, off), ts[p].subrange(off, ts[p].len() as int)]
        + ts.skip(p + 1));
}

/// Formatting a paragraph leaves the texts as they were.
proof fn lemma_formatted_texts(old: DocumentCore, new: DocumentCore, s: int, p: int)
    requires
        new.body(s).len() == old.body(s).len(),
        forall|j: int| 0 <= j < old.body(s).len() && j != p ==> new.body(s)[j] == old.body(s)[j],
        0 <= p < old.body(s).len(),
        new.body(s)[p].text == old.body(s)[p].text,
    ensures
        texts(new.body(s)) == texts(old.body(s)),
{
    assert(new.body(s)[p].text == old.body(s)[p].text);
    assert(texts(new.body(s)) =~= texts(old.body(s)));
}

/// The split point of `char_offset` in a paragraph of `len` characters.
fn resolve_offset(char_offset: i64, len: usize) -> (off: usize)
    ensures
        off == enter_offset(char_offset, len as int),
{
    if char_offset < 0 {
        len
    } else if char_offset as u64 > len as u64 {
        len
    } else {
        char_offset as usize
    }
}

/// After `count` Enters at paragraph `p`, the new paragraphs (after `p` up to `p + count`)
/// carry the style (see `carries_style`), and the first of them alone starts a new page when
/// a page break was asked for.
pub open spec fn enter_formatted(ps: Seq<Paragraph>, p: int, count: int, props: Option<Seq<(Seq<char>, JsonView)>>, page_break: bool) -> bool {
    forall|j: int| p < j <= p + count ==> {
        &&& carries_style(#[trigger] ps[j], props)
        &&& ps[j].column_type == if j == p + 1 && page_break { ColumnBreakType::Page } else { ColumnBreakType::NoBreak }
    }
}

/// The message of a body Enter outside the document: the section, else the paragraph, out of
/// range.
pub open spec fn body_enter_error(core: DocumentCore, s: int, p: int) -> Seq<char> {
    if !(0 <= s < core.section_count()) {
        "section "@ + nat_digits(s as nat) + " 범위 초과"@
    } else {
        "para "@ + nat_digits(p as nat) + " 범위 초과"@
    }
}

/// The message of a cell Enter whose addressed cell paragraph is missing: the control out of
/// range or not a table, the cell out of range, else the cell paragraph out of range.
pub open spec fn cell_enter_error(core: DocumentCore, s: int, tp: int, k: int, ci: int, cp: int) -> Seq<char> {
    if !(0 <= s < core.section_count() && 0 <= tp < core.body(s).len() && 0 <= k < core.body(s)[tp].controls@.len()) {
        "ctrl_idx "@ + nat_digits(k as nat) + " 범위 초과"@
    } else if !(core.body(s)[tp].controls@[k] is Table) {
        "ctrl_idx "@ + nat_digits(k as nat) + " 은 Table 이 아닙니다"@
    } else if !(0 <= ci < core.table_at(s, tp, k).cells@.len()) {
        "cell_idx "@ + nat_digits(ci as nat) + " 범위 초과"@
    } else {
        "cell_para "@ + nat_digits(cp as nat) + " 범위 초과"@
    }
}

impl DocumentCore {
    /// Enter in body paragraph `(s, para)`: `count` splits, the first at the resolved offset
    /// (its new paragraph starting a new page when a page break is asked for) and the others at
    /// the start of the new paragraph; after each split the style (if any) is merged into the
    /// new paragraph.
    fn press_enter_body(
        &mut self,
        s: usize,
        para: usize,
        char_offset: i64,
        count: usize,
        style: &Option<PartialParagraphStyle>,
        page_break: bool,
    ) -> (r: Result<(), HwpError>)
        requires
            para + count < usize::MAX,
        ensures
            r is Ok <==> s < old(self).section_count() && para < old(self).body(s as int).len(),
            r is Err ==> fails_with(r, body_enter_error(*old(self), s as int, para as int)),
            r is Ok && count == 0 ==> *final(self) == *old(self),
            r is Ok && count > 0 ==> body_changed(*old(self), *final(self), s as int)
                && texts(final(self).body(s as int)) == enter_texts(
                    texts(old(self).body(s as int)),
                    para as int,
                    enter_offset(char_offset, old(self).body(s as int)[para as int].text@.len() as int),
                    count as int,
                )
                && enter_formatted(final(self).body(s as int), para as int, count as int, style_members(*style), page_break),
            r is Err ==> *final(self) == *old(self),
    {
        if s >= self.document.sections.len() {
            return Err(indexed_error("section ", s, " 범위 초과"));
        }
        if para >= self.document.sections[s].paragraphs.len() {
            return Err(indexed_error("para ", para, " 범위 초과"));
        }
        let len = crate::text_ops::char_len(self.document.sections[s].paragraphs[para].text.as_str());
        let off = resolve_offset(char_offset, len);
        let ghost ts = texts(old(self).body(s as int));
        let mut i: usize = 0;
        while i < count
            invariant
                i <= count,
                para + count < usize::MAX,
                s < old(self).section_count(),
                para < old(self).body(s as int).len(),
                off == enter_offset(char_offset, old(self).body(s as int)[para as int].text@.len() as int),
                off <= old(self).body(s as int)[para as int].text@.len(),
                ts == texts(old(self).body(s as int)),
                i == 0 ==> *self == *old(self),
                i > 0 ==> body_changed(*old(self), *self, s as int)
                    && texts(self.body(s as int)) == enter_texts(ts, para as int, off as int, i as int)
                    && enter_formatted(self.body(s as int), para as int, i as int, style_members(*style), page_break),
            decreases count - i,
        {
            let target = para + i;
            let target_off = if i == 0 {
                off
            } else {
                0
            };
            proof {
                if i > 0 {
                    lemma_enter_step(ts, para as int, off as int, i as int);
                    assert(texts(self.body(s as int)).len() == self.body(s as int).len());
                }
            }
            let ghost before = *self;
            let first_break = i == 0 && page_break;
            let ghost ct = if first_break {
                ColumnBreakType::Page
            } else {
                ColumnBreakType::NoBreak
            };
            let res = if first_break {
                self.insert_page_break_native(s, target, target_off)
            } else {
                self.split_paragraph_native(s, target, target_off)
            };
            match res {
                Ok(()) => {},
                Err(e) => {
                    return Err(e);
                },
            }
            proof {
                if i == 0 {
                    lemma_split_texts(before.body(s as int), self.body(s as int), para as int, off as int, ct);
                    lemma_enter_first(ts, para as int, off as int);
                } else {
                    lemma_split_at_start_texts(before.body(s as int), self.body(s as int), target as int, ct);
                }
                let bb = before.body(s as int);
                let nb = self.body(s as int);
                assert(nb[target + 1].column_type == ct);
                assert(nb[target + 1].format@.len() == 0);
                assert forall|j: int| para < j <= para + i implies nb[j] == bb[j] || j == target by {}
                if i > 0 {
                    assert(same_but_text(nb[target as int], bb[target as int]));
                }
            }
            let ghost mid = *self;
            match style {
                Some(st) => {
                    let m = para_style_members(st);
                    let ghost empty: Seq<JsonMember> = seq![];
                    match self.apply_para_format_native(s, target + 1, m) {
                        Ok(()) => {
                            proof {
                                lemma_formatted_texts(mid, *self, s as int, target + 1);
                                lemma_members_view(empty, 0);
                                assert(object_view(empty) =~= seq![]);
                                assert(mid.body(s as int)[target + 1].format@ =~= empty);
                            }
                        },
                        Err(e) => {
                            return Err(e);
                        },
                    }
                },
                None => {},
            }
            proof {
                let nb = self.body(s as int);
                let mb = mid.body(s as int);
                let bb = before.body(s as int);
                assert forall|j: int| para < j <= para + i + 1 implies {
                    &&& carries_style(#[trigger] nb[j], style_members(*style))
                    &&& nb[j].column_type == if j == para + 1 && page_break { ColumnBreakType::Page } else { ColumnBreakType::NoBreak }
                } by {
                    if j <= para + i {
                        assert(nb[j] == mb[j]);
                        if j < target {
                            assert(mb[j] == bb[j]);
                        } else {
                            assert(same_but_text(mb[j], bb[j]));
                        }
                    }
                }
            }
            i += 1;
        }
        Ok(())
    }
}

/// The table control an operation addresses: the given index, else the paragraph's first
/// table.
pub open spec fn resolved_ctrl(core: DocumentCore, s: int, tp: int, ctrl_idx: Option<usize>) -> Option<int> {
    match ctrl_idx {
        Some(k) => Some(k as int),
        None => core.table_ctrl_index(s, tp),
    }
}

/// The `(control, cell)` an operation addresses: the given indices, else the ones found by
/// position (the coordinates are taken as `u16`).
pub open spec fn resolved_target(
    core: DocumentCore,
    s: int,
    tp: int,
    row: usize,
    col: usize,
    cell_idx: Option<usize>,
    ctrl_idx: Option<usize>,
) -> Option<(int, int)> {
    match resolved_ctrl(core, s, tp, ctrl_idx) {
        None => None,
        Some(k) => match cell_idx {
            Some(ci) => Some((k, ci as int)),
            None => match core.cell_index(s, tp, k, row as u16, col as u16) {
                Some(ci) => Some((k, ci)),
                None => None,
            },
        },
    }
}

/// The font table of `new` extends that of `old`.
pub open spec fn fonts_kept(old: DocumentCore, new: DocumentCore) -> bool {
    &&& new.font_names@.len() >= old.font_names@.len()
    &&& forall|j: int| 0 <= j < old.font_names@.len() ==> new.font_names@[j] == old.font_names@[j]
}

/// `c` with the font table `f`.
pub open spec fn with_fonts(c: DocumentCore, f: Vec<String>) -> DocumentCore {
    DocumentCore { font_names: f, ..c }
}

/// There is room in the font table for one new font per run.
pub open spec fn fonts_room(core: DocumentCore, n: int) -> bool {
    core.font_names@.len() + n <= i32::MAX
}

/// Paragraph `para` holds the run texts, and its character formats are those the runs give
/// them (see `runs_formatted`, fonts looked up in `fonts`); nothing else changed.
pub open spec fn runs_replaced(old_ps: Seq<Paragraph>, new_ps: Seq<Paragraph>, para: int, runs: Seq<RunSpec>, fonts: Seq<String>) -> bool {
    let fs = char_formats_view(new_ps[para].char_format@);
    &&& runs_set(old_ps, new_ps, para, runs_text(runs), fs)
    &&& runs_formatted(runs, fs, fonts)
}

/// `text` was inserted at `offset` of paragraph `cp`; when `styled` and there is a style,
/// the inserted characters also got a new character format: the style's native form (fonts
/// looked up in `fonts`).
pub open spec fn cell_text_inserted(
    old_ps: Seq<Paragraph>,
    new_ps: Seq<Paragraph>,
    cp: int,
    offset: int,
    text: Seq<char>,
    style: Option<PartialRunStyle>,
    fonts: Seq<String>,
    styled: bool,
) -> bool {
    if styled && style is Some {
        let np = new_ps[cp];
        let of = char_formats_view(old_ps[cp].char_format@);
        let nf = char_formats_view(np.char_format@);
        &&& insert_text_post(old_ps, new_ps.update(cp, Paragraph { char_format: old_ps[cp].char_format, ..np }), cp, offset, text)
        &&& nf.len() == of.len() + 1
        &&& nf.drop_last() == of
        &&& nf.last().0 == offset
        &&& nf.last().1 == offset + text.len()
        &&& native_style_of(style->Some_0, nf.last().2, fonts)
    } else {
        insert_text_post(old_ps, new_ps, cp, offset, text)
    }
}

impl DocumentCore {
    fn resolve_ctrl(&self, s: usize, tp: usize, ctrl_idx: Option<usize>) -> (r: Result<usize, HwpError>)
        ensures
            match r {
                Ok(k) => resolved_ctrl(*self, s as int, tp as int, ctrl_idx) == Some(k as int),
                Err(_) => resolved_ctrl(*self, s as int, tp as int, ctrl_idx) is None,
            },
    {
        match ctrl_idx {
            Some(k) => Ok(k),
            None => self.find_table_ctrl_idx(s, tp),
        }
    }

    fn resolve_target(
        &self,
        s: usize,
        tp: usize,
        row: usize,
        col: usize,
        cell_idx: Option<usize>,
        ctrl_idx: Option<usize>,
    ) -> (r: Result<(usize, usize), HwpError>)
        ensures
            match r {
                Ok((k, ci)) => resolved_target(*self, s as int, tp as int, row, col, cell_idx, ctrl_idx) == Some((k as int, ci as int)),
                Err(_) => resolved_target(*self, s as int, tp as int, row, col, cell_idx, ctrl_idx) is None,
            },
    {
        let k = self.resolve_ctrl(s, tp, ctrl_idx)?;
        let ci = match cell_idx {
            Some(ci) => ci,
            None => {
                let r16: u16 = #[verifier::truncate] (row as u16);
                let c16: u16 = #[verifier::truncate] (col as u16);
                self.find_cell_idx(s, tp, k, r16, c16)?
            },
        };
        Ok((k, ci))
    }

    /// Replaces the runs of body paragraph `(s, para)`: it holds the run texts, and each styled
    /// run's characters get its native style (fonts registered first).
    fn replace_runs(&mut self, s: usize, para: usize, runs: &Vec<RunSpec>) -> (r: Result<(), HwpError>)
        ensures
            fonts_room(*old(self), runs@.len() as int) ==> (r is Ok <==> old(self).para_ok(s as int, para as int)),
            r is Ok ==> old(self).para_ok(s as int, para as int),
            fonts_kept(*old(self), *final(self)),
            r is Ok ==> body_changed(*old(self), with_fonts(*final(self), old(self).font_names), s as int)
                && runs_replaced(old(self).body(s as int), final(self).body(s as int), para as int, runs@, final(self).font_names@),
            r is Err ==> final(self).document.sections@ == old(self).document.sections@ && final(self).border_fill_count == old(self).border_fill_count,
    {
        let native = runs_to_native(self, runs)?;
        let ghost nv = native@;
        proof {
            lemma_natives_layout(runs@, nv, self.font_names@);
        }
        let (text, formats) = native_runs_layout(native);
        self.replace_runs_native(s, para, text, formats)
    }

    /// Merges a partial paragraph style into body paragraph `(s, para)`.
    fn set_paragraph_style(&mut self, s: usize, para: usize, style: &PartialParagraphStyle) -> (r: Result<(), HwpError>)
        ensures
            r is Ok <==> old(self).para_ok(s as int, para as int),
            r is Ok ==> body_para_formatted(*old(self), *final(self), s as int, para as int, para_native_members(*style)),
            r is Err ==> unchanged(*old(self), *final(self)),
    {
        let m = para_style_members(style);
        self.apply_para_format_native(s, para, m)
    }

    /// Sets a partial cell style on the addressed cell.
    fn set_cell_style(
        &mut self,
        s: usize,
        tp: usize,
        row: usize,
        col: usize,
        cell_idx: Option<usize>,
        ctrl_idx: Option<usize>,
        style: &PartialCellStyle,
    ) -> (r: Result<(), HwpError>)
        ensures
            match resolved_target(*old(self), s as int, tp as int, row, col, cell_idx, ctrl_idx) {
                None => r is Err,
                Some((k, ci)) => cell_props_outcome(*old(self), *final(self), s as int, tp as int, k, ci, cell_native_members(*style), r is Ok),
            },
            r is Err ==> unchanged(*old(self), *final(self)),
    {
        let (k, ci) = self.resolve_target(s, tp, row, col, cell_idx, ctrl_idx)?;
        let m = match partial_cell_style_to_native(style) {
            JsonValue::Object(m) => m,
            _ => vstd::pervasive::unreached(),
        };
        proof {
            lemma_members_view(m@, m@.len() as int);
        }
        self.set_cell_properties_native(s, tp, k, ci, m)
    }
}

/// What setting native cell properties `props` on cell `(s, tp, k, ci)` does.
pub open spec fn cell_props_outcome(
    old: DocumentCore,
    new: DocumentCore,
    s: int,
    tp: int,
    k: int,
    ci: int,
    props: Seq<(Seq<char>, JsonView)>,
    ok: bool,
) -> bool {
    &&& ok <==> old.cell_addr_ok(s, tp, k, ci) && (asks_new_fill(props) ==> old.border_fill_count < u16::MAX)
    &&& ok ==> {
        let oc = old.table_at(s, tp, k).cells@[ci];
        let nc = new.table_at(s, tp, k).cells@[ci];
        &&& cell_replaced(old, new, s, tp, k, ci)
        &&& object_view(nc.format@) == merge_all(object_view(oc.format@), props)
        &&& nc.paragraphs == oc.paragraphs
        &&& nc.row == oc.row && nc.col == oc.col
        &&& if asks_new_fill(props) {
            &&& new.border_fill_count == old.border_fill_count + 1
            &&& nc.border_fill_id == new.border_fill_count
        } else {
            &&& new.border_fill_count == old.border_fill_count
            &&& nc.border_fill_id == oc.border_fill_id
        }
    }
}

/// Whether merging `[r1, r2] × [c1, c2]` of table `(s, tp, k)` is possible: the table
/// exists, the range is ordered and fits a span, and its top-left cell exists.
pub open spec fn cell_merge_ok(core: DocumentCore, s: int, tp: int, k: int, r1: u16, c1: u16, r2: u16, c2: u16) -> bool {
    &&& core.table_addr_ok(s, tp, k)
    &&& r1 <= r2 && c1 <= c2
    &&& r2 - r1 < u16::MAX && c2 - c1 < u16::MAX
    &&& exists|i: int|
        0 <= i < core.table_at(s, tp, k).cells@.len() && #[trigger] core.table_at(s, tp, k).cells@[i].row == r1
            && core.table_at(s, tp, k).cells@[i].col == c1
}

/// The table `(s, tp, k)` has had `[r1, r2] × [c1, c2]` merged into its top-left cell.
pub open spec fn cells_merged(old: DocumentCore, new: DocumentCore, s: int, tp: int, k: int, r1: u16, c1: u16, r2: u16, c2: u16) -> bool {
    let ot = old.table_at(s, tp, k);
    let nt = new.table_at(s, tp, k);
    &&& table_replaced(old, new, s, tp, k)
    &&& nt.cells@ == merged_cells(ot.cells@, ot.cells@.len() as int, r1 as int, c1 as int, r2 as int, c2 as int)
    &&& nt.row_count == ot.row_count
    &&& nt.col_count == ot.col_count
}

/// Within cell `(s, tp, k, ci)`, paragraph `cp` was split `count` times as Enter does
/// there: texts become the head, `count - 1` empty paragraphs and the tail.
pub open spec fn cell_entered(old: DocumentCore, new: DocumentCore, s: int, tp: int, k: int, ci: int, cp: int, off: int, count: int) -> bool {
    &&& cell_changed(old, new, s, tp, k, ci)
    &&& new.border_fill_count == old.border_fill_count
    &&& texts(new.cell_paras(s, tp, k, ci)) == enter_texts(texts(old.cell_paras(s, tp, k, ci)), cp, off, count)
}

impl DocumentCore {
    /// Merges a rectangle of cells of the addressed table.
    fn merge_cells(
        &mut self,
        s: usize,
        tp: usize,
        r1: usize,
        c1: usize,
        r2: usize,
        c2: usize,
        ctrl_idx: Option<usize>,
    ) -> (r: Result<(), HwpError>)
        ensures
            match resolved_ctrl(*old(self), s as int, tp as int, ctrl_idx) {
                None => r is Err,
                Some(k) => (r is Ok <==> cell_merge_ok(*old(self), s as int, tp as int, k, r1 as u16, c1 as u16, r2 as u16, c2 as u16))
                    && (r is Ok ==> cells_merged(*old(self), *final(self), s as int, tp as int, k, r1 as u16, c1 as u16, r2 as u16, c2 as u16)),
            },
            r is Err ==> unchanged(*old(self), *final(self)),
    {
        let k = self.resolve_ctrl(s, tp, ctrl_idx)?;
        let a: u16 = #[verifier::truncate] (r1 as u16);
        let b: u16 = #[verifier::truncate] (c1 as u16);
        let c: u16 = #[verifier::truncate] (r2 as u16);
        let d: u16 = #[verifier::truncate] (c2 as u16);
        self.merge_table_cells_native(s, tp, k, a, b, c, d)
    }

    /// Replaces the runs of paragraph `cp` of the addressed cell: it holds the run texts, and
    /// each styled run's characters get its native style (fonts registered first).
    fn replace_cell_runs(
        &mut self,
        s: usize,
        tp: usize,
        row: usize,
        col: usize,
        cell_idx: Option<usize>,
        ctrl_idx: Option<usize>,
        cp: usize,
        runs: &Vec<RunSpec>,
    ) -> (r: Result<(), HwpError>)
        ensures
            match resolved_target(*old(self), s as int, tp as int, row, col, cell_idx, ctrl_idx) {
                None => r is Err && *final(self) == *old(self),
                Some((k, ci)) => {
                    let ok = old(self).cell_addr_ok(s as int, tp as int, k, ci) && cp < old(self).cell_paras(s as int, tp as int, k, ci).len();
                    &&& fonts_room(*old(self), runs@.len() as int) ==> (r is Ok <==> ok)
                    &&& r is Ok ==> ok
                        && cell_changed(*old(self), with_fonts(*final(self), old(self).font_names), s as int, tp as int, k, ci)
                        && final(self).border_fill_count == old(self).border_fill_count
                        && runs_replaced(old(self).cell_paras(s as int, tp as int, k, ci), final(self).cell_paras(s as int, tp as int, k, ci), cp as int, runs@, final(self).font_names@)
                },
            },
            fonts_kept(*old(self), *final(self)),
            r is Err ==> final(self).document.sections@ == old(self).document.sections@ && final(self).border_fill_count == old(self).border_fill_count,
    {
        let (k, ci) = self.resolve_target(s, tp, row, col, cell_idx, ctrl_idx)?;
        let native = runs_to_native(self, runs)?;
        let ghost nv = native@;
        proof {
            lemma_natives_layout(runs@, nv, self.font_names@);
        }
        let (text, formats) = native_runs_layout(native);
        self.replace_cell_runs_native(s, tp, k, ci, cp, text, formats)
    }

    /// Inserts text into paragraph `cp` of the addressed cell; with a style, the inserted
    /// characters then get its native form (its font registered first).
    fn insert_text_in_cell(
        &mut self,
        s: usize,
        tp: usize,
        row: usize,
        col: usize,
        cell_idx: Option<usize>,
        ctrl_idx: Option<usize>,
        cp: usize,
        offset: usize,
        text: &String,
        style: &Option<PartialRunStyle>,
    ) -> (r: Result<(), HwpError>)
        requires
            offset + text@.len() <= usize::MAX,
        ensures
            match resolved_target(*old(self), s as int, tp as int, row, col, cell_idx, ctrl_idx) {
                None => r is Err && *final(self) == *old(self),
                Some((k, ci)) => {
                    let ok = old(self).cell_addr_ok(s as int, tp as int, k, ci)
                        && insert_text_ok(old(self).cell_paras(s as int, tp as int, k, ci), cp as int, offset as int);
                    &&& (style is None || old(self).font_names@.len() < i32::MAX) ==> (r is Ok <==> ok)
                    &&& r is Ok ==> ok
                    &&& ok ==> cell_changed(*old(self), with_fonts(*final(self), old(self).font_names), s as int, tp as int, k, ci)
                        && final(self).border_fill_count == old(self).border_fill_count
                        && cell_text_inserted(
                        old(self).cell_paras(s as int, tp as int, k, ci),
                        final(self).cell_paras(s as int, tp as int, k, ci),
                        cp as int,
                        offset as int,
                        text@,
                        *style,
                        final(self).font_names@,
                        r is Ok,
                    )
                    &&& !ok ==> unchanged(*old(self), *final(self))
                },
            },
            fonts_kept(*old(self), *final(self)),
    {
        let (k, ci) = self.resolve_target(s, tp, row, col, cell_idx, ctrl_idx)?;
        let text_len = crate::text_ops::char_len(text.as_str());
        self.insert_text_in_cell_native(s, tp, k, ci, cp, offset, text.as_str())?;
        match style {
            Some(st) => {
                let ghost mid = *self;
                let base = match partial_run_style_to_native(st) {
                    JsonValue::Object(m) => m,
                    _ => vstd::pervasive::unreached(),
                };
                proof {
                    lemma_members_view(base@, base@.len() as int);
                }
                let injected = crate::edit_op::inject_font_id_into_run_style_json(self, base, &st.font_name);
                assert(with_fonts(*self, old(self).font_names) == mid);
                assert(self.cell_paras(s as int, tp as int, k as int, ci as int) == mid.cell_paras(s as int, tp as int, k as int, ci as int));
                let m = match injected {
                    Ok(m) => m,
                    Err(e) => {
                        return Err(e);
                    },
                };
                let ghost fonts = self.font_names@;
                let ghost mid2 = *self;
                let ghost mv = object_view(m@);
                assert(native_style_of(*st, mv, fonts));
                let checked = self.apply_char_format_in_cell_native(s, tp, k, ci, cp, offset, offset + text_len, m);
                assert(checked is Ok);
                proof {
                    let (ki, cii) = (k as int, ci as int);
                    let ops = old(self).cell_paras(s as int, tp as int, ki, cii);
                    let mps = mid2.cell_paras(s as int, tp as int, ki, cii);
                    let nps = self.cell_paras(s as int, tp as int, ki, cii);
                    let np = nps[cp as int];
                    assert(nps.update(cp as int, Paragraph { char_format: ops[cp as int].char_format, ..np }) =~= mps);
                    assert(char_formats_view(np.char_format@).drop_last() =~= char_formats_view(ops[cp as int].char_format@));
                    assert(with_fonts(mid2, old(self).font_names) == mid);
                }
                Ok(())
            },
            None => Ok(()),
        }
    }

    /// Deletes a range of text inside the addressed cell.
    fn delete_range_in_cell(
        &mut self,
        s: usize,
        tp: usize,
        row: usize,
        col: usize,
        cell_idx: Option<usize>,
        ctrl_idx: Option<usize>,
        ps_: usize,
        cs: usize,
        pe: usize,
        ce: usize,
    ) -> (r: Result<(), HwpError>)
        ensures
            match resolved_target(*old(self), s as int, tp as int, row, col, cell_idx, ctrl_idx) {
                None => r is Err,
                Some((k, ci)) => (r is Ok <==> old(self).cell_addr_ok(s as int, tp as int, k, ci)
                    && delete_range_ok(old(self).cell_paras(s as int, tp as int, k, ci), ps_ as int, cs as int, pe as int, ce as int))
                    && (r is Ok ==> cell_changed(*old(self), *final(self), s as int, tp as int, k, ci)
                    && final(self).border_fill_count == old(self).border_fill_count
                    && delete_range_post(old(self).cell_paras(s as int, tp as int, k, ci), final(self).cell_paras(s as int, tp as int, k, ci), ps_ as int, cs as int, pe as int, ce as int)),
            },
            r is Err ==> unchanged(*old(self), *final(self)),
    {
        let (k, ci) = self.resolve_target(s, tp, row, col, cell_idx, ctrl_idx)?;
        self.delete_range_in_cell_native(s, tp, k, ci, ps_, cs, pe, ce)
    }
}

/// The message for a page break asked for inside a cell.
pub open spec fn msg_cell_page_break() -> Seq<char> {
    "INVALID_PAYLOAD: 셀 안 page_break 미지원. 셀 모드에서 page_break:true 박지 마세요."@
}

/// The message for a cell-mode Enter without a row.
pub open spec fn msg_cell_row() -> Seq<char> {
    "INVALID_PAYLOAD: 셀 모드 row 누락"@
}

/// The message for a cell-mode Enter without a column.
pub open spec fn msg_cell_col() -> Seq<char> {
    "INVALID_PAYLOAD: 셀 모드 col 누락"@
}

/// The message for a cell-mode Enter without a cell paragraph.
pub open spec fn msg_cell_para() -> Seq<char> {
    "INVALID_PAYLOAD: 셀 모드 cell_para 누락"@
}

/// The message for a body-mode Enter without a paragraph.
pub open spec fn msg_body_para() -> Seq<char> {
    "INVALID_PAYLOAD: 본문 모드 para 누락"@
}

/// `r` is a request error with message `m`.
pub open spec fn fails_with(r: Result<(), HwpError>, m: Seq<char>) -> bool {
    r matches Err(HwpError::RenderError(x)) && x@ == m
}

proof fn lemma_cell_changed_trans(a: DocumentCore, b: DocumentCore, c: DocumentCore, s: int, tp: int, k: int, ci: int)
    requires
        a.cell_addr_ok(s, tp, k, ci),
        cell_changed(a, b, s, tp, k, ci),
        cell_changed(b, c, s, tp, k, ci),
    ensures
        cell_changed(a, c, s, tp, k, ci),
{
}

impl DocumentCore {
    /// Enter inside the addressed cell: `count` splits of paragraph `cp` of the cell, the
    /// first at the resolved offset and the others at the start of the new paragraph.
    fn press_enter_cell(
        &mut self,
        s: usize,
        tp: usize,
        row: usize,
        col: usize,
        cp: usize,
        cell_idx: Option<usize>,
        ctrl_idx: Option<usize>,
        char_offset: i64,
        count: usize,
    ) -> (r: Result<(), HwpError>)
        requires
            cp + count < usize::MAX,
        ensures
            match resolved_target(*old(self), s as int, tp as int, row, col, cell_idx, ctrl_idx) {
                None => r is Err,
                Some((k, ci)) => {
                    let ok = old(self).cell_addr_ok(s as int, tp as int, k, ci) && cp < old(self).cell_paras(s as int, tp as int, k, ci).len();
                    &&& r is Ok <==> ok
                    &&& !ok ==> fails_with(r, cell_enter_error(*old(self), s as int, tp as int, k, ci, cp as int))
                    &&& r is Ok && count > 0 ==> cell_entered(
                        *old(self),
                        *final(self),
                        s as int,
                        tp as int,
                        k,
                        ci,
                        cp as int,
                        enter_offset(char_offset, old(self).cell_paras(s as int, tp as int, k, ci)[cp as int].text@.len() as int),
                        count as int,
                    )
                },
            },
            r is Ok && count == 0 ==> *final(self) == *old(self),
            r is Err ==> *final(self) == *old(self),
    {
        let (k, ci) = self.resolve_target(s, tp, row, col, cell_idx, ctrl_idx)?;
        if s >= self.document.sections.len() || tp >= self.document.sections[s].paragraphs.len()
            || k >= self.document.sections[s].paragraphs[tp].controls.len() {
            return Err(indexed_error("ctrl_idx ", k, " 범위 초과"));
        }
        let len = match &self.document.sections[s].paragraphs[tp].controls[k] {
            Control::Table(t) => {
                if ci >= t.cells.len() {
                    return Err(indexed_error("cell_idx ", ci, " 범위 초과"));
                }
                if cp >= t.cells[ci].paragraphs.len() {
                    return Err(indexed_error("cell_para ", cp, " 범위 초과"));
                }
                crate::text_ops::char_len(t.cells[ci].paragraphs[cp].text.as_str())
            },
            _ => {
                return Err(indexed_error("ctrl_idx ", k, " 은 Table 이 아닙니다"));
            },
        };
        let off = resolve_offset(char_offset, len);
        let ghost ts = texts(old(self).cell_paras(s as int, tp as int, k as int, ci as int));
        let mut i: usize = 0;
        while i < count
            invariant
                i <= count,
                cp + count < usize::MAX,
                old(self).cell_addr_ok(s as int, tp as int, k as int, ci as int),
                cp < old(self).cell_paras(s as int, tp as int, k as int, ci as int).len(),
                off == enter_offset(char_offset, old(self).cell_paras(s as int, tp as int, k as int, ci as int)[cp as int].text@.len() as int),
                off <= old(self).cell_paras(s as int, tp as int, k as int, ci as int)[cp as int].text@.len(),
                ts == texts(old(self).cell_paras(s as int, tp as int, k as int, ci as int)),
                i == 0 ==> *self == *old(self),
                i > 0 ==> cell_entered(*old(self), *self, s as int, tp as int, k as int, ci as int, cp as int, off as int, i as int),
            decreases count - i,
        {
            let target_off = if i == 0 {
                off
            } else {
                0
            };
            proof {
                if i > 0 {
                    lemma_enter_step(ts, cp as int, off as int, i as int);
                    assert(texts(self.cell_paras(s as int, tp as int, k as int, ci as int)).len()
                        == self.cell_paras(s as int, tp as int, k as int, ci as int).len());
                }
            }
            let ghost before = *self;
            match self.split_paragraph_in_cell_native(s, tp, k, ci, cp + i, target_off) {
                Ok(()) => {},
                Err(e) => {
                    return Err(e);
                },
            }
            proof {
                let bp = before.cell_paras(s as int, tp as int, k as int, ci as int);
                let np = self.cell_paras(s as int, tp as int, k as int, ci as int);
                if i == 0 {
                    lemma_split_texts(bp, np, cp as int, off as int, ColumnBreakType::NoBreak);
                    lemma_enter_first(ts, cp as int, off as int);
                } else {
                    lemma_split_at_start_texts(bp, np, cp + i, ColumnBreakType::NoBreak);
                    lemma_cell_changed_trans(*old(self), before, *self, s as int, tp as int, k as int, ci as int);
                }
            }
            i += 1;
        }
        Ok(())
    }
}

/// The run texts, each present.
fn run_texts(runs: &Vec<RunSpec>) -> (v: Vec<Option<String>>)
    ensures
        present_texts(opt_views(v@)) == runs_text(runs@),
{
    let mut v: Vec<Option<String>> = Vec::new();
    let mut i: usize = 0;
    while i < runs.len()
        invariant
            i <= runs@.len(),
            v@.len() == i,
            present_texts(opt_views(v@)) == runs_text(runs@.take(i as int)),
        decreases runs.len() - i,
    {
        let t = runs[i].text.clone();
        let ghost prev = v@;
        v.push(Some(t));
        assert(opt_views(v@).drop_last() =~= opt_views(prev));
        assert(runs@.take(i + 1).drop_last() =~= runs@.take(i as int));
        i += 1;
    }
    assert(runs@.take(runs@.len() as int) =~= runs@);
    v
}

/// The cell that a path op addresses can be edited at paragraph `cp`.
pub open spec fn path_para_ok(core: DocumentCore, s: int, steps: Seq<CellStep>, cp: int) -> bool {
    core.cell_at_path(s, steps) matches Some(c) && cp < c.paragraphs@.len()
}

/// Paragraph `cp` of the cell that `steps` reach in section `s` holds `text` (rebuilt), the
/// section's saved raw stream is dropped, and nothing else changed but the font table.
pub open spec fn path_runs_replaced(old: DocumentCore, new: DocumentCore, s: int, steps: Seq<CellStep>, cp: int, text: Seq<char>) -> bool {
    &&& new.document.sections@[s].raw_stream is None
    &&& exists|nc: Cell|
        doc_path_replaced(old, with_fonts(new, old.font_names), s, steps, nc)
        && #[trigger] cell_para_rebuilt(old.cell_at_path(s, steps)->Some_0, nc, cp, text)
}

impl DocumentCore {
    /// Replaces the text of paragraph `cp` of the cell that `path` reaches with the run texts;
    /// the runs' fonts are registered first.
    fn replace_cell_runs_at_path_op(&mut self, s: usize, path: &CellPath, cp: usize, runs: &Vec<RunSpec>) -> (r: Result<(), HwpError>)
        requires
            utf16_len(runs_text(runs@)) < u32::MAX,
        ensures
            fonts_room(*old(self), runs@.len() as int) ==> (r is Ok <==> path_para_ok(*old(self), s as int, path.steps@, cp as int)),
            r is Ok ==> path_para_ok(*old(self), s as int, path.steps@, cp as int)
                && path_runs_replaced(*old(self), *final(self), s as int, path.steps@, cp as int, runs_text(runs@)),
            fonts_kept(*old(self), *final(self)),
            final(self).border_fill_count == old(self).border_fill_count,
            r is Err ==> final(self).document.sections@ == old(self).document.sections@
                || raw_dropped(*old(self), with_fonts(*final(self), old(self).font_names), s as int),
            fonts_room(*old(self), runs@.len() as int) && r is Err ==> fails_with(r, cell_runs_error(*old(self), s as int, path.steps@, cp as int)),
    {
        let _native = runs_to_native(self, runs)?;
        let ghost mid = *self;
        let texts = run_texts(runs);
        let r = self.replace_cell_run_texts_at_path(s, path, cp, &texts);
        proof {
            assert(mid.document == old(self).document);
            assert(mid.section_count() == old(self).section_count());
            if 0 <= s < mid.section_count() {
                assert(mid.body(s as int) == old(self).body(s as int));
            }
            assert(mid.cell_at_path(s as int, path.steps@) == old(self).cell_at_path(s as int, path.steps@));
            assert(path_error(mid, s as int, path.steps@) == path_error(*old(self), s as int, path.steps@));
            assert(cell_runs_error(mid, s as int, path.steps@, cp as int) == cell_runs_error(*old(self), s as int, path.steps@, cp as int));
        }
        proof {
            assert(with_fonts(mid, old(self).font_names).document == old(self).document);
            if r is Ok {
                let nc = choose|nc: Cell|
                    doc_path_replaced(mid, *self, s as int, path.steps@, nc)
                    && #[trigger] cell_para_rebuilt(mid.cell_at_path(s as int, path.steps@)->Some_0, nc, cp as int, runs_text(runs@));
                assert(doc_path_replaced(*old(self), with_fonts(*self, old(self).font_names), s as int, path.steps@, nc));
            }
        }
        match r {
            Ok(_) => Ok(()),
            Err(e) => Err(e),
        }
    }
}

/// The operations the editor can carry out at all: indices it adds up stay within `usize`,
/// a rebuilt paragraph's character count fits its `u32` field, and the places that the
/// editor reads without checking exist (the paragraph a table goes after; the table
/// paragraph of a cell-mode Enter whose control and cell are both given).
pub open spec fn apply_defined(core: DocumentCore, op: EditOperation) -> bool {
    match op {
        EditOperation::InsertParagraph { after_para, count, .. } => after_para + count <= usize::MAX,
        EditOperation::InsertTable { section, insert_after_para, .. } => core.para_ok(section as int, insert_after_para as int),
        EditOperation::InsertTextInCell { offset, text, .. } => offset + text@.len() <= usize::MAX,
        EditOperation::ReplaceCellRunsAtPath { runs, .. } => utf16_len(runs_text(runs@)) < u32::MAX,
        EditOperation::PressEnter { section, para, table_para, row, col, cell_para, ctrl_idx, cell_idx, count, page_break, .. } => match table_para {
            Some(tp) => (page_break != Some(true) && row is Some && col is Some && cell_para is Some) ==> (
                cell_para->Some_0 + count < usize::MAX
                && (ctrl_idx is Some && cell_idx is Some ==> core.para_ok(section as int, tp as int))
            ),
            None => para matches Some(p) ==> p + count < usize::MAX,
        },
        _ => true,
    }
}

/// A native step's outcome: success exactly when `ok`, then `post`; failure changes nothing.
pub open spec fn native_outcome(old: DocumentCore, new: DocumentCore, ok: bool, post: bool, r: Result<(), HwpError>) -> bool {
    &&& r is Ok <==> ok
    &&& r is Ok ==> post
    &&& r is Err ==> unchanged(old, new)
}

/// What applying `op` to `old` gives: the result `r` and the document `new`.
pub open spec fn applied(old: DocumentCore, new: DocumentCore, op: EditOperation, r: Result<(), HwpError>) -> bool {
    match op {
        EditOperation::InsertText { section, para, offset, text } => {
            let s = section as int;
            native_outcome(old, new, s < old.section_count() && insert_text_ok(old.body(s), para as int, offset as int),
                body_changed(old, new, s) && insert_text_post(old.body(s), new.body(s), para as int, offset as int, text@), r)
        },
        EditOperation::DeleteText { section, para, offset, count, .. } => {
            let s = section as int;
            native_outcome(old, new, s < old.section_count() && delete_text_ok(old.body(s), para as int, offset as int, count as int),
                body_changed(old, new, s) && delete_text_post(old.body(s), new.body(s), para as int, offset as int, count as int), r)
        },
        EditOperation::SplitParagraph { section, para, offset } => {
            let s = section as int;
            native_outcome(old, new, s < old.section_count() && split_ok(old.body(s), para as int, offset as int),
                body_changed(old, new, s) && split_post(old.body(s), new.body(s), para as int, offset as int, ColumnBreakType::NoBreak), r)
        },
        EditOperation::MergeParagraph { section, para, .. } => {
            let s = section as int;
            native_outcome(old, new, s < old.section_count() && merge_ok(old.body(s), para as int),
                body_changed(old, new, s) && merge_post(old.body(s), new.body(s), para as int), r)
        },
        EditOperation::ReplaceRuns { section, para, runs } => {
            let s = section as int;
            &&& fonts_room(old, runs@.len() as int) ==> (r is Ok <==> old.para_ok(s, para as int))
            &&& r is Ok ==> old.para_ok(s, para as int)
                && body_changed(old, with_fonts(new, old.font_names), s)
                && runs_replaced(old.body(s), new.body(s), para as int, runs@, new.font_names@)
            &&& fonts_kept(old, new)
            &&& r is Err ==> new.document.sections@ == old.document.sections@ && new.border_fill_count == old.border_fill_count
        },
        EditOperation::SetParagraphStyle { section, para, style } => native_outcome(
            old,
            new,
            old.para_ok(section as int, para as int),
            body_para_formatted(old, new, section as int, para as int, para_native_members(style)),
            r,
        ),
        EditOperation::DeleteRange { section, para_start, char_start, para_end, char_end } => {
            let s = section as int;
            native_outcome(old, new,
                s < old.section_count() && delete_range_ok(old.body(s), para_start as int, char_start as int, para_end as int, char_end as int),
                body_changed(old, new, s) && delete_range_post(old.body(s), new.body(s), para_start as int, char_start as int, para_end as int, char_end as int),
                r)
        },
        EditOperation::InsertParagraph { section, after_para, count, style } => {
            let s = section as int;
            let a = after_para as int;
            let room = s < old.section_count() && a <= old.body(s).len();
            if count == 0 {
                r is Ok && new == old
            } else {
                &&& r is Ok <==> room
                &&& r is Ok ==> paragraphs_inserted(old, new, s, a, count as int, style_members(style))
                &&& r is Err ==> unchanged(old, new)
            }
        },
        EditOperation::DeleteElement { section, para, element_type } => {
            let s = section as int;
            let p = para as int;
            match element_type {
                ElementType::Paragraph => native_outcome(old, new, old.para_ok(s, p),
                    body_changed(old, new, s) && new.body(s) == old.body(s).remove(p), r),
                ElementType::Table => native_outcome(
                    old,
                    new,
                    old.para_ok(s, p) && old.body(s)[p].controls@.len() > 0 && old.body(s)[p].controls@[0] is Table,
                    body_changed(old, new, s)
                        && new.body(s).len() == old.body(s).len()
                        && (forall|j: int| 0 <= j < old.body(s).len() && j != p ==> new.body(s)[j] == old.body(s)[j])
                        && new.body(s)[p].controls@ == old.body(s)[p].controls@.remove(0)
                        && new.body(s)[p].text == old.body(s)[p].text,
                    r,
                ),
            }
        },
        EditOperation::InsertTable { section, insert_after_para, rows, cols } => {
            let s = section as int;
            let p = insert_after_para as int;
            let ob = old.body(s);
            let nb = new.body(s);
            native_outcome(old, new, rows > 0 && cols > 0,
                body_changed(old, new, s)
                    && nb.len() == ob.len() + 1
                    && nb[p].text@ == ob[p].text@
                    && same_but_text(nb[p], ob[p])
                    && is_table_paragraph(nb[p + 1], rows, cols)
                    && (forall|j: int| 0 <= j < p ==> nb[j] == ob[j])
                    && (forall|j: int| p < j < ob.len() ==> nb[j + 1] == ob[j]),
                r)
        },
        EditOperation::SetCellStyle { section, table_para, row, col, cell_idx, ctrl_idx, style } => {
            &&& match resolved_target(old, section as int, table_para as int, row, col, cell_idx, ctrl_idx) {
                None => r is Err,
                Some((k, ci)) => cell_props_outcome(old, new, section as int, table_para as int, k, ci, cell_native_members(style), r is Ok),
            }
            &&& r is Err ==> unchanged(old, new)
        },
        EditOperation::MergeCells { section, table_para, row_start, col_start, row_end, col_end, ctrl_idx } => {
            let (s, tp) = (section as int, table_para as int);
            &&& match resolved_ctrl(old, s, tp, ctrl_idx) {
                None => r is Err,
                Some(k) => (r is Ok <==> cell_merge_ok(old, s, tp, k, row_start as u16, col_start as u16, row_end as u16, col_end as u16))
                    && (r is Ok ==> cells_merged(old, new, s, tp, k, row_start as u16, col_start as u16, row_end as u16, col_end as u16)),
            }
            &&& r is Err ==> unchanged(old, new)
        },
        EditOperation::ReplaceCellRuns { section, table_para, row, col, cell_idx, ctrl_idx, cell_para, runs } => {
            let (s, tp) = (section as int, table_para as int);
            &&& match resolved_target(old, s, tp, row, col, cell_idx, ctrl_idx) {
                None => r is Err && new == old,
                Some((k, ci)) => {
                    let ok = old.cell_addr_ok(s, tp, k, ci) && cell_para < old.cell_paras(s, tp, k, ci).len();
                    &&& fonts_room(old, runs@.len() as int) ==> (r is Ok <==> ok)
                    &&& r is Ok ==> ok
                        && cell_changed(old, with_fonts(new, old.font_names), s, tp, k, ci)
                        && new.border_fill_count == old.border_fill_count
                        && runs_replaced(old.cell_paras(s, tp, k, ci), new.cell_paras(s, tp, k, ci), cell_para as int, runs@, new.font_names@)
                },
            }
            &&& fonts_kept(old, new)
            &&& r is Err ==> new.document.sections@ == old.document.sections@ && new.border_fill_count == old.border_fill_count
        },
        EditOperation::InsertTextInCell { section, table_para, row, col, cell_idx, ctrl_idx, cell_para, offset, text, style } => {
            let (s, tp) = (section as int, table_para as int);
            &&& match resolved_target(old, s, tp, row, col, cell_idx, ctrl_idx) {
                None => r is Err && new == old,
                Some((k, ci)) => {
                    let ok = old.cell_addr_ok(s, tp, k, ci) && insert_text_ok(old.cell_paras(s, tp, k, ci), cell_para as int, offset as int);
                    &&& (style is None || old.font_names@.len() < i32::MAX) ==> (r is Ok <==> ok)
                    &&& r is Ok ==> ok
                    &&& ok ==> cell_changed(old, with_fonts(new, old.font_names), s, tp, k, ci)
                        && new.border_fill_count == old.border_fill_count
                        && cell_text_inserted(old.cell_paras(s, tp, k, ci), new.cell_paras(s, tp, k, ci), cell_para as int, offset as int, text@, style, new.font_names@, r is Ok)
                    &&& !ok ==> unchanged(old, new)
                },
            }
            &&& fonts_kept(old, new)
        },
        EditOperation::DeleteRangeInCell { section, table_para, row, col, cell_idx, ctrl_idx, cell_para_start, char_start, cell_para_end, char_end } => {
            let (s, tp) = (section as int, table_para as int);
            &&& match resolved_target(old, s, tp, row, col, cell_idx, ctrl_idx) {
                None => r is Err,
                Some((k, ci)) => (r is Ok <==> old.cell_addr_ok(s, tp, k, ci)
                    && delete_range_ok(old.cell_paras(s, tp, k, ci), cell_para_start as int, char_start as int, cell_para_end as int, char_end as int))
                    && (r is Ok ==> cell_changed(old, new, s, tp, k, ci)
                    && new.border_fill_count == old.border_fill_count
                    && delete_range_post(old.cell_paras(s, tp, k, ci), new.cell_paras(s, tp, k, ci),
                        cell_para_start as int, char_start as int, cell_para_end as int, char_end as int)),
            }
            &&& r is Err ==> unchanged(old, new)
        },
        EditOperation::InsertPageBreak { section, para, offset } => {
            let s = section as int;
            native_outcome(old, new, s < old.section_count() && split_ok(old.body(s), para as int, offset as int),
                body_changed(old, new, s) && split_post(old.body(s), new.body(s), para as int, offset as int, ColumnBreakType::Page), r)
        },
        EditOperation::ReplaceCellRunsAtPath { section, path, cell_para, runs } => {
            let s = section as int;
            &&& fonts_room(old, runs@.len() as int) ==> (r is Ok <==> path_para_ok(old, s, path.steps@, cell_para as int))
            &&& r is Ok ==> path_para_ok(old, s, path.steps@, cell_para as int)
                && path_runs_replaced(old, new, s, path.steps@, cell_para as int, runs_text(runs@))
            &&& fonts_kept(old, new)
            &&& new.border_fill_count == old.border_fill_count
            &&& r is Err ==> new.document.sections@ == old.document.sections@ || raw_dropped(old, with_fonts(new, old.font_names), s)
            &&& fonts_room(old, runs@.len() as int) && r is Err ==> fails_with(r, cell_runs_error(old, s, path.steps@, cell_para as int))
        },
        EditOperation::PressEnter { section, para, table_para, row, col, cell_para, ctrl_idx, cell_idx, char_offset, count, page_break, style } => {
            let s = section as int;
            match table_para {
                Some(tp) => if page_break == Some(true) {
                    fails_with(r, msg_cell_page_break()) && new == old
                } else if row is None {
                    fails_with(r, msg_cell_row()) && new == old
                } else if col is None {
                    fails_with(r, msg_cell_col()) && new == old
                } else if cell_para is None {
                    fails_with(r, msg_cell_para()) && new == old
                } else {
                    let cp = cell_para->Some_0 as int;
                    &&& match resolved_target(old, s, tp as int, row->Some_0, col->Some_0, cell_idx, ctrl_idx) {
                        None => r is Err,
                        Some((k, ci)) => {
                            &&& r is Ok <==> old.cell_addr_ok(s, tp as int, k, ci) && cp < old.cell_paras(s, tp as int, k, ci).len()
                            &&& r is Err ==> fails_with(r, cell_enter_error(old, s, tp as int, k, ci, cp))
                            &&& r is Ok && count > 0 ==> cell_entered(old, new, s, tp as int, k, ci, cp,
                                enter_offset(char_offset, old.cell_paras(s, tp as int, k, ci)[cp].text@.len() as int), count as int)
                        },
                    }
                    &&& (r is Ok && count == 0) || r is Err ==> new == old
                },
                None => match para {
                    None => fails_with(r, msg_body_para()) && new == old,
                    Some(p) => {
                        &&& r is Ok <==> old.para_ok(s, p as int)
                        &&& r is Err ==> fails_with(r, body_enter_error(old, s, p as int))
                        &&& r is Ok && count > 0 ==> body_changed(old, new, s)
                            && texts(new.body(s)) == enter_texts(texts(old.body(s)), p as int,
                                enter_offset(char_offset, old.body(s)[p as int].text@.len() as int), count as int)
                            && enter_formatted(new.body(s), p as int, count as int, style_members(style), page_break == Some(true))
                        &&& (r is Ok && count == 0) || r is Err ==> new == old
                    },
                },
            }
        },
    }
}

impl DocumentCore {
    /// Applies an edit operation.
    pub fn apply_edit_op(&mut self, op: &EditOperation) -> (r: Result<(), HwpError>)
        requires
            apply_defined(*old(self), *op),
        ensures
            applied(*old(self), *final(self), *op, r),
    {
        match op {
            EditOperation::InsertText { section, para, offset, text } => self.insert_text_native(*section, *para, *offset, text.as_str()),
            EditOperation::DeleteText { section, para, offset, count, .. } => self.delete_text_native(*section, *para, *offset, *count),
            EditOperation::SplitParagraph { section, para, offset } => self.split_paragraph_native(*section, *para, *offset),
            EditOperation::MergeParagraph { section, para, .. } => self.merge_paragraph_native(*section, *para),
            EditOperation::ReplaceRuns { section, para, runs } => self.replace_runs(*section, *para, runs),
            EditOperation::SetParagraphStyle { section, para, style } => self.set_paragraph_style(*section, *para, style),
            EditOperation::DeleteRange { section, para_start, char_start, para_end, char_end } => self.delete_range_native(
                *section,
                *para_start,
                *char_start,
                *para_end,
                *char_end,
            ),
            EditOperation::InsertParagraph { section, after_para, count, style } => self.apply_insert_paragraph(
                *section,
                *after_para,
                *count,
                style,
            ),
            EditOperation::DeleteElement { section, para, element_type } => match element_type {
                ElementType::Paragraph => self.delete_paragraph_native(*section, *para),
                ElementType::Table => self.delete_table_control_native(*section, *para, 0),
            },
            EditOperation::InsertTable { section, insert_after_para, rows, cols } => {
                let para_len = crate::text_ops::char_len(
                    self.document.sections[*section].paragraphs[*insert_after_para].text.as_str(),
                );
                let r = self.create_table_native(*section, *insert_after_para, para_len, *rows, *cols);
                proof {
                    let t = old(self).body(*section as int)[*insert_after_para as int].text@;
                    assert(t.subrange(0, para_len as int) =~= t);
                }
                r
            },
            EditOperation::SetCellStyle { section, table_para, row, col, cell_idx, ctrl_idx, style } => self.set_cell_style(
                *section,
                *table_para,
                *row,
                *col,
                *cell_idx,
                *ctrl_idx,
                style,
            ),
            EditOperation::MergeCells { section, table_para, row_start, col_start, row_end, col_end, ctrl_idx } => self.merge_cells(
                *section,
                *table_para,
                *row_start,
                *col_start,
                *row_end,
                *col_end,
                *ctrl_idx,
            ),
            EditOperation::ReplaceCellRuns { section, table_para, row, col, cell_idx, ctrl_idx, cell_para, runs } => self.replace_cell_runs(
                *section,
                *table_para,
                *row,
                *col,
                *cell_idx,
                *ctrl_idx,
                *cell_para,
                runs,
            ),
            EditOperation::InsertTextInCell { section, table_para, row, col, cell_idx, ctrl_idx, cell_para, offset, text, style } => self.insert_text_in_cell(
                *section,
                *table_para,
                *row,
                *col,
                *cell_idx,
                *ctrl_idx,
                *cell_para,
                *offset,
                text,
                style,
            ),
            EditOperation::DeleteRangeInCell {
                section,
                table_para,
                row,
                col,
                cell_idx,
                ctrl_idx,
                cell_para_start,
                char_start,
                cell_para_end,
                char_end,
            } => self.delete_range_in_cell(
                *section,
                *table_para,
                *row,
                *col,
                *cell_idx,
                *ctrl_idx,
                *cell_para_start,
                *char_start,
                *cell_para_end,
                *char_end,
            ),
            EditOperation::InsertPageBreak { section, para, offset } => self.insert_page_break_native(*section, *para, *offset),
            EditOperation::ReplaceCellRunsAtPath { section, path, cell_para, runs } => self.replace_cell_runs_at_path_op(
                *section,
                path,
                *cell_para,
                runs,
            ),
            EditOperation::PressEnter {
                section,
                para,
                table_para,
                row,
                col,
                cell_para,
                ctrl_idx,
                cell_idx,
                char_offset,
                count,
                style,
                page_break,
            } => {
                let pb = match page_break {
                    Some(b) => *b,
                    None => false,
                };
                match table_para {
                    Some(tp) => {
                        if pb {
                            return Err(render_error("INVALID_PAYLOAD: 셀 안 page_break 미지원. 셀 모드에서 page_break:true 박지 마세요."));
                        }
                        let row = match row {
                            Some(x) => *x,
                            None => {
                                return Err(render_error("INVALID_PAYLOAD: 셀 모드 row 누락"));
                            },
                        };
                        let col = match col {
                            Some(x) => *x,
                            None => {
                                return Err(render_error("INVALID_PAYLOAD: 셀 모드 col 누락"));
                            },
                        };
                        let cp = match cell_para {
                            Some(x) => *x,
                            None => {
                                return Err(render_error("INVALID_PAYLOAD: 셀 모드 cell_para 누락"));
                            },
                        };
                        self.press_enter_cell(*section, *tp, row, col, cp, *cell_idx, *ctrl_idx, *char_offset, *count)
                    },
                    None => {
                        let p = match para {
                            Some(x) => *x,
                            None => {
                                return Err(render_error("INVALID_PAYLOAD: 본문 모드 para 누락"));
                            },
                        };
                        self.press_enter_body(*section, p, *char_offset, *count, style, pb)
                    },
                }
            },
        }
    }
}

/// The operations that are undone by an inverse operation (the others are undone from a
/// saved snapshot): text insertion and deletion, split and merge.
pub open spec fn invertible(op: EditOperation) -> bool {
    match op {
        EditOperation::InsertText { .. } => true,
        EditOperation::DeleteText { .. } => true,
        EditOperation::SplitParagraph { para, .. } => para + 1 <= usize::MAX,
        EditOperation::MergeParagraph { para, .. } => para >= 1,
        _ => false,
    }
}

/// What undoing `op` on `old` gives: the result `r` and the document `new`.
pub open spec fn inverse_applied(old: DocumentCore, new: DocumentCore, op: EditOperation, r: Result<(), HwpError>) -> bool {
    match op {
        EditOperation::InsertText { section, para, offset, text } => {
            let s = section as int;
            let n = text@.len() as int;
            native_outcome(old, new, s < old.section_count() && delete_text_ok(old.body(s), para as int, offset as int, n),
                body_changed(old, new, s) && delete_text_post(old.body(s), new.body(s), para as int, offset as int, n), r)
        },
        EditOperation::DeleteText { section, para, offset, deleted_text, .. } => {
            let s = section as int;
            native_outcome(old, new, s < old.section_count() && insert_text_ok(old.body(s), para as int, offset as int),
                body_changed(old, new, s) && insert_text_post(old.body(s), new.body(s), para as int, offset as int, deleted_text@), r)
        },
        EditOperation::SplitParagraph { section, para, .. } => {
            let s = section as int;
            native_outcome(old, new, s < old.section_count() && merge_ok(old.body(s), para + 1),
                body_changed(old, new, s) && merge_post(old.body(s), new.body(s), para + 1), r)
        },
        EditOperation::MergeParagraph { section, para, prev_len } => {
            let s = section as int;
            native_outcome(old, new, s < old.section_count() && split_ok(old.body(s), para - 1, prev_len as int),
                body_changed(old, new, s) && split_post(old.body(s), new.body(s), para - 1, prev_len as int, ColumnBreakType::NoBreak), r)
        },
        _ => false,
    }
}

impl DocumentCore {
    /// Undoes an invertible edit operation: an insertion by deleting as many characters, a
    /// deletion by inserting the deleted text back, a split by merging the new paragraph, a
    /// merge by splitting again where the first paragraph ended.
    pub fn apply_inverse_edit_op(&mut self, op: &EditOperation) -> (r: Result<(), HwpError>)
        requires
            invertible(*op),
        ensures
            inverse_applied(*old(self), *final(self), *op, r),
    {
        match op {
            EditOperation::InsertText { section, para, offset, text } => {
                let count = crate::text_ops::char_len(text.as_str());
                self.delete_text_native(*section, *para, *offset, count)
            },
            EditOperation::DeleteText { section, para, offset, deleted_text, .. } => self.insert_text_native(
                *section,
                *para,
                *offset,
                deleted_text.as_str(),
            ),
            EditOperation::SplitParagraph { section, para, .. } => self.merge_paragraph_native(*section, *para + 1),
            EditOperation::MergeParagraph { section, para, prev_len } => self.split_paragraph_native(*section, *para - 1, *prev_len),
            _ => vstd::pervasive::unreached(),
        }
    }
}

/// Applying `ops` in order from `old` stopped after `n` of them succeeded: `st` holds the
/// document before each step.
pub open spec fn ops_prefix_applied(st: Seq<DocumentCore>, ops: Seq<EditOperation>, n: int) -> bool {
    &&& 0 <= n <= ops.len()
    &&& st.len() == n + 1
    &&& forall|i: int| 0 <= i < n ==> apply_defined(#[trigger] st[i], ops[i]) && applied(st[i], st[i + 1], ops[i], Ok(()))
}

/// What applying `ops` in order to `old` gives: all succeed, or the first that cannot be
/// carried out stops the run with an error (the ones before it stay applied).
pub open spec fn ops_applied(old: DocumentCore, new: DocumentCore, ops: Seq<EditOperation>, r: Result<(), HwpError>) -> bool {
    &&& r is Ok ==> exists|st: Seq<DocumentCore>|
        ops_prefix_applied(st, ops, ops.len() as int) && st[0] == old && #[trigger] st[ops.len() as int] == new
    &&& r is Err ==> (exists|st: Seq<DocumentCore>, k: int|
        0 <= k < ops.len() && ops_prefix_applied(st, ops, k) && st[0] == old && #[trigger] st[k] == new
            && !apply_defined(st[k], ops[k]))
        || (exists|st: Seq<DocumentCore>, k: int, e: HwpError|
        0 <= k < ops.len() && ops_prefix_applied(st, ops, k) && st[0] == old && apply_defined(st[k], ops[k])
            && #[trigger] applied(st[k], new, ops[k], Err(e)))
}

impl DocumentCore {
    /// Whether the editor can carry out `op` on this document at all (see `apply_defined`).
    pub fn op_defined(&self, op: &EditOperation) -> (b: bool)
        ensures
            b == apply_defined(*self, *op),
    {
        match op {
            EditOperation::InsertParagraph { after_para, count, .. } => *after_para <= usize::MAX - *count,
            EditOperation::InsertTable { section, insert_after_para, .. } => *section < self.document.sections.len()
                && *insert_after_para < self.document.sections[*section].paragraphs.len(),
            EditOperation::InsertTextInCell { offset, text, .. } => *offset <= usize::MAX - crate::text_ops::char_len(text.as_str()),
            EditOperation::ReplaceCellRunsAtPath { runs, .. } => {
                let t = concat_run_texts(runs);
                crate::cell_path::utf16_len_fits(t.as_str())
            },
            EditOperation::PressEnter { section, para, table_para, row, col, cell_para, ctrl_idx, cell_idx, count, page_break, .. } => {
                match table_para {
                    Some(tp) => {
                        let asked = match page_break {
                            Some(b) => *b,
                            None => false,
                        };
                        if asked || row.is_none() || col.is_none() {
                            return true;
                        }
                        match cell_para {
                            None => true,
                            Some(cp) => *cp < usize::MAX - *count && (ctrl_idx.is_none() || cell_idx.is_none() || (*section
                                < self.document.sections.len() && *tp < self.document.sections[*section].paragraphs.len())),
                        }
                    },
                    None => match para {
                        Some(p) => *p < usize::MAX - *count,
                        None => true,
                    },
                }
            },
            _ => true,
        }
    }

    /// Applies edit operations in order, stopping at the first that fails (or that the
    /// editor cannot carry out on the document as it then is).
    pub fn apply_edit_ops(&mut self, ops: &Vec<EditOperation>) -> (r: Result<(), HwpError>)
        ensures
            ops_applied(*old(self), *final(self), ops@, r),
    {
        let ghost mut st: Seq<DocumentCore> = seq![*self];
        let mut i: usize = 0;
        while i < ops.len()
            invariant
                i <= ops@.len(),
                ops_prefix_applied(st, ops@, i as int),
                st[0] == *old(self),
                st[i as int] == *self,
            decreases ops.len() - i,
        {
            if !self.op_defined(&ops[i]) {
                return Err(render_error("edit operation out of range"));
            }
            let ghost before = *self;
            match self.apply_edit_op(&ops[i]) {
                Ok(()) => {},
                Err(e) => {
                    assert(applied(st[i as int], *self, ops@[i as int], Err(e)));
                    return Err(e);
                },
            }
            proof {
                let st2 = st.push(*self);
                assert forall|j: int| 0 <= j < i + 1 implies apply_defined(#[trigger] st2[j], ops@[j]) && applied(st2[j], st2[j + 1], ops@[j], Ok(())) by {
                    if j < i {
                        assert(st2[j] == st[j] && st2[j + 1] == st[j + 1]);
                    }
                }
                st = st2;
            }
            i += 1;
        }
        Ok(())
    }
}

/// `new` has the same sections as `old` but for section `s`, whose paragraph texts are
/// `ts`.
pub open spec fn texts_are(old: DocumentCore, new: DocumentCore, s: int, ts: Seq<Seq<char>>) -> bool {
    &&& new.document.sections@.len() == old.document.sections@.len()
    &&& forall|j: int| 0 <= j < old.document.sections@.len() && j != s ==> new.document.sections@[j] == old.document.sections@[j]
    &&& texts(new.body(s)) == ts
}

/// Undoing a text insertion gives the text back: after an insertion that succeeded, its
/// inverse succeeds and every paragraph holds its text from before.
pub proof fn law_insert_text_undone(
    c0: DocumentCore,
    c1: DocumentCore,
    c2: DocumentCore,
    section: usize,
    para: usize,
    offset: usize,
    text: String,
    r1: Result<(), HwpError>,
    r2: Result<(), HwpError>,
)
    requires
        applied(c0, c1, EditOperation::InsertText { section, para, offset, text }, r1),
        r1 is Ok,
        inverse_applied(c1, c2, EditOperation::InsertText { section, para, offset, text }, r2),
    ensures
        r2 is Ok,
        texts_are(c0, c2, section as int, texts(c0.body(section as int))),
{
    let s = section as int;
    let t = c0.body(s)[para as int].text@;
    let o = offset as int;
    let u = splice(t, o, o, text@);
    assert(u.len() == t.len() + text@.len());
    assert(splice(u, o, o + text@.len(), Seq::empty()) =~= t);
    assert(texts(c2.body(s)) =~= texts(c0.body(s)));
}

/// Undoing a deletion puts the deleted text back, when the operation recorded the text it
/// deleted.
pub proof fn law_delete_text_undone(
    c0: DocumentCore,
    c1: DocumentCore,
    c2: DocumentCore,
    section: usize,
    para: usize,
    offset: usize,
    count: usize,
    deleted_text: String,
    r1: Result<(), HwpError>,
    r2: Result<(), HwpError>,
)
    requires
        applied(c0, c1, EditOperation::DeleteText { section, para, offset, count, deleted_text }, r1),
        r1 is Ok,
        deleted_text@ == c0.body(section as int)[para as int].text@.subrange(offset as int, offset + count),
        inverse_applied(c1, c2, EditOperation::DeleteText { section, para, offset, count, deleted_text }, r2),
    ensures
        r2 is Ok,
        texts_are(c0, c2, section as int, texts(c0.body(section as int))),
{
    let s = section as int;
    let t = c0.body(s)[para as int].text@;
    let o = offset as int;
    let u = splice(t, o, o + count, Seq::empty());
    assert(u.len() == t.len() - count);
    assert(splice(u, o, o, deleted_text@) =~= t);
    assert(texts(c2.body(s)) =~= texts(c0.body(s)));
}

/// Undoing a split joins the two halves again.
pub proof fn law_split_undone(
    c0: DocumentCore,
    c1: DocumentCore,
    c2: DocumentCore,
    section: usize,
    para: usize,
    offset: usize,
    r1: Result<(), HwpError>,
    r2: Result<(), HwpError>,
)
    requires
        para + 1 <= usize::MAX,
        applied(c0, c1, EditOperation::SplitParagraph { section, para, offset }, r1),
        r1 is Ok,
        inverse_applied(c1, c2, EditOperation::SplitParagraph { section, para, offset }, r2),
    ensures
        r2 is Ok,
        texts_are(c0, c2, section as int, texts(c0.body(section as int))),
{
    let s = section as int;
    let t = c0.body(s)[para as int].text@;
    assert(t.subrange(0, offset as int) + t.subrange(offset as int, t.len() as int) =~= t);
    assert forall|j: int| 0 <= j < c2.body(s).len() implies #[trigger] texts(c2.body(s))[j] == texts(c0.body(s))[j] by {
        if j > para {
            assert(c2.body(s)[j] == c1.body(s)[j + 1]);
            assert(c1.body(s)[j + 1] == c0.body(s)[j]);
        }
    }
    assert(texts(c2.body(s)) =~= texts(c0.body(s)));
}

/// Undoing a merge splits the paragraph again where the first one ended, when the operation
/// recorded that length.
pub proof fn law_merge_undone(
    c0: DocumentCore,
    c1: DocumentCore,
    c2: DocumentCore,
    section: usize,
    para: usize,
    prev_len: usize,
    r1: Result<(), HwpError>,
    r2: Result<(), HwpError>,
)
    requires
        para >= 1,
        applied(c0, c1, EditOperation::MergeParagraph { section, para, prev_len }, r1),
        r1 is Ok,
        prev_len == c0.body(section as int)[para - 1].text@.len(),
        inverse_applied(c1, c2, EditOperation::MergeParagraph { section, para, prev_len }, r2),
    ensures
        r2 is Ok,
        texts_are(c0, c2, section as int, texts(c0.body(section as int))),
{
    let s = section as int;
    let a = c0.body(s)[para - 1].text@;
    let b = c0.body(s)[para as int].text@;
    assert((a + b).subrange(0, prev_len as int) =~= a);
    assert((a + b).subrange(prev_len as int, (a + b).len() as int) =~= b);
    assert forall|j: int| 0 <= j < c2.body(s).len() implies #[trigger] texts(c2.body(s))[j] == texts(c0.body(s))[j] by {
        if j > para {
            assert(c2.body(s)[j] == c1.body(s)[j - 1]);
        }
    }
    assert(texts(c2.body(s)) =~= texts(c0.body(s)));
}

} // verus!
