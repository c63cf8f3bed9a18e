//! Editing a list of paragraphs (a section body or the inside of a cell).
use vstd::prelude::*;
use crate::error::{HwpError, render_error};
use crate::model::{Paragraph, ColumnBreakType, CharFormat, same_but_text, char_formats_view};
use crate::json::JsonView;
use crate::text_ops::{splice, splice_string, substring, concat_str, char_len};

verus! {

/// Only paragraph `para` changed, and only in its text, which is now `t`.
pub open spec fn text_set(old_ps: Seq<Paragraph>, new_ps: Seq<Paragraph>, para: int, t: Seq<char>) -> bool {
    &&& new_ps.len() == old_ps.len()
    &&& new_ps[para].text@ == t
    &&& same_but_text(new_ps[para], old_ps[para])
    &&& forall|j: int| 0 <= j < old_ps.len() && j != para ==> new_ps[j] == old_ps[j]
}

/// Paragraph `para` holds `t` with the character formats `fs` (and no others); nothing else
/// changed.
pub open spec fn runs_set(
    old_ps: Seq<Paragraph>,
    new_ps: Seq<Paragraph>,
    para: int,
    t: Seq<char>,
    fs: Seq<(int, int, Seq<(Seq<char>, JsonView)>)>,
) -> bool {
    &&& new_ps.len() == old_ps.len()
    &&& new_ps[para].text@ == t
    &&& char_formats_view(new_ps[para].char_format@) == fs
    &&& (Paragraph { text: new_ps[para].text, char_format: new_ps[para].char_format, ..old_ps[para] }) == new_ps[para]
    &&& forall|j: int| 0 <= j < old_ps.len() && j != para ==> new_ps[j] == old_ps[j]
}

/// The character format `f` was added after those of paragraph `para`; nothing else changed.
pub open spec fn char_format_added(
    old_ps: Seq<Paragraph>,
    new_ps: Seq<Paragraph>,
    para: int,
    f: (int, int, Seq<(Seq<char>, JsonView)>),
) -> bool {
    &&& new_ps.len() == old_ps.len()
    &&& char_formats_view(new_ps[para].char_format@) == char_formats_view(old_ps[para].char_format@).push(f)
    &&& (Paragraph { char_format: new_ps[para].char_format, ..old_ps[para] }) == new_ps[para]
    &&& forall|j: int| 0 <= j < old_ps.len() && j != para ==> new_ps[j] == old_ps[j]
}

pub open spec fn insert_text_ok(ps: Seq<Paragraph>, para: int, offset: int) -> bool {
    0 <= para < ps.len() && 0 <= offset <= ps[para].text@.len()
}

pub open spec fn insert_text_post(old_ps: Seq<Paragraph>, new_ps: Seq<Paragraph>, para: int, offset: int, text: Seq<char>) -> bool {
    text_set(old_ps, new_ps, para, splice(old_ps[para].text@, offset, offset, text))
}

pub open spec fn delete_text_ok(ps: Seq<Paragraph>, para: int, offset: int, count: int) -> bool {
    0 <= para < ps.len() && 0 <= offset && 0 <= count && offset + count <= ps[para].text@.len()
}

pub open spec fn delete_text_post(old_ps: Seq<Paragraph>, new_ps: Seq<Paragraph>, para: int, offset: int, count: int) -> bool {
    text_set(old_ps, new_ps, para, splice(old_ps[para].text@, offset, offset + count, Seq::empty()))
}

pub open spec fn split_ok(ps: Seq<Paragraph>, para: int, offset: int) -> bool {
    0 <= para < ps.len() && 0 <= offset <= ps[para].text@.len()
}

pub open spec fn split_post(old_ps: Seq<Paragraph>, new_ps: Seq<Paragraph>, para: int, offset: int, column_type: ColumnBreakType) -> bool {
    let t = old_ps[para].text@;
    &&& new_ps.len() == old_ps.len() + 1
    &&& new_ps[para].text@ == t.subrange(0, offset)
    &&& same_but_text(new_ps[para], old_ps[para])
    &&& new_ps[para + 1].text@ == t.subrange(offset, t.len() as int)
    &&& new_ps[para + 1].para_shape_id == old_ps[para].para_shape_id
    &&& new_ps[para + 1].style_id == old_ps[para].style_id
    &&& new_ps[para + 1].column_type == column_type
    &&& new_ps[para + 1].controls@.len() == 0
    &&& new_ps[para + 1].format@.len() == 0
    &&& forall|j: int| 0 <= j < para ==> new_ps[j] == old_ps[j]
    &&& forall|j: int| para < j < old_ps.len() ==> new_ps[j + 1] == old_ps[j]
}

pub open spec fn merge_ok(ps: Seq<Paragraph>, para: int) -> bool {
    0 < para < ps.len()
}

pub open spec fn merge_post(old_ps: Seq<Paragraph>, new_ps: Seq<Paragraph>, para: int) -> bool {
    &&& new_ps.len() == old_ps.len() - 1
    &&& new_ps[para - 1].text@ == old_ps[para - 1].text@ + old_ps[para].text@
    &&& new_ps[para - 1].controls@ == old_ps[para - 1].controls@ + old_ps[para].controls@
    &&& new_ps[para - 1].para_shape_id == old_ps[para - 1].para_shape_id
    &&& new_ps[para - 1].style_id == old_ps[para - 1].style_id
    &&& new_ps[para - 1].column_type == old_ps[para - 1].column_type
    &&& forall|j: int| 0 <= j < para - 1 ==> new_ps[j] == old_ps[j]
    &&& forall|j: int| para <= j < new_ps.len() ==> new_ps[j] == old_ps[j + 1]
}

/// A paragraph as a fresh empty one is made: no text, shapes, runs, layout or controls,
/// the default shape and style, and no break.
pub open spec fn blank_but_format(p: Paragraph) -> bool {
    &&& p.text@.len() == 0
    &&& p.char_count == 0
    &&& p.para_shape_id == 0
    &&& p.style_id == 0
    &&& p.char_shapes@.len() == 0
    &&& p.char_offsets@.len() == 0
    &&& p.line_segs@.len() == 0
    &&& p.controls@.len() == 0
    &&& p.column_type == ColumnBreakType::NoBreak
    &&& p.char_format@.len() == 0
}

/// A fresh empty paragraph with no formatting.
pub open spec fn blank_paragraph(p: Paragraph) -> bool {
    blank_but_format(p) && p.format@.len() == 0
}

pub open spec fn insert_paragraph_post(old_ps: Seq<Paragraph>, new_ps: Seq<Paragraph>, at: int) -> bool {
    &&& new_ps.len() == old_ps.len() + 1
    &&& blank_paragraph(new_ps[at])
    &&& forall|j: int| 0 <= j < at ==> new_ps[j] == old_ps[j]
    &&& forall|j: int| at <= j < old_ps.len() ==> new_ps[j + 1] == old_ps[j]
}

pub open spec fn delete_range_ok(ps: Seq<Paragraph>, ps_: int, cs: int, pe: int, ce: int) -> bool {
    &&& 0 <= ps_ <= pe < ps.len()
    &&& 0 <= cs <= ps[ps_].text@.len()
    &&& 0 <= ce <= ps[pe].text@.len()
    &&& (ps_ < pe || cs <= ce)
}

/// The range from `(ps_, cs)` to `(pe, ce)` is gone: paragraph `ps_` keeps its head and takes
/// the tail of paragraph `pe`; the paragraphs in between and `pe` itself are removed.
pub open spec fn delete_range_post(old_ps: Seq<Paragraph>, new_ps: Seq<Paragraph>, ps_: int, cs: int, pe: int, ce: int) -> bool {
    let te = old_ps[pe].text@;
    &&& new_ps.len() == old_ps.len() - (pe - ps_)
    &&& new_ps[ps_].text@ == old_ps[ps_].text@.subrange(0, cs) + te.subrange(ce, te.len() as int)
    &&& same_but_text(new_ps[ps_], old_ps[ps_])
    &&& forall|j: int| 0 <= j < ps_ ==> new_ps[j] == old_ps[j]
    &&& forall|j: int| ps_ < j < new_ps.len() ==> new_ps[j] == old_ps[j + (pe - ps_)]
}

/// Inserts `text` at character `offset` of paragraph `para`.
pub fn insert_text(ps: &mut Vec<Paragraph>, para: usize, offset: usize, text: &str) -> (r: Result<(), HwpError>)
    ensures
        r is Ok <==> insert_text_ok(old(ps)@, para as int, offset as int),
        r is Ok ==> insert_text_post(old(ps)@, final(ps)@, para as int, offset as int, text@),
        r is Err ==> *final(ps) == *old(ps),
{
    if para >= ps.len() {
        return Err(render_error("insert_text: paragraph out of range"));
    }
    let len = char_len(ps[para].text.as_str());
    if offset > len {
        return Err(render_error("insert_text: offset out of range"));
    }
    let t = splice_string(ps[para].text.as_str(), offset, offset, text);
    ps[para].text = t;
    Ok(())
}

/// Deletes `count` characters of paragraph `para` from character `offset` on.
pub fn delete_text(ps: &mut Vec<Paragraph>, para: usize, offset: usize, count: usize) -> (r: Result<(), HwpError>)
    ensures
        r is Ok <==> delete_text_ok(old(ps)@, para as int, offset as int, count as int),
        r is Ok ==> delete_text_post(old(ps)@, final(ps)@, para as int, offset as int, count as int),
        r is Err ==> *final(ps) == *old(ps),
{
    if para >= ps.len() {
        return Err(render_error("delete_text: paragraph out of range"));
    }
    let len = char_len(ps[para].text.as_str());
    if offset > len || count > len - offset {
        return Err(render_error("delete_text: range out of bounds"));
    }
    proof {
        reveal_strlit("");
    }
    let t = splice_string(ps[para].text.as_str(), offset, offset + count, "");
    ps[para].text = t;
    Ok(())
}

/// Splits paragraph `para` at character `offset`: the tail becomes a new paragraph `para + 1`
/// of the same paragraph shape and style, starting with `column_type`.
pub fn split_paragraph(ps: &mut Vec<Paragraph>, para: usize, offset: usize, column_type: ColumnBreakType) -> (r: Result<(), HwpError>)
    ensures
        r is Ok <==> split_ok(old(ps)@, para as int, offset as int),
        r is Ok ==> split_post(old(ps)@, final(ps)@, para as int, offset as int, column_type),
        r is Err ==> *final(ps) == *old(ps),
{
    if para >= ps.len() {
        return Err(render_error("split_paragraph: paragraph out of range"));
    }
    let len = char_len(ps[para].text.as_str());
    if offset > len {
        return Err(render_error("split_paragraph: offset out of range"));
    }
    let head = substring(ps[para].text.as_str(), 0, offset);
    let tail = substring(ps[para].text.as_str(), offset, len);
    let mut np = Paragraph::with_text(tail);
    np.para_shape_id = ps[para].para_shape_id;
    np.style_id = ps[para].style_id;
    np.column_type = column_type;
    ps[para].text = head;
    ps.insert(para + 1, np);
    Ok(())
}

/// Merges paragraph `para` into the paragraph before it: the texts are joined and the
/// controls of `para` move to the end of the previous paragraph's controls.
pub fn merge_paragraph(ps: &mut Vec<Paragraph>, para: usize) -> (r: Result<(), HwpError>)
    ensures
        r is Ok <==> merge_ok(old(ps)@, para as int),
        r is Ok ==> merge_post(old(ps)@, final(ps)@, para as int),
        r is Err ==> *final(ps) == *old(ps),
{
    if para == 0 || para >= ps.len() {
        return Err(render_error("merge_paragraph: no previous paragraph"));
    }
    let mut p = ps.remove(para);
    let joined = concat_str(ps[para - 1].text.as_str(), p.text.as_str());
    ps[para - 1].text = joined;
    ps[para - 1].controls.append(&mut p.controls);
    Ok(())
}

/// Inserts an empty paragraph at index `at` (the paragraph there moves down).
pub fn insert_paragraph(ps: &mut Vec<Paragraph>, at: usize) -> (r: Result<(), HwpError>)
    ensures
        r is Ok <==> at <= old(ps)@.len(),
        r is Ok ==> insert_paragraph_post(old(ps)@, final(ps)@, at as int),
        r is Err ==> *final(ps) == *old(ps),
{
    if at > ps.len() {
        return Err(render_error("insert_paragraph: index out of range"));
    }
    ps.insert(at, Paragraph::with_text(String::new()));
    Ok(())
}

/// Removes paragraph `para`.
pub fn delete_paragraph(ps: &mut Vec<Paragraph>, para: usize) -> (r: Result<(), HwpError>)
    ensures
        r is Ok <==> para < old(ps)@.len(),
        r is Ok ==> final(ps)@ == old(ps)@.remove(para as int),
        r is Err ==> *final(ps) == *old(ps),
{
    if para >= ps.len() {
        return Err(render_error("delete_paragraph: paragraph out of range"));
    }
    let _ = ps.remove(para);
    Ok(())
}

/// Sets the text of paragraph `para` to `text`.
pub fn set_text(ps: &mut Vec<Paragraph>, para: usize, text: String) -> (r: Result<(), HwpError>)
    ensures
        r is Ok <==> para < old(ps)@.len(),
        r is Ok ==> text_set(old(ps)@, final(ps)@, para as int, text@),
        r is Err ==> *final(ps) == *old(ps),
{
    if para >= ps.len() {
        return Err(render_error("set_text: paragraph out of range"));
    }
    ps[para].text = text;
    Ok(())
}

/// Gives paragraph `para` the text `text` and the character formats `formats`.
pub fn set_runs(ps: &mut Vec<Paragraph>, para: usize, text: String, formats: Vec<CharFormat>) -> (r: Result<(), HwpError>)
    ensures
        r is Ok <==> para < old(ps)@.len(),
        r is Ok ==> runs_set(old(ps)@, final(ps)@, para as int, text@, char_formats_view(formats@)),
        r is Err ==> *final(ps) == *old(ps),
{
    if para >= ps.len() {
        return Err(render_error("set_runs: paragraph out of range"));
    }
    ps[para].text = text;
    ps[para].char_format = formats;
    Ok(())
}

/// Adds the character format `f` to paragraph `para`.
pub fn add_char_format(ps: &mut Vec<Paragraph>, para: usize, f: CharFormat) -> (r: Result<(), HwpError>)
    ensures
        r is Ok <==> para < old(ps)@.len(),
        r is Ok ==> char_format_added(old(ps)@, final(ps)@, para as int, (f.start as int, f.end as int, crate::json::object_view(f.style@))),
        r is Err ==> *final(ps) == *old(ps),
{
    if para >= ps.len() {
        return Err(render_error("add_char_format: paragraph out of range"));
    }
    let ghost before = ps[para as int].char_format@;
    let ghost fv = (f.start as int, f.end as int, crate::json::object_view(f.style@));
    ps[para].char_format.push(f);
    assert(char_formats_view(ps[para as int].char_format@) =~= char_formats_view(before).push(fv));
    Ok(())
}

/// Deletes the text from `(ps_, cs)` up to `(pe, ce)`, across paragraphs.
pub fn delete_range(ps: &mut Vec<Paragraph>, ps_: usize, cs: usize, pe: usize, ce: usize) -> (r: Result<(), HwpError>)
    ensures
        r is Ok <==> delete_range_ok(old(ps)@, ps_ as int, cs as int, pe as int, ce as int),
        r is Ok ==> delete_range_post(old(ps)@, final(ps)@, ps_ as int, cs as int, pe as int, ce as int),
        r is Err ==> *final(ps) == *old(ps),
{
    if ps_ > pe || pe >= ps.len() {
        return Err(render_error("delete_range: paragraph range out of bounds"));
    }
    let ls = char_len(ps[ps_].text.as_str());
    let le = char_len(ps[pe].text.as_str());
    if cs > ls || ce > le || (ps_ == pe && cs > ce) {
        return Err(render_error("delete_range: character range out of bounds"));
    }
    let head = substring(ps[ps_].text.as_str(), 0, cs);
    let tail = substring(ps[pe].text.as_str(), ce, le);
    let joined = concat_str(head.as_str(), tail.as_str());
    let ghost old_ps = ps@;
    let n = pe - ps_;
    let mut k: usize = 0;
    while k < n
        invariant
            k <= n == pe - ps_,
            ps_ <= pe < old_ps.len(),
            ps@ =~= old_ps.subrange(0, ps_ + 1) + old_ps.subrange(ps_ + 1 + k, old_ps.len() as int),
        decreases n - k,
    {
        let _ = ps.remove(ps_ + 1);
        k += 1;
    }
    ps[ps_].text = joined;
    Ok(())
}

/// Whether `insert_text` can apply.
pub fn check_insert_text(ps: &Vec<Paragraph>, para: usize, offset: usize) -> (b: bool)
    ensures
        b == insert_text_ok(ps@, para as int, offset as int),
{
    para < ps.len() && offset <= char_len(ps[para].text.as_str())
}

/// Whether `split_paragraph` can apply.
pub fn check_split(ps: &Vec<Paragraph>, para: usize, offset: usize) -> (b: bool)
    ensures
        b == split_ok(ps@, para as int, offset as int),
{
    para < ps.len() && offset <= char_len(ps[para].text.as_str())
}

/// Whether `delete_range` can apply.
pub fn check_delete_range(ps: &Vec<Paragraph>, ps_: usize, cs: usize, pe: usize, ce: usize) -> (b: bool)
    ensures
        b == delete_range_ok(ps@, ps_ as int, cs as int, pe as int, ce as int),
{
    if ps_ > pe || pe >= ps.len() {
        return false;
    }
    let ls = char_len(ps[ps_].text.as_str());
    let le = char_len(ps[pe].text.as_str());
    !(cs > ls || ce > le || (ps_ == pe && cs > ce))
}

} // verus!
