//! The before/after view of an edit: the patch targets (a cell or a run of paragraphs, as
//! compact JSON), their text lengths, and the summary that tells whether anything changed.
use vstd::prelude::*;
use crate::json::{JsonValue, JsonView, vals, lemma_items_vals, find_key, lemma_find_key_bound, json_get, get_member, json_copy, json_eq};
use crate::ir_compact::PatchSummary;
use crate::edit_op::{AffectedRange, CellFocus};

verus! {

/// `x`, or `usize::MAX` when `x` does not fit.
pub open spec fn sat(x: nat) -> nat {
    if x <= usize::MAX {
        x
    } else {
        usize::MAX as nat
    }
}

/// The number of characters of a string value; 0 for anything else.
pub open spec fn str_len_of(v: Option<JsonView>) -> nat {
    match v {
        Some(JsonView::Str(s)) => s.len(),
        _ => 0,
    }
}

/// The text length of the first `n` runs (their `text` strings).
pub open spec fn runs_text_len(runs: Seq<JsonView>, n: int) -> nat
    decreases n,
{
    if n <= 0 || n > runs.len() {
        0
    } else {
        runs_text_len(runs, n - 1) + str_len_of(json_get(runs[n - 1], "text"@))
    }
}

proof fn lemma_runs_text_len_concat(a: Seq<JsonView>, b: Seq<JsonView>, j: int)
    requires
        0 <= j <= b.len(),
    ensures
        runs_text_len(a + b, a.len() + j) == runs_text_len(a, a.len() as int) + runs_text_len(b, j),
    decreases j,
{
    if j == 0 {
        lemma_runs_text_len_prefix(a, b, a.len() as int);
    } else {
        lemma_runs_text_len_concat(a, b, j - 1);
        assert((a + b)[a.len() + j - 1] == b[j - 1]);
    }
}

proof fn lemma_runs_text_len_prefix(a: Seq<JsonView>, b: Seq<JsonView>, k: int)
    requires
        0 <= k <= a.len(),
    ensures
        runs_text_len(a + b, k) == runs_text_len(a, k),
    decreases k,
{
    if k > 0 {
        lemma_runs_text_len_prefix(a, b, k - 1);
        assert((a + b)[k - 1] == a[k - 1]);
    }
}

/// The text length of runs is additive: the runs `a` followed by the runs `b` count the
/// characters of both, and one run counts the characters of its `text` string.
pub proof fn law_runs_text_len_additive(a: Seq<JsonView>, b: Seq<JsonView>, r: JsonView)
    ensures
        runs_text_len(a + b, (a + b).len() as int) == runs_text_len(a, a.len() as int) + runs_text_len(b, b.len() as int),
        runs_text_len(seq![r], 1) == str_len_of(json_get(r, "text"@)),
{
    lemma_runs_text_len_concat(a, b, b.len() as int);
    assert(runs_text_len(seq![r], 0) == 0);
}

/// The text length of a body paragraph: its `runs`, or else its single `text`.
pub open spec fn body_text_len(p: JsonView) -> nat {
    match json_get(p, "runs"@) {
        Some(JsonView::Array(runs)) => runs_text_len(runs, runs.len() as int),
        _ => str_len_of(json_get(p, "text"@)),
    }
}

/// The text length of a compact paragraph: for a table paragraph (one with a `cells`
/// array) the text of the paragraphs of its cells, otherwise its own text.
pub open spec fn text_len(p: JsonView) -> nat
    decreases p, 0int,
{
    match p {
        JsonView::Object(ms) => match find_key(ms, "cells"@) {
            Some(i) => {
                proof {
                    lemma_find_key_bound(ms, "cells"@);
                }
                match ms[i].1 {
                    JsonView::Array(cells) => {
                        proof {
                            assert(decreases_to!(p => ms));
                            assert(decreases_to!(ms => ms[i]));
                            assert(decreases_to!(ms[i] => ms[i].1));
                            assert(decreases_to!(ms[i].1 => ms[i].1->Array_0));
                        }
                        cells_text_len(cells, cells.len() as int)
                    },
                    _ => body_text_len(p),
                }
            },
            None => body_text_len(p),
        },
        _ => 0,
    }
}

/// The text length of the first `n` cells.
pub open spec fn cells_text_len(cells: Seq<JsonView>, n: int) -> nat
    decreases cells, n,
{
    if n <= 0 || n > cells.len() {
        0
    } else {
        cells_text_len(cells, n - 1) + cell_text_len(cells[n - 1])
    }
}

/// The text length of a cell: that of its `paragraphs` array, 0 without one.
pub open spec fn cell_text_len(c: JsonView) -> nat
    decreases c, 0int,
{
    match c {
        JsonView::Object(cm) => match find_key(cm, "paragraphs"@) {
            Some(i) => {
                proof {
                    lemma_find_key_bound(cm, "paragraphs"@);
                }
                match cm[i].1 {
                    JsonView::Array(ps) => {
                        proof {
                            assert(decreases_to!(c => cm));
                            assert(decreases_to!(cm => cm[i]));
                            assert(decreases_to!(cm[i] => cm[i].1));
                            assert(decreases_to!(cm[i].1 => cm[i].1->Array_0));
                        }
                        paras_text_len(ps, ps.len() as int)
                    },
                    _ => 0,
                }
            },
            None => 0,
        },
        _ => 0,
    }
}

/// The text length of the first `n` paragraphs.
pub open spec fn paras_text_len(ps: Seq<JsonView>, n: int) -> nat
    decreases ps, n,
{
    if n <= 0 || n > ps.len() {
        0
    } else {
        paras_text_len(ps, n - 1) + text_len(ps[n - 1])
    }
}

/// The characters of a string value, 0 for anything else.
fn str_value_len(v: Option<&JsonValue>) -> (r: usize)
    ensures
        r == str_len_of(match v { Some(x) => Some(x@), None => None }),
{
    match v {
        Some(JsonValue::Str(s)) => crate::text_ops::char_len(s.as_str()),
        _ => 0,
    }
}

/// The text length of runs, saturated at `usize::MAX`.
fn runs_len(runs: &Vec<JsonValue>) -> (r: usize)
    ensures
        r == sat(runs_text_len(vals(runs@), runs@.len() as int)),
{
    let mut total: usize = 0;
    let mut i: usize = 0;
    while i < runs.len()
        invariant
            i <= runs@.len(),
            total == sat(runs_text_len(vals(runs@), i as int)),
        decreases runs.len() - i,
    {
        let t = str_value_len(get_member(&runs[i], "text"));
        total = total.saturating_add(t);
        i += 1;
    }
    total
}

/// The text length of a compact paragraph (see `text_len`), saturated at `usize::MAX`.
pub fn paragraph_text_len_recursive(p: &JsonValue) -> (r: usize)
    ensures
        r == sat(text_len(p@)),
    decreases p@, 0int,
{
    let ghost pv = p@;
    match get_member(p, "cells") {
        Some(JsonValue::Array(cells)) => {
            proof {
                let ms = pv->Object_0;
                let i = find_key(ms, "cells"@)->Some_0;
                lemma_find_key_bound(ms, "cells"@);
                lemma_items_vals(cells@);
                assert(ms[i].1 == JsonView::Array(vals(cells@)));
                assert(decreases_to!(pv => ms));
                assert(decreases_to!(ms => ms[i]));
                assert(decreases_to!(ms[i] => ms[i].1));
                assert(decreases_to!(ms[i].1 => ms[i].1->Array_0));
            }
            return cells_len(cells);
        },
        _ => {},
    }
    match get_member(p, "runs") {
        Some(JsonValue::Array(runs)) => {
            proof {
                lemma_items_vals(runs@);
            }
            runs_len(runs)
        },
        _ => str_value_len(get_member(p, "text")),
    }
}

/// The text length of cells (see `cells_text_len`), saturated.
fn cells_len(cells: &Vec<JsonValue>) -> (r: usize)
    ensures
        r == sat(cells_text_len(vals(cells@), cells@.len() as int)),
    decreases vals(cells@), 1int,
{
    let ghost cv = vals(cells@);
    let mut total: usize = 0;
    let mut i: usize = 0;
    while i < cells.len()
        invariant
            i <= cells@.len(),
            cv == vals(cells@),
            total == sat(cells_text_len(cv, i as int)),
        decreases cells.len() - i,
    {
        proof {
            assert(decreases_to!(cv => cv[i as int]));
        }
        let t = cell_len(&cells[i]);
        total = total.saturating_add(t);
        i += 1;
    }
    total
}

/// The text length of a cell (see `cell_text_len`), saturated.
fn cell_len(c: &JsonValue) -> (r: usize)
    ensures
        r == sat(cell_text_len(c@)),
    decreases c@, 0int,
{
    let ghost cv = c@;
    match get_member(c, "paragraphs") {
        Some(JsonValue::Array(ps)) => {
            proof {
                let cm = cv->Object_0;
                let i = find_key(cm, "paragraphs"@)->Some_0;
                lemma_find_key_bound(cm, "paragraphs"@);
                lemma_items_vals(ps@);
                assert(cm[i].1 == JsonView::Array(vals(ps@)));
                assert(decreases_to!(cv => cm));
                assert(decreases_to!(cm => cm[i]));
                assert(decreases_to!(cm[i] => cm[i].1));
                assert(decreases_to!(cm[i].1 => cm[i].1->Array_0));
            }
            paras_len(ps)
        },
        _ => 0,
    }
}

/// The text length of paragraphs (see `paras_text_len`), saturated.
fn paras_len(ps: &Vec<JsonValue>) -> (r: usize)
    ensures
        r == sat(paras_text_len(vals(ps@), ps@.len() as int)),
    decreases vals(ps@), 1int,
{
    let ghost pv = vals(ps@);
    let mut total: usize = 0;
    let mut i: usize = 0;
    while i < ps.len()
        invariant
            i <= ps@.len(),
            pv == vals(ps@),
            total == sat(paras_text_len(pv, i as int)),
        decreases ps.len() - i,
    {
        proof {
            assert(decreases_to!(pv => pv[i as int]));
        }
        let t = paragraph_text_len_recursive(&ps[i]);
        total = total.saturating_add(t);
        i += 1;
    }
    total
}

/// What a patch shows of one side of an edit: the one cell edited, or a run of paragraphs.
#[derive(Debug)]
pub enum PatchTarget {
    Cell { cell: JsonValue },
    Paragraphs { paragraphs: Vec<JsonValue> },
}

/// The JSON a target is sent as: `{"cell": …}` or `{"paragraphs": […]}`.
pub open spec fn target_json(t: PatchTarget) -> JsonView {
    match t {
        PatchTarget::Cell { cell } => JsonView::Object(seq![("cell"@, cell@)]),
        PatchTarget::Paragraphs { paragraphs } => JsonView::Object(
            seq![("paragraphs"@, JsonView::Array(vals(paragraphs@)))],
        ),
    }
}

/// How many paragraphs a target counts: a cell counts as one.
pub open spec fn target_count(t: PatchTarget) -> nat {
    match t {
        PatchTarget::Cell { .. } => 1,
        PatchTarget::Paragraphs { paragraphs } => paragraphs@.len(),
    }
}

/// The text length of a target.
pub open spec fn target_text(t: PatchTarget) -> nat {
    match t {
        PatchTarget::Cell { cell } => cell_text_len(cell@),
        PatchTarget::Paragraphs { paragraphs } => paras_text_len(vals(paragraphs@), paragraphs@.len() as int),
    }
}

/// How many paragraphs a target counts (see `target_count`).
pub fn target_para_count(t: &PatchTarget) -> (r: usize)
    ensures
        r == target_count(*t),
{
    match t {
        PatchTarget::Cell { .. } => 1,
        PatchTarget::Paragraphs { paragraphs } => paragraphs.len(),
    }
}

/// The text length of a target (see `target_text`), saturated at `usize::MAX`.
pub fn target_text_len(t: &PatchTarget) -> (r: usize)
    ensures
        r == sat(target_text(*t)),
{
    match t {
        PatchTarget::Cell { cell } => cell_len(cell),
        PatchTarget::Paragraphs { paragraphs } => paras_len(paragraphs),
    }
}

/// The `cells` of the first paragraph, from the `k`-th on, that has a `cells` array.
pub open spec fn first_cells(ps: Seq<JsonView>, k: int) -> Option<Seq<JsonView>>
    decreases ps.len() - k,
{
    if k < 0 || k >= ps.len() {
        None
    } else {
        match json_get(ps[k], "cells"@) {
            Some(JsonView::Array(c)) => Some(c),
            _ => first_cells(ps, k + 1),
        }
    }
}

/// Cell `idx` of the first table paragraph of a slice, if there is one.
pub open spec fn compact_cell(ps: Seq<JsonView>, idx: Option<usize>) -> Option<JsonView> {
    match idx {
        Some(i) => match first_cells(ps, 0) {
            Some(c) => if i < c.len() {
                Some(c[i as int])
            } else {
                None
            },
            None => None,
        },
        None => None,
    }
}

/// A copy of cell `cell_idx` of the first table paragraph of a slice (see `compact_cell`).
pub fn extract_compact_cell(paragraphs: &Vec<JsonValue>, cell_idx: Option<usize>) -> (r: Option<JsonValue>)
    ensures
        match r {
            Some(c) => compact_cell(vals(paragraphs@), cell_idx) == Some(c@),
            None => compact_cell(vals(paragraphs@), cell_idx) is None,
        },
{
    let idx = match cell_idx {
        Some(i) => i,
        None => return None,
    };
    let ghost pv = vals(paragraphs@);
    let mut k: usize = 0;
    while k < paragraphs.len()
        invariant
            k <= paragraphs@.len(),
            cell_idx == Some(idx),
            pv == vals(paragraphs@),
            first_cells(pv, 0) == first_cells(pv, k as int),
        decreases paragraphs.len() - k,
    {
        match get_member(&paragraphs[k], "cells") {
            Some(JsonValue::Array(cells)) => {
                proof {
                    lemma_items_vals(cells@);
                }
                assert(pv[k as int] == paragraphs@[k as int]@);
                assert(first_cells(pv, k as int) == Some(vals(cells@)));
                if idx < cells.len() {
                    return Some(json_copy(&cells[idx]));
                }
                return None;
            },
            _ => {},
        }
        k += 1;
    }
    None
}

/// `t` is the target of one side of an edit with compact paragraphs `paragraphs` (see
/// `slice_to_target`).
pub open spec fn is_target_of(t: PatchTarget, paragraphs: Vec<JsonValue>, range: AffectedRange) -> bool {
    &&& (match range.cell {
        Some(f) => compact_cell(vals(paragraphs@), f.cell_idx),
        None => None,
    }) matches Some(c) ==> (t matches PatchTarget::Cell { cell } && cell@ == c)
    &&& (match range.cell {
        Some(f) => compact_cell(vals(paragraphs@), f.cell_idx),
        None => None,
    }) is None ==> t == (PatchTarget::Paragraphs { paragraphs })
}

/// The target of one side of an edit from the compact paragraphs of its range: the focused
/// cell when the range has one and the slice holds it, otherwise the paragraphs.
pub fn slice_to_target(paragraphs: Vec<JsonValue>, range: &AffectedRange) -> (t: PatchTarget)
    ensures
        is_target_of(t, paragraphs, *range),
{
    match range.cell {
        Some(focus) => match extract_compact_cell(&paragraphs, focus.cell_idx) {
            Some(cell) => PatchTarget::Cell { cell },
            None => PatchTarget::Paragraphs { paragraphs },
        },
        None => PatchTarget::Paragraphs { paragraphs },
    }
}

/// Whether two targets are sent as the same JSON.
fn targets_equal(a: &PatchTarget, b: &PatchTarget) -> (r: bool)
    ensures
        r == (target_json(*a) == target_json(*b)),
{
    match (a, b) {
        (PatchTarget::Cell { cell: x }, PatchTarget::Cell { cell: y }) => {
            let e = json_eq(x, y);
            if !e {
                assert(target_json(*a)->Object_0[0].1 != target_json(*b)->Object_0[0].1);
            }
            e
        },
        (PatchTarget::Paragraphs { paragraphs: x }, PatchTarget::Paragraphs { paragraphs: y }) => {
            if x.len() != y.len() {
                assert(vals(x@).len() != vals(y@).len());
                assert(target_json(*a)->Object_0[0].1 != target_json(*b)->Object_0[0].1);
                return false;
            }
            let mut i: usize = 0;
            while i < x.len()
                invariant
                    i <= x@.len(),
                    x@.len() == y@.len(),
                    target_json(*a)->Object_0[0].1 == JsonView::Array(vals(x@)),
                    target_json(*b)->Object_0[0].1 == JsonView::Array(vals(y@)),
                    forall|j: int| 0 <= j < i ==> x@[j]@ == y@[j]@,
                decreases x.len() - i,
            {
                if !json_eq(&x[i], &y[i]) {
                    assert(vals(x@)[i as int] != vals(y@)[i as int]);
                    assert(target_json(*a)->Object_0[0].1 != target_json(*b)->Object_0[0].1);
                    return false;
                }
                i += 1;
            }
            assert(vals(x@) =~= vals(y@));
            true
        },
        (PatchTarget::Cell { .. }, PatchTarget::Paragraphs { .. }) => {
            proof {
                reveal_strlit("cell");
                reveal_strlit("paragraphs");
                assert("cell"@.len() != "paragraphs"@.len());
                assert(target_json(*a)->Object_0[0].0 != target_json(*b)->Object_0[0].0);
            }
            false
        },
        (PatchTarget::Paragraphs { .. }, PatchTarget::Cell { .. }) => {
            proof {
                reveal_strlit("cell");
                reveal_strlit("paragraphs");
                assert("cell"@.len() != "paragraphs"@.len());
                assert(target_json(*a)->Object_0[0].0 != target_json(*b)->Object_0[0].0);
            }
            false
        },
    }
}

/// Where an edit happened: its section, the paragraph ranges before and after, the cell.
#[derive(Debug)]
pub struct PatchLocation {
    pub section: usize,
    pub para_start_before: usize,
    pub para_end_before: usize,
    pub para_start_after: usize,
    pub para_end_after: usize,
    pub cell: Option<CellFocus>,
}

/// The before/after view of one edit.
#[derive(Debug)]
pub struct PatchDiff {
    pub op: String,
    pub location: PatchLocation,
    pub before: PatchTarget,
    pub after: PatchTarget,
    pub summary: PatchSummary,
}

/// The warning a summary carries when an edit changed nothing.
pub open spec fn no_change_warning_text() -> Seq<char> {
    "before/after 동일 — payload 의 style 키가 schema (Partial*Style) 와 일치하는지 확인. 오타·미지원 키는 deny_unknown_fields 로 400 반환되어야 하지만, 값이 같거나 좌표가 유효 범위를 벗어나도 no-op 가 될 수 있음."@
}

/// Puts together the view of an edit `op_tag` over `range` from its two targets: the
/// location copies the range; the summary says whether the targets differ as JSON, counts
/// their paragraphs and text, and warns when nothing changed.
pub fn build_patch_diff(op_tag: &str, range: &AffectedRange, before: PatchTarget, after: PatchTarget) -> (d: PatchDiff)
    ensures
        d.op@ == op_tag@,
        d.location.section == range.section,
        d.location.para_start_before == range.before.start,
        d.location.para_end_before == range.before.end,
        d.location.para_start_after == range.after.start,
        d.location.para_end_after == range.after.end,
        d.location.cell == range.cell,
        d.before == before,
        d.after == after,
        d.summary.changed == (target_json(before) != target_json(after)),
        d.summary.before_para_count == target_count(before),
        d.summary.after_para_count == target_count(after),
        d.summary.before_text_len == sat(target_text(before)),
        d.summary.after_text_len == sat(target_text(after)),
        d.summary.changed ==> d.summary.no_change_warning is None,
        !d.summary.changed ==> (d.summary.no_change_warning matches Some(w) && w@ == no_change_warning_text()),
{
    let before_para_count = target_para_count(&before);
    let after_para_count = target_para_count(&after);
    let before_text_len = target_text_len(&before);
    let after_text_len = target_text_len(&after);
    let changed = !targets_equal(&before, &after);
    let no_change_warning = if !changed {
        Some(
            String::from_str(
                "before/after 동일 — payload 의 style 키가 schema (Partial*Style) 와 일치하는지 확인. 오타·미지원 키는 deny_unknown_fields 로 400 반환되어야 하지만, 값이 같거나 좌표가 유효 범위를 벗어나도 no-op 가 될 수 있음.",
            ),
        )
    } else {
        None
    };
    PatchDiff {
        op: String::from_str(op_tag),
        location: PatchLocation {
            section: range.section,
            para_start_before: range.before.start,
            para_end_before: range.before.end,
            para_start_after: range.after.start,
            para_end_after: range.after.end,
            cell: range.cell,
        },
        before,
        after,
        summary: PatchSummary {
            changed,
            before_para_count,
            after_para_count,
            before_text_len,
            after_text_len,
            no_change_warning,
        },
    }
}

} // verus!
