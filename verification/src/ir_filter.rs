//! Filters on compact IR paragraphs (JSON values): how much style a response keeps
//! (`StyleLevel`) and how much of each table (`TableLevel`).
//!
//! Objects are filtered member by member: every member named `style` (or `cells`, ...) is
//! treated, which for objects with distinct keys is the member of that name.
use vstd::prelude::*;
use crate::json::{
    JsonValue, JsonMember, JsonView, object_view, vals, lemma_items_vals, lemma_members_view, lemma_object_view_push,
    str_eq, find_key, lemma_find_key_bound, json_get,
};
use crate::ir_compact::{StyleLevel, TableLevel};

verus! {

/// The style keys the essential level keeps, of a paragraph (`para`) or of a run.
pub open spec fn essential_key(para: bool, k: Seq<char>) -> bool {
    if para {
        k == "align"@ || k == "indent"@ || k == "line-height"@
    } else {
        k == "bold"@ || k == "italic"@ || k == "color"@ || k == "highlight"@ || k == "font-size"@
            || k == "font-name"@
    }
}

/// Of the first `n` members, those whose keys the essential level keeps.
pub open spec fn essential_members(ms: Seq<(Seq<char>, JsonView)>, para: bool, n: int) -> Seq<(Seq<char>, JsonView)>
    decreases n,
{
    if n <= 0 || n > ms.len() {
        Seq::empty()
    } else {
        let prev = essential_members(ms, para, n - 1);
        if essential_key(para, ms[n - 1].0) {
            prev.push(ms[n - 1])
        } else {
            prev
        }
    }
}

/// What a style level makes of the value of a `style` member; `None` drops the member.
/// The essential level keeps the whitelisted keys of an object and drops it when none is left.
pub open spec fn styled(v: JsonView, level: StyleLevel, para: bool) -> Option<JsonView> {
    match level {
        StyleLevel::Full => Some(v),
        StyleLevel::NoStyle => None,
        StyleLevel::Essential => match v {
            JsonView::Object(st) => {
                let kept = essential_members(st, para, st.len() as int);
                if kept.len() == 0 {
                    None
                } else {
                    Some(JsonView::Object(kept))
                }
            },
            _ => Some(v),
        },
    }
}

/// The first `n` members of an object with each `style` member filtered.
pub open spec fn style_members(ms: Seq<(Seq<char>, JsonView)>, level: StyleLevel, para: bool, n: int) -> Seq<(Seq<char>, JsonView)>
    decreases n,
{
    if n <= 0 || n > ms.len() {
        Seq::empty()
    } else {
        let prev = style_members(ms, level, para, n - 1);
        let m = ms[n - 1];
        if m.0 == "style"@ {
            match styled(m.1, level, para) {
                Some(v) => prev.push((m.0, v)),
                None => prev,
            }
        } else {
            prev.push(m)
        }
    }
}

/// A run under a style level: its `style` filtered with the run whitelist.
pub open spec fn run_filtered(r: JsonView, level: StyleLevel) -> JsonView {
    match r {
        JsonView::Object(ms) => JsonView::Object(style_members(ms, level, false, ms.len() as int)),
        _ => r,
    }
}

/// Runs under a style level.
pub open spec fn runs_filtered(items: Seq<JsonView>, level: StyleLevel) -> Seq<JsonView> {
    Seq::new(items.len(), |j: int| run_filtered(items[j], level))
}

/// A paragraph under a style level: its `style`, the styles of its `runs`, and, for a
/// table paragraph, the style of each of its `cells` and the paragraphs inside them.
pub open spec fn para_filtered(v: JsonView, level: StyleLevel) -> JsonView
    decreases v, 0int,
{
    match v {
        JsonView::Object(ms) => JsonView::Object(para_members(ms, level, ms.len() as int)),
        _ => v,
    }
}

/// The first `n` members of a paragraph under a style level.
pub open spec fn para_members(ms: Seq<(Seq<char>, JsonView)>, level: StyleLevel, n: int) -> Seq<(Seq<char>, JsonView)>
    decreases ms, n,
{
    if n <= 0 || n > ms.len() {
        Seq::empty()
    } else {
        let prev = para_members(ms, level, n - 1);
        let m = ms[n - 1];
        if m.0 == "style"@ {
            match styled(m.1, level, true) {
                Some(v) => prev.push((m.0, v)),
                None => prev,
            }
        } else if m.0 == "runs"@ {
            match m.1 {
                JsonView::Array(items) => prev.push((m.0, JsonView::Array(runs_filtered(items, level)))),
                _ => prev.push(m),
            }
        } else if m.0 == "cells"@ {
            match m.1 {
                JsonView::Array(cells) => {
                    proof {
                        assert(decreases_to!(ms => ms[n - 1]));
                        assert(decreases_to!(ms[n - 1] => ms[n - 1].1));
                        assert(decreases_to!(ms[n - 1].1 => ms[n - 1].1->Array_0));
                    }
                    prev.push((m.0, JsonView::Array(cells_filtered(cells, level, cells.len() as int))))
                },
                _ => prev.push(m),
            }
        } else {
            prev.push(m)
        }
    }
}

/// The first `n` cells of a table paragraph under a style level.
pub open spec fn cells_filtered(cells: Seq<JsonView>, level: StyleLevel, n: int) -> Seq<JsonView>
    decreases cells, n,
{
    if n <= 0 || n > cells.len() {
        Seq::empty()
    } else {
        cells_filtered(cells, level, n - 1).push(cell_filtered(cells[n - 1], level))
    }
}

/// A cell under a style level: no style at all drops its `style` (the other levels keep a
/// cell's style whole); the paragraphs inside it are filtered.
pub open spec fn cell_filtered(c: JsonView, level: StyleLevel) -> JsonView
    decreases c, 0int,
{
    match c {
        JsonView::Object(cm) => JsonView::Object(cell_members(cm, level, cm.len() as int)),
        _ => c,
    }
}

/// The first `n` members of a cell under a style level.
pub open spec fn cell_members(cm: Seq<(Seq<char>, JsonView)>, level: StyleLevel, n: int) -> Seq<(Seq<char>, JsonView)>
    decreases cm, n,
{
    if n <= 0 || n > cm.len() {
        Seq::empty()
    } else {
        let prev = cell_members(cm, level, n - 1);
        let m = cm[n - 1];
        if m.0 == "style"@ {
            if level == StyleLevel::NoStyle {
                prev
            } else {
                prev.push(m)
            }
        } else if m.0 == "paragraphs"@ {
            match m.1 {
                JsonView::Array(ps) => {
                    proof {
                        assert(decreases_to!(cm => cm[n - 1]));
                        assert(decreases_to!(cm[n - 1] => cm[n - 1].1));
                        assert(decreases_to!(cm[n - 1].1 => cm[n - 1].1->Array_0));
                    }
                    prev.push((m.0, JsonView::Array(paras_filtered(ps, level, ps.len() as int))))
                },
                _ => prev.push(m),
            }
        } else {
            prev.push(m)
        }
    }
}

/// The first `n` paragraphs of a cell under a style level.
pub open spec fn paras_filtered(ps: Seq<JsonView>, level: StyleLevel, n: int) -> Seq<JsonView>
    decreases ps, n,
{
    if n <= 0 || n > ps.len() {
        Seq::empty()
    } else {
        paras_filtered(ps, level, n - 1).push(para_filtered(ps[n - 1], level))
    }
}

proof fn lemma_cells_filtered(cells: Seq<JsonView>, level: StyleLevel, n: int)
    requires
        0 <= n <= cells.len(),
    ensures
        cells_filtered(cells, level, n).len() == n,
        forall|j: int| 0 <= j < n ==> #[trigger] cells_filtered(cells, level, n)[j] == cell_filtered(cells[j], level),
    decreases n,
{
    if n > 0 {
        lemma_cells_filtered(cells, level, n - 1);
    }
}

proof fn lemma_paras_filtered(ps: Seq<JsonView>, level: StyleLevel, n: int)
    requires
        0 <= n <= ps.len(),
    ensures
        paras_filtered(ps, level, n).len() == n,
        forall|j: int| 0 <= j < n ==> #[trigger] paras_filtered(ps, level, n)[j] == para_filtered(ps[j], level),
    decreases n,
{
    if n > 0 {
        lemma_paras_filtered(ps, level, n - 1);
    }
}

/// Whether the essential level keeps style key `k`.
fn is_essential_key(k: &String, para: bool) -> (r: bool)
    ensures
        r == essential_key(para, k@),
{
    let s = k.as_str();
    if para {
        str_eq(s, "align") || str_eq(s, "indent") || str_eq(s, "line-height")
    } else {
        str_eq(s, "bold") || str_eq(s, "italic") || str_eq(s, "color") || str_eq(s, "highlight") || str_eq(
            s,
            "font-size",
        ) || str_eq(s, "font-name")
    }
}

/// The members the essential level keeps.
fn essential_of(st: Vec<JsonMember>, para: bool) -> (kept: Vec<JsonMember>)
    ensures
        object_view(kept@) == essential_members(object_view(st@), para, st@.len() as int),
{
    let ghost orig = st@;
    let ghost n = orig.len() as int;
    proof {
        lemma_members_view(orig, n);
    }
    assert(n == st.len());
    let mut rest = st;
    let mut kept: Vec<JsonMember> = Vec::new();
    let mut k: usize = 0;
    while rest.len() > 0
        invariant
            k <= n,
            n == orig.len(),
            n <= usize::MAX,
            rest@ == orig.subrange(k as int, n),
            object_view(orig).len() == n,
            forall|j: int| 0 <= j < n ==> #[trigger] object_view(orig)[j] == (orig[j].key@, orig[j].value@),
            object_view(kept@) == essential_members(object_view(orig), para, k as int),
        decreases rest.len(),
    {
        let m = rest.remove(0);
        assert(m == orig[k as int]);
        if is_essential_key(&m.key, para) {
            proof {
                lemma_object_view_push(kept@, m);
            }
            kept.push(m);
        }
        k += 1;
    }
    kept
}

/// The value of a `style` member under a style level (see `styled`).
fn style_value(v: JsonValue, level: StyleLevel, para: bool) -> (r: Option<JsonValue>)
    ensures
        match r {
            Some(x) => styled(v@, level, para) == Some(x@),
            None => styled(v@, level, para) is None,
        },
{
    match level {
        StyleLevel::Full => Some(v),
        StyleLevel::NoStyle => None,
        StyleLevel::Essential => match v {
            JsonValue::Object(st) => {
                proof {
                    lemma_members_view(st@, st@.len() as int);
                }
                let kept = essential_of(st, para);
                if kept.len() == 0 {
                    assert(object_view(kept@).len() == 0) by {
                        lemma_members_view(kept@, 0);
                    }
                    None
                } else {
                    proof {
                        lemma_members_view(kept@, kept@.len() as int);
                    }
                    Some(JsonValue::Object(kept))
                }
            },
            other => Some(other),
        },
    }
}

/// Filters the `style` members of an object (see `style_members`).
fn filter_style_members(ms: &mut Vec<JsonMember>, level: StyleLevel, para: bool)
    ensures
        object_view(final(ms)@) == style_members(object_view(old(ms)@), level, para, old(ms)@.len() as int),
{
    let ghost orig = ms@;
    let ghost n = orig.len() as int;
    proof {
        lemma_members_view(orig, n);
    }
    assert(n == ms.len());
    let mut rest: Vec<JsonMember> = Vec::new();
    core::mem::swap(ms, &mut rest);
    let mut k: usize = 0;
    while rest.len() > 0
        invariant
            k <= n,
            n == orig.len(),
            n <= usize::MAX,
            rest@ == orig.subrange(k as int, n),
            object_view(orig).len() == n,
            forall|j: int| 0 <= j < n ==> #[trigger] object_view(orig)[j] == (orig[j].key@, orig[j].value@),
            object_view(ms@) == style_members(object_view(orig), level, para, k as int),
        decreases rest.len(),
    {
        let m = rest.remove(0);
        assert(m == orig[k as int]);
        if str_eq(m.key.as_str(), "style") {
            let JsonMember { key, value } = m;
            match style_value(value, level, para) {
                Some(v) => {
                    let nm = JsonMember { key, value: v };
                    proof {
                        lemma_object_view_push(ms@, nm);
                    }
                    ms.push(nm);
                },
                None => {},
            }
        } else {
            proof {
                lemma_object_view_push(ms@, m);
            }
            ms.push(m);
        }
        k += 1;
    }
}

/// Filters the style of a run (see `run_filtered`).
fn filter_run(r: &mut JsonValue, level: StyleLevel)
    ensures
        final(r)@ == run_filtered(old(r)@, level),
{
    match r {
        JsonValue::Object(ms) => {
            proof {
                lemma_members_view(ms@, ms@.len() as int);
            }
            filter_style_members(ms, level, false);
        },
        _ => {},
    }
}

/// Filters the styles of runs (see `runs_filtered`).
fn filter_runs(items: &mut Vec<JsonValue>, level: StyleLevel)
    ensures
        vals(final(items)@) == runs_filtered(vals(old(items)@), level),
{
    let ghost orig = items@;
    let mut i: usize = 0;
    while i < items.len()
        invariant
            i <= items@.len(),
            items@.len() == orig.len(),
            forall|j: int| 0 <= j < i ==> #[trigger] items@[j]@ == run_filtered(orig[j]@, level),
            forall|j: int| i <= j < items@.len() ==> #[trigger] items@[j] == orig[j],
        decreases items.len() - i,
    {
        filter_run(&mut items[i], level);
        i += 1;
    }
    assert(vals(items@) =~= runs_filtered(vals(orig), level));
}

/// Filters the styles of a paragraph (see `para_filtered`).
fn filter_para(p: &mut JsonValue, level: StyleLevel)
    ensures
        final(p)@ == para_filtered(old(p)@, level),
    decreases old(p)@,
{
    let ghost op = p@;
    match p {
        JsonValue::Object(ms) => {
            proof {
                lemma_members_view(ms@, ms@.len() as int);
                assert(op == JsonView::Object(object_view(ms@)));
                assert(decreases_to!(op => op->Object_0));
            }
            filter_para_members(ms, level);
        },
        _ => {},
    }
}

/// Filters the members of a paragraph (see `para_members`).
fn filter_para_members(ms: &mut Vec<JsonMember>, level: StyleLevel)
    ensures
        object_view(final(ms)@) == para_members(object_view(old(ms)@), level, old(ms)@.len() as int),
    decreases object_view(old(ms)@),
{
    let ghost orig = ms@;
    let ghost ov = object_view(orig);
    let ghost n = orig.len() as int;
    proof {
        lemma_members_view(orig, n);
    }
    assert(n == ms.len());
    let mut rest: Vec<JsonMember> = Vec::new();
    core::mem::swap(ms, &mut rest);
    let mut k: usize = 0;
    while rest.len() > 0
        invariant
            orig == old(ms)@,
            k <= n,
            n == orig.len(),
            n <= usize::MAX,
            ov == object_view(orig),
            rest@ == orig.subrange(k as int, n),
            ov.len() == n,
            forall|j: int| 0 <= j < n ==> #[trigger] ov[j] == (orig[j].key@, orig[j].value@),
            object_view(ms@) == para_members(ov, level, k as int),
        decreases rest.len(),
    {
        let mut m = rest.remove(0);
        assert(m == orig[k as int]);
        if str_eq(m.key.as_str(), "style") {
            let JsonMember { key, value } = m;
            match style_value(value, level, true) {
                Some(v) => {
                    let nm = JsonMember { key, value: v };
                    proof {
                        lemma_object_view_push(ms@, nm);
                    }
                    ms.push(nm);
                },
                None => {},
            }
        } else if str_eq(m.key.as_str(), "runs") {
            match &mut m.value {
                JsonValue::Array(items) => {
                    proof {
                        lemma_items_vals(items@);
                    }
                    filter_runs(items, level);
                    proof {
                        lemma_items_vals(items@);
                    }
                },
                _ => {},
            }
            proof {
                lemma_object_view_push(ms@, m);
            }
            ms.push(m);
        } else if str_eq(m.key.as_str(), "cells") {
            match &mut m.value {
                JsonValue::Array(cells) => {
                    proof {
                        lemma_items_vals(cells@);
                        assert(decreases_to!(ov => ov[k as int]));
                        assert(decreases_to!(ov[k as int] => ov[k as int].1));
                        assert(decreases_to!(ov[k as int].1 => ov[k as int].1->Array_0));
                        assert(ov[k as int].1->Array_0 == vals(cells@));
                    }
                    filter_cells(cells, level);
                    proof {
                        lemma_items_vals(cells@);
                    }
                },
                _ => {},
            }
            proof {
                lemma_object_view_push(ms@, m);
            }
            ms.push(m);
        } else {
            proof {
                lemma_object_view_push(ms@, m);
            }
            ms.push(m);
        }
        k += 1;
    }
}

/// Filters the cells of a table paragraph (see `cells_filtered`).
fn filter_cells(cells: &mut Vec<JsonValue>, level: StyleLevel)
    ensures
        vals(final(cells)@) == cells_filtered(vals(old(cells)@), level, old(cells)@.len() as int),
    decreases vals(old(cells)@),
{
    let ghost orig = cells@;
    let ghost ov = vals(orig);
    proof {
        lemma_cells_filtered(ov, level, ov.len() as int);
    }
    let mut i: usize = 0;
    while i < cells.len()
        invariant
            orig == old(cells)@,
            i <= cells@.len(),
            cells@.len() == orig.len(),
            ov == vals(orig),
            forall|j: int| 0 <= j < i ==> #[trigger] cells@[j]@ == cell_filtered(orig[j]@, level),
            forall|j: int| i <= j < cells@.len() ==> #[trigger] cells@[j] == orig[j],
        decreases cells.len() - i,
    {
        proof {
            assert(decreases_to!(ov => ov[i as int]));
            assert(ov[i as int] == cells@[i as int]@);
        }
        filter_cell(&mut cells[i], level);
        i += 1;
    }
    assert(vals(cells@) =~= cells_filtered(ov, level, orig.len() as int));
}

/// Filters a cell (see `cell_filtered`).
fn filter_cell(c: &mut JsonValue, level: StyleLevel)
    ensures
        final(c)@ == cell_filtered(old(c)@, level),
    decreases old(c)@,
{
    let ghost oc = c@;
    match c {
        JsonValue::Object(cm) => {
            proof {
                lemma_members_view(cm@, cm@.len() as int);
                assert(oc == JsonView::Object(object_view(cm@)));
                assert(decreases_to!(oc => oc->Object_0));
            }
            filter_cell_members(cm, level);
        },
        _ => {},
    }
}

/// Filters the members of a cell (see `cell_members`).
fn filter_cell_members(cm: &mut Vec<JsonMember>, level: StyleLevel)
    ensures
        object_view(final(cm)@) == cell_members(object_view(old(cm)@), level, old(cm)@.len() as int),
    decreases object_view(old(cm)@),
{
    let ghost orig = cm@;
    let ghost ov = object_view(orig);
    let ghost n = orig.len() as int;
    proof {
        lemma_members_view(orig, n);
    }
    assert(n == cm.len());
    let mut rest: Vec<JsonMember> = Vec::new();
    core::mem::swap(cm, &mut rest);
    let mut k: usize = 0;
    while rest.len() > 0
        invariant
            orig == old(cm)@,
            k <= n,
            n == orig.len(),
            n <= usize::MAX,
            ov == object_view(orig),
            rest@ == orig.subrange(k as int, n),
            ov.len() == n,
            forall|j: int| 0 <= j < n ==> #[trigger] ov[j] == (orig[j].key@, orig[j].value@),
            object_view(cm@) == cell_members(ov, level, k as int),
        decreases rest.len(),
    {
        let mut m = rest.remove(0);
        assert(m == orig[k as int]);
        if str_eq(m.key.as_str(), "style") {
            if level != StyleLevel::NoStyle {
                proof {
                    lemma_object_view_push(cm@, m);
                }
                cm.push(m);
            }
        } else if str_eq(m.key.as_str(), "paragraphs") {
            match &mut m.value {
                JsonValue::Array(ps) => {
                    proof {
                        lemma_items_vals(ps@);
                        assert(decreases_to!(ov => ov[k as int]));
                        assert(decreases_to!(ov[k as int] => ov[k as int].1));
                        assert(decreases_to!(ov[k as int].1 => ov[k as int].1->Array_0));
                        assert(ov[k as int].1->Array_0 == vals(ps@));
                    }
                    filter_paras(ps, level);
                    proof {
                        lemma_items_vals(ps@);
                    }
                },
                _ => {},
            }
            proof {
                lemma_object_view_push(cm@, m);
            }
            cm.push(m);
        } else {
            proof {
                lemma_object_view_push(cm@, m);
            }
            cm.push(m);
        }
        k += 1;
    }
}

/// Filters the paragraphs of a cell (see `paras_filtered`).
fn filter_paras(ps: &mut Vec<JsonValue>, level: StyleLevel)
    ensures
        vals(final(ps)@) == paras_filtered(vals(old(ps)@), level, old(ps)@.len() as int),
    decreases vals(old(ps)@),
{
    let ghost orig = ps@;
    let ghost ov = vals(orig);
    proof {
        lemma_paras_filtered(ov, level, ov.len() as int);
    }
    let mut i: usize = 0;
    while i < ps.len()
        invariant
            orig == old(ps)@,
            i <= ps@.len(),
            ps@.len() == orig.len(),
            ov == vals(orig),
            forall|j: int| 0 <= j < i ==> #[trigger] ps@[j]@ == para_filtered(orig[j]@, level),
            forall|j: int| i <= j < ps@.len() ==> #[trigger] ps@[j] == orig[j],
        decreases ps.len() - i,
    {
        proof {
            assert(decreases_to!(ov => ov[i as int]));
            assert(ov[i as int] == ps@[i as int]@);
        }
        filter_para(&mut ps[i], level);
        i += 1;
    }
    assert(vals(ps@) =~= paras_filtered(ov, level, orig.len() as int));
}

/// Applies a style level to the paragraphs of a compact response: the full level changes
/// nothing; otherwise each paragraph is filtered (see `para_filtered`).
pub fn apply_style_filter(paragraphs: &mut Vec<JsonValue>, level: StyleLevel)
    ensures
        level == StyleLevel::Full ==> final(paragraphs)@ == old(paragraphs)@,
        level != StyleLevel::Full ==> vals(final(paragraphs)@) == Seq::new(
            old(paragraphs)@.len(),
            |j: int| para_filtered(old(paragraphs)@[j]@, level),
        ),
{
    if level == StyleLevel::Full {
        return;
    }
    let ghost orig = paragraphs@;
    let mut i: usize = 0;
    while i < paragraphs.len()
        invariant
            i <= paragraphs@.len(),
            paragraphs@.len() == orig.len(),
            forall|j: int| 0 <= j < i ==> #[trigger] paragraphs@[j]@ == para_filtered(orig[j]@, level),
            forall|j: int| i <= j < paragraphs@.len() ==> #[trigger] paragraphs@[j] == orig[j],
        decreases paragraphs.len() - i,
    {
        filter_para(&mut paragraphs[i], level);
        i += 1;
    }
    assert(vals(paragraphs@) =~= Seq::new(orig.len(), |j: int| para_filtered(orig[j]@, level)));
}

/// Some member of `ms` is named `k`.
pub open spec fn has_key(ms: Seq<(Seq<char>, JsonView)>, k: Seq<char>) -> bool {
    exists|j: int| 0 <= j < ms.len() && ms[j].0 == k
}

/// A table paragraph: it has `cells`, or its `type` is `"table"`.
pub open spec fn is_table_para(ms: Seq<(Seq<char>, JsonView)>) -> bool {
    has_key(ms, "cells"@) || json_get(JsonView::Object(ms), "type"@) == Some(JsonView::Str("table"@))
}

/// The first `n` members of `ms` but those named `k`.
pub open spec fn without_key(ms: Seq<(Seq<char>, JsonView)>, k: Seq<char>, n: int) -> Seq<(Seq<char>, JsonView)>
    decreases n,
{
    if n <= 0 || n > ms.len() {
        Seq::empty()
    } else {
        let prev = without_key(ms, k, n - 1);
        if ms[n - 1].0 == k {
            prev
        } else {
            prev.push(ms[n - 1])
        }
    }
}

/// A cell at the structure level: without its `paragraphs`.
pub open spec fn cell_structure(c: JsonView) -> JsonView {
    match c {
        JsonView::Object(cm) => JsonView::Object(without_key(cm, "paragraphs"@, cm.len() as int)),
        _ => c,
    }
}

/// The first `n` members of a table paragraph under a table level: the count level drops
/// `cells`, the structure level drops the paragraphs of each cell.
pub open spec fn table_members(ms: Seq<(Seq<char>, JsonView)>, level: TableLevel, n: int) -> Seq<(Seq<char>, JsonView)>
    decreases n,
{
    if n <= 0 || n > ms.len() {
        Seq::empty()
    } else {
        let prev = table_members(ms, level, n - 1);
        let m = ms[n - 1];
        if m.0 == "cells"@ {
            match level {
                TableLevel::Count => prev,
                TableLevel::Structure => match m.1 {
                    JsonView::Array(cells) => prev.push(
                        (m.0, JsonView::Array(Seq::new(cells.len(), |j: int| cell_structure(cells[j])))),
                    ),
                    _ => prev.push(m),
                },
                TableLevel::Full => prev.push(m),
            }
        } else {
            prev.push(m)
        }
    }
}

/// A paragraph under a table level: only table paragraphs change.
pub open spec fn table_filtered(p: JsonView, level: TableLevel) -> JsonView {
    match p {
        JsonView::Object(ms) => if is_table_para(ms) {
            JsonView::Object(table_members(ms, level, ms.len() as int))
        } else {
            p
        },
        _ => p,
    }
}

/// Removes the members named `key`.
fn remove_key(ms: &mut Vec<JsonMember>, key: &str)
    ensures
        object_view(final(ms)@) == without_key(object_view(old(ms)@), key@, old(ms)@.len() as int),
{
    let ghost orig = ms@;
    let ghost ov = object_view(orig);
    let ghost n = orig.len() as int;
    proof {
        lemma_members_view(orig, n);
    }
    assert(n == ms.len());
    let mut rest: Vec<JsonMember> = Vec::new();
    core::mem::swap(ms, &mut rest);
    let mut k: usize = 0;
    while rest.len() > 0
        invariant
            k <= n,
            n == orig.len(),
            n <= usize::MAX,
            ov == object_view(orig),
            rest@ == orig.subrange(k as int, n),
            ov.len() == n,
            forall|j: int| 0 <= j < n ==> #[trigger] ov[j] == (orig[j].key@, orig[j].value@),
            object_view(ms@) == without_key(ov, key@, k as int),
        decreases rest.len(),
    {
        let m = rest.remove(0);
        assert(m == orig[k as int]);
        if !str_eq(m.key.as_str(), key) {
            proof {
                lemma_object_view_push(ms@, m);
            }
            ms.push(m);
        }
        k += 1;
    }
}

/// Drops the paragraphs of each cell (see `cell_structure`).
fn cells_to_structure(cells: &mut Vec<JsonValue>)
    ensures
        vals(final(cells)@) == Seq::new(old(cells)@.len(), |j: int| cell_structure(old(cells)@[j]@)),
{
    let ghost orig = cells@;
    let mut i: usize = 0;
    while i < cells.len()
        invariant
            i <= cells@.len(),
            cells@.len() == orig.len(),
            forall|j: int| 0 <= j < i ==> #[trigger] cells@[j]@ == cell_structure(orig[j]@),
            forall|j: int| i <= j < cells@.len() ==> #[trigger] cells@[j] == orig[j],
        decreases cells.len() - i,
    {
        match &mut cells[i] {
            JsonValue::Object(cm) => {
                proof {
                    lemma_members_view(cm@, cm@.len() as int);
                }
                remove_key(cm, "paragraphs");
            },
            _ => {},
        }
        i += 1;
    }
    assert(vals(cells@) =~= Seq::new(orig.len(), |j: int| cell_structure(orig[j]@)));
}

/// Applies a table level to the members of a table paragraph (see `table_members`).
fn filter_table_members(ms: &mut Vec<JsonMember>, level: TableLevel)
    ensures
        object_view(final(ms)@) == table_members(object_view(old(ms)@), level, old(ms)@.len() as int),
{
    let ghost orig = ms@;
    let ghost ov = object_view(orig);
    let ghost n = orig.len() as int;
    proof {
        lemma_members_view(orig, n);
    }
    assert(n == ms.len());
    let mut rest: Vec<JsonMember> = Vec::new();
    core::mem::swap(ms, &mut rest);
    let mut k: usize = 0;
    while rest.len() > 0
        invariant
            k <= n,
            n == orig.len(),
            n <= usize::MAX,
            ov == object_view(orig),
            rest@ == orig.subrange(k as int, n),
            ov.len() == n,
            forall|j: int| 0 <= j < n ==> #[trigger] ov[j] == (orig[j].key@, orig[j].value@),
            object_view(ms@) == table_members(ov, level, k as int),
        decreases rest.len(),
    {
        let mut m = rest.remove(0);
        assert(m == orig[k as int]);
        if str_eq(m.key.as_str(), "cells") {
            match level {
                TableLevel::Count => {},
                TableLevel::Structure => {
                    match &mut m.value {
                        JsonValue::Array(cells) => {
                            let ghost before = vals(cells@);
                            proof {
                                lemma_items_vals(cells@);
                            }
                            cells_to_structure(cells);
                            proof {
                                lemma_items_vals(cells@);
                                assert(vals(cells@) =~= Seq::new(before.len(), |j: int| cell_structure(before[j])));
                            }
                        },
                        _ => {},
                    }
                    proof {
                        lemma_object_view_push(ms@, m);
                    }
                    ms.push(m);
                },
                TableLevel::Full => {
                    proof {
                        lemma_object_view_push(ms@, m);
                    }
                    ms.push(m);
                },
            }
        } else {
            proof {
                lemma_object_view_push(ms@, m);
            }
            ms.push(m);
        }
        k += 1;
    }
}

/// Whether an object is a table paragraph (see `is_table_para`).
fn is_table_object(ms: &Vec<JsonMember>) -> (r: bool)
    ensures
        r == is_table_para(object_view(ms@)),
{
    proof {
        lemma_members_view(ms@, ms@.len() as int);
        lemma_find_key_bound(object_view(ms@), "cells"@);
        lemma_find_key_bound(object_view(ms@), "type"@);
    }
    if crate::json::find_member(ms, "cells").is_some() {
        return true;
    }
    match crate::json::find_member(ms, "type") {
        Some(i) => match &ms[i].value {
            JsonValue::Str(t) => str_eq(t.as_str(), "table"),
            _ => false,
        },
        None => false,
    }
}

/// Applies a table level to a paragraph (see `table_filtered`).
fn filter_table_para(p: &mut JsonValue, level: TableLevel)
    ensures
        final(p)@ == table_filtered(old(p)@, level),
{
    match p {
        JsonValue::Object(ms) => {
            proof {
                lemma_members_view(ms@, ms@.len() as int);
            }
            if is_table_object(ms) {
                filter_table_members(ms, level);
            }
        },
        _ => {},
    }
}

/// Applies a table level to the paragraphs of a compact response: the full level changes
/// nothing; otherwise each table paragraph is filtered (see `table_filtered`).
pub fn apply_table_filter(paragraphs: &mut Vec<JsonValue>, level: TableLevel)
    ensures
        level == TableLevel::Full ==> final(paragraphs)@ == old(paragraphs)@,
        level != TableLevel::Full ==> vals(final(paragraphs)@) == Seq::new(
            old(paragraphs)@.len(),
            |j: int| table_filtered(old(paragraphs)@[j]@, level),
        ),
{
    if level == TableLevel::Full {
        return;
    }
    let ghost orig = paragraphs@;
    let mut i: usize = 0;
    while i < paragraphs.len()
        invariant
            i <= paragraphs@.len(),
            paragraphs@.len() == orig.len(),
            forall|j: int| 0 <= j < i ==> #[trigger] paragraphs@[j]@ == table_filtered(orig[j]@, level),
            forall|j: int| i <= j < paragraphs@.len() ==> #[trigger] paragraphs@[j] == orig[j],
        decreases paragraphs.len() - i,
    {
        filter_table_para(&mut paragraphs[i], level);
        i += 1;
    }
    assert(vals(paragraphs@) =~= Seq::new(orig.len(), |j: int| table_filtered(orig[j]@, level)));
}

proof fn lemma_has_key_push(ms: Seq<(Seq<char>, JsonView)>, m: (Seq<char>, JsonView), k: Seq<char>)
    ensures
        has_key(ms.push(m), k) <==> has_key(ms, k) || m.0 == k,
{
    if has_key(ms.push(m), k) {
        let j = choose|j: int| 0 <= j < ms.push(m).len() && ms.push(m)[j].0 == k;
        if j < ms.len() {
            assert(ms[j] == ms.push(m)[j]);
        }
    }
    if has_key(ms, k) {
        let j = choose|j: int| 0 <= j < ms.len() && ms[j].0 == k;
        assert(ms.push(m)[j] == ms[j]);
    }
    assert(ms.push(m)[ms.len() as int] == m);
}

proof fn lemma_style_members_without_style(ms: Seq<(Seq<char>, JsonView)>, para: bool, n: int)
    ensures
        !has_key(style_members(ms, StyleLevel::NoStyle, para, n), "style"@),
    decreases n,
{
    if n > 0 && n <= ms.len() {
        lemma_style_members_without_style(ms, para, n - 1);
        let prev = style_members(ms, StyleLevel::NoStyle, para, n - 1);
        lemma_has_key_push(prev, ms[n - 1], "style"@);
    }
}

/// The runs of a paragraph member list have no `style` member.
pub open spec fn runs_unstyled(ms: Seq<(Seq<char>, JsonView)>) -> bool {
    forall|j: int|
        0 <= j < ms.len() && ms[j].0 == "runs"@ && #[trigger] ms[j].1 is Array ==> forall|k: int|
            0 <= k < ms[j].1->Array_0.len() && #[trigger] ms[j].1->Array_0[k] is Object ==> !has_key(
                ms[j].1->Array_0[k]->Object_0,
                "style"@,
            )
}

proof fn lemma_para_members_without_style(ms: Seq<(Seq<char>, JsonView)>, n: int)
    ensures
        !has_key(para_members(ms, StyleLevel::NoStyle, n), "style"@),
        runs_unstyled(para_members(ms, StyleLevel::NoStyle, n)),
    decreases n,
{
    if n > 0 && n <= ms.len() {
        lemma_para_members_without_style(ms, n - 1);
        let prev = para_members(ms, StyleLevel::NoStyle, n - 1);
        let m = ms[n - 1];
        let r = para_members(ms, StyleLevel::NoStyle, n);
        if m.0 == "style"@ {
            assert(r == prev);
        } else {
            let pushed = r.last();
            assert(r == prev.push(pushed));
            lemma_has_key_push(prev, pushed, "style"@);
            if m.0 == "runs"@ && m.1 is Array {
                let items = m.1->Array_0;
                assert forall|k: int| 0 <= k < runs_filtered(items, StyleLevel::NoStyle).len() && #[trigger] runs_filtered(
                    items,
                    StyleLevel::NoStyle,
                )[k] is Object implies !has_key(runs_filtered(items, StyleLevel::NoStyle)[k]->Object_0, "style"@) by {
                    let it = items[k];
                    if it is Object {
                        lemma_style_members_without_style(it->Object_0, false, it->Object_0.len() as int);
                    }
                }
            }
            assert forall|j: int|
                0 <= j < r.len() && r[j].0 == "runs"@ && #[trigger] r[j].1 is Array implies forall|k: int|
                    0 <= k < r[j].1->Array_0.len() && #[trigger] r[j].1->Array_0[k] is Object ==> !has_key(
                        r[j].1->Array_0[k]->Object_0,
                        "style"@,
                    ) by {
                if j < prev.len() {
                    assert(r[j] == prev[j]);
                }
            }
        }
    }
}

/// With no style, a filtered paragraph keeps no `style` member, and neither do its runs.
pub proof fn law_no_style_strips_styles(p: JsonView)
    ensures
        para_filtered(p, StyleLevel::NoStyle) matches JsonView::Object(ms) ==> !has_key(ms, "style"@) && runs_unstyled(ms),
{
    if let JsonView::Object(ms) = p {
        lemma_para_members_without_style(ms, ms.len() as int);
    }
}

/// Every member of `ms` has a key the essential level keeps.
pub open spec fn all_essential(ms: Seq<(Seq<char>, JsonView)>, para: bool) -> bool {
    forall|j: int| 0 <= j < ms.len() ==> essential_key(para, #[trigger] ms[j].0)
}

proof fn lemma_essential_members_keys(ms: Seq<(Seq<char>, JsonView)>, para: bool, n: int)
    ensures
        all_essential(essential_members(ms, para, n), para),
    decreases n,
{
    if n > 0 && n <= ms.len() {
        lemma_essential_members_keys(ms, para, n - 1);
        let prev = essential_members(ms, para, n - 1);
        let r = essential_members(ms, para, n);
        assert forall|j: int| 0 <= j < r.len() implies essential_key(para, #[trigger] r[j].0) by {
            if j < prev.len() {
                assert(r[j] == prev[j]);
            }
        }
    }
}

/// At the essential level, a `style` object that remains holds only whitelisted keys.
pub proof fn law_essential_keeps_whitelist(v: JsonView, para: bool)
    ensures
        styled(v, StyleLevel::Essential, para) matches Some(JsonView::Object(st)) ==> (v is Object ==> all_essential(
            st,
            para,
        )),
{
    if let JsonView::Object(st) = v {
        lemma_essential_members_keys(st, para, st.len() as int);
    }
}

proof fn lemma_essential_members_contains(ms: Seq<(Seq<char>, JsonView)>, para: bool, n: int, i: int)
    requires
        0 <= i < n <= ms.len(),
        essential_key(para, ms[i].0),
    ensures
        essential_members(ms, para, n).contains(ms[i]),
    decreases n,
{
    let r = essential_members(ms, para, n);
    let prev = essential_members(ms, para, n - 1);
    if i == n - 1 {
        assert(r == prev.push(ms[i]));
        assert(r[prev.len() as int] == ms[i]);
    } else {
        lemma_essential_members_contains(ms, para, n - 1, i);
        let k = choose|k: int| 0 <= k < prev.len() && prev[k] == ms[i];
        if essential_key(para, ms[n - 1].0) {
            assert(r[k] == prev[k]);
        }
    }
}

proof fn lemma_essential_members_from(ms: Seq<(Seq<char>, JsonView)>, para: bool, n: int)
    requires
        0 <= n <= ms.len(),
    ensures
        forall|j: int| 0 <= j < essential_members(ms, para, n).len() ==> ms.contains(#[trigger] essential_members(ms, para, n)[j]),
    decreases n,
{
    if n > 0 {
        lemma_essential_members_from(ms, para, n - 1);
        let prev = essential_members(ms, para, n - 1);
        let r = essential_members(ms, para, n);
        assert forall|j: int| 0 <= j < r.len() implies ms.contains(#[trigger] r[j]) by {
            if j < prev.len() {
                assert(r[j] == prev[j]);
            } else {
                assert(r[j] == ms[n - 1]);
            }
        }
    }
}

/// The members a style level leaves of a style: those of the object it gives, or none.
pub open spec fn kept_members(v: Option<JsonView>) -> Seq<(Seq<char>, JsonView)> {
    match v {
        Some(JsonView::Object(ms)) => ms,
        _ => Seq::empty(),
    }
}

/// At the essential level a run style keeps exactly its members whose keys are bold, italic,
/// color, highlight, font-size or font-name, and a paragraph style exactly those whose keys
/// are align, indent or line-height.
pub proof fn law_essential_style_keys(st: Seq<(Seq<char>, JsonView)>)
    ensures
        forall|i: int|
            0 <= i < st.len() && (st[i].0 == "bold"@ || st[i].0 == "italic"@ || st[i].0 == "color"@ || st[i].0 == "highlight"@
                || st[i].0 == "font-size"@ || st[i].0 == "font-name"@) ==> kept_members(
                styled(JsonView::Object(st), StyleLevel::Essential, false),
            ).contains(#[trigger] st[i]),
        forall|j: int|
            0 <= j < kept_members(styled(JsonView::Object(st), StyleLevel::Essential, false)).len() ==> {
                let m = #[trigger] kept_members(styled(JsonView::Object(st), StyleLevel::Essential, false))[j];
                &&& st.contains(m)
                &&& m.0 == "bold"@ || m.0 == "italic"@ || m.0 == "color"@ || m.0 == "highlight"@ || m.0 == "font-size"@
                    || m.0 == "font-name"@
            },
        forall|i: int|
            0 <= i < st.len() && (st[i].0 == "align"@ || st[i].0 == "indent"@ || st[i].0 == "line-height"@) ==> kept_members(
                styled(JsonView::Object(st), StyleLevel::Essential, true),
            ).contains(#[trigger] st[i]),
        forall|j: int|
            0 <= j < kept_members(styled(JsonView::Object(st), StyleLevel::Essential, true)).len() ==> {
                let m = #[trigger] kept_members(styled(JsonView::Object(st), StyleLevel::Essential, true))[j];
                &&& st.contains(m)
                &&& m.0 == "align"@ || m.0 == "indent"@ || m.0 == "line-height"@
            },
{
    let n = st.len() as int;
    let kr = essential_members(st, false, n);
    let kp = essential_members(st, true, n);
    lemma_essential_members_keys(st, false, n);
    lemma_essential_members_keys(st, true, n);
    lemma_essential_members_from(st, false, n);
    lemma_essential_members_from(st, true, n);
    assert forall|i: int|
        0 <= i < st.len() && (st[i].0 == "bold"@ || st[i].0 == "italic"@ || st[i].0 == "color"@ || st[i].0 == "highlight"@
            || st[i].0 == "font-size"@ || st[i].0 == "font-name"@) implies kept_members(
            styled(JsonView::Object(st), StyleLevel::Essential, false),
        ).contains(#[trigger] st[i]) by {
        lemma_essential_members_contains(st, false, n, i);
    }
    assert forall|i: int|
        0 <= i < st.len() && (st[i].0 == "align"@ || st[i].0 == "indent"@ || st[i].0 == "line-height"@) implies kept_members(
            styled(JsonView::Object(st), StyleLevel::Essential, true),
        ).contains(#[trigger] st[i]) by {
        lemma_essential_members_contains(st, true, n, i);
    }
    assert forall|j: int| 0 <= j < kept_members(styled(JsonView::Object(st), StyleLevel::Essential, false)).len() implies {
        let m = #[trigger] kept_members(styled(JsonView::Object(st), StyleLevel::Essential, false))[j];
        &&& st.contains(m)
        &&& m.0 == "bold"@ || m.0 == "italic"@ || m.0 == "color"@ || m.0 == "highlight"@ || m.0 == "font-size"@
            || m.0 == "font-name"@
    } by {
        assert(essential_key(false, kr[j].0));
    }
    assert forall|j: int| 0 <= j < kept_members(styled(JsonView::Object(st), StyleLevel::Essential, true)).len() implies {
        let m = #[trigger] kept_members(styled(JsonView::Object(st), StyleLevel::Essential, true))[j];
        &&& st.contains(m)
        &&& m.0 == "align"@ || m.0 == "indent"@ || m.0 == "line-height"@
    } by {
        assert(essential_key(true, kp[j].0));
    }
}

proof fn lemma_style_members_contains(ms: Seq<(Seq<char>, JsonView)>, level: StyleLevel, para: bool, n: int, i: int)
    requires
        0 <= i < n <= ms.len(),
        ms[i].0 == "style"@,
        styled(ms[i].1, level, para) is Some,
    ensures
        style_members(ms, level, para, n).contains((ms[i].0, styled(ms[i].1, level, para)->Some_0)),
    decreases n,
{
    let x = (ms[i].0, styled(ms[i].1, level, para)->Some_0);
    let r = style_members(ms, level, para, n);
    let prev = style_members(ms, level, para, n - 1);
    if i == n - 1 {
        assert(r == prev.push(x));
        assert(r[prev.len() as int] == x);
    } else {
        lemma_style_members_contains(ms, level, para, n - 1, i);
        let k = choose|k: int| 0 <= k < prev.len() && prev[k] == x;
        assert(r.len() >= prev.len());
        assert(r[k] == prev[k]);
    }
}

/// A run's `style` is filtered with the run whitelist: at any level, the filtered run holds
/// what the level makes of its style as a run style (see `law_essential_style_keys`).
pub proof fn law_run_style_filtered_as_run(ms: Seq<(Seq<char>, JsonView)>, i: int, level: StyleLevel)
    requires
        0 <= i < ms.len(),
        ms[i].0 == "style"@,
        styled(ms[i].1, level, false) is Some,
    ensures
        run_filtered(JsonView::Object(ms), level)->Object_0.contains(("style"@, styled(ms[i].1, level, false)->Some_0)),
{
    lemma_style_members_contains(ms, level, false, ms.len() as int, i);
}

proof fn lemma_table_members_count(ms: Seq<(Seq<char>, JsonView)>, n: int)
    ensures
        !has_key(table_members(ms, TableLevel::Count, n), "cells"@),
    decreases n,
{
    if n > 0 && n <= ms.len() {
        lemma_table_members_count(ms, n - 1);
        let prev = table_members(ms, TableLevel::Count, n - 1);
        if ms[n - 1].0 != "cells"@ {
            lemma_has_key_push(prev, ms[n - 1], "cells"@);
        }
    }
}

/// At the count level no paragraph keeps a `cells` member: a table paragraph loses it, and
/// any other paragraph had none.
pub proof fn law_count_drops_cells(p: JsonView)
    ensures
        table_filtered(p, TableLevel::Count) matches JsonView::Object(ms) ==> !has_key(ms, "cells"@),
{
    if let JsonView::Object(ms) = p {
        if is_table_para(ms) {
            lemma_table_members_count(ms, ms.len() as int);
        }
    }
}

proof fn lemma_without_key(ms: Seq<(Seq<char>, JsonView)>, k: Seq<char>, n: int)
    ensures
        !has_key(without_key(ms, k, n), k),
        forall|j: int| 0 <= j < n <= ms.len() && ms[j].0 != k ==> #[trigger] without_key(ms, k, n).contains(ms[j]),
    decreases n,
{
    if n > 0 && n <= ms.len() {
        lemma_without_key(ms, k, n - 1);
        let prev = without_key(ms, k, n - 1);
        if ms[n - 1].0 != k {
            lemma_has_key_push(prev, ms[n - 1], k);
            assert(prev.push(ms[n - 1])[prev.len() as int] == ms[n - 1]);
            assert forall|j: int| 0 <= j < n - 1 && ms[j].0 != k implies #[trigger] prev.push(ms[n - 1]).contains(ms[j]) by {
                assert(prev.contains(ms[j]));
                let q = choose|q: int| 0 <= q < prev.len() && prev[q] == ms[j];
                assert(prev.push(ms[n - 1])[q] == ms[j]);
            }
        }
    }
}

/// At the structure level a cell keeps every member but its `paragraphs`.
pub proof fn law_structure_drops_cell_paragraphs(c: JsonView)
    ensures
        cell_structure(c) matches JsonView::Object(out) ==> (!has_key(out, "paragraphs"@) && forall|j: int|
            0 <= j < c->Object_0.len() && c->Object_0[j].0 != "paragraphs"@ ==> out.contains(
                #[trigger] c->Object_0[j],
            )),
{
    if let JsonView::Object(cm) = c {
        lemma_without_key(cm, "paragraphs"@, cm.len() as int);
    }
}

} // verus!
