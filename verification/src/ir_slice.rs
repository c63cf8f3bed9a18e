//! A slice of IR paragraphs, the document defaults taken from it (the most frequent font
//! size and font name), and its compact form.
use vstd::prelude::*;
use crate::edit_op::Members;
use crate::ir_compact::{CellBorderSpec, CellStyle, IrDocMeta, ParagraphStyle, RunStyle, compacted};
use crate::json::{JsonMember, JsonValue, JsonView, lemma_members_view, object_view, push_member};
use crate::ir_outline::{
    IrParagraph, IrRun, IrTableCell, IrTableParagraph, IrTextParagraph, flag_member, locator_json, locator_member,
    omit_para_style_defaults, style_diff, uint,
};
use crate::json::str_eq;

verus! {

/// A slice of a section: its metadata and its paragraphs.
#[derive(Debug)]
pub struct IrSlice {
    pub doc_meta: IrDocMeta,
    pub paragraphs: Vec<IrParagraph>,
}

/// The run and paragraph styles that most of a slice has.
#[derive(Debug)]
pub struct DocDefaults {
    pub run: RunStyle,
    pub paragraph: ParagraphStyle,
}

// ─── the most frequent value ────────────────────────────────────────────

/// How many times `x` occurs in `s`.
pub open spec fn occurrences<T>(s: Seq<T>, x: T) -> nat
    decreases s.len(),
{
    if s.len() == 0 {
        0
    } else {
        occurrences(s.drop_last(), x) + if s.last() == x {
            1nat
        } else {
            0nat
        }
    }
}

/// `s[i]` is the mode of `s`: no value occurs more often, and every value that occurs as
/// often first occurs after `i`.
pub open spec fn is_mode_at<T>(s: Seq<T>, i: int) -> bool {
    &&& 0 <= i < s.len()
    &&& forall|j: int| 0 <= j < s.len() ==> occurrences(s, #[trigger] s[j]) <= occurrences(s, s[i])
    &&& forall|j: int| 0 <= j < i ==> occurrences(s, #[trigger] s[j]) < occurrences(s, s[i])
}

/// The most frequent value of `s`, the earliest to appear among equally frequent ones;
/// `None` for an empty sequence.
pub open spec fn mode_of<T>(s: Seq<T>) -> Option<T> {
    if s.len() == 0 {
        None
    } else {
        Some(s[choose|i: int| is_mode_at(s, i)])
    }
}

/// The mode is well defined: one index at most is the mode's place.
pub proof fn lemma_mode_unique<T>(s: Seq<T>, i: int, j: int)
    requires
        is_mode_at(s, i),
        is_mode_at(s, j),
    ensures
        i == j,
{
    if i < j {
        assert(occurrences(s, s[i]) < occurrences(s, s[j]));
        assert(occurrences(s, s[i]) <= occurrences(s, s[j]));
        assert(occurrences(s, s[j]) <= occurrences(s, s[i]));
    } else if j < i {
        assert(occurrences(s, s[j]) < occurrences(s, s[i]));
        assert(occurrences(s, s[i]) <= occurrences(s, s[j]));
    }
}

proof fn lemma_mode_of_at<T>(s: Seq<T>, i: int)
    requires
        is_mode_at(s, i),
    ensures
        mode_of(s) == Some(s[i]),
{
    let k = choose|k: int| is_mode_at(s, k);
    lemma_mode_unique(s, i, k);
}

/// The views of a sequence of strings.
pub open spec fn strs(v: Seq<String>) -> Seq<Seq<char>> {
    Seq::new(v.len(), |i: int| v[i]@)
}

fn count_size(v: &Vec<i64>, x: i64) -> (n: usize)
    ensures
        n == occurrences(v@, x),
{
    let mut n: usize = 0;
    let mut k: usize = 0;
    while k < v.len()
        invariant
            k <= v.len(),
            n == occurrences(v@.take(k as int), x),
            n <= k,
        decreases v.len() - k,
    {
        assert(v@.take(k + 1).drop_last() =~= v@.take(k as int));
        if v[k] == x {
            n += 1;
        }
        k += 1;
    }
    assert(v@.take(v.len() as int) =~= v@);
    n
}

fn count_name(v: &Vec<String>, x: &str) -> (n: usize)
    ensures
        n == occurrences(strs(v@), x@),
{
    let mut n: usize = 0;
    let mut k: usize = 0;
    while k < v.len()
        invariant
            k <= v.len(),
            n == occurrences(strs(v@).take(k as int), x@),
            n <= k,
        decreases v.len() - k,
    {
        assert(strs(v@).take(k + 1).drop_last() =~= strs(v@).take(k as int));
        if crate::json::str_eq(v[k].as_str(), x) {
            n += 1;
        }
        k += 1;
    }
    assert(strs(v@).take(v.len() as int) =~= strs(v@));
    n
}

/// The most frequent font size (see `mode_of`).
pub fn mode_size(v: &Vec<i64>) -> (r: Option<i64>)
    ensures
        r == mode_of(v@),
{
    if v.len() == 0 {
        return None;
    }
    let mut best: usize = 0;
    let mut best_count = count_size(v, v[0]);
    let mut i: usize = 1;
    while i < v.len()
        invariant
            1 <= i <= v.len(),
            best < i,
            best_count == occurrences(v@, v@[best as int]),
            forall|j: int| 0 <= j < i ==> occurrences(v@, #[trigger] v@[j]) <= best_count,
            forall|j: int| 0 <= j < best ==> occurrences(v@, #[trigger] v@[j]) < best_count,
        decreases v.len() - i,
    {
        let c = count_size(v, v[i]);
        if c > best_count {
            best = i;
            best_count = c;
        }
        i += 1;
    }
    proof {
        assert(is_mode_at(v@, best as int));
        lemma_mode_of_at(v@, best as int);
    }
    Some(v[best])
}

/// The most frequent font name (see `mode_of`).
pub fn mode_name(v: &Vec<String>) -> (r: Option<String>)
    ensures
        match r {
            Some(s) => mode_of(strs(v@)) == Some(s@),
            None => mode_of(strs(v@)) is None,
        },
{
    if v.len() == 0 {
        return None;
    }
    let ghost sv = strs(v@);
    let mut best: usize = 0;
    let mut best_count = count_name(v, v[0].as_str());
    let mut i: usize = 1;
    while i < v.len()
        invariant
            1 <= i <= v.len(),
            sv == strs(v@),
            best < i,
            best_count == occurrences(sv, sv[best as int]),
            forall|j: int| 0 <= j < i ==> occurrences(sv, #[trigger] sv[j]) <= best_count,
            forall|j: int| 0 <= j < best ==> occurrences(sv, #[trigger] sv[j]) < best_count,
        decreases v.len() - i,
    {
        let c = count_name(v, v[i].as_str());
        if c > best_count {
            best = i;
            best_count = c;
        }
        i += 1;
    }
    proof {
        assert(is_mode_at(sv, best as int));
        lemma_mode_of_at(sv, best as int);
    }
    Some(v[best].clone())
}

// ─── document defaults ──────────────────────────────────────────────────

/// The font sizes of the first `n` runs, in order, where a run has one.
pub open spec fn run_sizes(runs: Seq<IrRun>, n: int) -> Seq<i64>
    decreases n,
{
    if n <= 0 || n > runs.len() {
        Seq::empty()
    } else {
        run_sizes(runs, n - 1) + match runs[n - 1].style.font_size {
            Some(x) => seq![x],
            None => Seq::empty(),
        }
    }
}

/// The font names of the first `n` runs, in order, where a run has one.
pub open spec fn run_names(runs: Seq<IrRun>, n: int) -> Seq<Seq<char>>
    decreases n,
{
    if n <= 0 || n > runs.len() {
        Seq::empty()
    } else {
        run_names(runs, n - 1) + match runs[n - 1].style.font_name {
            Some(x) => seq![x@],
            None => Seq::empty(),
        }
    }
}

/// The font sizes of a paragraph's runs, a table's through its cells' paragraphs, in
/// document order.
pub open spec fn para_sizes(p: IrParagraph) -> Seq<i64>
    decreases p, 0int,
{
    match p {
        IrParagraph::Text(t) => run_sizes(t.runs@, t.runs@.len() as int),
        IrParagraph::Table(tt) => {
            proof {
                assert(decreases_to!(p => tt));
                assert(decreases_to!(tt => tt.cells));
                assert(decreases_to!(tt.cells => tt.cells@));
            }
            cells_sizes(tt.cells@, tt.cells@.len() as int)
        },
    }
}

/// The font sizes of the first `n` cells.
pub open spec fn cells_sizes(cells: Seq<IrTableCell>, n: int) -> Seq<i64>
    decreases cells, n,
{
    if n <= 0 || n > cells.len() {
        Seq::empty()
    } else {
        proof {
            assert(decreases_to!(cells => cells[n - 1]));
            assert(decreases_to!(cells[n - 1] => cells[n - 1].paragraphs));
            assert(decreases_to!(cells[n - 1].paragraphs => cells[n - 1].paragraphs@));
        }
        cells_sizes(cells, n - 1) + paras_sizes(cells[n - 1].paragraphs@, cells[n - 1].paragraphs@.len() as int)
    }
}

/// The font sizes of the first `n` paragraphs.
pub open spec fn paras_sizes(ps: Seq<IrParagraph>, n: int) -> Seq<i64>
    decreases ps, n,
{
    if n <= 0 || n > ps.len() {
        Seq::empty()
    } else {
        paras_sizes(ps, n - 1) + para_sizes(ps[n - 1])
    }
}

/// The font names of a paragraph's runs, a table's through its cells' paragraphs, in
/// document order.
pub open spec fn para_names(p: IrParagraph) -> Seq<Seq<char>>
    decreases p, 0int,
{
    match p {
        IrParagraph::Text(t) => run_names(t.runs@, t.runs@.len() as int),
        IrParagraph::Table(tt) => {
            proof {
                assert(decreases_to!(p => tt));
                assert(decreases_to!(tt => tt.cells));
                assert(decreases_to!(tt.cells => tt.cells@));
            }
            cells_names(tt.cells@, tt.cells@.len() as int)
        },
    }
}

/// The font names of the first `n` cells.
pub open spec fn cells_names(cells: Seq<IrTableCell>, n: int) -> Seq<Seq<char>>
    decreases cells, n,
{
    if n <= 0 || n > cells.len() {
        Seq::empty()
    } else {
        proof {
            assert(decreases_to!(cells => cells[n - 1]));
            assert(decreases_to!(cells[n - 1] => cells[n - 1].paragraphs));
            assert(decreases_to!(cells[n - 1].paragraphs => cells[n - 1].paragraphs@));
        }
        cells_names(cells, n - 1) + paras_names(cells[n - 1].paragraphs@, cells[n - 1].paragraphs@.len() as int)
    }
}

/// The font names of the first `n` paragraphs.
pub open spec fn paras_names(ps: Seq<IrParagraph>, n: int) -> Seq<Seq<char>>
    decreases ps, n,
{
    if n <= 0 || n > ps.len() {
        Seq::empty()
    } else {
        paras_names(ps, n - 1) + para_names(ps[n - 1])
    }
}

/// Appends the font sizes and names of `p`'s runs, in document order.
fn collect_fonts(p: &IrParagraph, sizes: &mut Vec<i64>, names: &mut Vec<String>)
    ensures
        final(sizes)@ == old(sizes)@ + para_sizes(*p),
        strs(final(names)@) == strs(old(names)@) + para_names(*p),
    decreases p,
{
    let ghost s0 = sizes@;
    let ghost n0 = strs(names@);
    match p {
        IrParagraph::Text(t) => {
            let mut i: usize = 0;
            while i < t.runs.len()
                invariant
                    i <= t.runs.len(),
                    sizes@ == s0 + run_sizes(t.runs@, i as int),
                    strs(names@) == n0 + run_names(t.runs@, i as int),
                decreases t.runs.len() - i,
            {
                if let Some(x) = t.runs[i].style.font_size {
                    sizes.push(x);
                }
                let ghost nb = names@;
                if let Some(f) = &t.runs[i].style.font_name {
                    names.push(f.clone());
                    assert(strs(names@) =~= strs(nb).push(f@));
                }
                assert(sizes@ =~= s0 + run_sizes(t.runs@, i + 1));
                assert(strs(names@) =~= n0 + run_names(t.runs@, i + 1));
                i += 1;
            }
        },
        IrParagraph::Table(tt) => {
            let mut i: usize = 0;
            while i < tt.cells.len()
                invariant
                    i <= tt.cells.len(),
                    *p == IrParagraph::Table(*tt),
                    sizes@ == s0 + cells_sizes(tt.cells@, i as int),
                    strs(names@) == n0 + cells_names(tt.cells@, i as int),
                decreases tt.cells.len() - i,
            {
                let cell = &tt.cells[i];
                let ghost sc = sizes@;
                let ghost nc = strs(names@);
                let mut k: usize = 0;
                while k < cell.paragraphs.len()
                    invariant
                        k <= cell.paragraphs.len(),
                        *p == IrParagraph::Table(*tt),
                        i < tt.cells@.len(),
                        *cell == tt.cells@[i as int],
                        sizes@ == sc + paras_sizes(cell.paragraphs@, k as int),
                        strs(names@) == nc + paras_names(cell.paragraphs@, k as int),
                    decreases cell.paragraphs.len() - k,
                {
                    proof {
                        assert(decreases_to!(*p => (*p)->Table_0));
                        assert((*p)->Table_0 == *tt);
                        assert(decreases_to!(*tt => tt.cells));
                        assert(decreases_to!(tt.cells => tt.cells@));
                        assert(decreases_to!(tt.cells@ => tt.cells@[i as int]));
                        assert(decreases_to!(tt.cells@[i as int] => tt.cells@[i as int].paragraphs));
                        assert(decreases_to!(tt.cells@[i as int].paragraphs => tt.cells@[i as int].paragraphs@));
                        assert(decreases_to!(tt.cells@[i as int].paragraphs@ => tt.cells@[i as int].paragraphs@[k as int]));
                    }
                    collect_fonts(&cell.paragraphs[k], sizes, names);
                    assert(sizes@ =~= sc + paras_sizes(cell.paragraphs@, k + 1));
                    assert(strs(names@) =~= nc + paras_names(cell.paragraphs@, k + 1));
                    k += 1;
                }
                assert(sizes@ =~= s0 + cells_sizes(tt.cells@, i + 1));
                assert(strs(names@) =~= n0 + cells_names(tt.cells@, i + 1));
                i += 1;
            }
        },
    }
}

/// The default font size when a slice has none: 10 points.
pub open spec fn fallback_size() -> i64 {
    1000
}

/// `d` holds the defaults of paragraphs `ps` (see `compute_doc_defaults`).
pub open spec fn defaults_of(ps: Seq<IrParagraph>, d: DocDefaults) -> bool {
    &&& d.run.bold == Some(false)
    &&& d.run.italic == Some(false)
    &&& d.run.underline == Some(false)
    &&& d.run.strikethrough == Some(false)
    &&& text_of(d.run.color) == Some("#000000"@)
    &&& d.run.highlight is None
    &&& d.run.char_spacing == Some(0i32)
    &&& d.run.char_width == Some(100i32)
    &&& text_of(d.run.vertical_align) == Some("baseline"@)
    &&& d.run.font_size == Some(
        match mode_of(paras_sizes(ps, ps.len() as int)) {
            Some(x) => x,
            None => fallback_size(),
        },
    )
    &&& text_of(d.run.font_name) == Some(
        match mode_of(paras_names(ps, ps.len() as int)) {
            Some(x) => x,
            None => "맑은 고딕"@,
        },
    )
    &&& d.paragraph.align matches Some(a) && a@ == "left"@
    &&& d.paragraph.indent == Some(0i32)
    &&& d.paragraph.line_height == Some(160i32)
}

/// The defaults of a slice: plain black text at the baseline, no extra spacing, full width;
/// the most frequent font size (else 10 points) and font name (else 맑은 고딕) of its
/// runs, tables included; left-aligned paragraphs without indent at 160% line height.
pub fn compute_doc_defaults(ir: &IrSlice) -> (d: DocDefaults)
    ensures
        defaults_of(ir.paragraphs@, d),
{
    let mut sizes: Vec<i64> = Vec::new();
    let mut names: Vec<String> = Vec::new();
    let mut i: usize = 0;
    while i < ir.paragraphs.len()
        invariant
            i <= ir.paragraphs.len(),
            sizes@ == paras_sizes(ir.paragraphs@, i as int),
            strs(names@) == paras_names(ir.paragraphs@, i as int),
        decreases ir.paragraphs.len() - i,
    {
        collect_fonts(&ir.paragraphs[i], &mut sizes, &mut names);
        i += 1;
    }
    let font_size = match mode_size(&sizes) {
        Some(x) => x,
        None => 1000,
    };
    let font_name = match mode_name(&names) {
        Some(x) => x,
        None => String::from_str("맑은 고딕"),
    };
    DocDefaults {
        run: RunStyle {
            bold: Some(false),
            italic: Some(false),
            underline: Some(false),
            strikethrough: Some(false),
            color: Some(String::from_str("#000000")),
            highlight: None,
            font_size: Some(font_size),
            font_name: Some(font_name),
            char_spacing: Some(0),
            char_width: Some(100),
            vertical_align: Some(String::from_str("baseline")),
        },
        paragraph: ParagraphStyle {
            align: Some(String::from_str("left")),
            indent: Some(0),
            line_height: Some(160),
        },
    }
}

// ─── runs of equal style ────────────────────────────────────────────────

/// The content of an optional string.
pub open spec fn text_of(o: Option<String>) -> Option<Seq<char>> {
    match o {
        Some(s) => Some(s@),
        None => None,
    }
}

/// What a run style holds, its strings by content.
pub type StyleView = (
    (Option<bool>, Option<bool>, Option<bool>, Option<bool>),
    (Option<Seq<char>>, Option<Seq<char>>, Option<i64>, Option<Seq<char>>),
    (Option<i32>, Option<i32>, Option<Seq<char>>),
);

/// What a run style holds, its strings by content.
pub open spec fn style_view(s: RunStyle) -> StyleView {
    (
        (s.bold, s.italic, s.underline, s.strikethrough),
        (text_of(s.color), text_of(s.highlight), s.font_size, text_of(s.font_name)),
        (s.char_spacing, s.char_width, text_of(s.vertical_align)),
    )
}

fn same_text(a: &Option<String>, b: &Option<String>) -> (r: bool)
    ensures
        r == (text_of(*a) == text_of(*b)),
{
    match (a, b) {
        (None, None) => true,
        (Some(x), Some(y)) => str_eq(x.as_str(), y.as_str()),
        _ => false,
    }
}

fn copy_text(a: &Option<String>) -> (r: Option<String>)
    ensures
        text_of(r) == text_of(*a),
{
    match a {
        Some(x) => Some(x.clone()),
        None => None,
    }
}

/// Whether two run styles hold the same values.
pub fn same_style(a: &RunStyle, b: &RunStyle) -> (r: bool)
    ensures
        r == (style_view(*a) == style_view(*b)),
{
    a.bold == b.bold && a.italic == b.italic && a.underline == b.underline && a.strikethrough
        == b.strikethrough && same_text(&a.color, &b.color) && same_text(&a.highlight, &b.highlight)
        && a.font_size == b.font_size && same_text(&a.font_name, &b.font_name) && a.char_spacing
        == b.char_spacing && a.char_width == b.char_width && same_text(
        &a.vertical_align,
        &b.vertical_align,
    )
}

/// A copy of a run style.
pub fn copy_style(a: &RunStyle) -> (r: RunStyle)
    ensures
        style_view(r) == style_view(*a),
{
    RunStyle {
        bold: a.bold,
        italic: a.italic,
        underline: a.underline,
        strikethrough: a.strikethrough,
        color: copy_text(&a.color),
        highlight: copy_text(&a.highlight),
        font_size: a.font_size,
        font_name: copy_text(&a.font_name),
        char_spacing: a.char_spacing,
        char_width: a.char_width,
        vertical_align: copy_text(&a.vertical_align),
    }
}

/// The runs of the first `n` positions of per-character styles `st`: each a start and a
/// length, a new run starting wherever the style differs from the one before.
pub open spec fn segments<V>(st: Seq<V>, n: int) -> Seq<(int, int)>
    decreases n,
{
    if n <= 0 {
        Seq::empty()
    } else {
        let r = segments(st, n - 1);
        if n == 1 || st[n - 1] != st[n - 2] {
            r.push((n - 1, 1))
        } else {
            r.update(r.len() - 1, (r.last().0, r.last().1 + 1))
        }
    }
}

/// The views of a sequence of run styles.
pub open spec fn views_of(st: Seq<RunStyle>) -> Seq<StyleView> {
    Seq::new(st.len(), |i: int| style_view(st[i]))
}

/// `runs` are the runs of `text` under per-character style views `views`: for an empty
/// text one empty run in the first style; else one run per segment, with its start,
/// length, text and the style of its first character.
pub open spec fn runs_of(runs: Seq<IrRun>, text: Seq<char>, views: Seq<StyleView>) -> bool {
    if text.len() == 0 {
        &&& runs.len() == 1
        &&& runs[0].char_offset == 0
        &&& runs[0].length == 0
        &&& runs[0].text@.len() == 0
        &&& style_view(runs[0].style) == views[0]
    } else {
        let segs = segments(views, text.len() as int);
        &&& runs.len() == segs.len()
        &&& forall|j: int|
            0 <= j < runs.len() ==> {
                let (b, l) = #[trigger] segs[j];
                &&& runs[j].char_offset == b
                &&& runs[j].length == l
                &&& runs[j].text@ == text.subrange(b, b + l)
                &&& style_view(runs[j].style) == views[b]
            }
    }
}

proof fn lemma_segments_shape<V>(st: Seq<V>, n: int)
    requires
        0 < n,
    ensures
        segments(st, n).len() >= 1,
        segments(st, n).last().0 + segments(st, n).last().1 == n,
        0 <= segments(st, n).last().0 < n,
        segments(st, n).last().1 >= 1,
        forall|k: int| segments(st, n).last().0 <= k < n ==> #[trigger] st[k] == st[segments(st, n).last().0],
    decreases n,
{
    if n > 1 {
        lemma_segments_shape(st, n - 1);
    }
}

proof fn lemma_segments_props<V>(st: Seq<V>, n: int)
    requires
        0 < n <= st.len(),
    ensures
        segments(st, n).len() >= 1,
        segments(st, n)[0].0 == 0,
        segments(st, n).last().0 + segments(st, n).last().1 == n,
        forall|j: int| 0 <= j < segments(st, n).len() ==> (#[trigger] segments(st, n)[j]).1 >= 1,
        forall|j: int|
            0 <= j < segments(st, n).len() - 1 ==> (#[trigger] segments(st, n)[j]).0 + segments(st, n)[j].1
                == segments(st, n)[j + 1].0,
    decreases n,
{
    if n > 1 {
        lemma_segments_props(st, n - 1);
        let r = segments(st, n - 1);
        if st[n - 1] != st[n - 2] {
            assert(segments(st, n) == r.push((n - 1, 1)));
        } else {
            assert(segments(st, n) == r.update(r.len() - 1, (r.last().0, r.last().1 + 1)));
        }
    } else {
        assert(segments(st, 0) =~= Seq::<(int, int)>::empty());
    }
}

proof fn lemma_segments_differ<V>(st: Seq<V>, n: int)
    requires
        0 < n <= st.len(),
    ensures
        forall|j: int|
            0 <= j < segments(st, n).len() - 1 ==> st[(#[trigger] segments(st, n)[j + 1]).0] != st[segments(
                st,
                n,
            )[j].0],
    decreases n,
{
    if n > 1 {
        lemma_segments_differ(st, n - 1);
        lemma_segments_shape(st, n - 1);
        let r = segments(st, n - 1);
        if st[n - 1] != st[n - 2] {
            assert(segments(st, n) == r.push((n - 1, 1)));
            assert(st[n - 2] == st[r.last().0]);
            assert forall|j: int| 0 <= j < segments(st, n).len() - 1 implies st[(#[trigger] segments(
                st,
                n,
            )[j + 1]).0] != st[segments(st, n)[j].0] by {
                if j < r.len() - 1 {
                    assert(segments(st, n)[j + 1] == r[j + 1]);
                    assert(segments(st, n)[j] == r[j]);
                }
            }
        } else {
            let u = r.update(r.len() - 1, (r.last().0, r.last().1 + 1));
            assert(segments(st, n) == u);
            assert forall|j: int| 0 <= j < segments(st, n).len() - 1 implies st[(#[trigger] segments(
                st,
                n,
            )[j + 1]).0] != st[segments(st, n)[j].0] by {
                assert(u[j + 1].0 == r[j + 1].0);
                assert(u[j].0 == r[j].0);
                let _ = r[j + 1];
            }
        }
    } else {
        assert(segments(st, 0) =~= Seq::<(int, int)>::empty());
    }
}

proof fn lemma_runs_text_prefix(runs: Seq<IrRun>, text: Seq<char>, segs: Seq<(int, int)>, k: int)
    requires
        0 <= k <= runs.len(),
        runs.len() == segs.len(),
        segs.len() >= 1,
        segs[0].0 == 0,
        segs.last().0 + segs.last().1 == text.len(),
        forall|j: int| 0 <= j < segs.len() ==> (#[trigger] segs[j]).1 >= 1,
        forall|j: int| 0 <= j < segs.len() - 1 ==> (#[trigger] segs[j]).0 + segs[j].1 == segs[j + 1].0,
        forall|j: int|
            0 <= j < runs.len() ==> {
                let (b, l) = #[trigger] segs[j];
                &&& runs[j].text@ == text.subrange(b, b + l)
            },
    ensures
        k == 0 ==> crate::ir_outline::runs_text(runs, k) == Seq::<char>::empty(),
        k > 0 ==> crate::ir_outline::runs_text(runs, k) == text.subrange(0, segs[k - 1].0 + segs[k - 1].1),
        0 < k ==> segs[k - 1].0 + segs[k - 1].1 <= text.len(),
        0 <= segs[k - 1].0 || k == 0,
    decreases k,
{
    if k > 0 {
        lemma_segs_within(segs, text.len() as int, k - 1);
        lemma_runs_text_prefix(runs, text, segs, k - 1);
        let _ = segs[k - 1];
        if k > 1 {
            let _ = segs[k - 2];
        }
        assert(crate::ir_outline::runs_text(runs, k) =~= text.subrange(0, segs[k - 1].0 + segs[k - 1].1));
    }
}

proof fn lemma_segs_within(segs: Seq<(int, int)>, n: int, j: int)
    requires
        segs.len() >= 1,
        0 <= j < segs.len(),
        segs[0].0 == 0,
        segs.last().0 + segs.last().1 == n,
        forall|i: int| 0 <= i < segs.len() ==> (#[trigger] segs[i]).1 >= 1,
        forall|i: int| 0 <= i < segs.len() - 1 ==> (#[trigger] segs[i]).0 + segs[i].1 == segs[i + 1].0,
    ensures
        0 <= segs[j].0,
        segs[j].0 + segs[j].1 <= n,
    decreases segs.len() - j, 1int,
{
    lemma_segs_start(segs, j);
    if j < segs.len() - 1 {
        lemma_segs_within(segs, n, j + 1);
        let _ = segs[j];
        let _ = segs[j + 1];
    }
}

proof fn lemma_segs_start(segs: Seq<(int, int)>, j: int)
    requires
        segs.len() >= 1,
        0 <= j < segs.len(),
        segs[0].0 == 0,
        forall|i: int| 0 <= i < segs.len() ==> (#[trigger] segs[i]).1 >= 1,
        forall|i: int| 0 <= i < segs.len() - 1 ==> (#[trigger] segs[i]).0 + segs[i].1 == segs[i + 1].0,
    ensures
        0 <= segs[j].0,
    decreases j,
{
    if j > 0 {
        lemma_segs_start(segs, j - 1);
        let _ = segs[j - 1];
    }
}

proof fn lemma_run_offsets(runs: Seq<IrRun>, text: Seq<char>, views: Seq<StyleView>)
    requires
        views.len() == text.len(),
        text.len() > 0,
        runs_of(runs, text, views),
    ensures
        forall|j: int|
            0 <= j < runs.len() - 1 ==> #[trigger] runs[j + 1].char_offset == runs[j].char_offset
                + runs[j].length,
        runs[0].char_offset == 0,
{
    let segs = segments(views, text.len() as int);
    lemma_segments_props(views, text.len() as int);
    assert forall|j: int| 0 <= j < runs.len() - 1 implies #[trigger] runs[j + 1].char_offset
        == runs[j].char_offset + runs[j].length by {
        let _ = segs[j];
        let _ = segs[j + 1];
    }
    let _ = segs[0];
}

#[verifier::spinoff_prover]
proof fn lemma_run_styles(runs: Seq<IrRun>, text: Seq<char>, views: Seq<StyleView>)
    requires
        views.len() == text.len(),
        text.len() > 0,
        runs_of(runs, text, views),
    ensures
        forall|j: int|
            0 <= j < runs.len() - 1 ==> style_view(#[trigger] runs[j + 1].style) != style_view(runs[j].style),
{
    let segs = segments(views, text.len() as int);
    lemma_segments_props(views, text.len() as int);
    lemma_segments_differ(views, text.len() as int);
    assert forall|j: int| 0 <= j < runs.len() - 1 implies style_view(#[trigger] runs[j + 1].style)
        != style_view(runs[j].style) by {
        lemma_segs_within(segs, text.len() as int, j);
        lemma_segs_within(segs, text.len() as int, j + 1);
        let (b0, l0) = segs[j];
        let (b1, l1) = segs[j + 1];
        assert(style_view(runs[j].style) == views[b0]);
        assert(style_view(runs[j + 1].style) == views[b1]);
        assert(views[b1] != views[b0]);
    }
}

proof fn lemma_run_texts(runs: Seq<IrRun>, text: Seq<char>, views: Seq<StyleView>)
    requires
        views.len() == text.len(),
        text.len() > 0,
        runs_of(runs, text, views),
    ensures
        crate::ir_outline::runs_text(runs, runs.len() as int) == text,
{
    let segs = segments(views, text.len() as int);
    lemma_segments_props(views, text.len() as int);
    lemma_runs_text_prefix(runs, text, segs, runs.len() as int);
}

/// Runs partition their paragraph: together their texts are the text, the first starts
/// at 0 and each next one where the one before ends, and no two neighbours have the same
/// style.
pub proof fn law_runs_partition_text(runs: Seq<IrRun>, text: Seq<char>, views: Seq<StyleView>)
    requires
        views.len() == text.len(),
        text.len() > 0,
        runs_of(runs, text, views),
    ensures
        crate::ir_outline::runs_text(runs, runs.len() as int) == text,
        runs[0].char_offset == 0,
        forall|j: int|
            0 <= j < runs.len() - 1 ==> #[trigger] runs[j + 1].char_offset == runs[j].char_offset
                + runs[j].length,
        forall|j: int|
            0 <= j < runs.len() - 1 ==> style_view(#[trigger] runs[j + 1].style) != style_view(runs[j].style),
{
    lemma_run_offsets(runs, text, views);
    lemma_run_styles(runs, text, views);
    lemma_run_texts(runs, text, views);
}

/// Splits `text` (whose characters have the styles `styles`, one per character, or one
/// for an empty text) into runs of equal style, merging neighbours with the same style.
pub fn collect_runs(text: &str, styles: &Vec<RunStyle>) -> (runs: Vec<IrRun>)
    requires
        styles.len() == if text@.len() == 0 {
            1
        } else {
            text@.len()
        },
    ensures
        runs_of(runs@, text@, views_of(styles@)),
{
    let chars = crate::text::chars_of(text);
    let len = chars.len();
    if len == 0 {
        let r = IrRun { char_offset: 0, length: 0, text: String::new(), style: copy_style(&styles[0]) };
        return vec![r];
    }
    let ghost views = views_of(styles@);
    let mut runs: Vec<IrRun> = Vec::new();
    let mut run_start: usize = 0;
    let mut offset: usize = 1;
    assert(segments(views, 0) =~= Seq::<(int, int)>::empty());
    assert(segments(views, 1) =~= seq![(0int, 1int)]);
    while offset < len
        invariant
            chars@ == text@,
            len == chars@.len(),
            len == styles@.len(),
            views == views_of(styles@),
            1 <= offset <= len,
            run_start < offset,
            segments(views, offset as int).len() == runs@.len() + 1,
            segments(views, offset as int).last() == (run_start as int, offset - run_start),
            forall|j: int|
                0 <= j < runs@.len() ==> {
                    let (b, l) = #[trigger] segments(views, offset as int)[j];
                    &&& runs@[j].char_offset == b
                    &&& runs@[j].length == l
                    &&& runs@[j].text@ == text@.subrange(b, b + l)
                    &&& style_view(runs@[j].style) == views[b]
                },
        decreases len - offset,
    {
        proof {
            lemma_segments_shape(views, offset as int);
        }
        let ghost prev = segments(views, offset as int);
        if !same_style(&styles[offset], &styles[offset - 1]) {
            let piece = crate::text_ops::copy_range(&chars, run_start, offset);
            let r = IrRun {
                char_offset: run_start,
                length: offset - run_start,
                text: crate::text::string_from_chars(piece.as_slice()),
                style: copy_style(&styles[run_start]),
            };
            assert(style_view(r.style) == views[run_start as int]);
            runs.push(r);
            run_start = offset;
            assert(segments(views, offset + 1) == prev.push((offset as int, 1int)));
        } else {
            assert(segments(views, offset + 1) == prev.update(
                prev.len() - 1,
                (prev.last().0, prev.last().1 + 1),
            ));
        }
        offset += 1;
    }
    proof {
        lemma_segments_shape(views, len as int);
    }
    let piece = crate::text_ops::copy_range(&chars, run_start, len);
    let r = IrRun {
        char_offset: run_start,
        length: len - run_start,
        text: crate::text::string_from_chars(piece.as_slice()),
        style: copy_style(&styles[run_start]),
    };
    assert(style_view(r.style) == views[run_start as int]);
    runs.push(r);
    runs
}

// ─── served JSON of styles ──────────────────────────────────────────────

/// The member `key: s` when there is a string.
pub open spec fn text_member(key: Seq<char>, o: Option<Seq<char>>) -> Members {
    match o {
        Some(s) => seq![(key, JsonView::Str(s))],
        None => Seq::empty(),
    }
}

/// The member `key: i` when there is a number.
pub open spec fn int_member(key: Seq<char>, o: Option<int>) -> Members {
    match o {
        Some(i) => seq![(key, JsonView::Int(i))],
        None => Seq::empty(),
    }
}

/// An optional `i32` as an optional integer.
pub open spec fn oi32(o: Option<i32>) -> Option<int> {
    match o {
        Some(i) => Some(i as int),
        None => None,
    }
}

/// The member `key: b` when `s` holds a flag the defaults `d` do not hold.
pub open spec fn bool_diff(key: Seq<char>, s: Option<bool>, d: Option<bool>) -> Members {
    match s {
        Some(b) => if d == Some(b) {
            Seq::empty()
        } else {
            seq![(key, JsonView::Bool(b))]
        },
        None => Seq::empty(),
    }
}

/// The member `key: t` when `s` holds a string the defaults `d` do not hold.
pub open spec fn text_diff(key: Seq<char>, s: Option<Seq<char>>, d: Option<Seq<char>>) -> Members {
    match s {
        Some(t) => if d == Some(t) {
            Seq::empty()
        } else {
            seq![(key, JsonView::Str(t))]
        },
        None => Seq::empty(),
    }
}

/// The member `key: i` when `s` holds a number the defaults `d` do not hold.
pub open spec fn int_diff(key: Seq<char>, s: Option<i32>, d: Option<i32>) -> Members {
    match s {
        Some(i) => if d == Some(i) {
            Seq::empty()
        } else {
            seq![(key, JsonView::Int(i as int))]
        },
        None => Seq::empty(),
    }
}

/// The member `key: n/100` when `s` holds a size the defaults `d` do not hold.
pub open spec fn size_diff(key: Seq<char>, s: Option<i64>, d: Option<i64>) -> Members {
    match s {
        Some(n) => if d == Some(n) {
            Seq::empty()
        } else {
            seq![(key, JsonView::Hundredths(n as int))]
        },
        None => Seq::empty(),
    }
}

/// The served members of run style `s` (in key order) that differ from `d`: a member the
/// defaults lack, or hold with another value, stays.
pub open spec fn run_style_diff(s: RunStyle, d: RunStyle) -> Members {
    bool_diff("bold"@, s.bold, d.bold) + int_diff("char-spacing"@, s.char_spacing, d.char_spacing)
        + int_diff("char-width"@, s.char_width, d.char_width) + text_diff(
        "color"@,
        text_of(s.color),
        text_of(d.color),
    ) + text_diff("font-name"@, text_of(s.font_name), text_of(d.font_name)) + size_diff(
        "font-size"@,
        s.font_size,
        d.font_size,
    ) + text_diff("highlight"@, text_of(s.highlight), text_of(d.highlight)) + bool_diff(
        "italic"@,
        s.italic,
        d.italic,
    ) + bool_diff("strikethrough"@, s.strikethrough, d.strikethrough) + bool_diff(
        "underline"@,
        s.underline,
        d.underline,
    ) + text_diff("vertical-align"@, text_of(s.vertical_align), text_of(d.vertical_align))
}

/// `(a + b)` holds what `a` holds and what `b` holds.
proof fn lemma_members_contains(a: Members, b: Members, x: (Seq<char>, JsonView))
    ensures
        a.contains(x) ==> (a + b).contains(x),
        b.contains(x) ==> (a + b).contains(x),
{
    if a.contains(x) {
        let i = choose|i: int| 0 <= i < a.len() && a[i] == x;
        assert((a + b)[i] == x);
    }
    if b.contains(x) {
        let i = choose|i: int| 0 <= i < b.len() && b[i] == x;
        assert((a + b)[a.len() + i] == x);
    }
}

/// A property every member of `a` and of `b` has, every member of `a + b` has.
proof fn lemma_members_all(a: Members, b: Members, p: spec_fn((Seq<char>, JsonView)) -> bool)
    requires
        forall|i: int| 0 <= i < a.len() ==> p(#[trigger] a[i]),
        forall|i: int| 0 <= i < b.len() ==> p(#[trigger] b[i]),
    ensures
        forall|i: int| 0 <= i < (a + b).len() ==> p(#[trigger] (a + b)[i]),
{
    assert forall|i: int| 0 <= i < (a + b).len() implies p(#[trigger] (a + b)[i]) by {
        if i < a.len() {
            assert((a + b)[i] == a[i]);
        } else {
            assert((a + b)[i] == b[i - a.len()]);
        }
    }
}
/// A member of a compact run style is a key the style holds, with the style's value, where
/// the defaults hold another value or none.
pub open spec fn differs_from_defaults(s: RunStyle, d: RunStyle, m: (Seq<char>, JsonView)) -> bool {
    (m.0 == "bold"@ && s.bold is Some && d.bold != s.bold && m.1 == JsonView::Bool(s.bold->Some_0))
        || (m.0 == "char-spacing"@ && s.char_spacing is Some && d.char_spacing != s.char_spacing && m.1 == JsonView::Int(s.char_spacing->Some_0 as int))
        || (m.0 == "char-width"@ && s.char_width is Some && d.char_width != s.char_width && m.1 == JsonView::Int(s.char_width->Some_0 as int))
        || (m.0 == "color"@ && text_of(s.color) is Some && text_of(d.color) != text_of(s.color) && m.1 == JsonView::Str(text_of(s.color)->Some_0))
        || (m.0 == "font-name"@ && text_of(s.font_name) is Some && text_of(d.font_name) != text_of(s.font_name) && m.1 == JsonView::Str(text_of(s.font_name)->Some_0))
        || (m.0 == "font-size"@ && s.font_size is Some && d.font_size != s.font_size && m.1 == JsonView::Hundredths(s.font_size->Some_0 as int))
        || (m.0 == "highlight"@ && text_of(s.highlight) is Some && text_of(d.highlight) != text_of(s.highlight) && m.1 == JsonView::Str(text_of(s.highlight)->Some_0))
        || (m.0 == "italic"@ && s.italic is Some && d.italic != s.italic && m.1 == JsonView::Bool(s.italic->Some_0))
        || (m.0 == "strikethrough"@ && s.strikethrough is Some && d.strikethrough != s.strikethrough && m.1 == JsonView::Bool(s.strikethrough->Some_0))
        || (m.0 == "underline"@ && s.underline is Some && d.underline != s.underline && m.1 == JsonView::Bool(s.underline->Some_0))
        || (m.0 == "vertical-align"@ && text_of(s.vertical_align) is Some && text_of(d.vertical_align) != text_of(s.vertical_align) && m.1 == JsonView::Str(text_of(s.vertical_align)->Some_0))
}
/// Compacting a run style against the document defaults keeps every key whose value the
/// style holds and the defaults do not, with that value.
#[verifier::rlimit(40)]
pub proof fn law_compact_style_keeps_differences(s: RunStyle, d: RunStyle)
    ensures
        (s.bold is Some && d.bold != s.bold) ==> run_style_diff(s, d).contains(("bold"@, JsonView::Bool(s.bold->Some_0))),
        (s.char_spacing is Some && d.char_spacing != s.char_spacing) ==> run_style_diff(s, d).contains(("char-spacing"@, JsonView::Int(s.char_spacing->Some_0 as int))),
        (s.char_width is Some && d.char_width != s.char_width) ==> run_style_diff(s, d).contains(("char-width"@, JsonView::Int(s.char_width->Some_0 as int))),
        (text_of(s.color) is Some && text_of(d.color) != text_of(s.color)) ==> run_style_diff(s, d).contains(("color"@, JsonView::Str(text_of(s.color)->Some_0))),
        (text_of(s.font_name) is Some && text_of(d.font_name) != text_of(s.font_name)) ==> run_style_diff(s, d).contains(("font-name"@, JsonView::Str(text_of(s.font_name)->Some_0))),
        (s.font_size is Some && d.font_size != s.font_size) ==> run_style_diff(s, d).contains(("font-size"@, JsonView::Hundredths(s.font_size->Some_0 as int))),
        (text_of(s.highlight) is Some && text_of(d.highlight) != text_of(s.highlight)) ==> run_style_diff(s, d).contains(("highlight"@, JsonView::Str(text_of(s.highlight)->Some_0))),
        (s.italic is Some && d.italic != s.italic) ==> run_style_diff(s, d).contains(("italic"@, JsonView::Bool(s.italic->Some_0))),
        (s.strikethrough is Some && d.strikethrough != s.strikethrough) ==> run_style_diff(s, d).contains(("strikethrough"@, JsonView::Bool(s.strikethrough->Some_0))),
        (s.underline is Some && d.underline != s.underline) ==> run_style_diff(s, d).contains(("underline"@, JsonView::Bool(s.underline->Some_0))),
        (text_of(s.vertical_align) is Some && text_of(d.vertical_align) != text_of(s.vertical_align)) ==> run_style_diff(s, d).contains(("vertical-align"@, JsonView::Str(text_of(s.vertical_align)->Some_0))),
{
    let p1 = bool_diff("bold"@, s.bold, d.bold);
    let p2 = int_diff("char-spacing"@, s.char_spacing, d.char_spacing);
    let p3 = int_diff("char-width"@, s.char_width, d.char_width);
    let p4 = text_diff("color"@, text_of(s.color), text_of(d.color));
    let p5 = text_diff("font-name"@, text_of(s.font_name), text_of(d.font_name));
    let p6 = size_diff("font-size"@, s.font_size, d.font_size);
    let p7 = text_diff("highlight"@, text_of(s.highlight), text_of(d.highlight));
    let p8 = bool_diff("italic"@, s.italic, d.italic);
    let p9 = bool_diff("strikethrough"@, s.strikethrough, d.strikethrough);
    let p10 = bool_diff("underline"@, s.underline, d.underline);
    let p11 = text_diff("vertical-align"@, text_of(s.vertical_align), text_of(d.vertical_align));
    let q1 = p1;
    let q2 = q1 + p2;
    let q3 = q2 + p3;
    let q4 = q3 + p4;
    let q5 = q4 + p5;
    let q6 = q5 + p6;
    let q7 = q6 + p7;
    let q8 = q7 + p8;
    let q9 = q8 + p9;
    let q10 = q9 + p10;
    let q11 = q10 + p11;
    assert(run_style_diff(s, d) == q11);
    assert((s.bold is Some && d.bold != s.bold) ==> run_style_diff(s, d).contains(("bold"@, JsonView::Bool(s.bold->Some_0)))) by {
        if p1.len() > 0 {
            let x = ("bold"@, JsonView::Bool(s.bold->Some_0));
            assert(p1[0] == x);
            assert(p1.contains(x));
            lemma_members_contains(q1, p2, x);
            lemma_members_contains(q2, p3, x);
            lemma_members_contains(q3, p4, x);
            lemma_members_contains(q4, p5, x);
            lemma_members_contains(q5, p6, x);
            lemma_members_contains(q6, p7, x);
            lemma_members_contains(q7, p8, x);
            lemma_members_contains(q8, p9, x);
            lemma_members_contains(q9, p10, x);
            lemma_members_contains(q10, p11, x);
        }
    }
    assert((s.char_spacing is Some && d.char_spacing != s.char_spacing) ==> run_style_diff(s, d).contains(("char-spacing"@, JsonView::Int(s.char_spacing->Some_0 as int)))) by {
        if p2.len() > 0 {
            let x = ("char-spacing"@, JsonView::Int(s.char_spacing->Some_0 as int));
            assert(p2[0] == x);
            assert(p2.contains(x));
            lemma_members_contains(q1, p2, x);
            lemma_members_contains(q2, p3, x);
            lemma_members_contains(q3, p4, x);
            lemma_members_contains(q4, p5, x);
            lemma_members_contains(q5, p6, x);
            lemma_members_contains(q6, p7, x);
            lemma_members_contains(q7, p8, x);
            lemma_members_contains(q8, p9, x);
            lemma_members_contains(q9, p10, x);
            lemma_members_contains(q10, p11, x);
        }
    }
    assert((s.char_width is Some && d.char_width != s.char_width) ==> run_style_diff(s, d).contains(("char-width"@, JsonView::Int(s.char_width->Some_0 as int)))) by {
        if p3.len() > 0 {
            let x = ("char-width"@, JsonView::Int(s.char_width->Some_0 as int));
            assert(p3[0] == x);
            assert(p3.contains(x));
            lemma_members_contains(q2, p3, x);
            lemma_members_contains(q3, p4, x);
            lemma_members_contains(q4, p5, x);
            lemma_members_contains(q5, p6, x);
            lemma_members_contains(q6, p7, x);
            lemma_members_contains(q7, p8, x);
            lemma_members_contains(q8, p9, x);
            lemma_members_contains(q9, p10, x);
            lemma_members_contains(q10, p11, x);
        }
    }
    assert((text_of(s.color) is Some && text_of(d.color) != text_of(s.color)) ==> run_style_diff(s, d).contains(("color"@, JsonView::Str(text_of(s.color)->Some_0)))) by {
        if p4.len() > 0 {
            let x = ("color"@, JsonView::Str(text_of(s.color)->Some_0));
            assert(p4[0] == x);
            assert(p4.contains(x));
            lemma_members_contains(q3, p4, x);
            lemma_members_contains(q4, p5, x);
            lemma_members_contains(q5, p6, x);
            lemma_members_contains(q6, p7, x);
            lemma_members_contains(q7, p8, x);
            lemma_members_contains(q8, p9, x);
            lemma_members_contains(q9, p10, x);
            lemma_members_contains(q10, p11, x);
        }
    }
    assert((text_of(s.font_name) is Some && text_of(d.font_name) != text_of(s.font_name)) ==> run_style_diff(s, d).contains(("font-name"@, JsonView::Str(text_of(s.font_name)->Some_0)))) by {
        if p5.len() > 0 {
            let x = ("font-name"@, JsonView::Str(text_of(s.font_name)->Some_0));
            assert(p5[0] == x);
            assert(p5.contains(x));
            lemma_members_contains(q4, p5, x);
            lemma_members_contains(q5, p6, x);
            lemma_members_contains(q6, p7, x);
            lemma_members_contains(q7, p8, x);
            lemma_members_contains(q8, p9, x);
            lemma_members_contains(q9, p10, x);
            lemma_members_contains(q10, p11, x);
        }
    }
    assert((s.font_size is Some && d.font_size != s.font_size) ==> run_style_diff(s, d).contains(("font-size"@, JsonView::Hundredths(s.font_size->Some_0 as int)))) by {
        if p6.len() > 0 {
            let x = ("font-size"@, JsonView::Hundredths(s.font_size->Some_0 as int));
            assert(p6[0] == x);
            assert(p6.contains(x));
            lemma_members_contains(q5, p6, x);
            lemma_members_contains(q6, p7, x);
            lemma_members_contains(q7, p8, x);
            lemma_members_contains(q8, p9, x);
            lemma_members_contains(q9, p10, x);
            lemma_members_contains(q10, p11, x);
        }
    }
    assert((text_of(s.highlight) is Some && text_of(d.highlight) != text_of(s.highlight)) ==> run_style_diff(s, d).contains(("highlight"@, JsonView::Str(text_of(s.highlight)->Some_0)))) by {
        if p7.len() > 0 {
            let x = ("highlight"@, JsonView::Str(text_of(s.highlight)->Some_0));
            assert(p7[0] == x);
            assert(p7.contains(x));
            lemma_members_contains(q6, p7, x);
            lemma_members_contains(q7, p8, x);
            lemma_members_contains(q8, p9, x);
            lemma_members_contains(q9, p10, x);
            lemma_members_contains(q10, p11, x);
        }
    }
    assert((s.italic is Some && d.italic != s.italic) ==> run_style_diff(s, d).contains(("italic"@, JsonView::Bool(s.italic->Some_0)))) by {
        if p8.len() > 0 {
            let x = ("italic"@, JsonView::Bool(s.italic->Some_0));
            assert(p8[0] == x);
            assert(p8.contains(x));
            lemma_members_contains(q7, p8, x);
            lemma_members_contains(q8, p9, x);
            lemma_members_contains(q9, p10, x);
            lemma_members_contains(q10, p11, x);
        }
    }
    assert((s.strikethrough is Some && d.strikethrough != s.strikethrough) ==> run_style_diff(s, d).contains(("strikethrough"@, JsonView::Bool(s.strikethrough->Some_0)))) by {
        if p9.len() > 0 {
            let x = ("strikethrough"@, JsonView::Bool(s.strikethrough->Some_0));
            assert(p9[0] == x);
            assert(p9.contains(x));
            lemma_members_contains(q8, p9, x);
            lemma_members_contains(q9, p10, x);
            lemma_members_contains(q10, p11, x);
        }
    }
    assert((s.underline is Some && d.underline != s.underline) ==> run_style_diff(s, d).contains(("underline"@, JsonView::Bool(s.underline->Some_0)))) by {
        if p10.len() > 0 {
            let x = ("underline"@, JsonView::Bool(s.underline->Some_0));
            assert(p10[0] == x);
            assert(p10.contains(x));
            lemma_members_contains(q9, p10, x);
            lemma_members_contains(q10, p11, x);
        }
    }
    assert((text_of(s.vertical_align) is Some && text_of(d.vertical_align) != text_of(s.vertical_align)) ==> run_style_diff(s, d).contains(("vertical-align"@, JsonView::Str(text_of(s.vertical_align)->Some_0)))) by {
        if p11.len() > 0 {
            let x = ("vertical-align"@, JsonView::Str(text_of(s.vertical_align)->Some_0));
            assert(p11[0] == x);
            assert(p11.contains(x));
            lemma_members_contains(q10, p11, x);
        }
    }
}

/// Compacting a run style against the document defaults keeps nothing else: each member is a
/// key the style holds, with its value, where the defaults hold another value or none.
#[verifier::rlimit(40)]
pub proof fn law_compact_style_keeps_only_differences(s: RunStyle, d: RunStyle)
    ensures
        forall|i: int| 0 <= i < run_style_diff(s, d).len() ==> differs_from_defaults(s, d, #[trigger] run_style_diff(s, d)[i]),
{
    let p1 = bool_diff("bold"@, s.bold, d.bold);
    let p2 = int_diff("char-spacing"@, s.char_spacing, d.char_spacing);
    let p3 = int_diff("char-width"@, s.char_width, d.char_width);
    let p4 = text_diff("color"@, text_of(s.color), text_of(d.color));
    let p5 = text_diff("font-name"@, text_of(s.font_name), text_of(d.font_name));
    let p6 = size_diff("font-size"@, s.font_size, d.font_size);
    let p7 = text_diff("highlight"@, text_of(s.highlight), text_of(d.highlight));
    let p8 = bool_diff("italic"@, s.italic, d.italic);
    let p9 = bool_diff("strikethrough"@, s.strikethrough, d.strikethrough);
    let p10 = bool_diff("underline"@, s.underline, d.underline);
    let p11 = text_diff("vertical-align"@, text_of(s.vertical_align), text_of(d.vertical_align));
    let q1 = p1;
    let q2 = q1 + p2;
    let q3 = q2 + p3;
    let q4 = q3 + p4;
    let q5 = q4 + p5;
    let q6 = q5 + p6;
    let q7 = q6 + p7;
    let q8 = q7 + p8;
    let q9 = q8 + p9;
    let q10 = q9 + p10;
    let q11 = q10 + p11;
    assert(run_style_diff(s, d) == q11);
    let ok = |m: (Seq<char>, JsonView)| differs_from_defaults(s, d, m);
    assert forall|i: int| 0 <= i < p1.len() implies ok(#[trigger] p1[i]) by {}
    assert forall|i: int| 0 <= i < p2.len() implies ok(#[trigger] p2[i]) by {}
    assert forall|i: int| 0 <= i < p3.len() implies ok(#[trigger] p3[i]) by {}
    assert forall|i: int| 0 <= i < p4.len() implies ok(#[trigger] p4[i]) by {}
    assert forall|i: int| 0 <= i < p5.len() implies ok(#[trigger] p5[i]) by {}
    assert forall|i: int| 0 <= i < p6.len() implies ok(#[trigger] p6[i]) by {}
    assert forall|i: int| 0 <= i < p7.len() implies ok(#[trigger] p7[i]) by {}
    assert forall|i: int| 0 <= i < p8.len() implies ok(#[trigger] p8[i]) by {}
    assert forall|i: int| 0 <= i < p9.len() implies ok(#[trigger] p9[i]) by {}
    assert forall|i: int| 0 <= i < p10.len() implies ok(#[trigger] p10[i]) by {}
    assert forall|i: int| 0 <= i < p11.len() implies ok(#[trigger] p11[i]) by {}
    lemma_members_all(q1, p2, ok);
    lemma_members_all(q2, p3, ok);
    lemma_members_all(q3, p4, ok);
    lemma_members_all(q4, p5, ok);
    lemma_members_all(q5, p6, ok);
    lemma_members_all(q6, p7, ok);
    lemma_members_all(q7, p8, ok);
    lemma_members_all(q8, p9, ok);
    lemma_members_all(q9, p10, ok);
    lemma_members_all(q10, p11, ok);
}

fn push_bool_diff(ms: &mut Vec<JsonMember>, key: &str, s: Option<bool>, d: Option<bool>)
    ensures
        object_view(final(ms)@) == object_view(old(ms)@) + bool_diff(key@, s, d),
{
    let ghost o = object_view(ms@);
    if let Some(b) = s {
        let same = match d {
            Some(x) => x == b,
            None => false,
        };
        if !same {
            push_member(ms, key, JsonValue::Bool(b));
        }
    }
    assert(object_view(ms@) =~= o + bool_diff(key@, s, d));
}

fn push_text_diff(ms: &mut Vec<JsonMember>, key: &str, s: &Option<String>, d: &Option<String>)
    ensures
        object_view(final(ms)@) == object_view(old(ms)@) + text_diff(key@, text_of(*s), text_of(*d)),
{
    let ghost o = object_view(ms@);
    if let Some(t) = s {
        let same = match d {
            Some(x) => str_eq(x.as_str(), t.as_str()),
            None => false,
        };
        if !same {
            push_member(ms, key, JsonValue::Str(t.clone()));
        }
    }
    assert(object_view(ms@) =~= o + text_diff(key@, text_of(*s), text_of(*d)));
}

fn push_int_diff(ms: &mut Vec<JsonMember>, key: &str, s: Option<i32>, d: Option<i32>)
    ensures
        object_view(final(ms)@) == object_view(old(ms)@) + int_diff(key@, s, d),
{
    let ghost o = object_view(ms@);
    if let Some(i) = s {
        let same = match d {
            Some(x) => x == i,
            None => false,
        };
        if !same {
            push_member(ms, key, JsonValue::Int(i as i64));
        }
    }
    assert(object_view(ms@) =~= o + int_diff(key@, s, d));
}

fn push_size_diff(ms: &mut Vec<JsonMember>, key: &str, s: Option<i64>, d: Option<i64>)
    ensures
        object_view(final(ms)@) == object_view(old(ms)@) + size_diff(key@, s, d),
{
    let ghost o = object_view(ms@);
    if let Some(n) = s {
        let same = match d {
            Some(x) => x == n,
            None => false,
        };
        if !same {
            push_member(ms, key, JsonValue::Hundredths(n));
        }
    }
    assert(object_view(ms@) =~= o + size_diff(key@, s, d));
}

/// The served members of `style` that differ from `defaults` (see `run_style_diff`), as
/// an object; `None` when nothing differs.
pub fn omit_run_style_defaults(style: &RunStyle, defaults: &RunStyle) -> (r: Option<JsonValue>)
    ensures
        match r {
            Some(v) => run_style_diff(*style, *defaults).len() > 0 && v@ == JsonView::Object(
                run_style_diff(*style, *defaults),
            ),
            None => run_style_diff(*style, *defaults).len() == 0,
        },
{
    let mut ms: Vec<JsonMember> = Vec::new();
    proof {
        lemma_members_view(ms@, 0);
    }
    let ghost o0 = object_view(ms@);
    assert(o0 =~= Seq::<(Seq<char>, JsonView)>::empty());
    push_bool_diff(&mut ms, "bold", style.bold, defaults.bold);
    push_int_diff(&mut ms, "char-spacing", style.char_spacing, defaults.char_spacing);
    push_int_diff(&mut ms, "char-width", style.char_width, defaults.char_width);
    push_text_diff(&mut ms, "color", &style.color, &defaults.color);
    push_text_diff(&mut ms, "font-name", &style.font_name, &defaults.font_name);
    push_size_diff(&mut ms, "font-size", style.font_size, defaults.font_size);
    push_text_diff(&mut ms, "highlight", &style.highlight, &defaults.highlight);
    push_bool_diff(&mut ms, "italic", style.italic, defaults.italic);
    push_bool_diff(&mut ms, "strikethrough", style.strikethrough, defaults.strikethrough);
    push_bool_diff(&mut ms, "underline", style.underline, defaults.underline);
    push_text_diff(&mut ms, "vertical-align", &style.vertical_align, &defaults.vertical_align);
    assert(object_view(ms@) =~= run_style_diff(*style, *defaults));
    proof {
        lemma_members_view(ms@, ms@.len() as int);
    }
    if ms.len() == 0 {
        None
    } else {
        Some(JsonValue::Object(ms))
    }
}

/// A border line as served: its colour, kind and width, where set.
pub open spec fn border_spec_json(v: (Option<u8>, Option<i32>, Option<Seq<char>>)) -> JsonView {
    JsonView::Object(
        text_member("color"@, v.2) + int_member(
            "type"@,
            match v.0 {
                Some(t) => Some(t as int),
                None => None,
            },
        ) + int_member("width"@, oi32(v.1)),
    )
}

/// The member `key` holding a border line, when there is one.
pub open spec fn line_member(key: Seq<char>, o: Option<(Option<u8>, Option<i32>, Option<Seq<char>>)>) -> Members {
    match o {
        Some(x) => seq![(key, border_spec_json(x))],
        None => Seq::empty(),
    }
}

/// A border as served from its five entries (left, right, top, bottom, all), in key order.
pub open spec fn border_json(e: Seq<Option<(Option<u8>, Option<i32>, Option<Seq<char>>)>>) -> JsonView {
    JsonView::Object(
        line_member("all"@, e[4]) + line_member("bottom"@, e[3]) + line_member("left"@, e[0])
            + line_member("right"@, e[1]) + line_member("top"@, e[2]),
    )
}

/// A cell's style as served in compact form: background, border in its shorthand (none
/// when no side is set), height, vertical alignment and width, where set.
pub open spec fn compact_cell_style(st: CellStyle) -> Members {
    text_member("bgcolor"@, text_of(st.bgcolor)) + (match st.border {
        Some(b) => match compacted(b) {
            Some(e) => seq![("border"@, border_json(e))],
            None => Seq::empty(),
        },
        None => Seq::empty(),
    }) + int_member("height"@, oi32(st.height)) + text_member(
        "vertical-align"@,
        text_of(st.vertical_align),
    ) + int_member("width"@, oi32(st.width))
}

fn push_text(ms: &mut Vec<JsonMember>, key: &str, s: &Option<String>)
    ensures
        object_view(final(ms)@) == object_view(old(ms)@) + text_member(key@, text_of(*s)),
{
    let ghost o = object_view(ms@);
    if let Some(t) = s {
        push_member(ms, key, JsonValue::Str(t.clone()));
    }
    assert(object_view(ms@) =~= o + text_member(key@, text_of(*s)));
}

fn push_int(ms: &mut Vec<JsonMember>, key: &str, s: Option<i32>)
    ensures
        object_view(final(ms)@) == object_view(old(ms)@) + int_member(key@, oi32(s)),
{
    let ghost o = object_view(ms@);
    if let Some(i) = s {
        push_member(ms, key, JsonValue::Int(i as i64));
    }
    assert(object_view(ms@) =~= o + int_member(key@, oi32(s)));
}

fn spec_json(b: &CellBorderSpec) -> (v: JsonValue)
    ensures
        v@ == border_spec_json(crate::ir_compact::spec_view(*b)),
{
    let mut ms: Vec<JsonMember> = Vec::new();
    proof {
        lemma_members_view(ms@, 0);
    }
    assert(object_view(ms@) =~= Seq::<(Seq<char>, JsonView)>::empty());
    push_text(&mut ms, "color", &b.color);
    let ghost o = object_view(ms@);
    if let Some(t) = b.border_type {
        push_member(&mut ms, "type", JsonValue::Int(t as i64));
    }
    push_int(&mut ms, "width", b.width);
    assert(object_view(ms@) =~= border_spec_json(crate::ir_compact::spec_view(*b))->Object_0);
    proof {
        lemma_members_view(ms@, ms@.len() as int);
    }
    JsonValue::Object(ms)
}

fn push_line(ms: &mut Vec<JsonMember>, key: &str, s: &Option<CellBorderSpec>)
    ensures
        object_view(final(ms)@) == object_view(old(ms)@) + line_member(
            key@,
            crate::ir_compact::opt_spec_view(*s),
        ),
{
    let ghost o = object_view(ms@);
    if let Some(b) = s {
        push_member(ms, key, spec_json(b));
    }
    assert(object_view(ms@) =~= o + line_member(key@, crate::ir_compact::opt_spec_view(*s)));
}

/// The served members of a cell style in compact form (see `compact_cell_style`).
pub fn compact_cell_style_json(st: &CellStyle) -> (ms: Vec<JsonMember>)
    ensures
        object_view(ms@) == compact_cell_style(*st),
{
    let mut ms: Vec<JsonMember> = Vec::new();
    proof {
        lemma_members_view(ms@, 0);
    }
    assert(object_view(ms@) =~= Seq::<(Seq<char>, JsonView)>::empty());
    push_text(&mut ms, "bgcolor", &st.bgcolor);
    let ghost o1 = object_view(ms@);
    if let Some(b) = &st.border {
        if let Some(c) = crate::ir_compact::compact_border(b) {
            let mut bm: Vec<JsonMember> = Vec::new();
            proof {
                lemma_members_view(bm@, 0);
            }
            assert(object_view(bm@) =~= Seq::<(Seq<char>, JsonView)>::empty());
            push_line(&mut bm, "all", &c.all);
            push_line(&mut bm, "bottom", &c.bottom);
            push_line(&mut bm, "left", &c.left);
            push_line(&mut bm, "right", &c.right);
            push_line(&mut bm, "top", &c.top);
            proof {
                lemma_members_view(bm@, bm@.len() as int);
            }
            let ghost e = crate::ir_compact::border_view(c);
            assert(object_view(bm@) =~= border_json(e)->Object_0);
            push_member(&mut ms, "border", JsonValue::Object(bm));
        }
    }
    assert(object_view(ms@) =~= o1 + match st.border {
        Some(b) => match compacted(b) {
            Some(e) => seq![("border"@, border_json(e))],
            None => Seq::<(Seq<char>, JsonView)>::empty(),
        },
        None => Seq::<(Seq<char>, JsonView)>::empty(),
    });
    push_int(&mut ms, "height", st.height);
    push_text(&mut ms, "vertical-align", &st.vertical_align);
    push_int(&mut ms, "width", st.width);
    assert(object_view(ms@) =~= compact_cell_style(*st));
    ms
}

// ─── compact form ───────────────────────────────────────────────────────

/// A slice in compact form: its metadata, its paragraphs as compact JSON, and the defaults
/// the styles in them are measured against.
#[derive(Debug)]
pub struct CompactIrSlice {
    pub doc_meta: IrDocMeta,
    pub paragraphs: Vec<JsonValue>,
    pub defaults: DocDefaults,
}

/// A run in compact form: its start (left out for a first run that starts at 0), its
/// style members that differ from the defaults (when there are any), and its text.
pub open spec fn compact_run_view(r: IrRun, d: RunStyle, is_first: bool) -> JsonView {
    let diff = run_style_diff(r.style, d);
    JsonView::Object(
        (if is_first && r.char_offset == 0 {
            Seq::empty()
        } else {
            seq![("char_offset"@, JsonView::Int(r.char_offset as int))]
        }) + (if diff.len() > 0 {
            seq![("style"@, JsonView::Object(diff))]
        } else {
            Seq::empty()
        }) + seq![("text"@, JsonView::Str(r.text@))],
    )
}

/// Whether a text paragraph is served by its text alone: one run, styled as the defaults.
pub open spec fn flat_text(t: IrTextParagraph, d: RunStyle) -> bool {
    t.runs@.len() == 1 && run_style_diff(t.runs@[0].style, d).len() == 0
}

/// A text paragraph in compact form: its locator, page-break marker, index, runs (or, for
/// one run styled as the defaults, its text alone), section (unless left out), and the
/// paragraph-style members that differ from the defaults. No id and no type.
pub open spec fn compact_text_view(t: IrTextParagraph, d: DocDefaults, omit_sec: bool) -> JsonView {
    let runs = Seq::new(t.runs@.len(), |i: int| compact_run_view(t.runs@[i], d.run, i == 0));
    let ps = style_diff(t.style, d.paragraph);
    let flat = flat_text(t, d.run);
    JsonView::Object(
        locator_member(t.cell_locator) + flag_member("page_break"@, t.page_break == Some(true)) + seq![
            ("para"@, JsonView::Int(t.para as int)),
        ] + (if flat {
            Seq::empty()
        } else {
            seq![("runs"@, JsonView::Array(runs))]
        }) + (if omit_sec {
            Seq::empty()
        } else {
            seq![("sec"@, JsonView::Int(t.sec as int))]
        }) + (if ps.len() > 0 {
            seq![("style"@, JsonView::Object(ps))]
        } else {
            Seq::empty()
        }) + (if flat {
            seq![("text"@, JsonView::Str(t.runs@[0].text@))]
        } else {
            Seq::empty()
        }),
    )
}

/// A cell in compact form, given its paragraphs' compact forms: column, column span,
/// paragraphs, row, row span, and its style (border in shorthand) when it has any.
pub open spec fn cell_view(c: IrTableCell, paras: Seq<JsonView>) -> JsonView {
    let st = compact_cell_style(c.style);
    JsonView::Object(
        seq![("col"@, JsonView::Int(c.col as int))] + match c.col_span {
            Some(x) => seq![("col_span"@, JsonView::Int(x as int))],
            None => Seq::empty(),
        } + seq![("paragraphs"@, JsonView::Array(paras)), ("row"@, JsonView::Int(c.row as int))]
            + match c.row_span {
            Some(x) => seq![("row_span"@, JsonView::Int(x as int))],
            None => Seq::empty(),
        } + if st.len() > 0 {
            seq![("style"@, JsonView::Object(st))]
        } else {
            Seq::empty()
        },
    )
}

/// A table in compact form, given its cells' compact forms: cells, columns, index, rows,
/// section (unless left out) and type `table`. No id.
pub open spec fn table_view(tt: IrTableParagraph, cells: Seq<JsonView>, omit_sec: bool) -> JsonView {
    JsonView::Object(
        seq![
            ("cells"@, JsonView::Array(cells)),
            ("cols"@, JsonView::Int(tt.cols as int)),
            ("para"@, JsonView::Int(tt.para as int)),
            ("rows"@, JsonView::Int(tt.rows as int)),
        ] + (if omit_sec {
            Seq::empty()
        } else {
            seq![("sec"@, JsonView::Int(tt.sec as int))]
        }) + seq![("type"@, JsonView::Str("table"@))],
    )
}

/// A paragraph in compact form: a text paragraph as `compact_text_view`, a table as
/// `table_view` over its cells, each as `cell_view` over its paragraphs.
pub open spec fn compact_para(p: IrParagraph, d: DocDefaults, omit_sec: bool) -> JsonView
    decreases p, 0int,
{
    match p {
        IrParagraph::Text(t) => compact_text_view(t, d, omit_sec),
        IrParagraph::Table(tt) => {
            proof {
                assert(decreases_to!(p => tt));
                assert(decreases_to!(tt => tt.cells));
                assert(decreases_to!(tt.cells => tt.cells@));
            }
            table_view(tt, compact_cells(tt.cells@, tt.cells@.len() as int, d, omit_sec), omit_sec)
        },
    }
}

/// The compact forms of the first `n` cells.
pub open spec fn compact_cells(cells: Seq<IrTableCell>, n: int, d: DocDefaults, omit_sec: bool) -> Seq<JsonView>
    decreases cells, n,
{
    if n <= 0 || n > cells.len() {
        Seq::empty()
    } else {
        proof {
            assert(decreases_to!(cells => cells[n - 1]));
            assert(decreases_to!(cells[n - 1] => cells[n - 1].paragraphs));
            assert(decreases_to!(cells[n - 1].paragraphs => cells[n - 1].paragraphs@));
        }
        compact_cells(cells, n - 1, d, omit_sec).push(
            cell_view(
                cells[n - 1],
                compact_paras(cells[n - 1].paragraphs@, cells[n - 1].paragraphs@.len() as int, d, omit_sec),
            ),
        )
    }
}

/// The compact forms of the first `n` paragraphs.
pub open spec fn compact_paras(ps: Seq<IrParagraph>, n: int, d: DocDefaults, omit_sec: bool) -> Seq<JsonView>
    decreases ps, n,
{
    if n <= 0 || n > ps.len() {
        Seq::empty()
    } else {
        compact_paras(ps, n - 1, d, omit_sec).push(compact_para(ps[n - 1], d, omit_sec))
    }
}

/// A run in compact form (see `compact_run_view`).
pub fn compact_run(run: &IrRun, defaults: &DocDefaults, is_first: bool) -> (v: JsonValue)
    ensures
        v@ == compact_run_view(*run, defaults.run, is_first),
{
    let style = omit_run_style_defaults(&run.style, &defaults.run);
    let mut ms: Vec<JsonMember> = Vec::new();
    proof {
        lemma_members_view(ms@, 0);
    }
    assert(object_view(ms@) =~= Seq::<(Seq<char>, JsonView)>::empty());
    if !(is_first && run.char_offset == 0) {
        push_member(&mut ms, "char_offset", uint(run.char_offset));
    }
    let ghost o1 = object_view(ms@);
    if let Some(st) = style {
        push_member(&mut ms, "style", st);
    }
    push_member(&mut ms, "text", JsonValue::Str(run.text.clone()));
    assert(object_view(ms@) =~= compact_run_view(*run, defaults.run, is_first)->Object_0);
    proof {
        lemma_members_view(ms@, ms@.len() as int);
    }
    JsonValue::Object(ms)
}

/// A text paragraph in compact form (see `compact_text_view`).
pub fn compact_text(p: &IrTextParagraph, defaults: &DocDefaults, omit_sec: bool) -> (v: JsonValue)
    ensures
        v@ == compact_text_view(*p, *defaults, omit_sec),
{
    let ghost rv = Seq::new(p.runs@.len(), |k: int| compact_run_view(p.runs@[k], defaults.run, k == 0));
    let mut runs: Vec<JsonValue> = Vec::new();
    let mut i: usize = 0;
    while i < p.runs.len()
        invariant
            i <= p.runs.len(),
            rv == Seq::new(p.runs@.len(), |k: int| compact_run_view(p.runs@[k], defaults.run, k == 0)),
            runs@.len() == i,
            forall|j: int| 0 <= j < i ==> #[trigger] runs@[j]@ == rv[j],
        decreases p.runs.len() - i,
    {
        let r = compact_run(&p.runs[i], defaults, i == 0);
        runs.push(r);
        i += 1;
    }
    assert(crate::json::vals(runs@) =~= rv);
    let para_style = omit_para_style_defaults(&p.style, &defaults.paragraph);
    let flat = p.runs.len() == 1 && omit_run_style_defaults(&p.runs[0].style, &defaults.run).is_none();
    let mut ms: Vec<JsonMember> = Vec::new();
    proof {
        lemma_members_view(ms@, 0);
    }
    assert(object_view(ms@) =~= Seq::<(Seq<char>, JsonView)>::empty());
    if let Some(cl) = &p.cell_locator {
        push_member(&mut ms, "cell_locator", locator_json(cl));
    }
    let ghost o1 = object_view(ms@);
    assert(o1 =~= locator_member(p.cell_locator));
    if p.page_break == Some(true) {
        push_member(&mut ms, "page_break", JsonValue::Bool(true));
    }
    let ghost o2 = object_view(ms@);
    assert(o2 =~= o1 + flag_member("page_break"@, p.page_break == Some(true)));
    push_member(&mut ms, "para", JsonValue::Int(p.para));
    let ghost o3 = object_view(ms@);
    if !flat {
        proof {
            crate::json::lemma_items_vals(runs@);
        }
        push_member(&mut ms, "runs", JsonValue::Array(runs));
    }
    let ghost o4 = object_view(ms@);
    assert(o4 =~= o3 + (if flat {
        Seq::<(Seq<char>, JsonView)>::empty()
    } else {
        seq![("runs"@, JsonView::Array(rv))]
    }));
    if !omit_sec {
        push_member(&mut ms, "sec", uint(p.sec));
    }
    let ghost o5 = object_view(ms@);
    if let Some(st) = para_style {
        push_member(&mut ms, "style", st);
    }
    let ghost o6 = object_view(ms@);
    if flat {
        push_member(&mut ms, "text", JsonValue::Str(p.runs[0].text.clone()));
    }
    assert(object_view(ms@) =~= compact_text_view(*p, *defaults, omit_sec)->Object_0);
    proof {
        lemma_members_view(ms@, ms@.len() as int);
    }
    JsonValue::Object(ms)
}

/// A cell in compact form (see `cell_view`): its paragraphs recursively, its style with the
/// border in shorthand.
pub fn compact_cell(cell: &IrTableCell, defaults: &DocDefaults, omit_sec: bool) -> (v: JsonValue)
    ensures
        v@ == cell_view(
            *cell,
            compact_paras(cell.paragraphs@, cell.paragraphs@.len() as int, *defaults, omit_sec),
        ),
    decreases *cell, 1int,
{
    let mut paras: Vec<JsonValue> = Vec::new();
    let mut k: usize = 0;
    while k < cell.paragraphs.len()
        invariant
            k <= cell.paragraphs.len(),
            crate::json::vals(paras@) == compact_paras(cell.paragraphs@, k as int, *defaults, omit_sec),
        decreases cell.paragraphs.len() - k,
    {
        proof {
            assert(decreases_to!(*cell => cell.paragraphs));
            assert(decreases_to!(cell.paragraphs => cell.paragraphs@));
            assert(decreases_to!(cell.paragraphs@ => cell.paragraphs@[k as int]));
        }
        let v = compact_paragraph(&cell.paragraphs[k], defaults, omit_sec);
        let ghost before = paras@;
        paras.push(v);
        assert(crate::json::vals(paras@) =~= crate::json::vals(before).push(v@));
        k += 1;
    }
    let st = compact_cell_style_json(&cell.style);
    let mut ms: Vec<JsonMember> = Vec::new();
    proof {
        lemma_members_view(ms@, 0);
        crate::json::lemma_items_vals(paras@);
    }
    assert(object_view(ms@) =~= Seq::<(Seq<char>, JsonView)>::empty());
    push_member(&mut ms, "col", JsonValue::Int(cell.col as i64));
    let ghost o1 = object_view(ms@);
    if let Some(x) = cell.col_span {
        push_member(&mut ms, "col_span", JsonValue::Int(x as i64));
    }
    let ghost o2 = object_view(ms@);
    push_member(&mut ms, "paragraphs", JsonValue::Array(paras));
    push_member(&mut ms, "row", JsonValue::Int(cell.row as i64));
    let ghost o3 = object_view(ms@);
    if let Some(x) = cell.row_span {
        push_member(&mut ms, "row_span", JsonValue::Int(x as i64));
    }
    let ghost o4 = object_view(ms@);
    proof {
        lemma_members_view(st@, st@.len() as int);
    }
    if st.len() > 0 {
        push_member(&mut ms, "style", JsonValue::Object(st));
    }
    assert(object_view(ms@) =~= cell_view(
        *cell,
        compact_paras(cell.paragraphs@, cell.paragraphs@.len() as int, *defaults, omit_sec),
    )->Object_0);
    proof {
        lemma_members_view(ms@, ms@.len() as int);
    }
    JsonValue::Object(ms)
}

/// A table in compact form (see `table_view`): its cells recursively.
pub fn compact_table(p: &IrTableParagraph, defaults: &DocDefaults, omit_sec: bool) -> (v: JsonValue)
    ensures
        v@ == table_view(*p, compact_cells(p.cells@, p.cells@.len() as int, *defaults, omit_sec), omit_sec),
    decreases *p, 2int,
{
    let mut cells: Vec<JsonValue> = Vec::new();
    let mut i: usize = 0;
    while i < p.cells.len()
        invariant
            i <= p.cells.len(),
            crate::json::vals(cells@) == compact_cells(p.cells@, i as int, *defaults, omit_sec),
        decreases p.cells.len() - i,
    {
        proof {
            assert(decreases_to!(*p => p.cells));
            assert(decreases_to!(p.cells => p.cells@));
            assert(decreases_to!(p.cells@ => p.cells@[i as int]));
        }
        let v = compact_cell(&p.cells[i], defaults, omit_sec);
        let ghost before = cells@;
        cells.push(v);
        assert(crate::json::vals(cells@) =~= crate::json::vals(before).push(v@));
        i += 1;
    }
    let mut ms: Vec<JsonMember> = Vec::new();
    proof {
        lemma_members_view(ms@, 0);
        crate::json::lemma_items_vals(cells@);
    }
    assert(object_view(ms@) =~= Seq::<(Seq<char>, JsonView)>::empty());
    push_member(&mut ms, "cells", JsonValue::Array(cells));
    push_member(&mut ms, "cols", JsonValue::Int(p.cols as i64));
    push_member(&mut ms, "para", uint(p.para));
    push_member(&mut ms, "rows", JsonValue::Int(p.rows as i64));
    let ghost o1 = object_view(ms@);
    if !omit_sec {
        push_member(&mut ms, "sec", uint(p.sec));
    }
    let ghost o2 = object_view(ms@);
    push_member(&mut ms, "type", JsonValue::Str(String::from_str("table")));
    assert(object_view(ms@) =~= table_view(
        *p,
        compact_cells(p.cells@, p.cells@.len() as int, *defaults, omit_sec),
        omit_sec,
    )->Object_0);
    proof {
        lemma_members_view(ms@, ms@.len() as int);
    }
    JsonValue::Object(ms)
}

/// A paragraph in compact form (see `compact_para`).
pub fn compact_paragraph(p: &IrParagraph, defaults: &DocDefaults, omit_sec: bool) -> (v: JsonValue)
    ensures
        v@ == compact_para(*p, *defaults, omit_sec),
    decreases *p, 3int,
{
    match p {
        IrParagraph::Text(t) => compact_text(t, defaults, omit_sec),
        IrParagraph::Table(tt) => {
            proof {
                assert(decreases_to!(*p => (*p)->Table_0));
            }
            compact_table(tt, defaults, omit_sec)
        },
    }
}

/// The section of a paragraph.
pub open spec fn para_sec(p: IrParagraph) -> usize {
    match p {
        IrParagraph::Text(t) => t.sec,
        IrParagraph::Table(tt) => tt.sec,
    }
}

/// All paragraphs lie in one section (or there are none).
pub open spec fn one_section(ps: Seq<IrParagraph>) -> bool {
    forall|i: int, j: int| 0 <= i < ps.len() && 0 <= j < ps.len() ==> para_sec(#[trigger] ps[i]) == para_sec(
        #[trigger] ps[j],
    )
}

fn sec_of(p: &IrParagraph) -> (s: usize)
    ensures
        s == para_sec(*p),
{
    match p {
        IrParagraph::Text(t) => t.sec,
        IrParagraph::Table(tt) => tt.sec,
    }
}

/// `c` is the compact form of `ir` (see `compact_ir_slice`).
pub open spec fn compacted_slice(c: CompactIrSlice, ir: IrSlice) -> bool {
    &&& c.doc_meta == ir.doc_meta
    &&& defaults_of(ir.paragraphs@, c.defaults)
    &&& crate::json::vals(c.paragraphs@) == compact_paras(
        ir.paragraphs@,
        ir.paragraphs@.len() as int,
        c.defaults,
        one_section(ir.paragraphs@),
    )
}

/// The compact form of a slice: the defaults of its paragraphs, and each paragraph in
/// compact form, the `sec` keys left out when all paragraphs lie in one section. The
/// metadata is kept.
pub fn compact_ir_slice(ir: IrSlice) -> (c: CompactIrSlice)
    ensures
        compacted_slice(c, ir),
{
    let defaults = compute_doc_defaults(&ir);
    let mut single = true;
    if ir.paragraphs.len() > 0 {
        let first = sec_of(&ir.paragraphs[0]);
        let mut i: usize = 1;
        while i < ir.paragraphs.len()
            invariant
                1 <= i <= ir.paragraphs.len(),
                first == para_sec(ir.paragraphs@[0]),
                single == forall|j: int| 0 <= j < i ==> para_sec(#[trigger] ir.paragraphs@[j]) == first,
            decreases ir.paragraphs.len() - i,
        {
            if sec_of(&ir.paragraphs[i]) != first {
                single = false;
            }
            i += 1;
        }
        assert(single == one_section(ir.paragraphs@)) by {
            if !single {
                let j = choose|j: int| 0 <= j < ir.paragraphs@.len() && para_sec(ir.paragraphs@[j]) != first;
                assert(para_sec(ir.paragraphs@[j]) != para_sec(ir.paragraphs@[0]));
            }
        }
    }
    let mut paragraphs: Vec<JsonValue> = Vec::new();
    let mut i: usize = 0;
    while i < ir.paragraphs.len()
        invariant
            i <= ir.paragraphs.len(),
            single == one_section(ir.paragraphs@),
            crate::json::vals(paragraphs@) == compact_paras(ir.paragraphs@, i as int, defaults, single),
        decreases ir.paragraphs.len() - i,
    {
        let v = compact_paragraph(&ir.paragraphs[i], &defaults, single);
        let ghost before = paragraphs@;
        paragraphs.push(v);
        assert(crate::json::vals(paragraphs@) =~= crate::json::vals(before).push(v@));
        i += 1;
    }
    CompactIrSlice { doc_meta: ir.doc_meta, paragraphs, defaults }
}

} // verus!

