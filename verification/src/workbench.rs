//! Decisions of the editing server's workbench and session endpoints that need no I/O:
//! what a workbench action asks for, reading an `insert_text` payload, resolving the table
//! and cell a cell edit targets, the session summary, the character counts of an edit's
//! diff, and the `frame-ancestors` policy.
use vstd::prelude::*;
use crate::document_core::DocumentCore;
use crate::edit_op::EditOperation;
use crate::json::{JsonValue, JsonView, json_get, json_str, get_member, as_str};
use crate::text::push_str;

verus! {

/// What a workbench action asks of the server: to complete the session (a final snapshot), to
/// apply an edit operation, or only to relay the action to the other clients.
#[derive(Debug, Clone, Copy, PartialEq, Eq, Structural)]
pub enum WorkbenchStep {
    Complete,
    Edit,
    Relay,
}

/// The actions that are edit operations.
pub open spec fn is_edit_action(a: Seq<char>) -> bool {
    ||| a == "insert_text"@
    ||| a == "replace_runs"@
    ||| a == "set_paragraph_style"@
    ||| a == "delete_range"@
    ||| a == "insert_paragraph"@
    ||| a == "insert_page_break"@
    ||| a == "delete_element"@
    ||| a == "insert_table"@
    ||| a == "set_cell_style"@
    ||| a == "merge_cells"@
    ||| a == "replace_cell_runs"@
    ||| a == "insert_text_in_cell"@
    ||| a == "delete_range_in_cell"@
}

/// The step an action asks for: `complete` completes, an edit action is applied, and any
/// other action is relayed.
pub open spec fn step_of(a: Seq<char>) -> WorkbenchStep {
    if a == "complete"@ {
        WorkbenchStep::Complete
    } else if is_edit_action(a) {
        WorkbenchStep::Edit
    } else {
        WorkbenchStep::Relay
    }
}

/// Each editing action (insert_text, replace_runs, set_paragraph_style, delete_range,
/// insert_paragraph, insert_page_break, delete_element, insert_table, set_cell_style,
/// merge_cells, replace_cell_runs, insert_text_in_cell, delete_range_in_cell) is applied as an
/// edit, `complete` completes the session, and every other action is only relayed.
pub proof fn law_workbench_actions(a: Seq<char>)
    ensures
        (a == "insert_text"@ || a == "replace_runs"@ || a == "set_paragraph_style"@ || a == "delete_range"@ || a == "insert_paragraph"@ || a == "insert_page_break"@ || a == "delete_element"@ || a == "insert_table"@ || a == "set_cell_style"@ || a == "merge_cells"@ || a == "replace_cell_runs"@ || a == "insert_text_in_cell"@ || a == "delete_range_in_cell"@) ==> step_of(a) == WorkbenchStep::Edit,
        a == "complete"@ ==> step_of(a) == WorkbenchStep::Complete,
        !(a == "insert_text"@ || a == "replace_runs"@ || a == "set_paragraph_style"@ || a == "delete_range"@ || a == "insert_paragraph"@ || a == "insert_page_break"@ || a == "delete_element"@ || a == "insert_table"@ || a == "set_cell_style"@ || a == "merge_cells"@ || a == "replace_cell_runs"@ || a == "insert_text_in_cell"@ || a == "delete_range_in_cell"@) && a != "complete"@ ==> step_of(a) == WorkbenchStep::Relay,
{
    reveal_strlit("complete");
    assert("complete"@.len() == 8);
    if a == "insert_text"@ {
        reveal_strlit("insert_text");
        assert(a.len() == 11);
    }
    if a == "replace_runs"@ {
        reveal_strlit("replace_runs");
        assert(a.len() == 12);
    }
    if a == "set_paragraph_style"@ {
        reveal_strlit("set_paragraph_style");
        assert(a.len() == 19);
    }
    if a == "delete_range"@ {
        reveal_strlit("delete_range");
        assert(a.len() == 12);
    }
    if a == "insert_paragraph"@ {
        reveal_strlit("insert_paragraph");
        assert(a.len() == 16);
    }
    if a == "insert_page_break"@ {
        reveal_strlit("insert_page_break");
        assert(a.len() == 17);
    }
    if a == "delete_element"@ {
        reveal_strlit("delete_element");
        assert(a.len() == 14);
    }
    if a == "insert_table"@ {
        reveal_strlit("insert_table");
        assert(a.len() == 12);
    }
    if a == "set_cell_style"@ {
        reveal_strlit("set_cell_style");
        assert(a.len() == 14);
    }
    if a == "merge_cells"@ {
        reveal_strlit("merge_cells");
        assert(a.len() == 11);
    }
    if a == "replace_cell_runs"@ {
        reveal_strlit("replace_cell_runs");
        assert(a.len() == 17);
    }
    if a == "insert_text_in_cell"@ {
        reveal_strlit("insert_text_in_cell");
        assert(a.len() == 19);
    }
    if a == "delete_range_in_cell"@ {
        reveal_strlit("delete_range_in_cell");
        assert(a.len() == 20);
    }
}

/// What the workbench action `action` asks of the server (see `step_of`).
pub fn workbench_step(action: &str) -> (r: WorkbenchStep)
    ensures
        r == step_of(action@),
{
    if crate::json::str_eq(action, "complete") {
        return WorkbenchStep::Complete;
    }
    let edit = crate::json::str_eq(action, "insert_text") || crate::json::str_eq(action, "replace_runs")
        || crate::json::str_eq(action, "set_paragraph_style") || crate::json::str_eq(action, "delete_range")
        || crate::json::str_eq(action, "insert_paragraph") || crate::json::str_eq(action, "insert_page_break")
        || crate::json::str_eq(action, "delete_element") || crate::json::str_eq(action, "insert_table")
        || crate::json::str_eq(action, "set_cell_style") || crate::json::str_eq(action, "merge_cells")
        || crate::json::str_eq(action, "replace_cell_runs") || crate::json::str_eq(action, "insert_text_in_cell")
        || crate::json::str_eq(action, "delete_range_in_cell");
    if edit {
        WorkbenchStep::Edit
    } else {
        WorkbenchStep::Relay
    }
}

/// The number of characters of texts, all told.
pub open spec fn texts_total(ts: Seq<String>) -> int
    decreases ts.len(),
{
    if ts.len() == 0 {
        0
    } else {
        texts_total(ts.drop_last()) + ts.last()@.len()
    }
}

proof fn lemma_texts_total_prefix(ts: Seq<String>, k: int)
    requires
        0 <= k <= ts.len(),
    ensures
        0 <= texts_total(ts.take(k)) <= texts_total(ts),
    decreases ts.len() - k,
{
    if k < ts.len() {
        lemma_texts_total_prefix(ts, k + 1);
        assert(ts.take(k + 1).drop_last() =~= ts.take(k));
        assert(texts_total(ts.take(k + 1)) == texts_total(ts.take(k)) + ts.take(k + 1).last()@.len());
        lemma_texts_total_nonneg(ts.take(k));
    } else {
        assert(ts.take(k) =~= ts);
        lemma_texts_total_nonneg(ts);
    }
}

proof fn lemma_texts_total_nonneg(ts: Seq<String>)
    ensures
        texts_total(ts) >= 0,
    decreases ts.len(),
{
    if ts.len() > 0 {
        lemma_texts_total_nonneg(ts.drop_last());
    }
}

/// The number of characters of `ts` all told, or `None` when it exceeds `i64::MAX`.
fn total_chars(ts: &Vec<String>) -> (r: Option<i64>)
    ensures
        r is Some <==> texts_total(ts@) <= i64::MAX,
        r matches Some(n) ==> n == texts_total(ts@) && n >= 0,
{
    let mut total: i64 = 0;
    let mut i: usize = 0;
    while i < ts.len()
        invariant
            i <= ts@.len(),
            total == texts_total(ts@.take(i as int)),
            0 <= total,
        decreases ts.len() - i,
    {
        let n = crate::text_ops::char_len(ts[i].as_str());
        assert(ts@.take(i + 1).drop_last() =~= ts@.take(i as int));
        if n as u64 > (i64::MAX - total) as u64 {
            proof {
                lemma_texts_total_prefix(ts@, i + 1);
            }
            return None;
        }
        total = total + n as i64;
        i += 1;
    }
    assert(ts@.take(ts@.len() as int) =~= ts@);
    Some(total)
}

/// How many characters an edit from the texts `before` to the texts `after` added and
/// removed, going by the totals: `(growth or 0, shrinkage or 0)`. `None` when a total
/// exceeds `i64::MAX`.
pub fn diff_char_counts(before: &Vec<String>, after: &Vec<String>) -> (r: Option<(i64, i64)>)
    ensures
        r is Some <==> texts_total(before@) <= i64::MAX && texts_total(after@) <= i64::MAX,
        r matches Some((added, removed)) ==> {
            let d = texts_total(after@) - texts_total(before@);
            &&& added == if d > 0 { d } else { 0 }
            &&& removed == if d < 0 { -d } else { 0 }
        },
{
    let b = total_chars(before)?;
    let a = total_chars(after)?;
    if a >= b {
        Some((a - b, 0))
    } else {
        Some((0, b - a))
    }
}

/// The unsigned integer a value holds, if it holds one.
pub open spec fn json_u64(v: Option<JsonView>) -> Option<u64> {
    match v {
        Some(JsonView::Int(i)) => if i >= 0 {
            Some(i as u64)
        } else {
            None
        },
        _ => None,
    }
}

/// What an `insert_text` payload reads as: its section, paragraph, offset and text, or the
/// message for the first of them that is missing.
pub open spec fn insert_text_fields(p: JsonView) -> Result<(u64, u64, u64, Seq<char>), Seq<char>> {
    match json_u64(json_get(p, "section"@)) {
        None => Err("payload.section 누락"@),
        Some(s) => match json_u64(json_get(p, "para"@)) {
            None => Err("payload.para 누락"@),
            Some(q) => match json_u64(json_get(p, "offset"@)) {
                None => Err("payload.offset 누락"@),
                Some(o) => match json_str(json_get(p, "text"@)) {
                    None => Err("payload.text 누락"@),
                    Some(t) => Ok((s, q, o, t)),
                },
            },
        },
    }
}

/// The unsigned integer an optional value holds.
fn as_u64(v: Option<&JsonValue>) -> (r: Option<u64>)
    ensures
        r == json_u64(match v { Some(x) => Some(x@), None => None }),
{
    match v {
        Some(JsonValue::Int(i)) => if *i >= 0 {
            Some(*i as u64)
        } else {
            None
        },
        Some(JsonValue::UInt(u)) => Some(*u),
        _ => None,
    }
}

/// The `insert_text` operation a workbench payload asks for (see `insert_text_fields`).
pub fn insert_text_op(payload: &JsonValue) -> (r: Result<EditOperation, String>)
    ensures
        match (r, insert_text_fields(payload@)) {
            (Ok(op), Ok((s, q, o, t))) => op matches EditOperation::InsertText { section, para, offset, text } && section
                == s as usize && para == q as usize && offset == o as usize && text@ == t,
            (Err(m), Err(e)) => m@ == e,
            _ => false,
        },
{
    let section = match as_u64(get_member(payload, "section")) {
        Some(v) => v as usize,
        None => return Err(String::from_str("payload.section 누락")),
    };
    let para = match as_u64(get_member(payload, "para")) {
        Some(v) => v as usize,
        None => return Err(String::from_str("payload.para 누락")),
    };
    let offset = match as_u64(get_member(payload, "offset")) {
        Some(v) => v as usize,
        None => return Err(String::from_str("payload.offset 누락")),
    };
    let text = match as_str(get_member(payload, "text")) {
        Some(t) => t.clone(),
        None => return Err(String::from_str("payload.text 누락")),
    };
    Ok(EditOperation::InsertText { section, para, offset, text })
}

/// The message of a failed lookup, prefixed by the lookup's name.
pub open spec fn lookup_message(name: Seq<char>, m: Seq<char>) -> Seq<char> {
    name + ": "@ + m
}

fn prefixed(name: &str, m: &String) -> (r: String)
    ensures
        r@ == lookup_message(name@, m@),
{
    let mut r = String::from_str(name);
    push_str(&mut r, ": ");
    push_str(&mut r, m.as_str());
    r
}

/// The table control a cell edit at `(section, table_para)` goes to, or the lookup's error.
pub fn resolve_table_ctrl(core: &DocumentCore, section: usize, table_para: usize) -> (r: Result<usize, String>)
    ensures
        r is Ok <==> core.table_ctrl_index(section as int, table_para as int) is Some,
        r matches Ok(k) ==> core.table_ctrl_index(section as int, table_para as int) == Some(k as int),
        r matches Err(m) ==> m@ == lookup_message(
            "find_table_ctrl_idx"@,
            core.table_ctrl_error(section as int, table_para as int),
        ),
{
    match core.find_table_ctrl_idx(section, table_para) {
        Ok(k) => Ok(k),
        Err(e) => Err(prefixed("find_table_ctrl_idx", e.message())),
    }
}

/// The cell index and table control a cell edit at `(row, col)` of the table in paragraph
/// `(section, table_para)` goes to (coordinates are taken as `u16`), or the error of the
/// lookup that failed.
pub fn resolve_cell_target(core: &DocumentCore, section: usize, table_para: usize, row: usize, col: usize) -> (r: Result<(usize, usize), String>)
    ensures
        r is Ok <==> (core.table_ctrl_index(section as int, table_para as int) matches Some(k) && core.cell_index(
            section as int,
            table_para as int,
            k,
            row as u16,
            col as u16,
        ) is Some),
        r matches Ok((c, k)) ==> core.table_ctrl_index(section as int, table_para as int) == Some(k as int)
            && core.cell_index(section as int, table_para as int, k as int, row as u16, col as u16) == Some(c as int),
        r matches Err(m) ==> match core.table_ctrl_index(section as int, table_para as int) {
            None => m@ == lookup_message("find_table_ctrl_idx"@, core.table_ctrl_error(section as int, table_para as int)),
            Some(k) => m@ == lookup_message(
                "find_cell_idx"@,
                core.cell_idx_error(section as int, table_para as int, k, row as u16, col as u16),
            ),
        },
{
    let k = resolve_table_ctrl(core, section, table_para)?;
    match core.find_cell_idx(section, table_para, k, row as u16, col as u16) {
        Ok(c) => Ok((c, k)),
        Err(e) => Err(prefixed("find_cell_idx", e.message())),
    }
}

/// A session summary: its id, the last sequence number used, and its sections and
/// paragraphs.
#[derive(Debug)]
pub struct SessionInfo {
    pub file_id: String,
    pub seq: i64,
    pub section_count: usize,
    pub paragraph_count: usize,
}

/// The number of paragraphs of the first `n` sections.
pub open spec fn paragraphs_in(core: DocumentCore, n: int) -> nat
    decreases n,
{
    if n <= 0 || n > core.section_count() {
        0
    } else {
        paragraphs_in(core, n - 1) + core.body(n - 1).len()
    }
}

/// The summary of a session whose next sequence number is `next_seq` (the paragraph count
/// saturates at `usize::MAX`).
pub fn session_info(file_id: &str, core: &DocumentCore, next_seq: i64) -> (info: SessionInfo)
    requires
        next_seq > i64::MIN,
    ensures
        info.file_id@ == file_id@,
        info.seq == next_seq - 1,
        info.section_count == core.section_count(),
        info.paragraph_count == crate::patch::sat(paragraphs_in(*core, core.section_count())),
{
    let mut total: usize = 0;
    let mut i: usize = 0;
    while i < core.document.sections.len()
        invariant
            i <= core.section_count(),
            total == crate::patch::sat(paragraphs_in(*core, i as int)),
        decreases core.document.sections.len() - i,
    {
        total = total.saturating_add(core.document.sections[i].paragraphs.len());
        i += 1;
    }
    SessionInfo {
        file_id: String::from_str(file_id),
        seq: next_seq - 1,
        section_count: core.document.sections.len(),
        paragraph_count: total,
    }
}

/// `c` is white space (Unicode `White_Space`, as `char::is_whitespace`).
pub open spec fn is_ws(c: char) -> bool {
    ||| '\t' <= c <= '\r'
    ||| c == ' '
    ||| c == '\u{85}'
    ||| c == '\u{a0}'
    ||| c == '\u{1680}'
    ||| '\u{2000}' <= c <= '\u{200a}'
    ||| c == '\u{2028}'
    ||| c == '\u{2029}'
    ||| c == '\u{202f}'
    ||| c == '\u{205f}'
    ||| c == '\u{3000}'
}

fn ws(c: char) -> (r: bool)
    ensures
        r == is_ws(c),
{
    ('\t' <= c && c <= '\r') || c == ' ' || c == '\u{85}' || c == '\u{a0}' || c == '\u{1680}' || ('\u{2000}' <= c
        && c <= '\u{200a}') || c == '\u{2028}' || c == '\u{2029}' || c == '\u{202f}' || c == '\u{205f}' || c
        == '\u{3000}'
}

/// `s` without white space at either end.
pub open spec fn trimmed(s: Seq<char>) -> Seq<char> {
    let lead = choose_lead(s, 0);
    let end = choose_end(s, s.len() as int);
    if lead < end {
        s.subrange(lead, end)
    } else {
        Seq::empty()
    }
}

/// The first index from `i` on that is not white space (or the length).
pub open spec fn choose_lead(s: Seq<char>, i: int) -> int
    decreases s.len() - i,
{
    if i < 0 || i >= s.len() || !is_ws(s[i]) {
        i
    } else {
        choose_lead(s, i + 1)
    }
}

/// The end of `s[..e]` once white space at its end is dropped.
pub open spec fn choose_end(s: Seq<char>, e: int) -> int
    decreases e,
{
    if e <= 0 || e > s.len() || !is_ws(s[e - 1]) {
        e
    } else {
        choose_end(s, e - 1)
    }
}

/// A separator of an origin list: a comma or white space.
pub open spec fn is_sep(c: char) -> bool {
    c == ',' || is_ws(c)
}

/// The tokens of the first `n` characters, as (tokens done, token being read).
pub open spec fn tokens_upto(s: Seq<char>, n: int) -> (Seq<Seq<char>>, Seq<char>)
    decreases n,
{
    if n <= 0 || n > s.len() {
        (Seq::empty(), Seq::empty())
    } else {
        let (done, cur) = tokens_upto(s, n - 1);
        if is_sep(s[n - 1]) {
            (if cur.len() > 0 { done.push(cur) } else { done }, Seq::empty())
        } else {
            (done, cur.push(s[n - 1]))
        }
    }
}

/// The non-empty pieces of `s` between separators.
pub open spec fn tokens(s: Seq<char>) -> Seq<Seq<char>> {
    let (done, cur) = tokens_upto(s, s.len() as int);
    if cur.len() > 0 {
        done.push(cur)
    } else {
        done
    }
}

/// The first `n` tokens joined by single spaces.
pub open spec fn joined(ts: Seq<Seq<char>>, n: int) -> Seq<char>
    decreases n,
{
    if n <= 0 || n > ts.len() {
        Seq::empty()
    } else if n == 1 {
        ts[0]
    } else {
        joined(ts, n - 1) + seq![' '] + ts[n - 1]
    }
}

/// The `frame-ancestors` sources: a raw value (trimmed) when it is not blank, else the
/// origins of the allowed list (split at commas and white space) joined by spaces when
/// there are any, else none.
pub open spec fn frame_ancestors(raw: Option<Seq<char>>, allowed: Option<Seq<char>>) -> Option<Seq<char>> {
    if raw matches Some(r) && trimmed(r).len() > 0 {
        Some(trimmed(raw->Some_0))
    } else if allowed matches Some(a) && tokens(a).len() > 0 {
        Some(joined(tokens(allowed->Some_0), tokens(allowed->Some_0).len() as int))
    } else {
        None
    }
}

proof fn lemma_joined_push(ts: Seq<Seq<char>>, x: Seq<char>, n: int)
    requires
        0 <= n <= ts.len(),
    ensures
        joined(ts.push(x), n) == joined(ts, n),
    decreases n,
{
    if n > 1 {
        lemma_joined_push(ts, x, n - 1);
    }
}

/// Appending a token to the joined text of `ts`.
proof fn lemma_joined_step(ts: Seq<Seq<char>>, x: Seq<char>)
    ensures
        joined(ts.push(x), ts.len() + 1int) == if ts.len() == 0 {
            x
        } else {
            joined(ts, ts.len() as int) + seq![' '] + x
        },
{
    if ts.len() > 0 {
        lemma_joined_push(ts, x, ts.len() as int);
    }
}

fn trim_chars(cs: &Vec<char>) -> (r: String)
    ensures
        r@ == trimmed(cs@),
{
    let mut lead: usize = 0;
    while lead < cs.len() && ws(cs[lead])
        invariant
            lead <= cs@.len(),
            choose_lead(cs@, 0) == choose_lead(cs@, lead as int),
        decreases cs.len() - lead,
    {
        lead += 1;
    }
    let mut end: usize = cs.len();
    while end > 0 && ws(cs[end - 1])
        invariant
            end <= cs@.len(),
            choose_end(cs@, cs@.len() as int) == choose_end(cs@, end as int),
        decreases end,
    {
        end -= 1;
    }
    if lead < end {
        let piece = crate::text_ops::copy_range(cs, lead, end);
        crate::text::string_from_chars(piece.as_slice())
    } else {
        String::new()
    }
}

/// The `frame-ancestors` sources from the raw setting and the allowed-origin list (see
/// `frame_ancestors`).
pub fn resolve_frame_ancestors(raw: Option<&str>, allowed: Option<&str>) -> (r: Option<String>)
    ensures
        match r {
            Some(s) => frame_ancestors(
                match raw { Some(x) => Some(x@), None => None },
                match allowed { Some(x) => Some(x@), None => None },
            ) == Some(s@),
            None => frame_ancestors(
                match raw { Some(x) => Some(x@), None => None },
                match allowed { Some(x) => Some(x@), None => None },
            ) is None,
        },
{
    if let Some(x) = raw {
        let t = trim_chars(&crate::text::chars_of(x));
        if crate::text_ops::char_len(t.as_str()) > 0 {
            return Some(t);
        }
    }
    if let Some(a) = allowed {
        let cs = crate::text::chars_of(a);
        let mut out = String::new();
        let mut count: usize = 0;
        let mut cur: Vec<char> = Vec::new();
        let mut i: usize = 0;
        while i < cs.len()
            invariant
                i <= cs@.len(),
                cs@ == a@,
                tokens_upto(a@, i as int).1 == cur@,
                count == tokens_upto(a@, i as int).0.len(),
                count + cur@.len() <= i,
                out@ == joined(tokens_upto(a@, i as int).0, count as int),
            decreases cs.len() - i,
        {
            let c = cs[i];
            if c == ',' || ws(c) {
                if cur.len() > 0 {
                    proof {
                        lemma_joined_step(tokens_upto(a@, i as int).0, cur@);
                    }
                    if count > 0 {
                        crate::text::push_char(&mut out, ' ');
                    }
                    let piece = crate::text::string_from_chars(cur.as_slice());
                    push_str(&mut out, piece.as_str());
                    count += 1;
                }
                cur = Vec::new();
            } else {
                cur.push(c);
            }
            i += 1;
        }
        if cur.len() > 0 {
            proof {
                lemma_joined_step(tokens_upto(a@, i as int).0, cur@);
            }
            if count > 0 {
                crate::text::push_char(&mut out, ' ');
            }
            let piece = crate::text::string_from_chars(cur.as_slice());
            push_str(&mut out, piece.as_str());
            count += 1;
        }
        assert(count == tokens(a@).len());
        assert(out@ == joined(tokens(a@), count as int));
        if count > 0 {
            return Some(out);
        }
    }
    None
}

} // verus!
