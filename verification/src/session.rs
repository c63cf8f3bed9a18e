//! Request decisions of the editing server that need no I/O: default names and how an
//! IR-slice request is read.
use vstd::prelude::*;
use crate::json::{nat_digits, write_nat};
use crate::text_ops::concat_str;
use crate::text::push_str;

verus! {

/// The default file name of a session: `<file_id>.<format>`.
pub fn default_filename(file_id: &str, format: &str) -> (s: String)
    ensures
        s@ == file_id@ + seq!['.'] + format@,
{
    let mut s = String::from_str(file_id);
    crate::text::push_char(&mut s, '.');
    concat_str(s.as_str(), format)
}

/// The IR-slice mode used when a request names none.
pub fn default_ir_slice_mode() -> (s: String)
    ensures
        s@ == "auto"@,
{
    String::from_str("auto")
}

/// How an IR-slice request is served: the section and paragraph range, whether paragraphs
/// are served raw (else compact), the 0-based page asked for, and the edit session id.
#[derive(Debug)]
pub struct IrSlicePlan {
    pub sec: usize,
    pub para_start: usize,
    pub para_end: usize,
    pub raw: bool,
    pub page: Option<u32>,
    pub edit_session_id: String,
}

/// The message for a missing section.
pub open spec fn missing_section_message(sec: nat) -> Seq<char> {
    "section "@ + nat_digits(sec) + " 없음"@
}

/// Reads an IR-slice request. The section defaults to 0 and must exist (`section_len` is its
/// number of paragraphs); the range starts at `para_start` (default 0) and ends at `para_end`
/// (default: the section's end) clamped to the section; the mode is raw only when asked as
/// `"raw"`; a 1-based page becomes 0-based (page 0 means none).
pub fn plan_ir_slice(
    file_id: &str,
    sec: Option<usize>,
    para_start: Option<usize>,
    para_end: Option<usize>,
    page: Option<u32>,
    mode: &str,
    section_len: Option<usize>,
) -> (r: Result<IrSlicePlan, String>)
    ensures
        section_len is None ==> (r matches Err(m) && m@ == missing_section_message(
            match sec {
                Some(s) => s as nat,
                None => 0,
            },
        )),
        section_len matches Some(total) ==> (r matches Ok(p) && {
            &&& p.sec == match sec {
                Some(s) => s,
                None => 0,
            }
            &&& p.para_start == match para_start {
                Some(s) => s,
                None => 0,
            }
            &&& p.para_end == match para_end {
                Some(e) => if e < total { e } else { total },
                None => total,
            }
            &&& p.raw == (mode@ == "raw"@)
            &&& p.page == match page {
                Some(x) => if x >= 1 { Some((x - 1) as u32) } else { None::<u32> },
                None => None::<u32>,
            }
            &&& p.edit_session_id@ == "cli_"@ + file_id@
        }),
{
    let s = match sec {
        Some(x) => x,
        None => 0,
    };
    let total = match section_len {
        Some(n) => n,
        None => {
            let mut m = String::from_str("section ");
            write_nat(&mut m, s as u64);
            let m = concat_str(m.as_str(), " 없음");
            proof {
                reveal_strlit("section ");
            }
            return Err(m);
        },
    };
    let start = match para_start {
        Some(x) => x,
        None => 0,
    };
    let end = match para_end {
        Some(e) => if e < total {
            e
        } else {
            total
        },
        None => total,
    };
    let raw = crate::json::str_eq(mode, "raw");
    let page0 = match page {
        Some(x) => if x >= 1 {
            Some(x - 1)
        } else {
            None
        },
        None => None,
    };
    let id = concat_str("cli_", file_id);
    proof {
        reveal_strlit("raw");
    }
    Ok(IrSlicePlan { sec: s, para_start: start, para_end: end, raw, page: page0, edit_session_id: id })
}

/// `c` read without ASCII letter case. No other character lower-cases to an ASCII letter
/// of the file-format names or to `'.'`, so for those names this agrees with lower-casing
/// the whole text first.
pub open spec fn fold_case(c: char) -> int {
    if 'A' <= c <= 'Z' {
        c as int + 32
    } else {
        c as int
    }
}

/// `s` ends with `suffix`, letters compared without regard to case.
pub open spec fn ends_with_ci(s: Seq<char>, suffix: Seq<char>) -> bool {
    &&& suffix.len() <= s.len()
    &&& forall|i: int|
        0 <= i < suffix.len() ==> fold_case(#[trigger] s[s.len() - suffix.len() + i]) == fold_case(
            suffix[i],
        )
}

/// `s` equals `t`, letters compared without regard to case.
pub open spec fn eq_ci(s: Seq<char>, t: Seq<char>) -> bool {
    s.len() == t.len() && ends_with_ci(s, t)
}

fn fold_case_exec(c: char) -> (r: u32)
    ensures
        r == fold_case(c),
{
    if 'A' <= c && c <= 'Z' {
        (c as u32) + 32
    } else {
        c as u32
    }
}

fn ends_with_ci_exec(s: &str, suffix: &str) -> (r: bool)
    ensures
        r == ends_with_ci(s@, suffix@),
{
    let cs = crate::text::chars_of(s);
    let xs = crate::text::chars_of(suffix);
    if xs.len() > cs.len() {
        return false;
    }
    let off = cs.len() - xs.len();
    let mut i: usize = 0;
    while i < xs.len()
        invariant
            cs@ == s@,
            xs@ == suffix@,
            xs@.len() <= cs@.len(),
            cs@.len() <= usize::MAX,
            off == cs@.len() - xs@.len(),
            i <= xs@.len(),
            forall|j: int| 0 <= j < i ==> fold_case(#[trigger] s@[s@.len() - suffix@.len() + j]) == fold_case(suffix@[j]),
        decreases xs.len() - i,
    {
        if fold_case_exec(cs[off + i]) != fold_case_exec(xs[i]) {
            return false;
        }
        i += 1;
    }
    true
}

fn eq_ci_exec(s: &str, t: &str) -> (r: bool)
    ensures
        r == eq_ci(s@, t@),
{
    crate::text_ops::char_len(s) == crate::text_ops::char_len(t) && ends_with_ci_exec(s, t)
}

/// The format of a new blank document: the one asked for when it is `"hwp"` or `"hwpx"`
/// in any letter case, else the one that the file name's extension (`.hwpx`, `.hwp`, any
/// case) names, else `"hwp"`.
pub open spec fn blank_format(format: Option<Seq<char>>, filename: Option<Seq<char>>) -> Seq<char> {
    if format matches Some(f) && eq_ci(f, "hwp"@) {
        "hwp"@
    } else if format matches Some(f) && eq_ci(f, "hwpx"@) {
        "hwpx"@
    } else if filename matches Some(n) && ends_with_ci(n, ".hwpx"@) {
        "hwpx"@
    } else if filename matches Some(n) && ends_with_ci(n, ".hwp"@) {
        "hwp"@
    } else {
        "hwp"@
    }
}

/// Decides the format of a new blank document (see `blank_format`).
pub fn blank_document_format(format: Option<&str>, filename: Option<&str>) -> (r: String)
    ensures
        r@ == blank_format(
            match format { Some(f) => Some(f@), None => None },
            match filename { Some(n) => Some(n@), None => None },
        ),
{
    proof {
        reveal_strlit("hwp");
        reveal_strlit("hwpx");
        reveal_strlit(".hwp");
        reveal_strlit(".hwpx");
    }
    if let Some(f) = format {
        if eq_ci_exec(f, "hwp") {
            return String::from_str("hwp");
        }
        if eq_ci_exec(f, "hwpx") {
            return String::from_str("hwpx");
        }
    }
    if let Some(n) = filename {
        if ends_with_ci_exec(n, ".hwpx") {
            return String::from_str("hwpx");
        }
        if ends_with_ci_exec(n, ".hwp") {
            return String::from_str("hwp");
        }
    }
    String::from_str("hwp")
}

/// The file name of a new blank document: the one given, else `document.<format>`.
pub fn blank_document_filename(filename: Option<&str>, format: &str) -> (r: String)
    ensures
        r@ == match filename {
            Some(n) => n@,
            None => "document."@ + format@,
        },
{
    match filename {
        Some(n) => String::from_str(n),
        None => concat_str("document.", format),
    }
}

/// The format of an uploaded document: `"hwpx"` when its file name ends with `hwpx` in
/// any letter case, else `"hwp"`.
pub fn upload_format(filename: &str) -> (r: String)
    ensures
        r@ == if ends_with_ci(filename@, "hwpx"@) {
            "hwpx"@
        } else {
            "hwp"@
        },
{
    if ends_with_ci_exec(filename, "hwpx") {
        String::from_str("hwpx")
    } else {
        String::from_str("hwp")
    }
}

/// The file name of an uploaded document: the one given, else `document.hwp`.
pub fn upload_filename(filename: Option<&str>) -> (r: String)
    ensures
        r@ == match filename {
            Some(n) => n@,
            None => "document.hwp"@,
        },
{
    match filename {
        Some(n) => String::from_str(n),
        None => String::from_str("document.hwp"),
    }
}

/// The format of a new session: the one asked for, else `"hwpx"`.
pub fn session_format(format: Option<&str>) -> (r: String)
    ensures
        r@ == match format {
            Some(f) => f@,
            None => "hwpx"@,
        },
{
    match format {
        Some(f) => String::from_str(f),
        None => String::from_str("hwpx"),
    }
}

/// The extension of an export: `"hwpx"` when the format asked for (else the session's)
/// is exactly `"hwpx"`, else `"hwp"`.
pub fn export_extension(fmt: Option<&str>, session_format: &str) -> (r: String)
    ensures
        r@ == if (match fmt {
            Some(f) => f@,
            None => session_format@,
        }) == "hwpx"@ {
            "hwpx"@
        } else {
            "hwp"@
        },
{
    let f = match fmt {
        Some(f) => f,
        None => session_format,
    };
    if crate::json::str_eq(f, "hwpx") {
        String::from_str("hwpx")
    } else {
        String::from_str("hwp")
    }
}

/// The `Content-Disposition` of an export: `attachment; filename="<file_id>.<ext>"`.
pub fn export_disposition(file_id: &str, ext: &str) -> (r: String)
    ensures
        r@ == "attachment; filename=\""@ + file_id@ + seq!['.'] + ext@ + seq!['"'],
{
    let s = concat_str("attachment; filename=\"", file_id);
    let mut s = concat_str(s.as_str(), ".");
    push_str(&mut s, ext);
    proof {
        reveal_strlit(".");
    }
    crate::text::push_char(&mut s, '"');
    s
}

/// `s` without its trailing slashes.
pub open spec fn trim_slashes(s: Seq<char>) -> Seq<char>
    decreases s.len(),
{
    if s.len() > 0 && s.last() == '/' {
        trim_slashes(s.drop_last())
    } else {
        s
    }
}

/// Where a "save as" landed: the location the file store reported, else the chosen folder
/// (trailing slashes dropped), a slash, and the name.
pub fn save_as_path(stored: Option<&str>, path: &str, name: &str) -> (r: String)
    ensures
        r@ == match stored {
            Some(k) => k@,
            None => trim_slashes(path@) + seq!['/'] + name@,
        },
{
    if let Some(k) = stored {
        return String::from_str(k);
    }
    let cs = crate::text::chars_of(path);
    let mut end: usize = cs.len();
    assert(cs@.take(end as int) =~= path@);
    while end > 0 && cs[end - 1] == '/'
        invariant
            end <= cs@.len(),
            cs@ == path@,
            trim_slashes(path@) == trim_slashes(cs@.take(end as int)),
        decreases end,
    {
        assert(cs@.take(end as int).drop_last() =~= cs@.take(end - 1));
        end -= 1;
    }
    assert(trim_slashes(cs@.take(end as int)) == cs@.take(end as int));
    let head = crate::text_ops::copy_range(&cs, 0, end);
    let mut out = crate::text::string_from_chars(head.as_slice());
    crate::text::push_char(&mut out, '/');
    push_str(&mut out, name);
    out
}

} // verus!
