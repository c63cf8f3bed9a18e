//! Addresses for the external file store: the upload URL and its query.
use vstd::prelude::*;
use vstd::utf8::encode_utf8;
use crate::text::{push_char, chars_of};
use crate::text_ops::concat_str;
use crate::json::{JsonValue, JsonView, json_get, json_str, get_member, as_str};

verus! {

/// What the store answered to an upload.
#[derive(Debug)]
pub struct UploadResult {
    pub file_id: String,
    /// Where the store keeps the file (its storage key or path), when it says.
    pub minio_key: Option<String>,
    /// Whether an existing file was overwritten.
    pub updated: bool,
}

/// Bytes kept as they are in a URL: ASCII letters and digits, `-`, `.`, `_`, `~` and `/`.
pub open spec fn unreserved(b: u8) -> bool {
    ||| 48 <= b <= 57
    ||| 65 <= b <= 90
    ||| 97 <= b <= 122
    ||| b == 45 || b == 46 || b == 95 || b == 126 || b == 47
}

/// Upper-case hexadecimal digit of `d < 16`.
pub open spec fn hex_upper(d: int) -> char {
    if d < 10 {
        (48 + d) as char
    } else {
        (55 + d) as char
    }
}

/// How one byte is written: itself when unreserved, else `%` and two upper-case hex digits.
pub open spec fn encode_byte(b: u8) -> Seq<char> {
    if unreserved(b) {
        seq![b as char]
    } else {
        seq!['%', hex_upper((b / 16) as int), hex_upper((b % 16) as int)]
    }
}

/// The percent-encoding of bytes.
pub open spec fn percent_encoded(bs: Seq<u8>) -> Seq<char>
    decreases bs.len(),
{
    if bs.len() == 0 {
        Seq::empty()
    } else {
        percent_encoded(bs.drop_last()) + encode_byte(bs.last())
    }
}

fn hex_digit(d: u8) -> (c: char)
    requires
        d < 16,
    ensures
        c == hex_upper(d as int),
{
    if d < 10 {
        (48 + d) as char
    } else {
        (55 + d) as char
    }
}

/// Percent-encodes the UTF-8 bytes of `s`, keeping ASCII letters, digits and `-._~/`.
pub fn url_encode(s: &str) -> (out: String)
    ensures
        out@ == percent_encoded(encode_utf8(s@)),
{
    let bs = s.as_bytes();
    let mut out = String::new();
    let mut i: usize = 0;
    while i < bs.len()
        invariant
            i <= bs@.len(),
            bs@ == encode_utf8(s@),
            out@ == percent_encoded(bs@.take(i as int)),
        decreases bs.len() - i,
    {
        let b = bs[i];
        let keep = (48 <= b && b <= 57) || (65 <= b && b <= 90) || (97 <= b && b <= 122) || b == 45 || b == 46 || b == 95
            || b == 126 || b == 47;
        if keep {
            push_char(&mut out, b as char);
        } else {
            push_char(&mut out, '%');
            push_char(&mut out, hex_digit(b / 16));
            push_char(&mut out, hex_digit(b % 16));
        }
        assert(bs@.take(i + 1).drop_last() =~= bs@.take(i as int));
        i += 1;
    }
    assert(bs@.take(bs@.len() as int) =~= bs@);
    out
}

/// One `key=value` query parameter, the value percent-encoded.
pub open spec fn query_param(key: Seq<char>, value: Seq<char>) -> Seq<char> {
    key + seq!['='] + percent_encoded(encode_utf8(value))
}

/// The view of an optional string slice.
pub open spec fn opt_str(o: Option<&str>) -> Option<Seq<char>> {
    match o {
        Some(s) => Some(s@),
        None => None,
    }
}

/// The query parameters of an upload, in order: the file to overwrite, the target folder,
/// and the overwrite flag, each only when given.
pub open spec fn upload_params(file_id: Option<Seq<char>>, path: Option<Seq<char>>, overwrite: bool) -> Seq<Seq<char>> {
    (match file_id {
        Some(id) => seq![query_param("file_id"@, id)],
        None => Seq::empty(),
    }) + (match path {
        Some(p) => seq![query_param("path"@, p)],
        None => Seq::empty(),
    }) + (if overwrite {
        seq![query_param("overwrite"@, "true"@)]
    } else {
        Seq::empty()
    })
}

/// Parameters joined with `&`.
pub open spec fn join_amp(ps: Seq<Seq<char>>) -> Seq<char>
    decreases ps.len(),
{
    if ps.len() == 0 {
        Seq::empty()
    } else if ps.len() == 1 {
        ps[0]
    } else {
        join_amp(ps.drop_last()) + seq!['&'] + ps.last()
    }
}

/// The upload URL: `base` itself when there are no parameters, else `base`, then `?` (or `&`
/// when `base` already has a query), then the parameters joined with `&`.
pub open spec fn upload_url(base: Seq<char>, file_id: Option<Seq<char>>, path: Option<Seq<char>>, overwrite: bool) -> Seq<char> {
    let ps = upload_params(file_id, path, overwrite);
    if ps.len() == 0 {
        base
    } else {
        base + seq![if base.contains('?') { '&' } else { '?' }] + join_amp(ps)
    }
}

fn has_question_mark(s: &str) -> (b: bool)
    ensures
        b == s@.contains('?'),
{
    let cs = chars_of(s);
    let mut i: usize = 0;
    while i < cs.len()
        invariant
            i <= cs@.len(),
            cs@ == s@,
            forall|j: int| 0 <= j < i ==> cs@[j] != '?',
        decreases cs.len() - i,
    {
        if cs[i] == '?' {
            return true;
        }
        i += 1;
    }
    false
}

fn push_param(out: &mut String, first: bool, key: &str, value: &str)
    ensures
        final(out)@ == old(out)@ + (if first { Seq::empty() } else { seq!['&'] }) + query_param(key@, value@),
{
    if !first {
        push_char(out, '&');
    }
    let mut s = concat_str(out.as_str(), key);
    push_char(&mut s, '=');
    let enc = url_encode(value);
    *out = concat_str(s.as_str(), enc.as_str());
    assert(final(out)@ =~= old(out)@ + (if first { Seq::empty() } else { seq!['&'] }) + query_param(key@, value@));
}

/// The upload URL with its query: see `upload_url`.
pub fn compose_upload_url(base: &str, file_id: Option<&str>, target_path: Option<&str>, overwrite: bool) -> (url: String)
    ensures
        url@ == upload_url(base@, opt_str(file_id), opt_str(target_path), overwrite),
{
    proof {
        reveal_strlit("file_id");
        reveal_strlit("path");
        reveal_strlit("overwrite");
        reveal_strlit("true");
    }
    let ghost ps = upload_params(opt_str(file_id), opt_str(target_path), overwrite);
    if file_id.is_none() && target_path.is_none() && !overwrite {
        return String::from_str(base);
    }
    let mut q = String::new();
    let mut first = true;
    let ghost mut done: Seq<Seq<char>> = Seq::empty();
    if let Some(id) = file_id {
        push_param(&mut q, first, "file_id", id);
        proof {
            done = seq![query_param("file_id"@, id@)];
            assert(q@ =~= join_amp(done));
        }
        first = false;
    }
    if let Some(p) = target_path {
        let ghost before = done;
        push_param(&mut q, first, "path", p);
        proof {
            done = done.push(query_param("path"@, p@));
            assert(done.drop_last() =~= before);
            assert(q@ =~= join_amp(done));
        }
        first = false;
    }
    if overwrite {
        let ghost before = done;
        push_param(&mut q, first, "overwrite", "true");
        proof {
            done = done.push(query_param("overwrite"@, "true"@));
            assert(done.drop_last() =~= before);
            assert(q@ =~= join_amp(done));
        }
    }
    assert(done =~= ps);
    let mut url = String::from_str(base);
    if has_question_mark(base) {
        push_char(&mut url, '&');
    } else {
        push_char(&mut url, '?');
    }
    concat_str(url.as_str(), q.as_str())
}

/// The stored location an upload answer names: `minio_key` when present, else `path`.
pub open spec fn stored_key(j: JsonView) -> Option<Seq<char>> {
    json_str(match json_get(j, "minio_key"@) {
        Some(x) => Some(x),
        None => json_get(j, "path"@),
    })
}

/// Reads the store's answer to an upload: its `file_id` (required, a string), where it was
/// stored (`minio_key`, else `path`) and whether a file was overwritten (`updated`, false
/// unless `true`).
pub fn upload_result_from_json(j: &JsonValue) -> (r: Result<UploadResult, String>)
    ensures
        r is Ok <==> json_str(json_get(j@, "file_id"@)) is Some,
        r matches Ok(u) ==> Some(u.file_id@) == json_str(json_get(j@, "file_id"@))
            && match u.minio_key {
                Some(k) => stored_key(j@) == Some(k@),
                None => stored_key(j@) is None,
            }
            && u.updated == (json_get(j@, "updated"@) == Some(JsonView::Bool(true))),
        r matches Err(m) ==> m@ == "upload 응답에 file_id 없음"@,
{
    proof {
        reveal_strlit("file_id");
        reveal_strlit("minio_key");
        reveal_strlit("path");
        reveal_strlit("updated");
    }
    let fid = match as_str(get_member(j, "file_id")) {
        Some(s) => s.clone(),
        None => {
            return Err(String::from_str("upload 응답에 file_id 없음"));
        },
    };
    let key_val = match get_member(j, "minio_key") {
        Some(x) => Some(x),
        None => get_member(j, "path"),
    };
    let minio_key = match as_str(key_val) {
        Some(s) => Some(s.clone()),
        None => None,
    };
    let updated = match get_member(j, "updated") {
        Some(JsonValue::Bool(b)) => *b,
        _ => false,
    };
    Ok(UploadResult { file_id: fid, minio_key, updated })
}

} // verus!
