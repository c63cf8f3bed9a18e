//! A small JSON value type, and its compact text form.
//!
//! The library writes its JSON itself rather than through `serde_json`: decimal numbers
//! (font sizes, widths) are held as exact hundredths (`Hundredths`), since floating point has
//! no place in the verified code and `serde_json::Value` would carry them as `f64`; and the
//! replies and native style texts are stated exactly in contracts (`json_text`), which a
//! call into `serde_json`'s writer could only name, not state. The text written is the
//! compact form `serde_json` writes: no whitespace, members in stored order, strings escaped
//! as it escapes them.
use vstd::prelude::*;
use crate::text::push_char;

verus! {

/// A JSON value. Objects keep their members in insertion order.
#[derive(Debug)]
pub enum JsonValue {
    Null,
    Bool(bool),
    Int(i64),
    /// An unsigned integer beyond `i64`'s range (or any `u64`).
    UInt(u64),
    /// A decimal number held in hundredths: `Hundredths(n)` is n / 100.
    Hundredths(i64),
    Str(String),
    Array(Vec<JsonValue>),
    Object(Vec<JsonMember>),
}

/// One `key: value` member of a JSON object.
#[derive(Debug)]
pub struct JsonMember {
    pub key: String,
    pub value: JsonValue,
}

/// Decimal digits of a natural number.
pub open spec fn nat_digits(n: nat) -> Seq<char>
    decreases n,
{
    let d = (n % 10) as u32;
    let c = ((48 + d) as u32) as char;
    if n < 10 {
        seq![c]
    } else {
        nat_digits(n / 10).push(c)
    }
}

/// The number a text of decimal digits reads as (each character taken as the digit its code
/// is `'0'` plus).
pub open spec fn dec_value(s: Seq<char>) -> int
    decreases s.len(),
{
    if s.len() == 0 {
        0
    } else {
        dec_value(s.drop_last()) * 10 + ((s.last() as u32) as int - 48)
    }
}

/// The decimal digits of `n` read back as `n`.
pub proof fn lemma_nat_digits_value(n: nat)
    ensures
        dec_value(nat_digits(n)) == n,
        nat_digits(n).len() > 0,
    decreases n,
{
    let d = (n % 10) as u32;
    let c = ((48 + d) as u32) as char;
    assert((c as u32) == 48 + d);
    if n < 10 {
        assert(nat_digits(n) == seq![c]);
        assert(seq![c].drop_last() =~= Seq::<char>::empty());
        assert(seq![c].last() == c);
        assert(dec_value(seq![c]) == dec_value(Seq::<char>::empty()) * 10 + ((c as u32) as int - 48));
        assert(n % 10 == n);
    } else {
        lemma_nat_digits_value(n / 10);
        let s = nat_digits(n);
        assert(s == nat_digits(n / 10).push(c));
        assert(s.drop_last() =~= nat_digits(n / 10));
        assert(s.last() == c);
        assert(dec_value(s) == dec_value(s.drop_last()) * 10 + ((c as u32) as int - 48));
        assert((n / 10) * 10 + n % 10 == n);
    }
}

/// Decimal text of an integer, with a leading `-` when negative.
pub open spec fn int_text(i: int) -> Seq<char> {
    if i < 0 {
        seq!['-'] + nat_digits((-i) as nat)
    } else {
        nat_digits(i as nat)
    }
}

/// The decimal digit `d < 10`.
pub open spec fn digit_char(d: int) -> char {
    ((48 + d) as u32) as char
}

/// Decimal text of n / 100: the sign, the whole part, a point, and the hundredths with a
/// trailing zero dropped (at least one digit stays), as `10.0`, `10.5`, `10.25`, `-0.5`.
pub open spec fn hundredths_text(n: int) -> Seq<char> {
    let a = if n < 0 {
        -n
    } else {
        n
    };
    let f = a % 100;
    (if n < 0 {
        seq!['-']
    } else {
        Seq::empty()
    }) + nat_digits((a / 100) as nat) + seq!['.'] + if f % 10 == 0 {
        seq![digit_char(f / 10)]
    } else {
        seq![digit_char(f / 10), digit_char(f % 10)]
    }
}

/// Lower-case hexadecimal digit of `d < 16`.
pub open spec fn hex_lower(d: int) -> char {
    if d < 10 {
        ((48 + d) as u32) as char
    } else {
        ((87 + d) as u32) as char
    }
}

/// How one character of a string is written inside a JSON string literal.
pub open spec fn escape_char(c: char) -> Seq<char> {
    if c == '"' {
        seq!['\\', '"']
    } else if c == '\\' {
        seq!['\\', '\\']
    } else if c == '\n' {
        seq!['\\', 'n']
    } else if c == '\r' {
        seq!['\\', 'r']
    } else if c == '\t' {
        seq!['\\', 't']
    } else if c == '\u{8}' {
        seq!['\\', 'b']
    } else if c == '\u{c}' {
        seq!['\\', 'f']
    } else if (c as u32) < 0x20 {
        seq!['\\', 'u', '0', '0', hex_lower(((c as u32) / 16) as int), hex_lower(((c as u32) % 16) as int)]
    } else {
        seq![c]
    }
}

/// The escaped body of a JSON string literal.
pub open spec fn escape_text(s: Seq<char>) -> Seq<char>
    decreases s.len(),
{
    if s.len() == 0 {
        Seq::empty()
    } else {
        escape_text(s.drop_last()) + escape_char(s.last())
    }
}

/// A JSON string literal.
pub open spec fn quoted(s: Seq<char>) -> Seq<char> {
    seq!['"'] + escape_text(s) + seq!['"']
}

/// The mathematical content of a JSON value.
pub enum JsonView {
    Null,
    Bool(bool),
    Int(int),
    Hundredths(int),
    Str(Seq<char>),
    Array(Seq<JsonView>),
    Object(Seq<(Seq<char>, JsonView)>),
}

/// The views of the first `n` items.
pub open spec fn items_view(items: Seq<JsonValue>, n: int) -> Seq<JsonView>
    decreases items, n,
{
    if n <= 0 || n > items.len() {
        Seq::empty()
    } else {
        items_view(items, n - 1).push(items[n - 1].view_of())
    }
}

/// The views of the first `n` members.
pub open spec fn members_view(members: Seq<JsonMember>, n: int) -> Seq<(Seq<char>, JsonView)>
    decreases members, n,
{
    if n <= 0 || n > members.len() {
        Seq::empty()
    } else {
        members_view(members, n - 1).push((members[n - 1].key@, members[n - 1].value.view_of()))
    }
}

impl JsonValue {
    /// The mathematical content of this value.
    pub open spec fn view_of(self) -> JsonView
        decreases self,
    {
        match self {
            JsonValue::Null => JsonView::Null,
            JsonValue::Bool(b) => JsonView::Bool(b),
            JsonValue::Int(i) => JsonView::Int(i as int),
            JsonValue::UInt(u) => JsonView::Int(u as int),
            JsonValue::Hundredths(n) => JsonView::Hundredths(n as int),
            JsonValue::Str(s) => JsonView::Str(s@),
            JsonValue::Array(items) => JsonView::Array(items_view(items@, items@.len() as int)),
            JsonValue::Object(members) => JsonView::Object(
                members_view(members@, members@.len() as int),
            ),
        }
    }
}

impl View for JsonValue {
    type V = JsonView;

    open spec fn view(&self) -> JsonView {
        self.view_of()
    }
}

/// Compact JSON text: no whitespace, object members in stored order.
pub open spec fn json_text(v: JsonView) -> Seq<char>
    decreases v,
{
    match v {
        JsonView::Null => seq!['n', 'u', 'l', 'l'],
        JsonView::Bool(b) => if b {
            seq!['t', 'r', 'u', 'e']
        } else {
            seq!['f', 'a', 'l', 's', 'e']
        },
        JsonView::Int(i) => int_text(i),
        JsonView::Hundredths(n) => hundredths_text(n),
        JsonView::Str(s) => quoted(s),
        JsonView::Array(items) => seq!['['] + items_text(items, items.len() as int) + seq![']'],
        JsonView::Object(members) => seq!['{'] + members_text(members, members.len() as int)
            + seq!['}'],
    }
}

/// The first `n` items, comma separated.
pub open spec fn items_text(items: Seq<JsonView>, n: int) -> Seq<char>
    decreases items, n,
{
    if n <= 0 || n > items.len() {
        Seq::empty()
    } else if n == 1 {
        json_text(items[0])
    } else {
        items_text(items, n - 1) + seq![','] + json_text(items[n - 1])
    }
}

/// The first `n` members as `"key":value`, comma separated.
pub open spec fn members_text(members: Seq<(Seq<char>, JsonView)>, n: int) -> Seq<char>
    decreases members, n,
{
    if n <= 0 || n > members.len() {
        Seq::empty()
    } else if n == 1 {
        quoted(members[0].0) + seq![':'] + json_text(members[0].1)
    } else {
        members_text(members, n - 1) + seq![','] + quoted(members[n - 1].0) + seq![':']
            + json_text(members[n - 1].1)
    }
}

/// The view of each item is the item's view.
pub proof fn lemma_items_view(items: Seq<JsonValue>, n: int)
    requires
        0 <= n <= items.len(),
    ensures
        items_view(items, n).len() == n,
        forall|j: int| 0 <= j < n ==> #[trigger] items_view(items, n)[j] == items[j].view_of(),
    decreases n,
{
    if n > 0 {
        lemma_items_view(items, n - 1);
    }
}

/// The view of each member is the member's key and value view.
pub proof fn lemma_members_view(members: Seq<JsonMember>, n: int)
    requires
        0 <= n <= members.len(),
    ensures
        members_view(members, n).len() == n,
        forall|j: int|
            0 <= j < n ==> #[trigger] members_view(members, n)[j] == (
                members[j].key@,
                members[j].value.view_of(),
            ),
    decreases n,
{
    if n > 0 {
        lemma_members_view(members, n - 1);
    }
}

/// Appends the decimal digits of `n`.
pub fn write_nat(out: &mut String, n: u64)
    ensures
        final(out)@ == old(out)@ + nat_digits(n as nat),
    decreases n,
{
    if n >= 10 {
        write_nat(out, n / 10);
    }
    let d: u8 = (n % 10) as u8;
    push_char(out, (48u8 + d) as char);
}

/// Appends the decimal text of `i`.
pub fn write_int(out: &mut String, i: i64)
    ensures
        final(out)@ == old(out)@ + int_text(i as int),
{
    if i < 0 {
        push_char(out, '-');
        let m: u64 = if i == i64::MIN {
            9223372036854775808u64
        } else {
            (-i) as u64
        };
        write_nat(out, m);
        assert(seq!['-'] + nat_digits(m as nat) =~= seq!['-'].add(nat_digits(m as nat)));
        assert(old(out)@.push('-') + nat_digits(m as nat) =~= old(out)@ + int_text(i as int));
    } else {
        write_nat(out, i as u64);
    }
}

/// Appends the decimal text of n / 100 (see `hundredths_text`).
pub fn write_hundredths(out: &mut String, n: i64)
    ensures
        final(out)@ == old(out)@ + hundredths_text(n as int),
{
    let ghost start = out@;
    let a: u64 = if n < 0 {
        if n == i64::MIN {
            9223372036854775808u64
        } else {
            (-n) as u64
        }
    } else {
        n as u64
    };
    assert(a as int == if n < 0 { -(n as int) } else { n as int });
    if n < 0 {
        push_char(out, '-');
    }
    let ghost s1 = out@;
    write_nat(out, a / 100);
    push_char(out, '.');
    let f: u64 = a % 100;
    let hi: u8 = (f / 10) as u8;
    push_char(out, (48u8 + hi) as char);
    if f % 10 != 0 {
        let lo: u8 = (f % 10) as u8;
        push_char(out, (48u8 + lo) as char);
    }
    assert(out@ =~= start + hundredths_text(n as int));
}

fn hex_digit(d: u32) -> (c: char)
    requires
        d < 16,
    ensures
        c == hex_lower(d as int),
{
    if d < 10 {
        ((48 + d) as u8) as char
    } else {
        ((87 + d) as u8) as char
    }
}

/// Appends one character the way a JSON string literal holds it.
fn write_escaped_char(out: &mut String, c: char)
    ensures
        final(out)@ == old(out)@ + escape_char(c),
{
    let ghost start = out@;
    if c == '"' {
        push_char(out, '\\');
        push_char(out, '"');
    } else if c == '\\' {
        push_char(out, '\\');
        push_char(out, '\\');
    } else if c == '\n' {
        push_char(out, '\\');
        push_char(out, 'n');
    } else if c == '\r' {
        push_char(out, '\\');
        push_char(out, 'r');
    } else if c == '\t' {
        push_char(out, '\\');
        push_char(out, 't');
    } else if c == '\u{8}' {
        push_char(out, '\\');
        push_char(out, 'b');
    } else if c == '\u{c}' {
        push_char(out, '\\');
        push_char(out, 'f');
    } else if (c as u32) < 0x20 {
        push_char(out, '\\');
        push_char(out, 'u');
        push_char(out, '0');
        push_char(out, '0');
        let hi = hex_digit((c as u32) / 16);
        let lo = hex_digit((c as u32) % 16);
        push_char(out, hi);
        push_char(out, lo);
    } else {
        push_char(out, c);
    }
    assert(out@ =~= start + escape_char(c));
}

/// Appends `s` as a JSON string literal.
pub fn write_quoted(out: &mut String, s: &str)
    ensures
        final(out)@ == old(out)@ + quoted(s@),
{
    let ghost start = out@;
    let chars = crate::text::chars_of(s);
    push_char(out, '"');
    let mut i: usize = 0;
    while i < chars.len()
        invariant
            i <= chars.len(),
            chars@ == s@,
            out@ == start + seq!['"'] + escape_text(chars@.take(i as int)),
        decreases chars.len() - i,
    {
        write_escaped_char(out, chars[i]);
        assert(chars@.take(i + 1).drop_last() =~= chars@.take(i as int));
        i += 1;
    }
    assert(chars@.take(chars.len() as int) =~= chars@);
    push_char(out, '"');
    assert(out@ =~= start + quoted(s@));
}

/// Appends the compact JSON text of `v`.
pub fn write_json(out: &mut String, v: &JsonValue)
    ensures
        final(out)@ == old(out)@ + json_text(v@),
    decreases v,
{
    let ghost start = out@;
    match v {
        JsonValue::Null => {
            push_char(out, 'n');
            push_char(out, 'u');
            push_char(out, 'l');
            push_char(out, 'l');
        },
        JsonValue::Bool(b) => {
            if *b {
                push_char(out, 't');
                push_char(out, 'r');
                push_char(out, 'u');
                push_char(out, 'e');
            } else {
                push_char(out, 'f');
                push_char(out, 'a');
                push_char(out, 'l');
                push_char(out, 's');
                push_char(out, 'e');
            }
        },
        JsonValue::Int(i) => {
            write_int(out, *i);
        },
        JsonValue::UInt(u) => {
            write_nat(out, *u);
        },
        JsonValue::Hundredths(n) => {
            write_hundredths(out, *n);
        },
        JsonValue::Str(s) => {
            write_quoted(out, s.as_str());
        },
        JsonValue::Array(items) => {
            push_char(out, '[');
            let ghost iv = items_view(items@, items@.len() as int);
            proof {
                lemma_items_view(items@, items@.len() as int);
            }
            assert forall|j: int| 0 <= j < items@.len() implies decreases_to!(*v => items@[j]) by {
                assert(decreases_to!(*v => (*v)->Array_0));
                assert(decreases_to!(*items => items@));
                assert(decreases_to!(items@ => items@[j]));
            }
            let mut k: usize = 0;
            while k < items.len()
                invariant
                    k <= items.len(),
                    out@ == start + seq!['['] + items_text(iv, k as int),
                    iv.len() == items@.len(),
                    forall|j: int| 0 <= j < iv.len() ==> #[trigger] iv[j] == items@[j].view_of(),
                    forall|j: int| 0 <= j < items@.len() ==> decreases_to!(*v => items@[j]),
                decreases items.len() - k,
            {
                if k > 0 {
                    push_char(out, ',');
                }
                write_json(out, &items[k]);
                assert(out@ =~= start + seq!['['] + items_text(iv, k + 1));
                k += 1;
            }
            push_char(out, ']');
        },
        JsonValue::Object(members) => {
            push_char(out, '{');
            let ghost mv = members_view(members@, members@.len() as int);
            proof {
                lemma_members_view(members@, members@.len() as int);
            }
            assert forall|j: int| 0 <= j < members@.len() implies decreases_to!(*v => members@[j].value) by {
                assert(decreases_to!(*v => (*v)->Object_0));
                assert(decreases_to!(*members => members@));
                assert(decreases_to!(members@ => members@[j]));
                assert(decreases_to!(members@[j] => members@[j].value));
            }
            let mut k: usize = 0;
            while k < members.len()
                invariant
                    k <= members.len(),
                    out@ == start + seq!['{'] + members_text(mv, k as int),
                    mv.len() == members@.len(),
                    forall|j: int|
                        0 <= j < mv.len() ==> #[trigger] mv[j] == (
                            members@[j].key@,
                            members@[j].value.view_of(),
                        ),
                    forall|j: int| 0 <= j < members@.len() ==> decreases_to!(*v => members@[j].value),
                decreases members.len() - k,
            {
                if k > 0 {
                    push_char(out, ',');
                }
                write_quoted(out, members[k].key.as_str());
                push_char(out, ':');
                write_json(out, &members[k].value);
                assert(mv[k as int] == (members@[k as int].key@, members@[k as int].value.view_of()));
                assert(out@ =~= start + seq!['{'] + members_text(mv, k + 1));
                k += 1;
            }
            push_char(out, '}');
        },
    }
    assert(out@ =~= start + json_text(v@));
}

/// The compact JSON text of `v`.
pub fn to_json_string(v: &JsonValue) -> (s: String)
    ensures
        s@ == json_text(v@),
{
    let mut s = String::new();
    write_json(&mut s, v);
    assert(s@ =~= json_text(v@));
    s
}

} // verus!

verus! {

/// A JSON string value holding `s`.
pub fn jstr(s: &str) -> (v: JsonValue)
    ensures
        v@ == JsonView::Str(s@),
{
    JsonValue::Str(String::from_str(s))
}

/// A JSON string value holding a copy of `s`.
pub fn jstring(s: &String) -> (v: JsonValue)
    ensures
        v@ == JsonView::Str(s@),
{
    JsonValue::Str(s.clone())
}

/// An object member `key: value`.
pub fn member(key: &str, value: JsonValue) -> (m: JsonMember)
    ensures
        m.key@ == key@,
        m.value == value,
{
    JsonMember { key: String::from_str(key), value }
}

/// Whether two string slices hold the same characters.
pub fn str_eq(a: &str, b: &str) -> (r: bool)
    ensures
        r == (a@ == b@),
{
    let x = crate::text::chars_of(a);
    let y = crate::text::chars_of(b);
    if x.len() != y.len() {
        return false;
    }
    let mut i: usize = 0;
    while i < x.len()
        invariant
            x@ == a@,
            y@ == b@,
            x.len() == y.len(),
            i <= x.len(),
            forall|j: int| 0 <= j < i ==> x@[j] == y@[j],
        decreases x.len() - i,
    {
        if x[i] != y[i] {
            return false;
        }
        i += 1;
    }
    assert(x@ =~= y@);
    true
}

/// The members, as `(key, value)` views, of an object built from `members`.
pub open spec fn object_view(members: Seq<JsonMember>) -> Seq<(Seq<char>, JsonView)> {
    members_view(members, members.len() as int)
}

/// Wraps members into an object value.
pub fn object(members: Vec<JsonMember>) -> (v: JsonValue)
    ensures
        v@ == JsonView::Object(object_view(members@)),
{
    JsonValue::Object(members)
}

/// Appending a member extends the object view by that member.
pub proof fn lemma_object_view_push(members: Seq<JsonMember>, m: JsonMember)
    ensures
        object_view(members.push(m)) == object_view(members).push((m.key@, m.value@)),
{
    lemma_members_view(members, members.len() as int);
    lemma_members_view(members.push(m), members.len() + 1 as int);
    assert(members_view(members.push(m), members.len() as int) =~= members_view(members, members.len() as int)) by {
        lemma_members_view_prefix(members, m, members.len() as int);
    }
}

proof fn lemma_members_view_prefix(members: Seq<JsonMember>, m: JsonMember, n: int)
    requires
        0 <= n <= members.len(),
    ensures
        members_view(members.push(m), n) == members_view(members, n),
    decreases n,
{
    if n > 0 {
        lemma_members_view_prefix(members, m, n - 1);
    }
}

} // verus!

verus! {

/// Appends a member `key: value` to an object's member list.
pub fn push_member(members: &mut Vec<JsonMember>, key: &str, value: JsonValue)
    ensures
        object_view(final(members)@) == object_view(old(members)@).push((key@, value@)),
{
    let m = member(key, value);
    proof {
        lemma_object_view_push(members@, m);
    }
    members.push(m);
}

} // verus!

verus! {

/// The index of the first member named `k`, if any.
pub open spec fn find_key(ms: Seq<(Seq<char>, JsonView)>, k: Seq<char>) -> Option<int>
    decreases ms.len(),
{
    if ms.len() == 0 {
        None
    } else {
        match find_key(ms.drop_last(), k) {
            Some(i) => Some(i),
            None => if ms.last().0 == k {
                Some(ms.len() - 1)
            } else {
                None
            },
        }
    }
}

/// Setting member `m`: an existing member of that name takes the new value, otherwise
/// the member is appended.
pub open spec fn set_key(ms: Seq<(Seq<char>, JsonView)>, m: (Seq<char>, JsonView)) -> Seq<(Seq<char>, JsonView)> {
    match find_key(ms, m.0) {
        Some(i) => ms.update(i, m),
        None => ms.push(m),
    }
}

/// Setting the first `n` members of `props`, in order, on `base`.
pub open spec fn merge_keys(base: Seq<(Seq<char>, JsonView)>, props: Seq<(Seq<char>, JsonView)>, n: int) -> Seq<(Seq<char>, JsonView)>
    decreases n,
{
    if n <= 0 || n > props.len() {
        base
    } else {
        set_key(merge_keys(base, props, n - 1), props[n - 1])
    }
}

pub proof fn lemma_find_key_bound(ms: Seq<(Seq<char>, JsonView)>, k: Seq<char>)
    ensures
        find_key(ms, k) matches Some(i) ==> 0 <= i < ms.len() && ms[i].0 == k,
        find_key(ms, k) is None ==> forall|j: int| 0 <= j < ms.len() ==> ms[j].0 != k,
    decreases ms.len(),
{
    if ms.len() > 0 {
        lemma_find_key_bound(ms.drop_last(), k);
        assert forall|j: int| 0 <= j < ms.len() - 1 implies ms[j] == ms.drop_last()[j] by {}
    }
}

/// The index of the first member named `key`.
pub fn find_member(ms: &Vec<JsonMember>, key: &str) -> (r: Option<usize>)
    ensures
        match r {
            Some(i) => find_key(object_view(ms@), key@) == Some(i as int),
            None => find_key(object_view(ms@), key@) is None,
        },
{
    let ghost v = object_view(ms@);
    proof {
        lemma_members_view(ms@, ms@.len() as int);
    }
    let mut i: usize = 0;
    while i < ms.len()
        invariant
            i <= ms.len(),
            v == object_view(ms@),
            v.len() == ms@.len(),
            forall|j: int| 0 <= j < ms@.len() ==> #[trigger] v[j] == (ms@[j].key@, ms@[j].value@),
            find_key(v.take(i as int), key@) is None,
        decreases ms.len() - i,
    {
        assert(v.take(i + 1).drop_last() =~= v.take(i as int));
        if str_eq(ms[i].key.as_str(), key) {
            assert(find_key(v.take(i + 1), key@) == Some(i as int));
            proof {
                lemma_find_key_prefix(v, key@, i + 1);
            }
            return Some(i);
        }
        i += 1;
    }
    assert(v.take(ms.len() as int) =~= v);
    None
}

proof fn lemma_find_key_prefix(v: Seq<(Seq<char>, JsonView)>, k: Seq<char>, n: int)
    requires
        0 <= n <= v.len(),
        find_key(v.take(n), k) is Some,
    ensures
        find_key(v, k) == find_key(v.take(n), k),
    decreases v.len() - n,
{
    if n < v.len() {
        assert(v.take(n + 1).drop_last() =~= v.take(n));
        lemma_find_key_prefix(v, k, n + 1);
    } else {
        assert(v.take(n) =~= v);
    }
}

/// Sets member `m` on an object's members (replace the first of that name, else append).
pub fn set_member(ms: &mut Vec<JsonMember>, m: JsonMember)
    ensures
        object_view(final(ms)@) == set_key(object_view(old(ms)@), (m.key@, m.value@)),
{
    proof {
        lemma_members_view(ms@, ms@.len() as int);
    }
    match find_member(ms, m.key.as_str()) {
        Some(i) => {
            let ghost before = ms@;
            proof {
                lemma_find_key_bound(object_view(ms@), m.key@);
            }
            ms.set(i, m);
            proof {
                lemma_members_view(ms@, ms@.len() as int);
                lemma_members_view(before, before.len() as int);
            }
            assert(object_view(ms@) =~= object_view(before).update(i as int, (m.key@, m.value@)));
        },
        None => {
            proof {
                lemma_object_view_push(ms@, m);
            }
            ms.push(m);
        },
    }
}

/// Sets every member of `props`, in order.
pub fn merge_members(ms: &mut Vec<JsonMember>, props: Vec<JsonMember>)
    ensures
        object_view(final(ms)@) == merge_keys(object_view(old(ms)@), object_view(props@), props@.len() as int),
{
    let ghost orig = props@;
    let ghost pv = object_view(orig);
    proof {
        lemma_members_view(orig, orig.len() as int);
    }
    let mut props = props;
    let n0 = props.len();
    assert(orig.len() == n0);
    let mut k: usize = 0;
    assert(props@ =~= orig.subrange(0, orig.len() as int));
    while props.len() > 0
        invariant
            k <= orig.len() <= usize::MAX,
            props@ == orig.subrange(k as int, orig.len() as int),
            pv == object_view(orig),
            pv.len() == orig.len(),
            forall|j: int| 0 <= j < orig.len() ==> #[trigger] pv[j] == (orig[j].key@, orig[j].value@),
            object_view(ms@) == merge_keys(object_view(old(ms)@), pv, k as int),
        decreases props.len(),
    {
        assert(props@.len() == orig.len() - k);
        let m = props.remove(0);
        assert(m == orig[k as int]);
        set_member(ms, m);
        assert(k < orig.len());
        k += 1;
        assert(merge_keys(object_view(old(ms)@), pv, k as int) == set_key(merge_keys(object_view(old(ms)@), pv, k - 1), pv[k - 1]));
    }
}

/// The compact JSON text of the object made of `members`.
pub fn members_to_json_string(members: &Vec<JsonMember>) -> (s: String)
    ensures
        s@ == json_text(JsonView::Object(object_view(members@))),
{
    let mut out = String::new();
    let ghost mv = object_view(members@);
    proof {
        lemma_members_view(members@, members@.len() as int);
    }
    push_char(&mut out, '{');
    let mut k: usize = 0;
    while k < members.len()
        invariant
            k <= members.len(),
            out@ == seq!['{'] + members_text(mv, k as int),
            mv == object_view(members@),
            mv.len() == members@.len(),
            forall|j: int| 0 <= j < mv.len() ==> #[trigger] mv[j] == (members@[j].key@, members@[j].value.view_of()),
        decreases members.len() - k,
    {
        let ghost before = out@;
        if k > 0 {
            push_char(&mut out, ',');
        }
        write_quoted(&mut out, members[k].key.as_str());
        push_char(&mut out, ':');
        write_json(&mut out, &members[k].value);
        assert(mv[k as int] == (members@[k as int].key@, members@[k as int].value.view_of()));
        assert(out@ =~= seq!['{'] + members_text(mv, k + 1));
        k += 1;
    }
    push_char(&mut out, '}');
    assert(out@ =~= json_text(JsonView::Object(mv)));
    out
}

/// The member `k` of an object (the first of that name); nothing for other values.
pub open spec fn json_get(v: JsonView, k: Seq<char>) -> Option<JsonView> {
    match v {
        JsonView::Object(ms) => match find_key(ms, k) {
            Some(i) => Some(ms[i].1),
            None => None,
        },
        _ => None,
    }
}

/// The string a value holds, if it is one.
pub open spec fn json_str(v: Option<JsonView>) -> Option<Seq<char>> {
    match v {
        Some(JsonView::Str(s)) => Some(s),
        _ => None,
    }
}

/// The member `key` of an object value (the first of that name), if any.
pub fn get_member<'a>(v: &'a JsonValue, key: &str) -> (r: Option<&'a JsonValue>)
    ensures
        match r {
            Some(x) => json_get(v@, key@) == Some(x@),
            None => json_get(v@, key@) is None,
        },
{
    match v {
        JsonValue::Object(ms) => {
            proof {
                lemma_members_view(ms@, ms@.len() as int);
                lemma_find_key_bound(object_view(ms@), key@);
            }
            match find_member(ms, key) {
                Some(i) => Some(&ms[i].value),
                None => None,
            }
        },
        _ => None,
    }
}

/// The string held by an optional value, if it is a string.
pub fn as_str<'a>(v: Option<&'a JsonValue>) -> (r: Option<&'a String>)
    ensures
        match r {
            Some(s) => json_str(match v { Some(x) => Some(x@), None => None }) == Some(s@),
            None => json_str(match v { Some(x) => Some(x@), None => None }) is None,
        },
{
    match v {
        Some(JsonValue::Str(s)) => Some(s),
        _ => None,
    }
}

} // verus!

verus! {

/// The views of a list of values.
pub open spec fn vals(s: Seq<JsonValue>) -> Seq<JsonView> {
    Seq::new(s.len(), |j: int| s[j]@)
}

/// The view of an array's items is the list of their views.
pub proof fn lemma_items_vals(s: Seq<JsonValue>)
    ensures
        items_view(s, s.len() as int) == vals(s),
{
    lemma_items_view(s, s.len() as int);
    assert(items_view(s, s.len() as int) =~= vals(s));
}

/// A deep copy of a value.
pub fn json_copy(v: &JsonValue) -> (r: JsonValue)
    ensures
        r@ == v@,
    decreases v@,
{
    match v {
        JsonValue::Null => JsonValue::Null,
        JsonValue::Bool(b) => JsonValue::Bool(*b),
        JsonValue::Int(i) => JsonValue::Int(*i),
        JsonValue::UInt(u) => JsonValue::UInt(*u),
        JsonValue::Hundredths(n) => JsonValue::Hundredths(*n),
        JsonValue::Str(s) => JsonValue::Str(s.clone()),
        JsonValue::Array(items) => {
            proof {
                lemma_items_vals(items@);
            }
            let mut out: Vec<JsonValue> = Vec::new();
            let mut i: usize = 0;
            while i < items.len()
                invariant
                    i <= items@.len(),
                    v@ == JsonView::Array(vals(items@)),
                    out@.len() == i,
                    vals(out@) =~= vals(items@).take(i as int),
                decreases items.len() - i,
            {
                proof {
                    let vv = v@;
                    assert(decreases_to!(vv => vv->Array_0));
                    assert(decreases_to!(vv->Array_0 => vv->Array_0[i as int]));
                }
                let c = json_copy(&items[i]);
                let ghost before = out@;
                out.push(c);
                assert forall|j: int| 0 <= j <= i implies #[trigger] vals(out@)[j] == vals(items@)[j] by {
                    if j < i {
                        assert(out@[j] == before[j]);
                        assert(vals(before)[j] == vals(items@).take(i as int)[j]);
                    }
                }
                assert(vals(out@) =~= vals(items@).take(i + 1));
                i += 1;
            }
            proof {
                lemma_items_vals(out@);
                assert(vals(items@).take(items@.len() as int) =~= vals(items@));
            }
            JsonValue::Array(out)
        },
        JsonValue::Object(ms) => {
            proof {
                lemma_members_view(ms@, ms@.len() as int);
            }
            let mut out: Vec<JsonMember> = Vec::new();
            let mut i: usize = 0;
            while i < ms.len()
                invariant
                    i <= ms@.len(),
                    v@ == JsonView::Object(object_view(ms@)),
                    object_view(ms@).len() == ms@.len(),
                    forall|j: int| 0 <= j < ms@.len() ==> #[trigger] object_view(ms@)[j] == (ms@[j].key@, ms@[j].value@),
                    object_view(out@) =~= object_view(ms@).take(i as int),
                decreases ms.len() - i,
            {
                proof {
                    let vv = v@;
                    assert(decreases_to!(vv => vv->Object_0));
                    assert(decreases_to!(vv->Object_0 => vv->Object_0[i as int]));
                    assert(decreases_to!(vv->Object_0[i as int] => vv->Object_0[i as int].1));
                }
                let c = json_copy(&ms[i].value);
                let m = JsonMember { key: ms[i].key.clone(), value: c };
                proof {
                    lemma_object_view_push(out@, m);
                }
                out.push(m);
                assert(object_view(out@) =~= object_view(ms@).take(i + 1));
                i += 1;
            }
            assert(object_view(ms@).take(ms@.len() as int) =~= object_view(ms@));
            JsonValue::Object(out)
        },
    }
}

/// Whether two values have the same content (object members compared in order).
pub fn json_eq(a: &JsonValue, b: &JsonValue) -> (r: bool)
    ensures
        r == (a@ == b@),
    decreases a@,
{
    match (a, b) {
        (JsonValue::Null, JsonValue::Null) => true,
        (JsonValue::Bool(x), JsonValue::Bool(y)) => *x == *y,
        (JsonValue::Int(x), JsonValue::Int(y)) => *x == *y,
        (JsonValue::UInt(x), JsonValue::UInt(y)) => *x == *y,
        (JsonValue::Hundredths(x), JsonValue::Hundredths(y)) => *x == *y,
        (JsonValue::Int(x), JsonValue::UInt(y)) => *x >= 0 && *x as u64 == *y,
        (JsonValue::UInt(x), JsonValue::Int(y)) => *y >= 0 && *y as u64 == *x,
        (JsonValue::Str(x), JsonValue::Str(y)) => str_eq(x.as_str(), y.as_str()),
        (JsonValue::Array(xs), JsonValue::Array(ys)) => {
            proof {
                lemma_items_vals(xs@);
                lemma_items_vals(ys@);
            }
            if xs.len() != ys.len() {
                assert(vals(xs@).len() != vals(ys@).len());
                return false;
            }
            let mut i: usize = 0;
            while i < xs.len()
                invariant
                    i <= xs@.len(),
                    xs@.len() == ys@.len(),
                    a@ == JsonView::Array(vals(xs@)),
                    b@ == JsonView::Array(vals(ys@)),
                    forall|j: int| 0 <= j < i ==> xs@[j]@ == ys@[j]@,
                decreases xs.len() - i,
            {
                proof {
                    let va = a@;
                    assert(decreases_to!(va => va->Array_0));
                    assert(decreases_to!(va->Array_0 => va->Array_0[i as int]));
                }
                if !json_eq(&xs[i], &ys[i]) {
                    assert(vals(xs@)[i as int] != vals(ys@)[i as int]);
                    return false;
                }
                i += 1;
            }
            assert(vals(xs@) =~= vals(ys@));
            true
        },
        (JsonValue::Object(xs), JsonValue::Object(ys)) => {
            proof {
                lemma_members_view(xs@, xs@.len() as int);
                lemma_members_view(ys@, ys@.len() as int);
            }
            if xs.len() != ys.len() {
                assert(object_view(xs@).len() != object_view(ys@).len());
                return false;
            }
            let mut i: usize = 0;
            while i < xs.len()
                invariant
                    i <= xs@.len(),
                    xs@.len() == ys@.len(),
                    a@ == JsonView::Object(object_view(xs@)),
                    b@ == JsonView::Object(object_view(ys@)),
                    object_view(xs@).len() == xs@.len(),
                    object_view(ys@).len() == ys@.len(),
                    forall|j: int| 0 <= j < xs@.len() ==> #[trigger] object_view(xs@)[j] == (xs@[j].key@, xs@[j].value@),
                    forall|j: int| 0 <= j < ys@.len() ==> #[trigger] object_view(ys@)[j] == (ys@[j].key@, ys@[j].value@),
                    forall|j: int| 0 <= j < i ==> object_view(xs@)[j] == object_view(ys@)[j],
                decreases xs.len() - i,
            {
                proof {
                    let va = a@;
                    assert(decreases_to!(va => va->Object_0));
                    assert(decreases_to!(va->Object_0 => va->Object_0[i as int]));
                    assert(decreases_to!(va->Object_0[i as int] => va->Object_0[i as int].1));
                }
                if !str_eq(xs[i].key.as_str(), ys[i].key.as_str()) {
                    assert(object_view(xs@)[i as int] != object_view(ys@)[i as int]);
                    return false;
                }
                if !json_eq(&xs[i].value, &ys[i].value) {
                    assert(object_view(xs@)[i as int] != object_view(ys@)[i as int]);
                    return false;
                }
                i += 1;
            }
            assert(object_view(xs@) =~= object_view(ys@));
            true
        },
        _ => false,
    }
}

} // verus!
