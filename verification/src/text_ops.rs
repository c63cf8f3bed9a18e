//! Splicing character sequences.
use vstd::prelude::*;

verus! {

/// `a[..start] + ins + a[end..]`.
pub open spec fn splice(a: Seq<char>, start: int, end: int, ins: Seq<char>) -> Seq<char> {
    a.subrange(0, start) + ins + a.subrange(end, a.len() as int)
}

/// Copies `a[from..to]`.
pub fn copy_range(a: &Vec<char>, from: usize, to: usize) -> (r: Vec<char>)
    requires
        from <= to <= a.len(),
    ensures
        r@ == a@.subrange(from as int, to as int),
{
    let mut r: Vec<char> = Vec::new();
    let mut i = from;
    while i < to
        invariant
            from <= i <= to <= a.len(),
            r@ == a@.subrange(from as int, i as int),
        decreases to - i,
    {
        r.push(a[i]);
        assert(a@.subrange(from as int, i + 1) =~= a@.subrange(from as int, i as int).push(a@[i as int]));
        i += 1;
    }
    r
}

/// Appends all of `b` to `a`.
pub fn extend_chars(a: &mut Vec<char>, b: &Vec<char>)
    ensures
        final(a)@ == old(a)@ + b@,
{
    let mut i: usize = 0;
    while i < b.len()
        invariant
            i <= b.len(),
            a@ == old(a)@ + b@.take(i as int),
        decreases b.len() - i,
    {
        a.push(b[i]);
        assert(b@.take(i + 1) =~= b@.take(i as int).push(b@[i as int]));
        i += 1;
    }
    assert(b@.take(b.len() as int) =~= b@);
}

/// `a[..start] + ins + a[end..]` as a string.
pub fn splice_string(a: &str, start: usize, end: usize, ins: &str) -> (r: String)
    requires
        start <= end <= a@.len(),
    ensures
        r@ == splice(a@, start as int, end as int, ins@),
{
    let ac = crate::text::chars_of(a);
    let ic = crate::text::chars_of(ins);
    let mut out = copy_range(&ac, 0, start);
    extend_chars(&mut out, &ic);
    let tail = copy_range(&ac, end, ac.len());
    extend_chars(&mut out, &tail);
    crate::text::string_from_chars(out.as_slice())
}

/// `a[from..to]` as a string.
pub fn substring(a: &str, from: usize, to: usize) -> (r: String)
    requires
        from <= to <= a@.len(),
    ensures
        r@ == a@.subrange(from as int, to as int),
{
    let ac = crate::text::chars_of(a);
    let part = copy_range(&ac, from, to);
    crate::text::string_from_chars(part.as_slice())
}

/// `a + b` as a string.
pub fn concat_str(a: &str, b: &str) -> (r: String)
    ensures
        r@ == a@ + b@,
{
    let mut ac = crate::text::chars_of(a);
    let bc = crate::text::chars_of(b);
    extend_chars(&mut ac, &bc);
    crate::text::string_from_chars(ac.as_slice())
}

/// The number of characters of `s`.
pub fn char_len(s: &str) -> (n: usize)
    ensures
        n == s@.len(),
{
    crate::text::chars_of(s).len()
}

} // verus!
