//! Character-level helpers shared by the modules: decimal rendering,
//! line-ending trimming, and building `String`s from `char`s.

use vstd::prelude::*;

verus! {

/// The ASCII digit for `d` (`d < 10`).
pub open spec fn digit_char(d: nat) -> char {
    (d + 48) as char
}

/// Decimal rendering of a natural number, most significant digit first.
pub open spec fn decimal(n: nat) -> Seq<char>
    decreases n,
{
    if n < 10 {
        seq![digit_char(n)]
    } else {
        decimal(n / 10).push(digit_char(n % 10))
    }
}

/// `s` with every trailing `'\n'` and `'\r'` removed.
pub open spec fn strip_line_endings(s: Seq<char>) -> Seq<char>
    decreases s.len(),
{
    if s.len() > 0 && (s.last() == '\n' || s.last() == '\r') {
        strip_line_endings(s.drop_last())
    } else {
        s
    }
}

/// Appends one character (std `String::push`).
#[verifier::external_body]
pub(crate) fn string_push(s: &mut String, c: char)
    ensures
        final(s)@ == old(s)@.push(c),
{
    s.push(c);
}

/// Removes the last character (std `String::pop`).
#[verifier::external_body]
pub(crate) fn string_pop(s: &mut String) -> (r: Option<char>)
    ensures
        old(s)@.len() == 0 ==> r is None && final(s)@ == old(s)@,
        old(s)@.len() > 0 ==> r == Some(old(s)@.last()) && final(s)@ == old(s)@.drop_last(),
{
    s.pop()
}

/// Appends a string slice.
pub fn push_str(out: &mut String, s: &str)
    ensures
        final(out)@ == old(out)@ + s@,
{
    out.append(s);
}

/// The characters of `raw`, in order.
pub fn chars_of(raw: &str) -> (out: Vec<char>)
    ensures
        out@ == raw@,
{
    let mut out: Vec<char> = Vec::new();
    for c in it: raw.chars()
        invariant
            it.seq() == raw@,
            out@ == it.seq().take(it.index()),
    {
        out.push(c);
    }
    out
}

/// Appends `cs[from..to]` to `out`.
pub fn push_chars(out: &mut String, cs: &Vec<char>, from: usize, to: usize)
    requires
        from <= to <= cs@.len(),
    ensures
        final(out)@ == old(out)@ + cs@.subrange(from as int, to as int),
{
    let mut i: usize = from;
    while i < to
        invariant
            from <= i <= to <= cs@.len(),
            out@ == old(out)@ + cs@.subrange(from as int, i as int),
        decreases to - i,
    {
        string_push(out, cs[i]);
        assert(cs@.subrange(from as int, i + 1) == cs@.subrange(from as int, i as int).push(cs@[i as int]));
        i += 1;
    }
}

/// A `String` holding exactly `cs[from..to]`.
pub fn string_of(cs: &Vec<char>, from: usize, to: usize) -> (s: String)
    requires
        from <= to <= cs@.len(),
    ensures
        s@ == cs@.subrange(from as int, to as int),
{
    let mut s = String::new();
    push_chars(&mut s, cs, from, to);
    s
}

fn digit(d: u8) -> (c: char)
    requires
        d < 10,
    ensures
        c == digit_char(d as nat),
{
    (d + 48) as char
}

/// Appends the decimal rendering of `n`.
pub fn push_decimal(out: &mut String, n: u8)
    ensures
        final(out)@ == old(out)@ + decimal(n as nat),
{
    if n >= 100 {
        assert(decimal(n as nat) == seq![digit_char((n / 100) as nat), digit_char(((n / 10) % 10) as nat), digit_char((n % 10) as nat)]) by {
            assert((n / 10) / 10 == n / 100);
            assert(decimal((n / 100) as nat) == seq![digit_char((n / 100) as nat)]);
            assert(decimal((n / 10) as nat) == decimal((n / 100) as nat).push(digit_char(((n / 10) % 10) as nat)));
            assert(decimal(n as nat) == decimal((n / 10) as nat).push(digit_char((n % 10) as nat)));
        }
        string_push(out, digit(n / 100));
        string_push(out, digit((n / 10) % 10));
        string_push(out, digit(n % 10));
    } else if n >= 10 {
        assert(decimal(n as nat) == seq![digit_char((n / 10) as nat), digit_char((n % 10) as nat)]) by {
            assert(decimal((n / 10) as nat) == seq![digit_char((n / 10) as nat)]);
        }
        string_push(out, digit(n / 10));
        string_push(out, digit(n % 10));
    } else {
        string_push(out, digit(n));
    }
}

/// Appends the decimal rendering of a 64-bit `n`.
pub fn push_decimal_u64(out: &mut String, n: u64)
    ensures
        final(out)@ == old(out)@ + decimal(n as nat),
    decreases n,
{
    if n >= 10 {
        push_decimal_u64(out, n / 10);
    }
    let d = (n % 10) as u8;
    string_push(out, digit(d));
    proof {
        assert(old(out)@ + decimal(n as nat) =~= if n >= 10 {
            old(out)@ + decimal((n / 10) as nat) + seq![digit_char((n % 10) as nat)]
        } else {
            old(out)@ + seq![digit_char(n as nat)]
        });
    }
}

/// The decimal rendering of `n` as a new `String`.
pub fn decimal_string(n: u8) -> (s: String)
    ensures
        s@ == decimal(n as nat),
{
    let mut s = String::new();
    push_decimal(&mut s, n);
    s
}

/// Whether two character sequences are equal, computed.
pub fn chars_equal(a: &Vec<char>, b: &Vec<char>) -> (r: bool)
    ensures
        r == (a@ == b@),
{
    if a.len() != b.len() {
        return false;
    }
    let mut i: usize = 0;
    while i < a.len()
        invariant
            a@.len() == b@.len(),
            i <= a@.len(),
            forall|k: int| 0 <= k < i ==> a@[k] == b@[k],
        decreases a.len() - i,
    {
        if a[i] != b[i] {
            return false;
        }
        i += 1;
    }
    assert(a@ =~= b@);
    true
}

/// A copy of a vector of strings.
pub fn clone_strings(v: &Vec<String>) -> (r: Vec<String>)
    ensures
        r@ == v@,
{
    let mut r: Vec<String> = Vec::new();
    let mut i: usize = 0;
    while i < v.len()
        invariant
            i <= v@.len(),
            r@ == v@.take(i as int),
        decreases v.len() - i,
    {
        r.push(v[i].clone());
        assert(r@ =~= v@.take(i + 1));
        i += 1;
    }
    assert(v@.take(v@.len() as int) =~= v@);
    r
}

} // verus!
