//! Characters, character classes and comparisons of pieces of text.

use vstd::prelude::*;

verus! {

/// White space: blank, tab, line feed, carriage return.
pub open spec fn spec_is_space(c: char) -> bool {
    c == ' ' || c == '\t' || c == '\n' || c == '\r'
}

/// A decimal digit.
pub open spec fn spec_is_digit(c: char) -> bool {
    '0' <= c && c <= '9'
}

/// Letters, the underscore and everything outside ASCII may start a name.
pub open spec fn spec_is_ident_start(c: char) -> bool {
    ('a' <= c && c <= 'z') || ('A' <= c && c <= 'Z') || c == '_' || (c as u32) >= 128
}

/// What may stand inside a name: what may start one, and digits.
pub open spec fn spec_is_ident_continue(c: char) -> bool {
    spec_is_ident_start(c) || spec_is_digit(c)
}

/// Whether `c` is white space.
#[verifier::when_used_as_spec(spec_is_space)]
pub fn is_space(c: char) -> (r: bool)
    ensures
        r == spec_is_space(c),
{
    c == ' ' || c == '\t' || c == '\n' || c == '\r'
}

/// Whether `c` is a decimal digit.
#[verifier::when_used_as_spec(spec_is_digit)]
pub fn is_digit(c: char) -> (r: bool)
    ensures
        r == spec_is_digit(c),
{
    c >= '0' && c <= '9'
}

/// Whether `c` may start a name.
#[verifier::when_used_as_spec(spec_is_ident_start)]
pub fn is_ident_start(c: char) -> (r: bool)
    ensures
        r == spec_is_ident_start(c),
{
    (c >= 'a' && c <= 'z') || (c >= 'A' && c <= 'Z') || c == '_' || (c as u32) >= 128
}

/// Whether `c` may stand inside a name.
#[verifier::when_used_as_spec(spec_is_ident_continue)]
pub fn is_ident_continue(c: char) -> (r: bool)
    ensures
        r == spec_is_ident_continue(c),
{
    is_ident_start(c) || is_digit(c)
}

/// The characters of a string, one element per character.
pub fn chars_of(s: &str) -> (v: Vec<char>)
    ensures
        v@ == s@,
{
    let mut v: Vec<char> = Vec::new();
    for c in it: s.chars()
        invariant
            v@ == it.seq().take(it.index() as int),
    {
        v.push(c);
    }
    v
}

/// `String::push` of std: appends the one character `c` to the end of `s` and
/// changes nothing else.
#[verifier::external_body]
fn push_char(s: &mut String, c: char)
    ensures
        final(s)@ == old(s)@.push(c),
{
    s.push(c);
}

/// The string made of the characters of `v`, in order.
pub fn string_of(v: &Vec<char>) -> (s: String)
    ensures
        s@ == v@,
{
    let mut s = String::new();
    let mut i: usize = 0;
    while i < v.len()
        invariant
            i <= v.len(),
            s@ == v@.take(i as int),
        decreases v.len() - i,
    {
        push_char(&mut s, v[i]);
        i += 1;
    }
    s
}

/// The characters of `a` from `a0` up to, not including, `a1`.
pub fn copy_span(a: &Vec<char>, a0: usize, a1: usize) -> (v: Vec<char>)
    requires
        a0 <= a1 <= a.len(),
    ensures
        v@ == a@.subrange(a0 as int, a1 as int),
{
    let mut v: Vec<char> = Vec::new();
    let mut i: usize = a0;
    while i < a1
        invariant
            a0 <= i <= a1 <= a.len(),
            v@ == a@.subrange(a0 as int, i as int),
        decreases a1 - i,
    {
        v.push(a[i]);
        i += 1;
    }
    v
}

/// The texts held by a list of character vectors.
pub open spec fn views(v: Seq<Vec<char>>) -> Seq<Seq<char>> {
    Seq::new(v.len(), |i: int| v[i]@)
}

/// Whether two pieces of text, each given by its bounds, hold the same
/// characters.
pub fn span_eq(a: &Vec<char>, a0: usize, a1: usize, b: &Vec<char>, b0: usize, b1: usize) -> (r:
    bool)
    requires
        a0 <= a1 <= a.len(),
        b0 <= b1 <= b.len(),
    ensures
        r == (a@.subrange(a0 as int, a1 as int) == b@.subrange(b0 as int, b1 as int)),
{
    let ghost sa = a@.subrange(a0 as int, a1 as int);
    let ghost sb = b@.subrange(b0 as int, b1 as int);
    if a1 - a0 != b1 - b0 {
        assert(sa.len() != sb.len());
        return false;
    }
    let n: usize = a1 - a0;
    let mut i: usize = 0;
    while i < n
        invariant
            i <= n,
            n == a1 - a0,
            n == b1 - b0,
            a0 <= a1 <= a.len(),
            b0 <= b1 <= b.len(),
            sa == a@.subrange(a0 as int, a1 as int),
            sb == b@.subrange(b0 as int, b1 as int),
            forall|k: int| 0 <= k < i ==> sa[k] == sb[k],
        decreases n - i,
    {
        if a[a0 + i] != b[b0 + i] {
            assert(sa[i as int] != sb[i as int]);
            return false;
        }
        i += 1;
    }
    assert(sa =~= sb);
    true
}

/// Whether two texts hold the same characters.
pub fn same_text(a: &Vec<char>, b: &Vec<char>) -> (r: bool)
    ensures
        r == (a@ == b@),
{
    assert(a@.subrange(0, a@.len() as int) =~= a@);
    assert(b@.subrange(0, b@.len() as int) =~= b@);
    span_eq(a, 0, a.len(), b, 0, b.len())
}

/// Whether the piece of `a` between `a0` and `a1` spells `name`.
pub fn span_is(a: &Vec<char>, a0: usize, a1: usize, name: &Vec<char>) -> (r: bool)
    requires
        a0 <= a1 <= a.len(),
    ensures
        r == (a@.subrange(a0 as int, a1 as int) == name@),
{
    assert(name@.subrange(0, name@.len() as int) =~= name@);
    span_eq(a, a0, a1, name, 0, name.len())
}

} // verus!
