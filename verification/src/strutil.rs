//! Character-level helpers shared by the JSON codec and the validators:
//! moving between `String`/`&str` and `Vec<char>`, appending literals, and
//! matching a literal inside a character vector.

use vstd::prelude::*;
use vstd::string::StrSliceExecFns;

verus! {

/// The characters of `s`, collected into a vector.
pub fn string_to_chars(s: &str) -> (r: Vec<char>)
    ensures
        r@ == s@,
{
    let n = s.unicode_len();
    let mut r: Vec<char> = Vec::new();
    let mut i: usize = 0;
    while i < n
        invariant
            n == s@.len(),
            i <= n,
            r@ == s@.subrange(0, i as int),
        decreases n - i,
    {
        r.push(s.get_char(i));
        i = i + 1;
        assert(r@ =~= s@.subrange(0, i as int));
    }
    assert(s@.subrange(0, n as int) =~= s@);
    r
}

/// Relies on std's `String::push`: appends one character to the string.
#[verifier::external_body]
fn push_char(s: &mut String, c: char)
    ensures
        final(s)@ == old(s)@.push(c),
{
    s.push(c);
}

/// The characters of `v`, collected into a string.
pub fn chars_to_string(v: &Vec<char>) -> (r: String)
    ensures
        r@ == v@,
{
    let mut r = String::new();
    let mut i: usize = 0;
    while i < v.len()
        invariant
            i <= v@.len(),
            r@ == v@.subrange(0, i as int),
        decreases v@.len() - i,
    {
        push_char(&mut r, v[i]);
        i = i + 1;
        assert(r@ =~= v@.subrange(0, i as int));
    }
    assert(v@.subrange(0, v@.len() as int) =~= v@);
    r
}

/// Appends the characters of the literal `lit` to `out`.
pub fn push_str_chars(out: &mut Vec<char>, lit: &str)
    ensures
        final(out)@ == old(out)@ + lit@,
{
    let n = lit.unicode_len();
    let mut i: usize = 0;
    while i < n
        invariant
            n == lit@.len(),
            i <= n,
            out@ == old(out)@ + lit@.subrange(0, i as int),
        decreases n - i,
    {
        out.push(lit.get_char(i));
        i = i + 1;
        assert(out@ =~= old(out)@ + lit@.subrange(0, i as int));
    }
    assert(old(out)@ + lit@.subrange(0, n as int) =~= old(out)@ + lit@);
}

/// `p` occurs in `v` starting at index `i`.
pub open spec fn starts_with_at(v: Seq<char>, i: int, p: Seq<char>) -> bool {
    0 <= i && i + p.len() <= v.len() && v.subrange(i, i + p.len()) == p
}

/// Checks whether the literal `lit` occurs in `v` at index `i`; on success
/// returns the index just past it.
pub fn match_lit(v: &Vec<char>, i: usize, lit: &str) -> (r: Option<usize>)
    requires
        i <= v@.len(),
    ensures
        match r {
            Some(j) => j == i + lit@.len() && j <= v@.len() && starts_with_at(v@, i as int, lit@),
            None => !starts_with_at(v@, i as int, lit@),
        },
{
    let n = lit.unicode_len();
    if v.len() - i < n {
        return None;
    }
    let mut k: usize = 0;
    while k < n
        invariant
            n == lit@.len(),
            k <= n,
            i + n <= v@.len(),
            v@.len() <= usize::MAX,
            forall|m: int| 0 <= m < k ==> v@[i + m] == lit@[m],
        decreases n - k,
    {
        assert(i + k < v@.len());
        if v[i + k] != lit.get_char(k) {
            proof {
                assert(v@.subrange(i as int, i + n) != lit@) by {
                    assert(v@.subrange(i as int, i + n)[k as int] == v@[i + k]);
                }
            }
            return None;
        }
        k = k + 1;
    }
    proof {
        assert(v@.subrange(i as int, i + n) =~= lit@);
    }
    Some(i + n)
}

} // verus!
