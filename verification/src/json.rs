//! The JSON shapes this service emits and accepts, written out exactly:
//! string escaping, decimal rendering of status codes, the create-request
//! payload codec for [`User`], and the [`ApiError`] envelope encoder.
//!
//! Every body the service can produce is pinned character by character by the
//! spec functions here, and the payload codec round-trips.

use vstd::prelude::*;
use crate::errors::ApiError;
use crate::strutil::chars_to_string;
use crate::strutil::match_lit;
use crate::strutil::push_str_chars;
use crate::strutil::starts_with_at;
use crate::strutil::string_to_chars;
use crate::user::User;

verus! {

/// How one character is written inside a JSON string literal.
pub open spec fn escape_char(c: char) -> Seq<char> {
    if c == '"' {
        seq!['\\', '"']
    } else if c == '\\' {
        seq!['\\', '\\']
    } else if c == '\n' {
        seq!['\\', 'n']
    } else if c == '\r' {
        seq!['\\', 'r']
    } else if c == '\t' {
        seq!['\\', 't']
    } else {
        seq![c]
    }
}

/// How a whole string is written inside a JSON string literal.
pub open spec fn escape_seq(s: Seq<char>) -> Seq<char>
    decreases s.len(),
{
    if s.len() == 0 {
        Seq::<char>::empty()
    } else {
        escape_char(s[0]) + escape_seq(s.drop_first())
    }
}

/// Escaping distributes over concatenation.
pub proof fn lemma_escape_seq_append(a: Seq<char>, b: Seq<char>)
    ensures
        escape_seq(a + b) == escape_seq(a) + escape_seq(b),
    decreases a.len(),
{
    if a.len() == 0 {
        assert(a + b =~= b);
        assert(escape_seq(a) + escape_seq(b) =~= escape_seq(b));
    } else {
        assert((a + b).drop_first() =~= a.drop_first() + b);
        lemma_escape_seq_append(a.drop_first(), b);
        assert(escape_seq(a + b) =~= escape_seq(a) + escape_seq(b));
    }
}

/// An escaped string is at least as long as the string itself.
pub proof fn lemma_escape_seq_len(s: Seq<char>)
    ensures
        escape_seq(s).len() >= s.len(),
    decreases s.len(),
{
    if s.len() > 0 {
        lemma_escape_seq_len(s.drop_first());
    }
}

/// The characters whose escape is not the character itself.
pub open spec fn needs_escape(c: char) -> bool {
    c == '"' || c == '\\' || c == '\n' || c == '\r' || c == '\t'
}

/// Escaping a string with nothing to escape leaves it unchanged.
pub proof fn lemma_escape_seq_plain(s: Seq<char>)
    requires
        forall|i: int| 0 <= i < s.len() ==> !needs_escape(s[i]),
    ensures
        escape_seq(s) == s,
    decreases s.len(),
{
    if s.len() == 0 {
        assert(escape_seq(s) =~= s);
    } else {
        assert(!needs_escape(s[0]));
        lemma_escape_seq_plain(s.drop_first());
        assert(escape_char(s[0]) =~= seq![s[0]]);
        assert(seq![s[0]] + s.drop_first() =~= s);
        assert(escape_seq(s) =~= s);
    }
}

/// The character denoted by the code that follows a backslash, if the code is
/// one this codec emits.
pub open spec fn unescape_code(c: char) -> Option<char> {
    if c == '"' {
        Some('"')
    } else if c == '\\' {
        Some('\\')
    } else if c == 'n' {
        Some('\n')
    } else if c == 'r' {
        Some('\r')
    } else if c == 't' {
        Some('\t')
    } else {
        None
    }
}

/// Reads a JSON string body out of `t` up to and including its closing quote.
/// Returns the decoded characters and how many characters of `t` were
/// consumed; `None` if `t` holds no well-formed terminated string body.
pub open spec fn spec_parse_string(t: Seq<char>) -> Option<(Seq<char>, int)>
    decreases t.len(),
{
    if t.len() == 0 {
        None
    } else if t[0] == '"' {
        Some((Seq::<char>::empty(), 1int))
    } else if t[0] == '\\' {
        if t.len() < 2 {
            None
        } else {
            match unescape_code(t[1]) {
                Some(c) => match spec_parse_string(t.subrange(2, t.len() as int)) {
                    Some(p) => Some((seq![c] + p.0, p.1 + 2)),
                    None => None,
                },
                None => None,
            }
        }
    } else {
        match spec_parse_string(t.drop_first()) {
            Some(p) => Some((seq![t[0]] + p.0, p.1 + 1)),
            None => None,
        }
    }
}

/// Parsing undoes escaping: an escaped string followed by its closing quote
/// (and anything after) parses back to the original string, consuming exactly
/// the escaped text and the quote.
pub proof fn lemma_parse_escape(s: Seq<char>, rest: Seq<char>)
    ensures
        spec_parse_string(escape_seq(s) + seq!['"'] + rest) == Some(
            (s, escape_seq(s).len() + 1int),
        ),
    decreases s.len(),
{
    let t = escape_seq(s) + seq!['"'] + rest;
    if s.len() == 0 {
        assert(escape_seq(s) =~= Seq::<char>::empty());
        assert(t =~= seq!['"'] + rest);
        assert(t[0] == '"');
        assert(s =~= Seq::<char>::empty());
    } else {
        let c = s[0];
        let s1 = s.drop_first();
        let t1 = escape_seq(s1) + seq!['"'] + rest;
        lemma_parse_escape(s1, rest);
        assert(escape_seq(s) == escape_char(c) + escape_seq(s1));
        if c == '"' || c == '\\' || c == '\n' || c == '\r' || c == '\t' {
            assert(t[0] == '\\');
            assert(unescape_code(t[1]) == Some(c));
            assert(t.subrange(2, t.len() as int) =~= t1);
            assert(seq![c] + s1 =~= s);
        } else {
            assert(t[0] == c);
            assert(t.drop_first() =~= t1);
            assert(seq![c] + s1 =~= s);
        }
    }
}

/// The character for one decimal digit.
pub open spec fn digit_char(d: nat) -> char {
    if d == 0 {
        '0'
    } else if d == 1 {
        '1'
    } else if d == 2 {
        '2'
    } else if d == 3 {
        '3'
    } else if d == 4 {
        '4'
    } else if d == 5 {
        '5'
    } else if d == 6 {
        '6'
    } else if d == 7 {
        '7'
    } else if d == 8 {
        '8'
    } else {
        '9'
    }
}

/// The decimal digits of `n`, most significant first, with no leading zero
/// except for `n == 0` itself.
pub open spec fn spec_digits(n: nat) -> Seq<char>
    decreases n,
{
    if n < 10 {
        seq![digit_char(n)]
    } else {
        spec_digits(n / 10).push(digit_char(n % 10))
    }
}

fn digit_char_exec(d: u16) -> (r: char)
    requires
        d < 10,
    ensures
        r == digit_char(d as nat),
{
    if d == 0 {
        '0'
    } else if d == 1 {
        '1'
    } else if d == 2 {
        '2'
    } else if d == 3 {
        '3'
    } else if d == 4 {
        '4'
    } else if d == 5 {
        '5'
    } else if d == 6 {
        '6'
    } else if d == 7 {
        '7'
    } else if d == 8 {
        '8'
    } else {
        '9'
    }
}

/// Appends the decimal digits of `n` to `out`.
pub fn push_digits(out: &mut Vec<char>, n: u16)
    ensures
        final(out)@ == old(out)@ + spec_digits(n as nat),
    decreases n,
{
    if n < 10 {
        out.push(digit_char_exec(n));
        assert(out@ =~= old(out)@ + spec_digits(n as nat));
    } else {
        push_digits(out, n / 10);
        out.push(digit_char_exec(n % 10));
        assert(out@ =~= old(out)@ + spec_digits(n as nat));
    }
}

/// Appends the escape of one character to `out`.
pub fn push_escaped_char(out: &mut Vec<char>, c: char)
    ensures
        final(out)@ == old(out)@ + escape_char(c),
{
    if c == '"' {
        out.push('\\');
        out.push('"');
    } else if c == '\\' {
        out.push('\\');
        out.push('\\');
    } else if c == '\n' {
        out.push('\\');
        out.push('n');
    } else if c == '\r' {
        out.push('\\');
        out.push('r');
    } else if c == '\t' {
        out.push('\\');
        out.push('t');
    } else {
        out.push(c);
    }
    assert(out@ =~= old(out)@ + escape_char(c));
}

/// Appends the escape of a whole string to `out`.
pub fn push_escaped_seq(out: &mut Vec<char>, s: &Vec<char>)
    ensures
        final(out)@ == old(out)@ + escape_seq(s@),
{
    let mut i: usize = 0;
    while i < s.len()
        invariant
            i <= s@.len(),
            out@ == old(out)@ + escape_seq(s@.subrange(0, i as int)),
        decreases s@.len() - i,
    {
        push_escaped_char(out, s[i]);
        proof {
            let pre = s@.subrange(0, i as int);
            let ext = s@.subrange(0, i + 1);
            assert(ext =~= pre + seq![s@[i as int]]);
            lemma_escape_seq_append(pre, seq![s@[i as int]]);
            let single = seq![s@[i as int]];
            assert(single.drop_first() =~= Seq::<char>::empty());
            assert(escape_seq(single) == escape_char(single[0]) + escape_seq(single.drop_first()));
            assert(escape_char(s@[i as int]) + Seq::<char>::empty() =~= escape_char(s@[i as int]));
            assert(escape_seq(single) =~= escape_char(s@[i as int]));
            assert(old(out)@ + escape_seq(pre) + escape_char(s@[i as int]) =~= old(out)@
                + escape_seq(ext));
        }
        i = i + 1;
    }
    assert(s@.subrange(0, s@.len() as int) =~= s@);
}

fn unescape_code_exec(c: char) -> (r: Option<char>)
    ensures
        r == unescape_code(c),
{
    if c == '"' {
        Some('"')
    } else if c == '\\' {
        Some('\\')
    } else if c == 'n' {
        Some('\n')
    } else if c == 'r' {
        Some('\r')
    } else if c == 't' {
        Some('\t')
    } else {
        None
    }
}

/// Reads a JSON string body out of `v` starting at `i`, up to and including
/// its closing quote; on success returns the decoded characters and the index
/// just past the quote.
pub fn parse_string_at(v: &Vec<char>, i: usize) -> (r: Option<(Vec<char>, usize)>)
    requires
        i <= v@.len(),
    ensures
        match r {
            Some(p) => {
                &&& spec_parse_string(v@.subrange(i as int, v@.len() as int)) == Some(
                    (p.0@, p.1 - i as int),
                )
                &&& i < p.1 <= v@.len()
            },
            None => spec_parse_string(v@.subrange(i as int, v@.len() as int)) is None,
        },
{
    let mut acc: Vec<char> = Vec::new();
    let mut cur: usize = i;
    loop
        invariant
            i <= cur <= v@.len(),
            ({
                let t0 = v@.subrange(i as int, v@.len() as int);
                let tc = v@.subrange(cur as int, v@.len() as int);
                match spec_parse_string(tc) {
                    Some(p) => spec_parse_string(t0) == Some(
                        (acc@ + p.0, (cur - i) + p.1),
                    ),
                    None => spec_parse_string(t0) is None,
                }
            }),
        decreases v@.len() - cur,
    {
        let ghost t0 = v@.subrange(i as int, v@.len() as int);
        let ghost tc = v@.subrange(cur as int, v@.len() as int);
        if cur == v.len() {
            assert(tc.len() == 0);
            return None;
        }
        let c = v[cur];
        assert(tc[0] == c);
        if c == '"' {
            assert(spec_parse_string(tc) == Some((Seq::<char>::empty(), 1int)));
            proof {
                assert(acc@ + Seq::<char>::empty() =~= acc@);
            }
            return Some((acc, cur + 1));
        } else if c == '\\' {
            if cur + 1 == v.len() {
                assert(tc.len() == 1);
                return None;
            }
            let code = v[cur + 1];
            assert(tc[1] == code);
            match unescape_code_exec(code) {
                None => {
                    return None;
                },
                Some(ch) => {
                    proof {
                        assert(tc.subrange(2, tc.len() as int) =~= v@.subrange(
                            cur + 2,
                            v@.len() as int,
                        ));
                    }
                    let ghost acc0 = acc@;
                    acc.push(ch);
                    cur = cur + 2;
                    proof {
                        let tn = v@.subrange(cur as int, v@.len() as int);
                        if let Some(p) = spec_parse_string(tn) {
                            assert(acc@ + p.0 =~= acc0 + (seq![ch] + p.0));
                        }
                    }
                },
            }
        } else {
            proof {
                assert(tc.drop_first() =~= v@.subrange(cur + 1, v@.len() as int));
            }
            let ghost acc0 = acc@;
            acc.push(c);
            cur = cur + 1;
            proof {
                let tn = v@.subrange(cur as int, v@.len() as int);
                if let Some(p) = spec_parse_string(tn) {
                    assert(acc@ + p.0 =~= acc0 + (seq![c] + p.0));
                }
            }
        }
    }
}

/// The JSON text of a create-request payload with the given (unescaped) field
/// values: the three required fields in fixed order, each a JSON string.
pub open spec fn user_json(f: Seq<char>, l: Seq<char>, e: Seq<char>) -> Seq<char> {
    "{\"first_name\":\""@ + escape_seq(f) + seq!['"'] + ",\"last_name\":\""@ + escape_seq(l)
        + seq!['"'] + ",\"email\":\""@ + escape_seq(e) + seq!['"'] + "}"@
}

/// Reads a create-request payload: exactly the shape [`user_json`] emits,
/// yielding the decoded field values.
pub open spec fn spec_parse_user(t: Seq<char>) -> Option<(Seq<char>, Seq<char>, Seq<char>)> {
    match after_lit(t, "{\"first_name\":\""@) {
        Some(t1) => match spec_parse_string(t1) {
            Some(p1) => match after_lit(t1.subrange(p1.1, t1.len() as int), ",\"last_name\":\""@) {
                Some(t2) => match spec_parse_string(t2) {
                    Some(p2) => match after_lit(
                        t2.subrange(p2.1, t2.len() as int),
                        ",\"email\":\""@,
                    ) {
                        Some(t3) => match spec_parse_string(t3) {
                            Some(p3) => if t3.subrange(p3.1, t3.len() as int) == "}"@ {
                                Some((p1.0, p2.0, p3.0))
                            } else {
                                None
                            },
                            None => None,
                        },
                        None => None,
                    },
                    None => None,
                },
                None => None,
            },
            None => None,
        },
        None => None,
    }
}

/// What remains of `t` after the literal `lit`, if `t` starts with it.
pub open spec fn after_lit(t: Seq<char>, lit: Seq<char>) -> Option<Seq<char>> {
    if lit.len() <= t.len() && t.subrange(0, lit.len() as int) == lit {
        Some(t.subrange(lit.len() as int, t.len() as int))
    } else {
        None
    }
}

/// Round trip: the encoded payload of any field values parses back to exactly
/// those values.
pub proof fn lemma_user_json_round_trip(f: Seq<char>, l: Seq<char>, e: Seq<char>)
    ensures
        spec_parse_user(user_json(f, l, e)) == Some((f, l, e)),
{
    let q = seq!['"'];
    let p1 = "{\"first_name\":\""@;
    let p2 = ",\"last_name\":\""@;
    let p3 = ",\"email\":\""@;
    let pb = "}"@;
    let t0 = user_json(f, l, e);
    let rest1 = p2 + escape_seq(l) + q + p3 + escape_seq(e) + q + pb;
    let rest2 = p3 + escape_seq(e) + q + pb;

    assert(t0.subrange(0, p1.len() as int) =~= p1);
    let t1 = t0.subrange(p1.len() as int, t0.len() as int);
    assert(t1 =~= escape_seq(f) + q + rest1);
    lemma_parse_escape(f, rest1);
    let k1 = escape_seq(f).len() + 1int;
    assert(spec_parse_string(t1) == Some((f, k1)));

    let u1 = t1.subrange(k1, t1.len() as int);
    assert(u1 =~= rest1);
    assert(u1.subrange(0, p2.len() as int) =~= p2);
    let t2 = u1.subrange(p2.len() as int, u1.len() as int);
    assert(t2 =~= escape_seq(l) + q + rest2);
    lemma_parse_escape(l, rest2);
    let k2 = escape_seq(l).len() + 1int;
    assert(spec_parse_string(t2) == Some((l, k2)));

    let u2 = t2.subrange(k2, t2.len() as int);
    assert(u2 =~= rest2);
    assert(u2.subrange(0, p3.len() as int) =~= p3);
    let t3 = u2.subrange(p3.len() as int, u2.len() as int);
    assert(t3 =~= escape_seq(e) + q + pb);
    lemma_parse_escape(e, pb);
    let k3 = escape_seq(e).len() + 1int;
    assert(spec_parse_string(t3) == Some((e, k3)));

    let u3 = t3.subrange(k3, t3.len() as int);
    assert(u3 =~= pb);
}

impl User {
    /// Encodes this record as the create-request JSON payload. The `id` field
    /// is never written: the store, not the caller, assigns it.
    pub fn to_json(&self) -> (r: String)
        ensures
            r@ == user_json(self.first_name@, self.last_name@, self.email@),
    {
        let mut out: Vec<char> = Vec::new();
        push_str_chars(&mut out, "{\"first_name\":\"");
        let f = string_to_chars(self.first_name.as_str());
        push_escaped_seq(&mut out, &f);
        out.push('"');
        push_str_chars(&mut out, ",\"last_name\":\"");
        let l = string_to_chars(self.last_name.as_str());
        push_escaped_seq(&mut out, &l);
        out.push('"');
        push_str_chars(&mut out, ",\"email\":\"");
        let e = string_to_chars(self.email.as_str());
        push_escaped_seq(&mut out, &e);
        out.push('"');
        push_str_chars(&mut out, "}");
        let r = chars_to_string(&out);
        proof {
            assert(r@ =~= user_json(self.first_name@, self.last_name@, self.email@));
        }
        r
    }

    /// Decodes a create-request JSON payload. Accepts exactly the shape
    /// [`Self::to_json`] emits; the decoded record carries no `id`.
    pub fn from_json(s: &str) -> (r: Option<User>)
        ensures
            match r {
                Some(u) => {
                    &&& spec_parse_user(s@) == Some((u.first_name@, u.last_name@, u.email@))
                    &&& u.id is None
                },
                None => spec_parse_user(s@) is None,
            },
    {
        let v = string_to_chars(s);
        let i1 = match match_lit(&v, 0, "{\"first_name\":\"") {
            Some(j) => j,
            None => {
                return None;
            },
        };
        let ghost t1 = v@.subrange(i1 as int, v@.len() as int);
        proof {
            assert(after_lit(v@, "{\"first_name\":\""@) == Some(t1));
        }
        let (fv, j1) = match parse_string_at(&v, i1) {
            Some(p) => p,
            None => {
                return None;
            },
        };
        let ghost k1 = j1 - i1 as int;
        proof {
            assert(t1.subrange(k1, t1.len() as int) =~= v@.subrange(j1 as int, v@.len() as int));
        }
        let i2 = match match_lit(&v, j1, ",\"last_name\":\"") {
            Some(j) => j,
            None => {
                proof {
                    lemma_match_after(v@, j1 as int, ",\"last_name\":\""@);
                }
                return None;
            },
        };
        let ghost t2 = v@.subrange(i2 as int, v@.len() as int);
        proof {
            lemma_match_after(v@, j1 as int, ",\"last_name\":\""@);
        }
        let (lv, j2) = match parse_string_at(&v, i2) {
            Some(p) => p,
            None => {
                return None;
            },
        };
        let ghost k2 = j2 - i2 as int;
        proof {
            assert(t2.subrange(k2, t2.len() as int) =~= v@.subrange(j2 as int, v@.len() as int));
        }
        let i3 = match match_lit(&v, j2, ",\"email\":\"") {
            Some(j) => j,
            None => {
                proof {
                    lemma_match_after(v@, j2 as int, ",\"email\":\""@);
                }
                return None;
            },
        };
        let ghost t3 = v@.subrange(i3 as int, v@.len() as int);
        proof {
            lemma_match_after(v@, j2 as int, ",\"email\":\""@);
        }
        let (ev, j3) = match parse_string_at(&v, i3) {
            Some(p) => p,
            None => {
                return None;
            },
        };
        let ghost k3 = j3 - i3 as int;
        proof {
            assert(t3.subrange(k3, t3.len() as int) =~= v@.subrange(j3 as int, v@.len() as int));
        }
        let i4 = match match_lit(&v, j3, "}") {
            Some(j) => j,
            None => {
                proof {
                    lemma_rem_not_lit(v@, j3 as int, "}"@);
                }
                return None;
            },
        };
        if i4 != v.len() {
            proof {
                lemma_rem_longer(v@, j3 as int, "}"@, i4 as int);
            }
            return None;
        }
        proof {
            assert(v@.subrange(j3 as int, v@.len() as int) =~= "}"@) by {
                assert(starts_with_at(v@, j3 as int, "}"@));
                assert(v@.subrange(j3 as int, j3 + "}"@.len()) == "}"@);
                assert(j3 + "}"@.len() == v@.len());
            }
        }
        let u = User {
            id: None,
            first_name: chars_to_string(&fv),
            last_name: chars_to_string(&lv),
            email: chars_to_string(&ev),
        };
        Some(u)
    }
}

/// If the literal does not occur at `i`, the suffix at `i` does not start
/// with it either.
proof fn lemma_match_after(v: Seq<char>, i: int, lit: Seq<char>)
    requires
        0 <= i <= v.len(),
    ensures
        starts_with_at(v, i, lit) <==> after_lit(v.subrange(i, v.len() as int), lit) is Some,
        starts_with_at(v, i, lit) ==> after_lit(v.subrange(i, v.len() as int), lit) == Some(
            v.subrange(i + lit.len(), v.len() as int),
        ),
{
    let t = v.subrange(i, v.len() as int);
    if lit.len() <= t.len() {
        assert(t.subrange(0, lit.len() as int) =~= v.subrange(i, i + lit.len()));
        if t.subrange(0, lit.len() as int) == lit {
            assert(t.subrange(lit.len() as int, t.len() as int) =~= v.subrange(
                i + lit.len(),
                v.len() as int,
            ));
        }
    }
}

/// If the suffix at `i` does not start with the literal, it is not equal to
/// the literal.
proof fn lemma_rem_not_lit(v: Seq<char>, i: int, lit: Seq<char>)
    requires
        0 <= i <= v.len(),
        !starts_with_at(v, i, lit),
    ensures
        v.subrange(i, v.len() as int) != lit,
{
    let t = v.subrange(i, v.len() as int);
    if t == lit {
        assert(t.subrange(0, lit.len() as int) =~= v.subrange(i, i + lit.len()));
        assert(t.subrange(0, lit.len() as int) =~= lit);
    }
}

/// If the literal occurs at `i` but more follows it, the suffix at `i` is not
/// equal to the literal.
proof fn lemma_rem_longer(v: Seq<char>, i: int, lit: Seq<char>, j: int)
    requires
        0 <= i <= v.len(),
        j == i + lit.len(),
        j < v.len(),
    ensures
        v.subrange(i, v.len() as int) != lit,
{
    let t = v.subrange(i, v.len() as int);
    assert(t.len() > lit.len());
}

/// An optional string's characters.
pub open spec fn opt_view(o: Option<String>) -> Option<Seq<char>> {
    match o {
        Some(s) => Some(s@),
        None => None,
    }
}

/// The JSON text of the error envelope: the four fields in fixed order under
/// their stable names; `debug_message` is `null` when absent.
pub open spec fn api_error_json(
    status: u16,
    time: Seq<char>,
    message: Seq<char>,
    debug: Option<Seq<char>>,
) -> Seq<char> {
    "{\"status_code\":"@ + spec_digits(status as nat) + ",\"time\":\""@ + escape_seq(time)
        + "\",\"message\":\""@ + escape_seq(message) + (match debug {
        Some(d) => "\",\"debug_message\":\""@ + escape_seq(d) + "\"}"@,
        None => "\",\"debug_message\":null}"@,
    })
}

impl ApiError {
    /// Encodes this envelope as its JSON text.
    pub fn to_json(&self) -> (r: String)
        ensures
            r@ == api_error_json(self.status_code, self.time@, self.message@, opt_view(self.debug_message)),
    {
        let mut out: Vec<char> = Vec::new();
        push_str_chars(&mut out, "{\"status_code\":");
        push_digits(&mut out, self.status_code);
        push_str_chars(&mut out, ",\"time\":\"");
        let tv = string_to_chars(self.time.as_str());
        push_escaped_seq(&mut out, &tv);
        push_str_chars(&mut out, "\",\"message\":\"");
        let mv = string_to_chars(self.message.as_str());
        push_escaped_seq(&mut out, &mv);
        match &self.debug_message {
            Some(d) => {
                push_str_chars(&mut out, "\",\"debug_message\":\"");
                let dv = string_to_chars(d.as_str());
                push_escaped_seq(&mut out, &dv);
                push_str_chars(&mut out, "\"}");
            },
            None => {
                push_str_chars(&mut out, "\",\"debug_message\":null}");
            },
        }
        let r = chars_to_string(&out);
        proof {
            assert(r@ =~= api_error_json(
                self.status_code,
                self.time@,
                self.message@,
                opt_view(self.debug_message),
            ));
        }
        r
    }
}

} // verus!
