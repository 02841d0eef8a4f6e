//! Character-level text utilities.
//!
//! All string processing in this crate happens on `Vec<char>` values, whose
//! contents are directly addressable; `String` appears only at the public
//! API boundary.

use vstd::prelude::*;
use vstd::string::StrSliceExecFns;

verus! {

/// Copy the characters of a string slice into a vector.
pub fn str_to_chars(s: &str) -> (r: Vec<char>)
    ensures
        r@ == s@,
{
    let n: usize = s.unicode_len();
    let mut r: Vec<char> = Vec::new();
    let mut i: usize = 0;
    while i < n
        invariant
            i <= n,
            n == s@.len(),
            r@ == s@.take(i as int),
        decreases n - i,
    {
        let c = s.get_char(i);
        r.push(c);
        i = i + 1;
        proof {
            assert(r@ =~= s@.take(i as int));
        }
    }
    proof {
        assert(r@ =~= s@);
    }
    r
}

/// Relies on `String: FromIterator<char>`: collecting characters yields the
/// string with exactly those characters.
#[verifier::external_body]
pub fn chars_to_string(v: &Vec<char>) -> (r: String)
    ensures
        r@ == v@,
{
    v.iter().collect()
}

/// Append all characters of `src` to `dst`.
pub fn append_chars(dst: &mut Vec<char>, src: &Vec<char>)
    ensures
        final(dst)@ == old(dst)@ + src@,
{
    let mut i: usize = 0;
    while i < src.len()
        invariant
            i <= src@.len(),
            dst@ == old(dst)@ + src@.take(i as int),
        decreases src@.len() - i,
    {
        dst.push(src[i]);
        i = i + 1;
        proof {
            assert(old(dst)@ + src@.take(i as int) =~= dst@);
        }
    }
    proof {
        assert(dst@ =~= old(dst)@ + src@);
    }
}

/// Append the characters of a string slice to `dst`.
pub fn append_str(dst: &mut Vec<char>, s: &str)
    ensures
        final(dst)@ == old(dst)@ + s@,
{
    let v = str_to_chars(s);
    append_chars(dst, &v);
}

/// Whether two character vectors hold the same characters.
pub fn chars_eq(a: &Vec<char>, b: &Vec<char>) -> (r: bool)
    ensures
        r == (a@ == b@),
{
    if a.len() != b.len() {
        proof {
            assert(a@.len() != b@.len());
        }
        return false;
    }
    let mut i: usize = 0;
    while i < a.len()
        invariant
            i <= a@.len(),
            a@.len() == b@.len(),
            forall|j: int| 0 <= j < i ==> a@[j] == b@[j],
        decreases a@.len() - i,
    {
        if a[i] != b[i] {
            return false;
        }
        i = i + 1;
    }
    proof {
        assert(a@ =~= b@);
    }
    true
}

/// Whether `v` holds exactly the characters of `s`.
pub fn chars_eq_str(v: &Vec<char>, s: &str) -> (r: bool)
    ensures
        r == (v@ == s@),
{
    let w = str_to_chars(s);
    chars_eq(v, &w)
}

/// The character for a single decimal digit.
pub open spec fn spec_digit(d: nat) -> char {
    if d == 0 {
        '0'
    } else if d == 1 {
        '1'
    } else if d == 2 {
        '2'
    } else if d == 3 {
        '3'
    } else if d == 4 {
        '4'
    } else if d == 5 {
        '5'
    } else if d == 6 {
        '6'
    } else if d == 7 {
        '7'
    } else if d == 8 {
        '8'
    } else {
        '9'
    }
}

/// The decimal digit string of a natural number, most significant digit first.
pub open spec fn spec_dec(n: nat) -> Seq<char>
    decreases n,
{
    if n < 10 {
        seq![spec_digit(n)]
    } else {
        spec_dec(n / 10).push(spec_digit(n % 10))
    }
}

/// The decimal string of a signed number: a minus sign, if negative, then
/// the digits of the magnitude.
pub open spec fn spec_dec_int(v: int) -> Seq<char> {
    if v < 0 {
        seq!['-'] + spec_dec((-v) as nat)
    } else {
        spec_dec(v as nat)
    }
}

fn exec_digit(d: u64) -> (c: char)
    requires
        d < 10,
    ensures
        c == spec_digit(d as nat),
{
    if d == 0 {
        '0'
    } else if d == 1 {
        '1'
    } else if d == 2 {
        '2'
    } else if d == 3 {
        '3'
    } else if d == 4 {
        '4'
    } else if d == 5 {
        '5'
    } else if d == 6 {
        '6'
    } else if d == 7 {
        '7'
    } else if d == 8 {
        '8'
    } else {
        '9'
    }
}

/// Render an unsigned number as decimal characters.
pub fn u64_to_chars(n: u64) -> (r: Vec<char>)
    ensures
        r@ == spec_dec(n as nat),
{
    let mut m: u64 = n;
    let mut acc: Vec<char> = Vec::new();
    while m >= 10
        invariant
            spec_dec(n as nat) == spec_dec(m as nat) + acc@.reverse(),
        decreases m,
    {
        let d = exec_digit(m % 10);
        proof {
            assert(spec_dec(m as nat) == spec_dec((m as nat) / 10).push(spec_digit(
                (m as nat) % 10,
            )));
            assert(acc@.push(d).reverse() =~= seq![d] + acc@.reverse());
            assert(spec_dec((m as nat) / 10) + (seq![d] + acc@.reverse()) =~= spec_dec(m as nat)
                + acc@.reverse());
        }
        acc.push(d);
        m = m / 10;
    }
    let d = exec_digit(m);
    proof {
        assert(acc@.push(d).reverse() =~= seq![d] + acc@.reverse());
        assert(spec_dec(m as nat) =~= seq![spec_digit(m as nat)]);
    }
    acc.push(d);
    let ghost target = spec_dec(n as nat);
    proof {
        assert(target =~= acc@.reverse());
    }
    let mut r: Vec<char> = Vec::new();
    let mut i: usize = acc.len();
    while i > 0
        invariant
            i <= acc@.len(),
            r@ == acc@.reverse().take((acc@.len() - i) as int),
        decreases i,
    {
        i = i - 1;
        let c = acc[i];
        proof {
            assert(acc@.reverse()[acc@.len() - i - 1] == acc@[i as int]);
            assert(r@.push(acc@[i as int]) =~= acc@.reverse().take((acc@.len() - i) as int));
        }
        r.push(c);
    }
    proof {
        assert(r@ =~= acc@.reverse());
    }
    r
}

/// Render a signed number as decimal characters.
pub fn i64_to_chars(v: i64) -> (r: Vec<char>)
    ensures
        r@ == spec_dec_int(v as int),
{
    if v >= 0 {
        u64_to_chars(v as u64)
    } else {
        let wide: i128 = v as i128;
        let mag: u64 = (-wide) as u64;
        let mut r: Vec<char> = Vec::new();
        r.push('-');
        let digits = u64_to_chars(mag);
        append_chars(&mut r, &digits);
        proof {
            assert(r@ =~= seq!['-'] + spec_dec(mag as nat));
        }
        r
    }
}

/// Render an index as decimal characters.
pub fn usize_to_chars(n: usize) -> (r: Vec<char>)
    ensures
        r@ == spec_dec(n as nat),
{
    u64_to_chars(n as u64)
}

/// What `char::is_alphanumeric` returns: a fixed property of the character
/// alone, defined by the Unicode tables.
pub uninterp spec fn is_unicode_alphanumeric(c: char) -> bool;

/// Relies on `char::is_alphanumeric`: the result depends on the character
/// alone, and on ASCII characters it holds exactly for letters and digits.
#[verifier::external_body]
pub fn char_is_alphanumeric(c: char) -> (r: bool)
    ensures
        r == is_unicode_alphanumeric(c),
        (c as u32) < 128 ==> r == (('a' <= c && c <= 'z') || ('A' <= c && c <= 'Z') || ('0' <= c
            && c <= '9')),
{
    c.is_alphanumeric()
}

/// Whether `p` is a prefix of `v`.
pub fn chars_starts_with(v: &Vec<char>, p: &Vec<char>) -> (r: bool)
    ensures
        r == p@.is_prefix_of(v@),
{
    if p.len() > v.len() {
        return false;
    }
    let mut i: usize = 0;
    while i < p.len()
        invariant
            i <= p@.len(),
            p@.len() <= v@.len(),
            forall|j: int| 0 <= j < i ==> p@[j] == v@[j],
        decreases p@.len() - i,
    {
        if p[i] != v[i] {
            return false;
        }
        i = i + 1;
    }
    proof {
        assert(p@ =~= v@.take(p@.len() as int));
    }
    true
}

/// What `char::is_whitespace` returns: a fixed property of the character
/// alone, defined by the Unicode tables.
pub uninterp spec fn is_unicode_whitespace(c: char) -> bool;

/// Relies on `char::is_whitespace`: the result depends on the character
/// alone, and on ASCII characters it holds exactly for space, tab, newline,
/// vertical tab, form feed and carriage return.
#[verifier::external_body]
pub fn char_is_whitespace(c: char) -> (r: bool)
    ensures
        r == is_unicode_whitespace(c),
        (c as u32) < 128 ==> r == (c == ' ' || c == '\t' || c == '\n' || (c as u32) == 0xb || (
        c as u32) == 0xc || c == '\r'),
{
    c.is_whitespace()
}

} // verus!
