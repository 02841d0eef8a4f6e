//! Percent-escaping of identifier components.
//!
//! Free-text components inserted into an identifier are escaped against a
//! fixed unsafe-character set: ASCII control characters and the reserved
//! delimiters of RFC 3987. Escaped characters become `%` followed by two
//! uppercase hexadecimal digits; everything else, including non-ASCII
//! characters, passes through unchanged. The escaping is injective, which is
//! what makes the minted identifiers collision-free; see
//! [`lemma_escape_injective`].

use vstd::prelude::*;

verus! {

/// Whether a character must be percent-escaped: ASCII controls (including
/// delete) and the reserved delimiters of RFC 3987.
pub open spec fn spec_needs_escape(c: char) -> bool {
    ||| (c as u32) < 0x20
    ||| (c as u32) == 0x7f
    ||| c == ' '
    ||| c == '!'
    ||| c == '"'
    ||| c == '#'
    ||| c == '$'
    ||| c == '%'
    ||| c == '&'
    ||| c == '\''
    ||| c == '('
    ||| c == ')'
    ||| c == '*'
    ||| c == '+'
    ||| c == ','
    ||| c == '/'
    ||| c == ':'
    ||| c == ';'
    ||| c == '<'
    ||| c == '='
    ||| c == '>'
    ||| c == '?'
    ||| c == '@'
    ||| c == '['
    ||| c == ']'
    ||| c == '^'
    ||| c == '`'
    ||| c == '{'
    ||| c == '|'
    ||| c == '}'
}

/// The character for a hexadecimal digit, uppercase.
pub open spec fn spec_hex_digit(d: nat) -> char {
    if d == 0 {
        '0'
    } else if d == 1 {
        '1'
    } else if d == 2 {
        '2'
    } else if d == 3 {
        '3'
    } else if d == 4 {
        '4'
    } else if d == 5 {
        '5'
    } else if d == 6 {
        '6'
    } else if d == 7 {
        '7'
    } else if d == 8 {
        '8'
    } else if d == 9 {
        '9'
    } else if d == 10 {
        'A'
    } else if d == 11 {
        'B'
    } else if d == 12 {
        'C'
    } else if d == 13 {
        'D'
    } else if d == 14 {
        'E'
    } else {
        'F'
    }
}

/// What one character contributes to the escaped output.
pub open spec fn spec_escape_char(c: char) -> Seq<char> {
    if spec_needs_escape(c) {
        seq![
            '%',
            spec_hex_digit(((c as u32) / 16) as nat),
            spec_hex_digit(((c as u32) % 16) as nat),
        ]
    } else {
        seq![c]
    }
}

/// The escaped form of a whole component.
pub open spec fn spec_escape(s: Seq<char>) -> Seq<char>
    decreases s.len(),
{
    if s.len() == 0 {
        Seq::empty()
    } else {
        spec_escape(s.drop_last()) + spec_escape_char(s.last())
    }
}

fn exec_needs_escape(c: char) -> (r: bool)
    ensures
        r == spec_needs_escape(c),
{
    let u = c as u32;
    u < 0x20 || u == 0x7f || c == ' ' || c == '!' || c == '"' || c == '#' || c == '$' || c == '%'
        || c == '&' || c == '\'' || c == '(' || c == ')' || c == '*' || c == '+' || c == ','
        || c == '/' || c == ':' || c == ';' || c == '<' || c == '=' || c == '>' || c == '?'
        || c == '@' || c == '[' || c == ']' || c == '^' || c == '`' || c == '{' || c == '|'
        || c == '}'
}

pub(crate) fn exec_hex_digit(d: u32) -> (c: char)
    requires
        d < 16,
    ensures
        c == spec_hex_digit(d as nat),
{
    if d == 0 {
        '0'
    } else if d == 1 {
        '1'
    } else if d == 2 {
        '2'
    } else if d == 3 {
        '3'
    } else if d == 4 {
        '4'
    } else if d == 5 {
        '5'
    } else if d == 6 {
        '6'
    } else if d == 7 {
        '7'
    } else if d == 8 {
        '8'
    } else if d == 9 {
        '9'
    } else if d == 10 {
        'A'
    } else if d == 11 {
        'B'
    } else if d == 12 {
        'C'
    } else if d == 13 {
        'D'
    } else if d == 14 {
        'E'
    } else {
        'F'
    }
}

/// Append the escaped form of `s` to `out`.
pub fn append_escaped(out: &mut Vec<char>, s: &Vec<char>)
    ensures
        final(out)@ == old(out)@ + spec_escape(s@),
{
    let mut i: usize = 0;
    while i < s.len()
        invariant
            i <= s@.len(),
            out@ == old(out)@ + spec_escape(s@.take(i as int)),
        decreases s@.len() - i,
    {
        let c = s[i];
        proof {
            assert(s@.take(i + 1).drop_last() =~= s@.take(i as int));
            assert(s@.take(i + 1).last() == s@[i as int]);
        }
        if exec_needs_escape(c) {
            let u = c as u32;
            out.push('%');
            out.push(exec_hex_digit(u / 16));
            out.push(exec_hex_digit(u % 16));
        } else {
            out.push(c);
        }
        i = i + 1;
        proof {
            assert(out@ =~= old(out)@ + spec_escape(s@.take(i as int)));
        }
    }
    proof {
        assert(s@.take(s@.len() as int) =~= s@);
    }
}

// ---------------------------------------------------------------------------
// Properties of the escaping
// ---------------------------------------------------------------------------
/// No character of an escaped component is a path separator: `/` itself is
/// escaped, and hex digits and `%` are not `/`.
pub proof fn lemma_escape_no_slash(s: Seq<char>)
    ensures
        forall|i: int| 0 <= i < spec_escape(s).len() ==> spec_escape(s)[i] != '/',
    decreases s.len(),
{
    if s.len() > 0 {
        lemma_escape_no_slash(s.drop_last());
        let e = spec_escape(s.drop_last());
        let ch = spec_escape_char(s.last());
        assert forall|i: int| 0 <= i < spec_escape(s).len() implies spec_escape(s)[i] != '/' by {
            if i < e.len() {
                assert(spec_escape(s)[i] == e[i]);
            } else {
                assert(spec_escape(s)[i] == ch[i - e.len()]);
            }
        }
    }
}

/// The last two characters of an escaped component are never `%`: a `%` in
/// the output only ever starts an escape triple.
proof fn lemma_escape_tail_no_pct(s: Seq<char>)
    ensures
        spec_escape(s).len() >= 1 ==> spec_escape(s).last() != '%',
        spec_escape(s).len() >= 2 ==> spec_escape(s)[spec_escape(s).len() - 2] != '%',
    decreases s.len(),
{
    if s.len() > 0 {
        lemma_escape_tail_no_pct(s.drop_last());
    }
}

/// Inverse of the hexadecimal digits for characters below 0x80.
spec fn spec_unhex(c: char) -> nat {
    if c == '0' {
        0
    } else if c == '1' {
        1
    } else if c == '2' {
        2
    } else if c == '3' {
        3
    } else if c == '4' {
        4
    } else if c == '5' {
        5
    } else if c == '6' {
        6
    } else if c == '7' {
        7
    } else if c == '8' {
        8
    } else if c == '9' {
        9
    } else if c == 'A' {
        10
    } else if c == 'B' {
        11
    } else if c == 'C' {
        12
    } else if c == 'D' {
        13
    } else if c == 'E' {
        14
    } else {
        15
    }
}

/// Decode an escaped component to code points, working from the end: a `%`
/// three characters from the end marks an escape triple, anything else is a
/// literal character.
spec fn spec_unescape(t: Seq<char>) -> Seq<nat>
    decreases t.len(),
{
    if t.len() == 0 {
        Seq::empty()
    } else if t.len() >= 3 && t[t.len() - 3] == '%' {
        spec_unescape(t.take(t.len() - 3)).push(
            16 * spec_unhex(t[t.len() - 2]) + spec_unhex(t.last()),
        )
    } else {
        spec_unescape(t.drop_last()).push((t.last() as u32) as nat)
    }
}

/// The code points of a component.
spec fn spec_codes(s: Seq<char>) -> Seq<nat> {
    Seq::new(s.len(), |i: int| (s[i] as u32) as nat)
}

/// Escaping loses nothing: the decoder recovers the original code points.
proof fn lemma_unescape_escape(s: Seq<char>)
    ensures
        spec_unescape(spec_escape(s)) == spec_codes(s),
    decreases s.len(),
{
    if s.len() == 0 {
        assert(spec_unescape(spec_escape(s)) =~= spec_codes(s));
    } else {
        let c = s.last();
        let t = spec_escape(s);
        lemma_unescape_escape(s.drop_last());
        assert(spec_codes(s).drop_last() =~= spec_codes(s.drop_last()));
        if spec_needs_escape(c) {
            assert(t.len() >= 3 && t[t.len() - 3] == '%');
            assert(t.take(t.len() - 3) =~= spec_escape(s.drop_last()));
            let u = (c as u32) as nat;
            assert(16 * spec_unhex(t[t.len() - 2]) + spec_unhex(t.last()) == u) by {
                assert(spec_unhex(spec_hex_digit(u / 16)) == u / 16);
                assert(spec_unhex(spec_hex_digit(u % 16)) == u % 16);
            }
            assert(spec_unescape(t) =~= spec_codes(s));
        } else {
            lemma_escape_tail_no_pct(s.drop_last());
            // The decoder must not see a `%` three characters from the end.
            if t.len() >= 3 && t[t.len() - 3] == '%' {
                let e = spec_escape(s.drop_last());
                assert(t[t.len() - 3] == e[e.len() - 2]);
                assert(false);
            }
            assert(t.drop_last() =~= spec_escape(s.drop_last()));
            assert(spec_unescape(t) =~= spec_codes(s));
        }
    }
}

/// Escaping is injective: distinct components have distinct escaped forms.
pub proof fn lemma_escape_injective(a: Seq<char>, b: Seq<char>)
    requires
        spec_escape(a) == spec_escape(b),
    ensures
        a == b,
{
    lemma_unescape_escape(a);
    lemma_unescape_escape(b);
    assert(spec_codes(a) == spec_codes(b));
    assert(spec_codes(a).len() == a.len());
    assert(spec_codes(b).len() == b.len());
    assert(a.len() == b.len());
    assert forall|i: int| 0 <= i < a.len() implies a[i] == b[i] by {
        assert(spec_codes(a)[i] == spec_codes(b)[i]);
        assert(spec_codes(a)[i] == (a[i] as u32) as nat);
        assert(spec_codes(b)[i] == (b[i] as u32) as nat);
        assert(a[i] as u32 == b[i] as u32);
        vstd::utf8::char_u32_cast(a[i], a[i] as u32);
        vstd::utf8::char_u32_cast(b[i], b[i] as u32);
    }
    assert(a =~= b);
}

} // verus!
