//! Reading library name and version out of a build manifest's text.
//!
//! These scrape the `name` and `version` entries from manifest text with a
//! simple line scan; callers that run the producing toolchain use them to
//! locate its output and label the extraction.

use vstd::prelude::*;

use crate::text::{char_is_whitespace, chars_to_string, is_unicode_whitespace, str_to_chars};

verus! {

/// Leading whitespace removed.
pub open spec fn spec_trim_start(s: Seq<char>) -> Seq<char>
    decreases s.len(),
{
    if s.len() > 0 && is_unicode_whitespace(s[0]) {
        spec_trim_start(s.drop_first())
    } else {
        s
    }
}

/// Trailing whitespace removed.
pub open spec fn spec_trim_end(s: Seq<char>) -> Seq<char>
    decreases s.len(),
{
    if s.len() > 0 && is_unicode_whitespace(s.last()) {
        spec_trim_end(s.drop_last())
    } else {
        s
    }
}

/// Surrounding whitespace removed.
pub open spec fn spec_trim(s: Seq<char>) -> Seq<char> {
    spec_trim_end(spec_trim_start(s))
}

/// Leading and trailing copies of one character removed.
pub open spec fn spec_trim_matches_start(s: Seq<char>, c: char) -> Seq<char>
    decreases s.len(),
{
    if s.len() > 0 && s[0] == c {
        spec_trim_matches_start(s.drop_first(), c)
    } else {
        s
    }
}

pub open spec fn spec_trim_matches_end(s: Seq<char>, c: char) -> Seq<char>
    decreases s.len(),
{
    if s.len() > 0 && s.last() == c {
        spec_trim_matches_end(s.drop_last(), c)
    } else {
        s
    }
}

pub open spec fn spec_trim_matches(s: Seq<char>, c: char) -> Seq<char> {
    spec_trim_matches_end(spec_trim_matches_start(s, c), c)
}

/// Where the first occurrence of a character starts, if any.
pub open spec fn spec_find(s: Seq<char>, c: char) -> Option<int>
    decreases s.len(),
{
    if s.len() == 0 {
        None
    } else if s[0] == c {
        Some(0)
    } else {
        match spec_find(s.drop_first(), c) {
            Some(i) => Some(i + 1),
            None => None,
        }
    }
}

/// A line with a single trailing carriage return removed.
pub open spec fn spec_strip_cr(s: Seq<char>) -> Seq<char> {
    if s.len() > 0 && s.last() == '\r' {
        s.drop_last()
    } else {
        s
    }
}

/// The lines of a text: split on newlines, the final newline terminating
/// rather than separating, each line stripped of one trailing carriage
/// return.
pub open spec fn spec_lines(s: Seq<char>) -> Seq<Seq<char>>
    decreases s.len(),
{
    if s.len() == 0 {
        Seq::empty()
    } else {
        match spec_find(s, '\n') {
            Some(i) => if 0 <= i < s.len() {
                seq![spec_strip_cr(s.take(i))] + spec_lines(s.skip(i + 1))
            } else {
                seq![spec_strip_cr(s)]
            },
            None => seq![spec_strip_cr(s)],
        }
    }
}

/// The value written after the first `=` of a manifest line: the text up to
/// the next `=` or the end, trimmed, with quoting characters removed.
pub open spec fn spec_manifest_value(t: Seq<char>) -> Seq<char> {
    let rest = t;
    let seg = match spec_find(rest, '=') {
        Some(k) => rest.take(k),
        None => rest,
    };
    spec_trim_matches(spec_trim_matches(spec_trim(seg), '"'), '\'')
}

/// The name entry: the value of the first trimmed line starting with
/// `name` that has an `=`.
pub open spec fn spec_extract_name(lines: Seq<Seq<char>>, i: int) -> Option<Seq<char>>
    decreases lines.len() - i,
{
    if i < 0 || i >= lines.len() {
        None
    } else {
        let t = spec_trim(lines[i]);
        if "name"@.is_prefix_of(t) {
            match spec_find(t, '=') {
                Some(j) => Some(spec_manifest_value(t.skip(j + 1))),
                None => spec_extract_name(lines, i + 1),
            }
        } else {
            spec_extract_name(lines, i + 1)
        }
    }
}

/// The version entry: the value of the first trimmed `version` line inside
/// the `[package]` table.
pub open spec fn spec_extract_version(lines: Seq<Seq<char>>, i: int, in_package: bool) -> Option<
    Seq<char>,
>
    decreases lines.len() - i,
{
    if i < 0 || i >= lines.len() {
        None
    } else {
        let t = spec_trim(lines[i]);
        if t == "[package]"@ {
            spec_extract_version(lines, i + 1, true)
        } else if t.len() > 0 && t[0] == '[' {
            spec_extract_version(lines, i + 1, false)
        } else if in_package && "version"@.is_prefix_of(t) {
            match spec_find(t, '=') {
                Some(j) => Some(spec_manifest_value(t.skip(j + 1))),
                None => spec_extract_version(lines, i + 1, in_package),
            }
        } else {
            spec_extract_version(lines, i + 1, in_package)
        }
    }
}

#[verifier::loop_isolation(false)]
fn trim_chars(v: &Vec<char>) -> (r: Vec<char>)
    ensures
        r@ == spec_trim(v@),
{
    proof {
        assert(v@.skip(0) =~= v@);
    }
    let mut lo: usize = 0;
    while lo < v.len() && char_is_whitespace(v[lo])
        invariant
            lo <= v@.len(),
            spec_trim_start(v@) == spec_trim_start(v@.skip(lo as int)),
        decreases v@.len() - lo,
    {
        proof {
            assert(v@.skip(lo as int)[0] == v@[lo as int]);
            assert(v@.skip(lo as int).drop_first() =~= v@.skip(lo + 1));
        }
        lo = lo + 1;
    }
    proof {
        if lo < v@.len() {
            assert(v@.skip(lo as int)[0] == v@[lo as int]);
        }
        assert(spec_trim_start(v@) =~= v@.skip(lo as int));
    }
    let mut hi: usize = v.len();
    proof {
        assert(v@.skip(lo as int).take(v@.len() - lo as int) =~= v@.skip(lo as int));
    }
    while hi > lo && char_is_whitespace(v[hi - 1])
        invariant
            lo <= hi <= v@.len(),
            spec_trim_start(v@) == v@.skip(lo as int),
            spec_trim_end(v@.skip(lo as int)) == spec_trim_end(
                v@.skip(lo as int).take(hi - lo as int),
            ),
        decreases hi,
    {
        proof {
            let cur = v@.skip(lo as int).take(hi - lo as int);
            assert(cur.last() == v@[hi - 1]);
            assert(cur.drop_last() =~= v@.skip(lo as int).take(hi - 1 - lo as int));
        }
        hi = hi - 1;
    }
    proof {
        let cur = v@.skip(lo as int).take(hi - lo as int);
        if hi > lo {
            assert(cur.last() == v@[hi - 1]);
        }
        assert(spec_trim_end(v@.skip(lo as int)) =~= cur);
    }
    let mut r: Vec<char> = Vec::new();
    let mut i: usize = lo;
    while i < hi
        invariant
            lo <= i <= hi <= v@.len(),
            r@ == v@.subrange(lo as int, i as int),
        decreases hi - i,
    {
        r.push(v[i]);
        i = i + 1;
        proof {
            assert(r@ =~= v@.subrange(lo as int, i as int));
        }
    }
    proof {
        assert(r@ =~= spec_trim(v@));
    }
    r
}

#[verifier::loop_isolation(false)]
fn trim_matches_chars(v: &Vec<char>, c: char) -> (r: Vec<char>)
    ensures
        r@ == spec_trim_matches(v@, c),
{
    proof {
        assert(v@.skip(0) =~= v@);
    }
    let mut lo: usize = 0;
    while lo < v.len() && v[lo] == c
        invariant
            lo <= v@.len(),
            spec_trim_matches_start(v@, c) == spec_trim_matches_start(v@.skip(lo as int), c),
        decreases v@.len() - lo,
    {
        proof {
            assert(v@.skip(lo as int)[0] == v@[lo as int]);
            assert(v@.skip(lo as int).drop_first() =~= v@.skip(lo + 1));
        }
        lo = lo + 1;
    }
    proof {
        if lo < v@.len() {
            assert(v@.skip(lo as int)[0] == v@[lo as int]);
        }
        assert(spec_trim_matches_start(v@, c) =~= v@.skip(lo as int));
    }
    let mut hi: usize = v.len();
    proof {
        assert(v@.skip(lo as int).take(v@.len() - lo as int) =~= v@.skip(lo as int));
    }
    while hi > lo && v[hi - 1] == c
        invariant
            lo <= hi <= v@.len(),
            spec_trim_matches_start(v@, c) == v@.skip(lo as int),
            spec_trim_matches_end(v@.skip(lo as int), c) == spec_trim_matches_end(
                v@.skip(lo as int).take(hi - lo as int),
                c,
            ),
        decreases hi,
    {
        proof {
            let cur = v@.skip(lo as int).take(hi - lo as int);
            assert(cur.last() == v@[hi - 1]);
            assert(cur.drop_last() =~= v@.skip(lo as int).take(hi - 1 - lo as int));
        }
        hi = hi - 1;
    }
    proof {
        let cur = v@.skip(lo as int).take(hi - lo as int);
        if hi > lo {
            assert(cur.last() == v@[hi - 1]);
        }
        assert(spec_trim_matches_end(v@.skip(lo as int), c) =~= cur);
    }
    let mut r: Vec<char> = Vec::new();
    let mut i: usize = lo;
    while i < hi
        invariant
            lo <= i <= hi <= v@.len(),
            r@ == v@.subrange(lo as int, i as int),
        decreases hi - i,
    {
        r.push(v[i]);
        i = i + 1;
        proof {
            assert(r@ =~= v@.subrange(lo as int, i as int));
        }
    }
    proof {
        assert(r@ =~= spec_trim_matches(v@, c));
    }
    r
}

#[verifier::loop_isolation(false)]
fn find_char(v: &Vec<char>, c: char) -> (r: Option<usize>)
    ensures
        match r {
            Some(i) => spec_find(v@, c) == Some(i as int) && i < v@.len(),
            None => spec_find(v@, c) is None,
        },
{
    proof {
        assert(v@.skip(0) =~= v@);
    }
    let mut i: usize = 0;
    while i < v.len()
        invariant
            i <= v@.len(),
            spec_find(v@, c) == match spec_find(v@.skip(i as int), c) {
                Some(j) => Some(j + i),
                None => None::<int>,
            },
        decreases v@.len() - i,
    {
        proof {
            assert(v@.skip(i as int)[0] == v@[i as int]);
            assert(v@.skip(i as int).drop_first() =~= v@.skip(i + 1));
        }
        if v[i] == c {
            return Some(i);
        }
        i = i + 1;
    }
    None
}

/// The subrange from `from` to the end, as a new vector.
#[verifier::loop_isolation(false)]
fn tail_chars(v: &Vec<char>, from: usize) -> (r: Vec<char>)
    requires
        from <= v@.len(),
    ensures
        r@ == v@.skip(from as int),
{
    let mut r: Vec<char> = Vec::new();
    let mut i: usize = from;
    while i < v.len()
        invariant
            from <= i <= v@.len(),
            r@ == v@.subrange(from as int, i as int),
        decreases v@.len() - i,
    {
        r.push(v[i]);
        i = i + 1;
        proof {
            assert(r@ =~= v@.subrange(from as int, i as int));
        }
    }
    proof {
        assert(r@ =~= v@.skip(from as int));
    }
    r
}

/// The subrange up to `to`, as a new vector.
#[verifier::loop_isolation(false)]
fn head_chars(v: &Vec<char>, to: usize) -> (r: Vec<char>)
    requires
        to <= v@.len(),
    ensures
        r@ == v@.take(to as int),
{
    let mut r: Vec<char> = Vec::new();
    let mut i: usize = 0;
    while i < to
        invariant
            i <= to <= v@.len(),
            r@ == v@.take(i as int),
        decreases to - i,
    {
        r.push(v[i]);
        i = i + 1;
        proof {
            assert(r@ =~= v@.take(i as int));
        }
    }
    r
}

/// The lines of a text, per [`spec_lines`].
#[verifier::loop_isolation(false)]
fn split_lines(content: &str) -> (r: Vec<Vec<char>>)
    ensures
        r@.map_values(|l: Vec<char>| l@) == spec_lines(content@),
{
    let chars = str_to_chars(content);
    let mut rest = chars;
    let mut out: Vec<Vec<char>> = Vec::new();
    proof {
        assert(out@.map_values(|l: Vec<char>| l@) =~= Seq::<Seq<char>>::empty());
        assert(Seq::<Seq<char>>::empty() + spec_lines(rest@) =~= spec_lines(rest@));
    }
    while rest.len() > 0
        invariant
            spec_lines(content@) == out@.map_values(|l: Vec<char>| l@) + spec_lines(rest@),
        decreases rest@.len(),
    {
        let mut line: Vec<char>;
        match find_char(&rest, '\n') {
            Some(i) => {
                line = head_chars(&rest, i);
                let new_rest = tail_chars(&rest, i + 1);
                proof {
                    assert(spec_find(rest@, '\n') == Some(i as int));
                }
                if line.len() > 0 && line[line.len() - 1] == '\r' {
                    proof {
                        assert(line@.last() == '\r');
                    }
                    line.pop();
                }
                proof {
                    assert(out@.push(line).map_values(|l: Vec<char>| l@) =~= out@.map_values(
                        |l: Vec<char>| l@,
                    ).push(line@));
                    assert(out@.map_values(|l: Vec<char>| l@).push(line@) + spec_lines(new_rest@)
                        =~= out@.map_values(|l: Vec<char>| l@) + spec_lines(rest@));
                }
                out.push(line);
                rest = new_rest;
            },
            None => {
                line = head_chars(&rest, rest.len());
                proof {
                    assert(line@ =~= rest@);
                }
                if line.len() > 0 && line[line.len() - 1] == '\r' {
                    proof {
                        assert(line@.last() == '\r');
                    }
                    line.pop();
                }
                let ghost empty_rest = Seq::<char>::empty();
                proof {
                    assert(out@.push(line).map_values(|l: Vec<char>| l@) =~= out@.map_values(
                        |l: Vec<char>| l@,
                    ).push(line@));
                    assert(out@.map_values(|l: Vec<char>| l@).push(line@) + spec_lines(empty_rest)
                        =~= out@.map_values(|l: Vec<char>| l@) + spec_lines(rest@));
                }
                out.push(line);
                rest = Vec::new();
            },
        }
    }
    proof {
        assert(out@.map_values(|l: Vec<char>| l@) + spec_lines(rest@) =~= out@.map_values(
            |l: Vec<char>| l@,
        ));
    }
    out
}

/// The trimmed, unquoted value after the first `=` of a manifest line.
#[verifier::loop_isolation(false)]
fn manifest_value(t: &Vec<char>) -> (r: String)
    ensures
        r@ == spec_manifest_value(t@),
{
    let seg = match find_char(t, '=') {
        Some(k) => head_chars(t, k),
        None => head_chars(t, t.len()),
    };
    proof {
        if spec_find(t@, '=') is None {
            assert(t@.take(t@.len() as int) =~= t@);
        }
    }
    let trimmed = trim_chars(&seg);
    let unquoted = trim_matches_chars(&trimmed, '"');
    let unticked = trim_matches_chars(&unquoted, '\'');
    chars_to_string(&unticked)
}

/// The library name written in manifest text: the value of the first
/// `name` entry found.
#[verifier::loop_isolation(false)]
pub fn extract_crate_name(content: &str) -> (r: Option<String>)
    ensures
        match r {
            Some(v) => spec_extract_name(spec_lines(content@), 0) == Some(v@),
            None => spec_extract_name(spec_lines(content@), 0) is None,
        },
{
    let lines = split_lines(content);
    let ghost lv = lines@.map_values(|l: Vec<char>| l@);
    let name_prefix = str_to_chars("name");
    let mut i: usize = 0;
    while i < lines.len()
        invariant
            i <= lines@.len(),
            lv == lines@.map_values(|l: Vec<char>| l@),
            name_prefix@ == "name"@,
            spec_extract_name(lv, 0) == spec_extract_name(lv, i as int),
        decreases lines@.len() - i,
    {
        let t = trim_chars(&lines[i]);
        if crate::text::chars_starts_with(&t, &name_prefix) {
            match find_char(&t, '=') {
                Some(j) => {
                    let rest = tail_chars(&t, j + 1);
                    return Some(manifest_value(&rest));
                },
                None => (),
            }
        }
        i = i + 1;
    }
    None
}

/// The library version written in manifest text: the value of the first
/// `version` entry of the `[package]` table.
#[verifier::loop_isolation(false)]
pub fn extract_crate_version(content: &str) -> (r: Option<String>)
    ensures
        match r {
            Some(v) => spec_extract_version(spec_lines(content@), 0, false) == Some(v@),
            None => spec_extract_version(spec_lines(content@), 0, false) is None,
        },
{
    let lines = split_lines(content);
    let ghost lv = lines@.map_values(|l: Vec<char>| l@);
    let version_prefix = str_to_chars("version");
    let mut in_package = false;
    let mut i: usize = 0;
    while i < lines.len()
        invariant
            i <= lines@.len(),
            lv == lines@.map_values(|l: Vec<char>| l@),
            version_prefix@ == "version"@,
            spec_extract_version(lv, 0, false) == spec_extract_version(lv, i as int, in_package),
        decreases lines@.len() - i,
    {
        let t = trim_chars(&lines[i]);
        if crate::text::chars_eq_str(&t, "[package]") {
            in_package = true;
        } else if t.len() > 0 && t[0] == '[' {
            in_package = false;
        } else if in_package && crate::text::chars_starts_with(&t, &version_prefix) {
            match find_char(&t, '=') {
                Some(j) => {
                    let rest = tail_chars(&t, j + 1);
                    return Some(manifest_value(&rest));
                },
                None => (),
            }
        }
        i = i + 1;
    }
    None
}

} // verus!
