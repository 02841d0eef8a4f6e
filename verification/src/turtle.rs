//! The compact, prefixed serialization.
//!
//! On the first statement emitted, all namespace prefixes registered so far
//! are written out, sorted ascending by prefix name, followed by one blank
//! line if there was at least one. Every address is then passed through a
//! compaction that selects the longest registered namespace the address
//! starts with, and rewrites it as `prefix:localname` only if the remaining
//! local name is non-empty and consists solely of letters, digits or
//! underscore; otherwise the address stays in full bracketed form. Literals
//! are escaped by the same five-character table as the line-oriented format,
//! without the extra control-character escapes.

use vstd::prelude::*;

use crate::emitter::{count_statements, Event, TriplesEmitter};
use crate::order::{
    insert_sorted, lemma_insert_sorted_preserves, lemma_insert_sorted_split, lex_less, lex_lt,
    sorted_keys, Pairs,
};
use crate::text::{
    append_chars, append_str, char_is_alphanumeric, chars_eq, chars_starts_with, chars_to_string,
    i64_to_chars, is_unicode_alphanumeric, str_to_chars,
};

verus! {

/// What one character contributes to an escaped literal.
pub open spec fn spec_ttl_escape_char(c: char) -> Seq<char> {
    if c == '\\' {
        seq!['\\', '\\']
    } else if c == '"' {
        seq!['\\', '"']
    } else if c == '\n' {
        seq!['\\', 'n']
    } else if c == '\r' {
        seq!['\\', 'r']
    } else if c == '\t' {
        seq!['\\', 't']
    } else {
        seq![c]
    }
}

/// The escaped form of a whole literal.
pub open spec fn spec_ttl_escape(s: Seq<char>) -> Seq<char>
    decreases s.len(),
{
    if s.len() == 0 {
        Seq::empty()
    } else {
        spec_ttl_escape(s.drop_last()) + spec_ttl_escape_char(s.last())
    }
}

/// The prefix table a history builds up: every registration inserted in
/// name order, later registrations of one name replacing earlier ones.
pub open spec fn spec_prefixes(h: Seq<Event>) -> Pairs
    decreases h.len(),
{
    if h.len() == 0 {
        Seq::empty()
    } else {
        let rest = spec_prefixes(h.drop_last());
        match h.last() {
            Event::Prefix { prefix, iri } => insert_sorted(rest, prefix, iri),
            _ => rest,
        }
    }
}

/// Whether a statement has been emitted, after which the prefix block is on
/// the output and is never written again.
pub open spec fn spec_block_written(h: Seq<Event>) -> bool
    decreases h.len(),
{
    if h.len() == 0 {
        false
    } else {
        match h.last() {
            Event::Prefix { .. } => spec_block_written(h.drop_last()),
            _ => true,
        }
    }
}

/// One prefix declaration line.
pub open spec fn spec_decl_line(p: (Seq<char>, Seq<char>)) -> Seq<char> {
    "@prefix "@ + p.0 + ": <"@ + p.1 + "> .\n"@
}

/// The declaration lines of a table, in table order.
pub open spec fn spec_decls(ps: Pairs) -> Seq<char>
    decreases ps.len(),
{
    if ps.len() == 0 {
        Seq::empty()
    } else {
        spec_decls(ps.drop_last()) + spec_decl_line(ps.last())
    }
}

/// The block written before the first statement: the declarations, then one
/// blank line if there was at least one registered prefix.
pub open spec fn spec_prefix_block(ps: Pairs) -> Seq<char> {
    if ps.len() == 0 {
        Seq::empty()
    } else {
        spec_decls(ps) + "\n"@
    }
}

/// The best namespace for an address: the longest registered namespace the
/// address starts with; among equally long ones, the earliest in the table.
pub open spec fn spec_best(ps: Pairs, iri: Seq<char>) -> Option<(Seq<char>, Seq<char>)>
    decreases ps.len(),
{
    if ps.len() == 0 {
        None
    } else {
        let b = spec_best(ps.drop_last(), iri);
        let p = ps.last();
        if p.1.is_prefix_of(iri) {
            match b {
                Option::None => Option::Some(p),
                Option::Some(q) => if q.1.len() < p.1.len() {
                    Option::Some(p)
                } else {
                    Option::Some(q)
                },
            }
        } else {
            b
        }
    }
}

/// A character acceptable in a compacted local name.
pub open spec fn spec_idword(c: char) -> bool {
    is_unicode_alphanumeric(c) || c == '_'
}

/// The compacted form of an address against a table: `prefix:localname`
/// when the best namespace leaves a non-empty local name of word
/// characters, the full bracketed address otherwise.
pub open spec fn spec_compact(iri: Seq<char>, ps: Pairs) -> Seq<char> {
    match spec_best(ps, iri) {
        Option::Some(p) => {
            let local = iri.skip(p.1.len() as int);
            if local.len() > 0 && (forall|i: int| 0 <= i < local.len() ==> spec_idword(local[i])) {
                p.0 + seq![':'] + local
            } else {
                seq!['<'] + iri + seq!['>']
            }
        },
        Option::None => seq!['<'] + iri + seq!['>'],
    }
}

/// The line one statement becomes, against the table in force when it is
/// emitted.
pub open spec fn spec_ttl_line(e: Event, ps: Pairs) -> Seq<char> {
    match e {
        Event::Prefix { .. } => Seq::empty(),
        Event::Iri { subject, predicate, object } => spec_compact(subject, ps) + seq![' ']
            + spec_compact(predicate, ps) + seq![' '] + spec_compact(object, ps) + " .\n"@,
        Event::Literal { subject, predicate, value } => spec_compact(subject, ps) + seq![' ']
            + spec_compact(predicate, ps) + " \""@ + spec_ttl_escape(value) + "\" .\n"@,
        Event::Typed { subject, predicate, value, datatype } => spec_compact(subject, ps)
            + seq![' '] + spec_compact(predicate, ps) + " \""@ + spec_ttl_escape(value) + "\"^^"@
            + spec_compact(datatype, ps) + " .\n"@,
    }
}

/// The whole output text for a history. Prefix registrations write nothing;
/// the first statement writes the block, then its own line; statements after
/// it write their line against the table in force.
pub open spec fn spec_ttl_render(h: Seq<Event>) -> Seq<char>
    decreases h.len(),
{
    if h.len() == 0 {
        Seq::empty()
    } else {
        let rest = spec_ttl_render(h.drop_last());
        let e = h.last();
        if e is Prefix {
            rest
        } else {
            rest + (if spec_block_written(h.drop_last()) {
                Seq::<char>::empty()
            } else {
                spec_prefix_block(spec_prefixes(h.drop_last()))
            }) + spec_ttl_line(e, spec_prefixes(h.drop_last()))
        }
    }
}

/// Whatever order prefixes are registered in, the table is strictly sorted
/// by prefix name, so the declaration block always lists them ascending.
pub proof fn lemma_prefix_table_sorted(h: Seq<Event>)
    ensures
        sorted_keys(spec_prefixes(h)),
    decreases h.len(),
{
    if h.len() > 0 {
        lemma_prefix_table_sorted(h.drop_last());
        match h.last() {
            Event::Prefix { prefix, iri } => {
                lemma_insert_sorted_preserves(spec_prefixes(h.drop_last()), prefix, iri);
            },
            _ => {},
        }
    }
}

proof fn lemma_ttl_line_nonempty(e: Event, ps: Pairs)
    requires
        !(e is Prefix),
    ensures
        spec_ttl_line(e, ps).len() >= 1,
{
    reveal_strlit(" .\n");
    reveal_strlit("\" .\n");
}

proof fn lemma_ttl_count_le_len(h: Seq<Event>)
    ensures
        count_statements(h) <= spec_ttl_render(h).len(),
    decreases h.len(),
{
    if h.len() > 0 {
        lemma_ttl_count_le_len(h.drop_last());
        if !(h.last() is Prefix) {
            lemma_ttl_line_nonempty(h.last(), spec_prefixes(h.drop_last()));
        }
    }
}

/// The prefix table as the specification sees the buffered one.
pub open spec fn pairs_view(v: Seq<(String, String)>) -> Pairs {
    Seq::new(v.len(), |i: int| (v[i].0@, v[i].1@))
}

/// Append the escaped form of `s` to `out`.
fn append_ttl_escaped(out: &mut Vec<char>, s: &Vec<char>)
    ensures
        final(out)@ == old(out)@ + spec_ttl_escape(s@),
{
    let mut i: usize = 0;
    while i < s.len()
        invariant
            i <= s@.len(),
            out@ == old(out)@ + spec_ttl_escape(s@.take(i as int)),
        decreases s@.len() - i,
    {
        let c = s[i];
        proof {
            assert(s@.take(i + 1).drop_last() =~= s@.take(i as int));
            assert(s@.take(i + 1).last() == s@[i as int]);
        }
        if c == '\\' {
            out.push('\\');
            out.push('\\');
        } else if c == '"' {
            out.push('\\');
            out.push('"');
        } else if c == '\n' {
            out.push('\\');
            out.push('n');
        } else if c == '\r' {
            out.push('\\');
            out.push('r');
        } else if c == '\t' {
            out.push('\\');
            out.push('t');
        } else {
            out.push(c);
        }
        i = i + 1;
        proof {
            assert(out@ =~= old(out)@ + spec_ttl_escape(s@.take(i as int)));
        }
    }
    proof {
        assert(s@.take(s@.len() as int) =~= s@);
    }
}

/// The compact serializer. It buffers its output text in memory; the caller
/// takes the text with [`output`](Self::output).
pub struct TurtleEmitter {
    out: Vec<char>,
    count: usize,
    prefixes: Vec<(String, String)>,
    prefix_written: bool,
    history: Ghost<Seq<Event>>,
}

impl TurtleEmitter {
    /// A sink with nothing emitted and no prefixes registered.
    pub fn new() -> (r: Self)
        ensures
            r.wf(),
            r.history() == Seq::<Event>::empty(),
    {
        let r = TurtleEmitter {
            out: Vec::new(),
            count: 0,
            prefixes: Vec::new(),
            prefix_written: false,
            history: Ghost(Seq::empty()),
        };
        proof {
            assert(pairs_view(r.prefixes@) =~= spec_prefixes(r.history@));
            assert(r.out@ =~= spec_ttl_render(r.history@));
        }
        r
    }

    /// The output text so far.
    pub fn output(&self) -> (r: String)
        requires
            self.wf(),
        ensures
            r@ == spec_ttl_render(self.history()),
    {
        chars_to_string(&self.out)
    }

    /// Compact an address against the current table.
    fn compact(&self, iri: &str) -> (r: Vec<char>)
        ensures
            r@ == spec_compact(iri@, pairs_view(self.prefixes@)),
    {
        let ghost ps = pairs_view(self.prefixes@);
        let iric = str_to_chars(iri);
        let mut best_ns_len: usize = 0;
        let mut best_prefix: Vec<char> = Vec::new();
        let mut has_best = false;
        let mut i: usize = 0;
        while i < self.prefixes.len()
            invariant
                i <= self.prefixes@.len(),
                ps == pairs_view(self.prefixes@),
                iric@ == iri@,
                has_best ==> spec_best(ps.take(i as int), iri@) == Option::Some(
                    (best_prefix@, iri@.take(best_ns_len as int)),
                ),
                has_best ==> best_ns_len <= iri@.len(),
                !has_best ==> spec_best(ps.take(i as int), iri@) is None,
            decreases self.prefixes@.len() - i,
        {
            let ns = str_to_chars(self.prefixes[i].1.as_str());
            proof {
                assert(ps.take(i + 1).drop_last() =~= ps.take(i as int));
                assert(ps.take(i + 1).last() == ps[i as int]);
                assert(ps[i as int].1 == self.prefixes@[i as int].1@);
            }
            if chars_starts_with(&iric, &ns) {
                if !has_best || best_ns_len < ns.len() {
                    best_ns_len = ns.len();
                    best_prefix = str_to_chars(self.prefixes[i].0.as_str());
                    has_best = true;
                }
            }
            proof {
                if has_best {
                    assert(iri@.take(best_ns_len as int) =~= spec_best(
                        ps.take(i + 1),
                        iri@,
                    )->Some_0.1);
                }
            }
            i = i + 1;
        }
        proof {
            assert(ps.take(ps.len() as int) =~= ps);
        }
        if has_best {
            // The remaining local name must be non-empty and word-only.
            let mut local: Vec<char> = Vec::new();
            let mut j: usize = best_ns_len;
            while j < iric.len()
                invariant
                    best_ns_len <= j <= iric@.len(),
                    local@ == iric@.subrange(best_ns_len as int, j as int),
                decreases iric@.len() - j,
            {
                local.push(iric[j]);
                j = j + 1;
                proof {
                    assert(local@ =~= iric@.subrange(best_ns_len as int, j as int));
                }
            }
            proof {
                assert(local@ =~= iri@.skip(best_ns_len as int));
            }
            let mut all_word = local.len() > 0;
            let mut k: usize = 0;
            while k < local.len()
                invariant
                    k <= local@.len(),
                    all_word == (local@.len() > 0 && (forall|m: int|
                        0 <= m < k ==> spec_idword(local@[m]))),
                decreases local@.len() - k,
            {
                let c = local[k];
                if !(char_is_alphanumeric(c) || c == '_') {
                    all_word = false;
                }
                k = k + 1;
            }
            if all_word {
                let mut r = best_prefix;
                r.push(':');
                append_chars(&mut r, &local);
                proof {
                    assert(r@ =~= spec_compact(iri@, ps));
                }
                r
            } else {
                let mut r: Vec<char> = Vec::new();
                r.push('<');
                append_chars(&mut r, &iric);
                r.push('>');
                proof {
                    assert(r@ =~= spec_compact(iri@, ps));
                }
                r
            }
        } else {
            let mut r: Vec<char> = Vec::new();
            r.push('<');
            append_chars(&mut r, &iric);
            r.push('>');
            proof {
                assert(r@ =~= spec_compact(iri@, ps));
            }
            r
        }
    }

    /// Write the prefix block if no statement has been emitted yet, then
    /// append the statement line and count it.
    fn push_statement(&mut self, line_rest: Vec<char>, Ghost(e): Ghost<Event>)
        requires
            old(self).wf(),
            !(e is Prefix),
            line_rest@ == spec_ttl_line(e, spec_prefixes(old(self).history@)),
        ensures
            final(self).wf(),
            final(self).history() == old(self).history().push(e),
    {
        let ghost h0 = self.history@;
        proof {
            lemma_ttl_count_le_len(h0);
            lemma_ttl_line_nonempty(e, spec_prefixes(h0));
        }
        if !self.prefix_written {
            self.prefix_written = true;
            let ghost ps = spec_prefixes(h0);
            let mut i: usize = 0;
            while i < self.prefixes.len()
                invariant
                    i <= self.prefixes@.len(),
                    ps == pairs_view(self.prefixes@),
                    self.out@ == spec_ttl_render(h0) + spec_decls(ps.take(i as int)),
                    self.count == old(self).count,
                    self.history@ == h0,
                    self.prefix_written,
                decreases self.prefixes@.len() - i,
            {
                append_str(&mut self.out, "@prefix ");
                append_str(&mut self.out, self.prefixes[i].0.as_str());
                append_str(&mut self.out, ": <");
                append_str(&mut self.out, self.prefixes[i].1.as_str());
                append_str(&mut self.out, "> .\n");
                proof {
                    assert(ps.take(i + 1).drop_last() =~= ps.take(i as int));
                    assert(ps.take(i + 1).last() == ps[i as int]);
                    assert(self.out@ =~= spec_ttl_render(h0) + spec_decls(ps.take(i + 1)));
                }
                i = i + 1;
            }
            proof {
                assert(ps.take(ps.len() as int) =~= ps);
            }
            if self.prefixes.len() > 0 {
                self.out.push('\n');
                proof {
                    reveal_strlit("\n");
                    assert(self.out@ =~= spec_ttl_render(h0) + spec_prefix_block(ps));
                }
            } else {
                proof {
                    assert(spec_prefix_block(ps) =~= Seq::<char>::empty());
                    assert(self.out@ =~= spec_ttl_render(h0) + spec_prefix_block(ps));
                }
            }
        }
        append_chars(&mut self.out, &line_rest);
        proof {
            let h2 = h0.push(e);
            assert(h2.drop_last() =~= h0);
            assert(self.out@ =~= spec_ttl_render(h2));
        }
        let n = self.out.len();
        proof {
            assert(self.count < n);
        }
        self.count = self.count + 1;
        self.history = Ghost(h0.push(e));
    }
}

impl TriplesEmitter for TurtleEmitter {
    closed spec fn history(&self) -> Seq<Event> {
        self.history@
    }

    closed spec fn wf(&self) -> bool {
        &&& self.out@ == spec_ttl_render(self.history@)
        &&& self.count as nat == count_statements(self.history@)
        &&& pairs_view(self.prefixes@) == spec_prefixes(self.history@)
        &&& self.prefix_written == spec_block_written(self.history@)
    }

    fn emit_iri(&mut self, subject: &str, predicate: &str, object: &str) {
        let ghost e = Event::Iri { subject: subject@, predicate: predicate@, object: object@ };
        let ghost ps = spec_prefixes(self.history@);
        let mut line = self.compact(subject);
        line.push(' ');
        let p = self.compact(predicate);
        append_chars(&mut line, &p);
        line.push(' ');
        let o = self.compact(object);
        append_chars(&mut line, &o);
        append_str(&mut line, " .\n");
        proof {
            assert(line@ =~= spec_ttl_line(e, ps));
        }
        self.push_statement(line, Ghost(e));
    }

    fn emit_literal(&mut self, subject: &str, predicate: &str, value: &str) {
        let ghost e = Event::Literal { subject: subject@, predicate: predicate@, value: value@ };
        let ghost ps = spec_prefixes(self.history@);
        let mut line = self.compact(subject);
        line.push(' ');
        let p = self.compact(predicate);
        append_chars(&mut line, &p);
        append_str(&mut line, " \"");
        let v = str_to_chars(value);
        append_ttl_escaped(&mut line, &v);
        append_str(&mut line, "\" .\n");
        proof {
            assert(line@ =~= spec_ttl_line(e, ps));
        }
        self.push_statement(line, Ghost(e));
    }

    fn emit_typed_literal(&mut self, subject: &str, predicate: &str, value: &str, datatype: &str) {
        let ghost e = Event::Typed {
            subject: subject@,
            predicate: predicate@,
            value: value@,
            datatype: datatype@,
        };
        let ghost ps = spec_prefixes(self.history@);
        let mut line = self.compact(subject);
        line.push(' ');
        let p = self.compact(predicate);
        append_chars(&mut line, &p);
        append_str(&mut line, " \"");
        let v = str_to_chars(value);
        append_ttl_escaped(&mut line, &v);
        append_str(&mut line, "\"^^");
        let dt = self.compact(datatype);
        append_chars(&mut line, &dt);
        append_str(&mut line, " .\n");
        proof {
            assert(line@ =~= spec_ttl_line(e, ps));
        }
        self.push_statement(line, Ghost(e));
    }

    fn emit_bool(&mut self, subject: &str, predicate: &str, value: bool) {
        if value {
            self.emit_typed_literal(subject, predicate, "true", crate::ontology::xsd_boolean());
        } else {
            self.emit_typed_literal(subject, predicate, "false", crate::ontology::xsd_boolean());
        }
    }

    fn emit_int(&mut self, subject: &str, predicate: &str, value: i64) {
        let digits = i64_to_chars(value);
        let s = chars_to_string(&digits);
        self.emit_typed_literal(subject, predicate, s.as_str(), crate::ontology::xsd_integer());
    }

    fn add_prefix(&mut self, prefix: &str, iri: &str) {
        let ghost e = Event::Prefix { prefix: prefix@, iri: iri@ };
        let ghost h0 = self.history@;
        let ghost ps = pairs_view(self.prefixes@);
        let k = str_to_chars(prefix);
        // Find the insertion point: the first entry whose name does not
        // precede the new one.
        let mut pos: usize = 0;
        let mut searching = true;
        while searching && pos < self.prefixes.len()
            invariant
                pos <= self.prefixes@.len(),
                ps == pairs_view(self.prefixes@),
                k@ == prefix@,
                forall|j: int| 0 <= j < pos ==> lex_lt(#[trigger] ps[j].0, prefix@),
                !searching ==> pos < self.prefixes@.len() && !lex_lt(ps[pos as int].0, prefix@),
            decreases self.prefixes@.len() - pos, if searching { 1int } else { 0int },
        {
            let ki = str_to_chars(self.prefixes[pos].0.as_str());
            if lex_less(&ki, &k) {
                pos = pos + 1;
            } else {
                searching = false;
            }
        }
        proof {
            lemma_insert_sorted_split(ps, prefix@, iri@, pos as int);
        }
        let pair = (chars_to_string(&k), {
            let v = str_to_chars(iri);
            chars_to_string(&v)
        });
        if pos < self.prefixes.len() {
            let same = {
                let ki = str_to_chars(self.prefixes[pos].0.as_str());
                chars_eq(&ki, &k)
            };
            if same {
                self.prefixes.remove(pos);
                self.prefixes.insert(pos, pair);
                proof {
                    assert(pairs_view(self.prefixes@) =~= ps.take(pos as int) + seq![
                        (prefix@, iri@),
                    ] + ps.skip(pos as int + 1));
                }
            } else {
                self.prefixes.insert(pos, pair);
                proof {
                    assert(pairs_view(self.prefixes@) =~= ps.take(pos as int) + seq![
                        (prefix@, iri@),
                    ] + ps.skip(pos as int));
                }
            }
        } else {
            self.prefixes.insert(pos, pair);
            proof {
                assert(pairs_view(self.prefixes@) =~= ps.take(pos as int) + seq![(prefix@, iri@)]
                    + ps.skip(pos as int));
            }
        }
        self.history = Ghost(h0.push(e));
        proof {
            let h2 = h0.push(e);
            assert(h2.drop_last() =~= h0);
            assert(pairs_view(self.prefixes@) =~= spec_prefixes(h2));
            assert(self.out@ =~= spec_ttl_render(h2));
        }
    }

    fn flush(&mut self) -> (r: Result<(), ()>) {
        Ok(())
    }

    fn triple_count(&self) -> (r: u64) {
        self.count as u64
    }
}

} // verus!
