//! The line-oriented serialization: one `<s> <p> o .` line per statement.
//!
//! String literals are escaped by a fixed table: backslash, quote, newline,
//! carriage return and tab become two-character escapes; any other control
//! character below 0x20 becomes a four-hex-digit escape; everything else,
//! including non-ASCII text, passes through unchanged. Prefix registrations
//! become comment lines (the format has no native prefix mechanism) and do
//! not count as statements.

use vstd::prelude::*;

use crate::emitter::{count_statements, is_statement, Event, TriplesEmitter};
use crate::escape::spec_hex_digit;
use crate::text::{append_chars, append_str, chars_to_string, i64_to_chars, str_to_chars};

verus! {

/// What one character contributes to an escaped literal.
pub open spec fn spec_nt_escape_char(c: char) -> Seq<char> {
    if c == '\\' {
        seq!['\\', '\\']
    } else if c == '"' {
        seq!['\\', '"']
    } else if c == '\n' {
        seq!['\\', 'n']
    } else if c == '\r' {
        seq!['\\', 'r']
    } else if c == '\t' {
        seq!['\\', 't']
    } else if (c as u32) < 0x20 {
        seq![
            '\\',
            'u',
            '0',
            '0',
            spec_hex_digit(((c as u32) / 16) as nat),
            spec_hex_digit(((c as u32) % 16) as nat),
        ]
    } else {
        seq![c]
    }
}

/// The escaped form of a whole literal.
pub open spec fn spec_nt_escape(s: Seq<char>) -> Seq<char>
    decreases s.len(),
{
    if s.len() == 0 {
        Seq::empty()
    } else {
        spec_nt_escape(s.drop_last()) + spec_nt_escape_char(s.last())
    }
}

/// The line one event becomes.
pub open spec fn spec_nt_line(e: Event) -> Seq<char> {
    match e {
        Event::Prefix { prefix, iri } => "# @prefix "@ + prefix + ": <"@ + iri + "> .\n"@,
        Event::Iri { subject, predicate, object } => "<"@ + subject + "> <"@ + predicate + "> <"@
            + object + "> .\n"@,
        Event::Literal { subject, predicate, value } => "<"@ + subject + "> <"@ + predicate
            + "> \""@ + spec_nt_escape(value) + "\" .\n"@,
        Event::Typed { subject, predicate, value, datatype } => "<"@ + subject + "> <"@ + predicate
            + "> \""@ + spec_nt_escape(value) + "\"^^<"@ + datatype + "> .\n"@,
    }
}

/// The whole output text for a history: the lines of its events, in order.
pub open spec fn spec_nt_render(h: Seq<Event>) -> Seq<char>
    decreases h.len(),
{
    if h.len() == 0 {
        Seq::empty()
    } else {
        spec_nt_render(h.drop_last()) + spec_nt_line(h.last())
    }
}

proof fn lemma_nt_line_nonempty(e: Event)
    ensures
        spec_nt_line(e).len() >= 1,
{
    reveal_strlit("# @prefix ");
    reveal_strlit("<");
    reveal_strlit("> .\n");
    reveal_strlit("\" .\n");
    reveal_strlit("> <");
    reveal_strlit("\"^^<");
    reveal_strlit(": <");
    reveal_strlit("> \"");
}

proof fn lemma_nt_count_le_len(h: Seq<Event>)
    ensures
        count_statements(h) <= spec_nt_render(h).len(),
    decreases h.len(),
{
    if h.len() > 0 {
        lemma_nt_count_le_len(h.drop_last());
        lemma_nt_line_nonempty(h.last());
    }
}

/// Whatever the original characters were, the escaped literal holds no raw
/// newline, carriage return, tab, or other control character: each was
/// replaced by its escape sequence.
pub proof fn lemma_nt_escape_no_raw_control(s: Seq<char>)
    ensures
        forall|i: int|
            0 <= i < spec_nt_escape(s).len() ==> (spec_nt_escape(s)[i] as u32) >= 0x20,
    decreases s.len(),
{
    if s.len() > 0 {
        lemma_nt_escape_no_raw_control(s.drop_last());
        let e = spec_nt_escape(s.drop_last());
        let ch = spec_nt_escape_char(s.last());
        assert forall|i: int|
            0 <= i < spec_nt_escape(s).len() implies (spec_nt_escape(s)[i] as u32) >= 0x20 by {
            if i < e.len() {
                assert(spec_nt_escape(s)[i] == e[i]);
            } else {
                assert(spec_nt_escape(s)[i] == ch[i - e.len()]);
            }
        }
    }
}

/// Append the escaped form of `s` to `out`.
fn append_nt_escaped(out: &mut Vec<char>, s: &Vec<char>)
    ensures
        final(out)@ == old(out)@ + spec_nt_escape(s@),
{
    let mut i: usize = 0;
    while i < s.len()
        invariant
            i <= s@.len(),
            out@ == old(out)@ + spec_nt_escape(s@.take(i as int)),
        decreases s@.len() - i,
    {
        let c = s[i];
        proof {
            assert(s@.take(i + 1).drop_last() =~= s@.take(i as int));
            assert(s@.take(i + 1).last() == s@[i as int]);
        }
        if c == '\\' {
            out.push('\\');
            out.push('\\');
        } else if c == '"' {
            out.push('\\');
            out.push('"');
        } else if c == '\n' {
            out.push('\\');
            out.push('n');
        } else if c == '\r' {
            out.push('\\');
            out.push('r');
        } else if c == '\t' {
            out.push('\\');
            out.push('t');
        } else {
            let u = c as u32;
            if u < 0x20 {
                out.push('\\');
                out.push('u');
                out.push('0');
                out.push('0');
                out.push(crate::escape::exec_hex_digit(u / 16));
                out.push(crate::escape::exec_hex_digit(u % 16));
            } else {
                out.push(c);
            }
        }
        i = i + 1;
        proof {
            assert(out@ =~= old(out)@ + spec_nt_escape(s@.take(i as int)));
        }
    }
    proof {
        assert(s@.take(s@.len() as int) =~= s@);
    }
}

/// The line-oriented serializer. It buffers its output text in memory; the
/// caller takes the text with [`output`](Self::output).
pub struct NTriplesEmitter {
    out: Vec<char>,
    count: usize,
    history: Ghost<Seq<Event>>,
}

impl NTriplesEmitter {
    /// A sink with nothing emitted yet.
    pub fn new() -> (r: Self)
        ensures
            r.wf(),
            r.history() == Seq::<Event>::empty(),
    {
        NTriplesEmitter { out: Vec::new(), count: 0, history: Ghost(Seq::empty()) }
    }

    /// The output text so far: the lines of every event emitted, in order.
    pub fn output(&self) -> (r: String)
        requires
            self.wf(),
        ensures
            r@ == spec_nt_render(self.history()),
    {
        chars_to_string(&self.out)
    }

    /// Append a finished line and record its event.
    fn push_event(&mut self, line: Vec<char>, stmt: bool, Ghost(e): Ghost<Event>)
        requires
            old(self).wf(),
            line@ == spec_nt_line(e),
            stmt == is_statement(e),
        ensures
            final(self).wf(),
            final(self).history() == old(self).history().push(e),
    {
        proof {
            lemma_nt_count_le_len(self.history@);
            lemma_nt_line_nonempty(e);
        }
        append_chars(&mut self.out, &line);
        proof {
            let h2 = self.history@.push(e);
            assert(h2.drop_last() =~= self.history@);
            assert(self.out@ =~= spec_nt_render(h2));
        }
        let n = self.out.len();
        if stmt {
            proof {
                assert(self.count < n);
            }
            self.count = self.count + 1;
        }
        self.history = Ghost(self.history@.push(e));
    }
}

impl TriplesEmitter for NTriplesEmitter {
    closed spec fn history(&self) -> Seq<Event> {
        self.history@
    }

    closed spec fn wf(&self) -> bool {
        &&& self.out@ == spec_nt_render(self.history@)
        &&& self.count as nat == count_statements(self.history@)
    }

    fn emit_iri(&mut self, subject: &str, predicate: &str, object: &str) {
        let ghost e = Event::Iri { subject: subject@, predicate: predicate@, object: object@ };
        let mut line: Vec<char> = Vec::new();
        append_str(&mut line, "<");
        append_str(&mut line, subject);
        append_str(&mut line, "> <");
        append_str(&mut line, predicate);
        append_str(&mut line, "> <");
        append_str(&mut line, object);
        append_str(&mut line, "> .\n");
        proof {
            assert(line@ =~= spec_nt_line(e));
        }
        self.push_event(line, true, Ghost(e));
    }

    fn emit_literal(&mut self, subject: &str, predicate: &str, value: &str) {
        let ghost e = Event::Literal { subject: subject@, predicate: predicate@, value: value@ };
        let mut line: Vec<char> = Vec::new();
        append_str(&mut line, "<");
        append_str(&mut line, subject);
        append_str(&mut line, "> <");
        append_str(&mut line, predicate);
        append_str(&mut line, "> \"");
        let v = str_to_chars(value);
        append_nt_escaped(&mut line, &v);
        append_str(&mut line, "\" .\n");
        proof {
            assert(line@ =~= spec_nt_line(e));
        }
        self.push_event(line, true, Ghost(e));
    }

    fn emit_typed_literal(&mut self, subject: &str, predicate: &str, value: &str, datatype: &str) {
        let ghost e = Event::Typed {
            subject: subject@,
            predicate: predicate@,
            value: value@,
            datatype: datatype@,
        };
        let mut line: Vec<char> = Vec::new();
        append_str(&mut line, "<");
        append_str(&mut line, subject);
        append_str(&mut line, "> <");
        append_str(&mut line, predicate);
        append_str(&mut line, "> \"");
        let v = str_to_chars(value);
        append_nt_escaped(&mut line, &v);
        append_str(&mut line, "\"^^<");
        append_str(&mut line, datatype);
        append_str(&mut line, "> .\n");
        proof {
            assert(line@ =~= spec_nt_line(e));
        }
        self.push_event(line, true, Ghost(e));
    }

    fn emit_bool(&mut self, subject: &str, predicate: &str, value: bool) {
        if value {
            self.emit_typed_literal(subject, predicate, "true", crate::ontology::xsd_boolean());
        } else {
            self.emit_typed_literal(subject, predicate, "false", crate::ontology::xsd_boolean());
        }
    }

    fn emit_int(&mut self, subject: &str, predicate: &str, value: i64) {
        let digits = i64_to_chars(value);
        let s = chars_to_string(&digits);
        self.emit_typed_literal(subject, predicate, s.as_str(), crate::ontology::xsd_integer());
    }

    fn add_prefix(&mut self, prefix: &str, iri: &str) {
        let ghost e = Event::Prefix { prefix: prefix@, iri: iri@ };
        let mut line: Vec<char> = Vec::new();
        append_str(&mut line, "# @prefix ");
        append_str(&mut line, prefix);
        append_str(&mut line, ": <");
        append_str(&mut line, iri);
        append_str(&mut line, "> .\n");
        proof {
            assert(line@ =~= spec_nt_line(e));
        }
        self.push_event(line, false, Ghost(e));
    }

    fn flush(&mut self) -> (r: Result<(), ()>) {
        Ok(())
    }

    fn triple_count(&self) -> (r: u64) {
        self.count as u64
    }
}

} // verus!
