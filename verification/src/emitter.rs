//! The statement sink shared by the serializers.
//!
//! A sink's behaviour is modelled by its *history*: the sequence of
//! emission events it has taken so far. Each emission method appends
//! exactly one event; what text an event becomes is each serializer's own
//! affair, pinned by its well-formedness invariant, so that the rendered
//! output is a function of the history alone.

use vstd::prelude::*;

use crate::ontology::{spec_xsd_boolean, spec_xsd_integer, xsd_boolean, xsd_integer};
use crate::text::spec_dec_int;

verus! {

/// One emission taken by a sink: a namespace-prefix registration, or a
/// statement whose object is an identifier, a plain literal, or a typed
/// literal.
pub enum Event {
    Prefix { prefix: Seq<char>, iri: Seq<char> },
    Iri { subject: Seq<char>, predicate: Seq<char>, object: Seq<char> },
    Literal { subject: Seq<char>, predicate: Seq<char>, value: Seq<char> },
    Typed { subject: Seq<char>, predicate: Seq<char>, value: Seq<char>, datatype: Seq<char> },
}

/// Whether an event is a statement (prefix registrations are not).
pub open spec fn is_statement(e: Event) -> bool {
    !(e is Prefix)
}

/// How many statements a history holds.
pub open spec fn count_statements(h: Seq<Event>) -> nat
    decreases h.len(),
{
    if h.len() == 0 {
        0
    } else {
        count_statements(h.drop_last()) + if is_statement(h.last()) {
            1nat
        } else {
            0nat
        }
    }
}

/// The canonical rendering of a boolean literal.
pub open spec fn spec_bool_chars(value: bool) -> Seq<char> {
    if value {
        "true"@
    } else {
        "false"@
    }
}

/// A sink for statements, rendering them in some textual form.
pub trait TriplesEmitter: Sized {
    /// The emission events taken so far.
    spec fn history(&self) -> Seq<Event>;

    /// The sink's internal consistency: its buffered text and counters agree
    /// with its history.
    spec fn wf(&self) -> bool;

    /// Emit a statement with an identifier object.
    fn emit_iri(&mut self, subject: &str, predicate: &str, object: &str)
        requires
            old(self).wf(),
        ensures
            final(self).wf(),
            final(self).history() == old(self).history().push(
                Event::Iri { subject: subject@, predicate: predicate@, object: object@ },
            ),
    ;

    /// Emit a statement with a plain string literal object.
    fn emit_literal(&mut self, subject: &str, predicate: &str, value: &str)
        requires
            old(self).wf(),
        ensures
            final(self).wf(),
            final(self).history() == old(self).history().push(
                Event::Literal { subject: subject@, predicate: predicate@, value: value@ },
            ),
    ;

    /// Emit a statement with a typed literal object.
    fn emit_typed_literal(&mut self, subject: &str, predicate: &str, value: &str, datatype: &str)
        requires
            old(self).wf(),
        ensures
            final(self).wf(),
            final(self).history() == old(self).history().push(
                Event::Typed {
                    subject: subject@,
                    predicate: predicate@,
                    value: value@,
                    datatype: datatype@,
                },
            ),
    ;

    /// Emit a statement with a boolean literal object, as a typed literal
    /// with the standard boolean datatype.
    fn emit_bool(&mut self, subject: &str, predicate: &str, value: bool)
        requires
            old(self).wf(),
        ensures
            final(self).wf(),
            final(self).history() == old(self).history().push(
                Event::Typed {
                    subject: subject@,
                    predicate: predicate@,
                    value: spec_bool_chars(value),
                    datatype: spec_xsd_boolean(),
                },
            ),
    ;

    /// Emit a statement with an integer literal object, as a typed literal
    /// with the standard integer datatype.
    fn emit_int(&mut self, subject: &str, predicate: &str, value: i64)
        requires
            old(self).wf(),
        ensures
            final(self).wf(),
            final(self).history() == old(self).history().push(
                Event::Typed {
                    subject: subject@,
                    predicate: predicate@,
                    value: spec_dec_int(value as int),
                    datatype: spec_xsd_integer(),
                },
            ),
    ;

    /// Register a namespace prefix.
    fn add_prefix(&mut self, prefix: &str, iri: &str)
        requires
            old(self).wf(),
        ensures
            final(self).wf(),
            final(self).history() == old(self).history().push(
                Event::Prefix { prefix: prefix@, iri: iri@ },
            ),
    ;

    /// Flush buffered output. The sinks here buffer in memory, so this never
    /// fails and changes nothing.
    fn flush(&mut self) -> (r: Result<(), ()>)
        requires
            old(self).wf(),
        ensures
            final(self).wf(),
            final(self).history() == old(self).history(),
            r is Ok,
    ;

    /// The number of statements emitted so far.
    fn triple_count(&self) -> (r: u64)
        requires
            self.wf(),
        ensures
            r as nat == count_statements(self.history()),
    ;
}

} // verus!
