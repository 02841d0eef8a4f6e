//! End-to-end behavior of the whole pipeline: determinism, option toggles,
//! minting discipline, escaping, compaction and prefix ordering.

use rust2rdf::emitter::TriplesEmitter;
use rust2rdf::extractor::{CrateExtractor, ExtractionOptions};
use rust2rdf::iri::IriMinter;
use rust2rdf::ntriples::NTriplesEmitter;
use rust2rdf::parse::parse_crate_json;
use rust2rdf::turtle::TurtleEmitter;

const DOC: &str = r##"{
 "root": 0,
 "crate_version": "0.9.1",
 "format_version": 57,
 "external_crates": { "2": { "name": "std" } },
 "paths": {
  "100": { "path": ["core", "clone", "Clone"], "kind": "trait" },
  "102": { "path": ["std", "io", "error", "Error"], "kind": "struct" }
 },
 "index": {
  "0": { "name": "tiny", "visibility": "public",
         "inner": { "module": { "items": [1, 5] } } },
  "1": { "name": "S", "visibility": "public",
         "inner": { "struct": {
           "kind": { "plain": { "fields": [2, 3] } },
           "generics": { "params": [
             { "name": "T", "kind": { "type": { "bounds": [
               { "trait_bound": { "trait": { "path": "Clone", "id": 100 },
                                  "modifier": "none", "generic_params": [] } }
             ] } } } ] },
           "impls": [] } } },
  "2": { "name": "f", "visibility": "public",
         "inner": { "struct_field": { "generic": "T" } } },
  "3": { "name": "count", "visibility": "public",
         "inner": { "struct_field": { "primitive": "usize" } } },
  "5": { "name": "may_fail", "visibility": "public",
         "inner": { "function": {
           "sig": { "inputs": [["x", { "primitive": "u8" }]],
                    "output": { "resolved_path": { "path": "Result",
                      "args": { "angle_bracketed": { "args": [
                        { "type": { "primitive": "u8" } },
                        { "type": { "resolved_path": { "path": "Error", "id": 102 } } }
                      ] } } } } },
           "has_body": true,
           "header": {} } } }
 }
}"##;

fn run_ntriples(opts: ExtractionOptions) -> (String, u64) {
    let krate = parse_crate_json(DOC).unwrap();
    let mut extractor = CrateExtractor::new(NTriplesEmitter::new(), &krate, opts);
    extractor.extract();
    let emitter = extractor.into_emitter();
    (emitter.output(), emitter.triple_count())
}

#[test]
fn pipeline_is_byte_identical_across_runs() {
    let (first, c1) = run_ntriples(ExtractionOptions::default());
    let (second, c2) = run_ntriples(ExtractionOptions::default());
    assert_eq!(first, second);
    assert_eq!(c1, c2);
    assert!(c1 > 0);
}

#[test]
fn excluding_impls_never_increases_triple_count() {
    let (_, with_impls) = run_ntriples(ExtractionOptions {
        include_impls: true,
        ..ExtractionOptions::default()
    });
    let (_, without_impls) = run_ntriples(ExtractionOptions {
        include_impls: false,
        ..ExtractionOptions::default()
    });
    assert!(without_impls <= with_impls);
}

#[test]
fn minting_is_pure_and_collision_free() {
    let m = IriMinter::new("http://b.example");
    assert_eq!(m.crate_iri("serde", "1.0.0"), m.crate_iri("serde", "1.0.0"));
    assert_ne!(m.crate_iri("serde", "1.0.0"), m.crate_iri("serde", "1.0.1"));
    assert_ne!(m.crate_iri("serde", "1.0.0"), m.crate_iri("serde2", "1.0.0"));
    // No collisions across entity categories.
    assert_ne!(m.crate_iri("a", "b"), m.module_iri("a", "b", "a"));
    assert_ne!(m.type_iri("a", "b", "c"), m.impl_iri("a", "b", "c"));
    assert_ne!(m.type_iri("_primitive_", "x", "y"), m.primitive_type_iri("x"));
    // Components embedding separators still cannot collide: the separator is
    // escaped inside a component.
    assert_ne!(m.crate_iri("a/b", "c"), m.crate_iri("a", "b/c"));
}

#[test]
fn escaped_literal_has_no_raw_specials() {
    let mut em = NTriplesEmitter::new();
    em.emit_literal(
        "http://example.org/s",
        "http://example.org/p",
        "a\\b\"c\nd\te\x01f",
    );
    let out = em.output();
    let line = out.lines().next().unwrap();
    let literal = &line[line.find('"').unwrap()..line.rfind('"').unwrap()];
    assert!(literal.contains("\\\\"));
    assert!(literal.contains("\\\""));
    assert!(literal.contains("\\n"));
    assert!(literal.contains("\\t"));
    assert!(literal.contains("\\u0001"));
    assert!(!literal.contains('\n'));
    assert!(!literal.contains('\t'));
    assert!(!literal.contains('\x01'));
}

#[test]
fn compaction_selects_longest_namespace() {
    let mut em = TurtleEmitter::new();
    em.add_prefix("x", "http://x/");
    em.add_prefix("y", "http://x/y/");
    em.emit_iri("http://x/y/Foo", "http://x/p", "http://x/y/Bar");
    let out = em.output();
    assert!(out.contains("y:Foo"), "longest namespace should win: {out}");
    assert!(out.contains("x:p"));
    assert!(out.contains("y:Bar"));
}

#[test]
fn compaction_rejects_nonword_local_names() {
    let mut em = TurtleEmitter::new();
    em.add_prefix("x", "http://x/");
    em.emit_iri("http://x/a.b", "http://x/p", "http://x/q-r");
    let out = em.output();
    assert!(out.contains("<http://x/a.b>"));
    assert!(out.contains("<http://x/q-r>"));
    assert!(out.contains("x:p"));
}

#[test]
fn compaction_accepts_unicode_letters_in_local_names() {
    let mut em = TurtleEmitter::new();
    em.add_prefix("x", "http://x/");
    em.emit_iri("http://x/caf\u{e9}", "http://x/p", "http://x/o");
    let out = em.output();
    assert!(
        out.contains("x:caf\u{e9}"),
        "letters beyond ASCII are word characters: {out}"
    );
}

#[test]
fn end_to_end_generic_struct_shape() {
    let (out, _) = run_ntriples(ExtractionOptions::default());
    let s = "http://rust.example/type/tiny/0.9.1/tiny%3A%3AS";
    let tg = "http://typegraph.example/ontology/";
    assert!(out.contains(&format!(
        "<{s}> <http://www.w3.org/1999/02/22-rdf-syntax-ns#type> <{tg}Struct> ."
    )));
    assert!(out.contains(&format!(
        "<{s}> <{tg}isGeneric> \"true\"^^<http://www.w3.org/2001/XMLSchema#boolean> ."
    )));
    assert!(out.contains(&format!(
        "<{s}/member/count> <{tg}fieldType> <http://rust.example/type/_primitive_/usize> ."
    )));
    assert!(out.contains(&format!("<{s}/typeparam/0> <{tg}name> \"T\" .")));
    assert!(out.contains(&format!(
        "<{s}/typeparam/0> <{tg}ordinal> \"0\"^^<http://www.w3.org/2001/XMLSchema#integer> ."
    )));
    assert!(out.contains(&format!(
        "<{s}/typeparam/0> <http://rust.example/ontology/traitBound> <http://rust.example/type/tiny/0.9.1/core%3A%3Aclone%3A%3AClone> ."
    )));
}

#[test]
fn error_type_edge_follows_the_toggle() {
    let (with_errors, _) = run_ntriples(ExtractionOptions {
        extract_error_types: true,
        ..ExtractionOptions::default()
    });
    let (without_errors, _) = run_ntriples(ExtractionOptions {
        extract_error_types: false,
        ..ExtractionOptions::default()
    });
    let edge = "http://rust.example/ontology/errorType";
    let err_iri = "http://rust.example/type/tiny/0.9.1/std%3A%3Aio%3A%3Aerror%3A%3AError";
    assert!(with_errors.contains(edge));
    assert!(with_errors.contains(err_iri));
    assert!(!without_errors.contains(edge));
}

#[test]
fn prefix_listing_ignores_registration_order() {
    let mut a = TurtleEmitter::new();
    a.add_prefix("zz", "http://z.example/");
    a.add_prefix("aa", "http://a.example/");
    a.add_prefix("mm", "http://m.example/");
    a.emit_iri("http://o.example/s", "http://o.example/p", "http://o.example/o");
    let mut b = TurtleEmitter::new();
    b.add_prefix("mm", "http://m.example/");
    b.add_prefix("zz", "http://z.example/");
    b.add_prefix("aa", "http://a.example/");
    b.emit_iri("http://o.example/s", "http://o.example/p", "http://o.example/o");
    let oa = a.output();
    let ob = b.output();
    assert_eq!(oa, ob);
    let aa = oa.find("@prefix aa:").unwrap();
    let mm = oa.find("@prefix mm:").unwrap();
    let zz = oa.find("@prefix zz:").unwrap();
    assert!(aa < mm && mm < zz);
}

#[test]
fn reregistering_a_prefix_replaces_its_address() {
    let mut em = TurtleEmitter::new();
    em.add_prefix("x", "http://old.example/");
    em.add_prefix("x", "http://new.example/");
    em.emit_iri("http://new.example/s", "http://new.example/p", "http://new.example/o");
    let out = em.output();
    assert!(out.contains("@prefix x: <http://new.example/> ."));
    assert!(!out.contains("http://old.example/"));
    assert!(out.contains("x:s x:p x:o ."));
}
