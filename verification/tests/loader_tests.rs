//! Tests for reading name and version entries out of manifest text, and for
//! the document-level parse errors.

use rust2rdf::loader::{extract_crate_name, extract_crate_version};
use rust2rdf::parse::{parse_crate_json, ParseError};

#[test]
fn extract_crate_version_works() {
    let toml = r#"
[package]
name = "my-crate"
version = "1.2.3"
edition = "2021"
"#;
    assert_eq!(extract_crate_version(toml), Some("1.2.3".to_string()));
}

#[test]
fn extract_crate_version_missing() {
    let toml = r#"
[dependencies]
serde = "1"
"#;
    assert_eq!(extract_crate_version(toml), None);
}

#[test]
fn extract_crate_name_works() {
    let toml = r#"
[package]
name = "my-crate"
version = "1.2.3"
"#;
    assert_eq!(extract_crate_name(toml), Some("my-crate".to_string()));
}

#[test]
fn extract_crate_name_missing() {
    let toml = r#"
[dependencies]
serde = "1"
"#;
    assert_eq!(extract_crate_name(toml), None);
}

#[test]
fn malformed_json_is_a_syntax_error() {
    let result = parse_crate_json("{ not json at all");
    assert!(matches!(result, Err(ParseError::Syntax(_))));
}

#[test]
fn document_without_root_is_rejected() {
    let result = parse_crate_json(r#"{ "format_version": 57 }"#);
    match result {
        Err(e) => assert_eq!(e, ParseError::MissingRoot),
        Ok(_) => panic!("a document without a root must be rejected"),
    }
}

#[test]
fn parse_error_message_is_nonempty() {
    let result = parse_crate_json(r#"{ "format_version": 57 }"#);
    match result {
        Err(e) => assert!(!e.message().is_empty()),
        Ok(_) => panic!("a document without a root must be rejected"),
    }
}
