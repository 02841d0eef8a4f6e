//! Parsing the input document into the schema model.
//!
//! The document arrives as JSON; a generic JSON tree is obtained from the
//! `serde_json` crate, and everything schema-shaped — tagged unions,
//! defaults for absent fields, field aliases from older producer versions,
//! catch-all variants for unrecognized tags — is decided here, over that
//! tree. Structural failures (text that is not a document, or a document
//! without a root pointer) are fatal; everything else degrades to a default
//! or an `Unknown` variant.
//!
//! Tag dispatch inspects tree values, which carry no specification, so the
//! guarantees of this layer are structural: for every possible tree it
//! returns some well-formed model value, and fails only on the two fatal
//! conditions.

use vstd::prelude::*;

use crate::model::{
    AttrValue, ConstExpr, ConstantValue, Crate, Deprecation, Discriminant, DynTrait,
    ExternalCrate, FunctionHeader, FunctionPointer, FunctionSignature, GenericArg, GenericArgs,
    GenericBound, GenericParamDef, GenericParamDefKind, Generics, Id, Item, ItemEnum, ItemKind,
    ItemSummary, PolyTrait, Position, ResolvedPath, Span, StructKind, TraitBoundModifier, Type,
    TypeBinding, TypeBindingKind, VariantData, VariantKind, Visibility, VisibilityRestricted,
    WherePredicate,
};
use crate::text::{chars_eq, chars_to_string, str_to_chars, u64_to_chars};
use vstd::string::StrSliceExecFns;

verus! {

/// Why a document could not be parsed at all.
#[derive(Debug, PartialEq, Eq)]
pub enum ParseError {
    /// The text is not structurally valid JSON.
    Syntax(String),
    /// The document has no usable root pointer.
    MissingRoot,
}

impl ParseError {
    /// A short description of the failure.
    pub fn message(&self) -> String {
        match self {
            ParseError::Syntax(m) => m.clone(),
            ParseError::MissingRoot => {
                let v = str_to_chars("missing or invalid root item id");
                chars_to_string(&v)
            },
        }
    }
}

#[verifier::external_type_specification]
#[verifier::external_body]
pub struct ExValue(serde_json::Value);

/// What parsing a text yields: the tree, a fixed function of the text
/// alone, or nothing when the text is not structurally valid JSON.
pub uninterp spec fn json_value_of(text: Seq<char>) -> Option<serde_json::Value>;

/// The string content a tree value holds, if it is a JSON string.
pub uninterp spec fn json_str_of(v: serde_json::Value) -> Option<Seq<char>>;

/// The unsigned number a tree value holds, if it is one in range.
pub uninterp spec fn json_u64_of(v: serde_json::Value) -> Option<u64>;

/// The signed number a tree value holds, if it is one in range.
pub uninterp spec fn json_i64_of(v: serde_json::Value) -> Option<i64>;

/// The boolean a tree value holds, if it is one.
pub uninterp spec fn json_bool_of(v: serde_json::Value) -> Option<bool>;

/// The elements a tree value holds, if it is a JSON array.
pub uninterp spec fn json_array_of(v: serde_json::Value) -> Option<Seq<serde_json::Value>>;

/// The key/value entries a tree value holds, if it is a JSON object: in the
/// map's own deterministic, key-sorted order, with unique keys.
pub uninterp spec fn json_entries_of(v: serde_json::Value) -> Option<
    Seq<(Seq<char>, serde_json::Value)>,
>;

/// The first entry under a key, in a sequence of entries.
pub open spec fn assoc_entry(
    entries: Seq<(Seq<char>, serde_json::Value)>,
    key: Seq<char>,
) -> Option<serde_json::Value>
    decreases entries.len(),
{
    if entries.len() == 0 {
        None
    } else if entries[0].0 == key {
        Some(entries[0].1)
    } else {
        assoc_entry(entries.drop_first(), key)
    }
}

/// The value under a key of an object, as [`json_obj_get`] sees it.
pub open spec fn json_get_of(v: serde_json::Value, key: Seq<char>) -> Option<serde_json::Value> {
    match json_entries_of(v) {
        Some(es) => assoc_entry(es, key),
        None => None,
    }
}

/// The entries of a buffered entry list, as the specification sees them.
pub open spec fn entries_view(es: Seq<(String, serde_json::Value)>) -> Seq<
    (Seq<char>, serde_json::Value),
> {
    Seq::new(es.len(), |i: int| (es[i].0@, es[i].1))
}

/// Relies on `serde_json::from_str::<Value>`: parses JSON text into a
/// generic tree, a function of the text alone, or reports a syntax error on
/// malformed text; the body converts the error to its message.
#[verifier::external_body]
fn json_parse(text: &str) -> (r: Result<serde_json::Value, String>)
    ensures
        match r {
            Ok(v) => json_value_of(text@) == Some(v),
            Err(_) => json_value_of(text@) is None,
        },
{
    match serde_json::from_str::<serde_json::Value>(text) {
        Ok(v) => Ok(v),
        Err(e) => Err(e.to_string()),
    }
}

/// Relies on `serde_json::Value::as_str`: the string content of a JSON
/// string, if it is one.
#[verifier::external_body]
fn json_as_str(v: &serde_json::Value) -> (r: Option<String>)
    ensures
        match r {
            Some(s) => json_str_of(*v) == Some(s@),
            None => json_str_of(*v) is None,
        },
{
    match v.as_str() {
        Some(s) => Some(s.to_string()),
        None => None,
    }
}

/// Relies on `serde_json::Value::as_u64`.
#[verifier::external_body]
fn json_as_u64(v: &serde_json::Value) -> (r: Option<u64>)
    ensures
        r == json_u64_of(*v),
{
    v.as_u64()
}

/// Relies on `serde_json::Value::as_i64`.
#[verifier::external_body]
fn json_as_i64(v: &serde_json::Value) -> (r: Option<i64>)
    ensures
        r == json_i64_of(*v),
{
    v.as_i64()
}

/// Relies on `serde_json::Value::as_bool`.
#[verifier::external_body]
fn json_as_bool(v: &serde_json::Value) -> (r: Option<bool>)
    ensures
        r == json_bool_of(*v),
{
    v.as_bool()
}

/// Relies on `serde_json::Value::as_array`: the elements of a JSON array,
/// if it is one; the body clones them out.
#[verifier::external_body]
fn json_as_array(v: &serde_json::Value) -> (r: Option<Vec<serde_json::Value>>)
    ensures
        match r {
            Some(a) => json_array_of(*v) == Some(a@),
            None => json_array_of(*v) is None,
        },
{
    match v.as_array() {
        Some(a) => Some(a.clone()),
        None => None,
    }
}

/// Relies on `serde_json::Value::get`: the value under a key of a JSON
/// object — the unique entry with that key — or nothing when the value is
/// not an object or has no such key; no panic either way.
#[verifier::external_body]
fn json_obj_get(v: &serde_json::Value, key: &str) -> (r: Option<serde_json::Value>)
    ensures
        match r {
            Some(x) => json_get_of(*v, key@) == Some(x),
            None => json_get_of(*v, key@) is None,
        },
{
    match v.get(key) {
        Some(x) => Some(x.clone()),
        None => None,
    }
}

/// Relies on `serde_json::Value::as_object` and `serde_json::Map`
/// iteration: the key/value entries of a JSON object, in the map's own
/// deterministic (key-sorted) order; the body clones them out.
#[verifier::external_body]
fn json_obj_entries(v: &serde_json::Value) -> (r: Option<Vec<(String, serde_json::Value)>>)
    ensures
        match r {
            Some(es) => json_entries_of(*v) == Some(entries_view(es@)),
            None => json_entries_of(*v) is None,
        },
{
    match v.as_object() {
        Some(m) => Some(m.iter().map(|(k, x)| (k.clone(), x.clone())).collect()),
        None => None,
    }
}

/// Whether a string holds exactly the characters of a literal.
fn string_is(s: &String, lit: &str) -> (r: bool)
    ensures
        r == (s@ == lit@),
{
    let a = str_to_chars(s.as_str());
    let b = str_to_chars(lit);
    chars_eq(&a, &b)
}

fn get_str(v: &serde_json::Value, key: &str) -> Option<String> {
    match json_obj_get(v, key) {
        Some(x) => json_as_str(&x),
        None => None,
    }
}

fn get_str_or_empty(v: &serde_json::Value, key: &str) -> String {
    match get_str(v, key) {
        Some(s) => s,
        None => String::new(),
    }
}

fn get_bool_or(v: &serde_json::Value, key: &str, dflt: bool) -> bool {
    match json_obj_get(v, key) {
        Some(x) => match json_as_bool(&x) {
            Some(b) => b,
            None => dflt,
        },
        None => dflt,
    }
}

/// The normalized identifier a wire value denotes: its string content, or
/// its number rendered in decimal, or nothing.
pub open spec fn spec_id_of(v: serde_json::Value) -> Option<Seq<char>> {
    match json_str_of(v) {
        Some(s) => Some(s),
        None => match json_u64_of(v) {
            Some(n) => Some(crate::text::spec_dec(n as nat)),
            None => match json_i64_of(v) {
                Some(n) => Some(crate::text::spec_dec_int(n as int)),
                None => None,
            },
        },
    }
}

/// An identifier from its textual or numeric wire form, normalized to one
/// internal string form.
fn parse_id(v: &serde_json::Value) -> (r: Option<Id>)
    ensures
        match r {
            Some(id) => spec_id_of(*v) == Some(id.0@),
            None => spec_id_of(*v) is None,
        },
{
    match json_as_str(v) {
        Some(s) => Some(Id(s)),
        None => match json_as_u64(v) {
            Some(n) => Some(Id(chars_to_string(&u64_to_chars(n)))),
            None => match json_as_i64(v) {
                Some(n) => {
                    let digits = crate::text::i64_to_chars(n);
                    Some(Id(chars_to_string(&digits)))
                },
                None => None,
            },
        },
    }
}

/// The normalized identifier under a key, if the entry is there and is one.
pub open spec fn spec_id_at(v: serde_json::Value, key: Seq<char>) -> Option<Seq<char>> {
    match json_get_of(v, key) {
        Some(x) => spec_id_of(x),
        None => None,
    }
}

fn get_id(v: &serde_json::Value, key: &str) -> (r: Option<Id>)
    ensures
        match r {
            Some(id) => spec_id_at(*v, key@) == Some(id.0@),
            None => spec_id_at(*v, key@) is None,
        },
{
    match json_obj_get(v, key) {
        Some(x) => parse_id(&x),
        None => None,
    }
}

/// The identifiers in an array, skipping anything that is not one.
fn get_id_array(v: &serde_json::Value, key: &str) -> Vec<Id> {
    let mut out: Vec<Id> = Vec::new();
    match json_obj_get(v, key) {
        Some(x) => match json_as_array(&x) {
            Some(items) => {
                let mut i: usize = 0;
                while i < items.len()
                    decreases items@.len() - i,
                {
                    match parse_id(&items[i]) {
                        Some(id) => out.push(id),
                        None => (),
                    }
                    i = i + 1;
                }
            },
            None => (),
        },
        None => (),
    }
    out
}

/// The optional identifiers in an array: a non-identifier entry (a stripped
/// field) stays as an absent slot.
fn parse_opt_id_array(v: &serde_json::Value) -> Vec<Option<Id>> {
    let mut out: Vec<Option<Id>> = Vec::new();
    match json_as_array(v) {
        Some(items) => {
            let mut i: usize = 0;
            while i < items.len()
                decreases items@.len() - i,
            {
                out.push(parse_id(&items[i]));
                i = i + 1;
            }
        },
        None => (),
    }
    out
}

/// Visibility; absent or unrecognized forms default to public.
fn parse_visibility(v: Option<&serde_json::Value>) -> Visibility {
    match v {
        None => Visibility::Public,
        Some(val) => {
            match json_as_str(val) {
                Some(s) => {
                    if string_is(&s, "public") {
                        Visibility::Public
                    } else if string_is(&s, "default") {
                        Visibility::Default
                    } else if string_is(&s, "crate") {
                        Visibility::Crate
                    } else {
                        Visibility::Public
                    }
                },
                None => {
                    match json_obj_get(val, "restricted") {
                        Some(r) => {
                            let parent = match get_id(&r, "parent") {
                                Some(id) => id,
                                None => Id(String::new()),
                            };
                            let path = get_str_or_empty(&r, "path");
                            Visibility::Restricted(VisibilityRestricted { parent, path })
                        },
                        None => Visibility::Public,
                    }
                },
            }
        },
    }
}

/// An item kind from the side table; unrecognized kinds default to modules,
/// which nothing here distinguishes further.
fn parse_item_kind(v: Option<&serde_json::Value>) -> ItemKind {
    let s = match v {
        Some(val) => match json_as_str(val) {
            Some(s) => s,
            None => {
                return ItemKind::Module;
            },
        },
        None => {
            return ItemKind::Module;
        },
    };
    if string_is(&s, "module") {
        ItemKind::Module
    } else if string_is(&s, "extern_crate") {
        ItemKind::ExternCrate
    } else if string_is(&s, "use") {
        ItemKind::Use
    } else if string_is(&s, "struct") {
        ItemKind::Struct
    } else if string_is(&s, "struct_field") {
        ItemKind::StructField
    } else if string_is(&s, "union") {
        ItemKind::Union
    } else if string_is(&s, "enum") {
        ItemKind::Enum
    } else if string_is(&s, "variant") {
        ItemKind::Variant
    } else if string_is(&s, "function") {
        ItemKind::Function
    } else if string_is(&s, "type_alias") {
        ItemKind::TypeAlias
    } else if string_is(&s, "constant") {
        ItemKind::Constant
    } else if string_is(&s, "trait") {
        ItemKind::Trait
    } else if string_is(&s, "trait_alias") {
        ItemKind::TraitAlias
    } else if string_is(&s, "impl") {
        ItemKind::Impl
    } else if string_is(&s, "static") {
        ItemKind::Static
    } else if string_is(&s, "extern_type") {
        ItemKind::ExternType
    } else if string_is(&s, "macro") {
        ItemKind::Macro
    } else if string_is(&s, "proc_macro") {
        ItemKind::ProcMacro
    } else if string_is(&s, "proc_attribute") {
        ItemKind::ProcAttribute
    } else if string_is(&s, "proc_derive") {
        ItemKind::ProcDerive
    } else if string_is(&s, "assoc_const") {
        ItemKind::AssocConst
    } else if string_is(&s, "assoc_type") {
        ItemKind::AssocType
    } else if string_is(&s, "primitive") {
        ItemKind::Primitive
    } else if string_is(&s, "keyword") {
        ItemKind::Keyword
    } else {
        ItemKind::Module
    }
}

/// One attribute value: textual attributes are kept as text.
fn parse_attr(v: &serde_json::Value) -> AttrValue {
    match json_as_str(v) {
        Some(s) => AttrValue::Text(s),
        None => AttrValue::Other,
    }
}

fn parse_position(v: Option<serde_json::Value>) -> Position {
    match v {
        Some(val) => match json_as_array(&val) {
            Some(parts) => {
                let line: usize = if parts.len() > 0 {
                    match json_as_u64(&parts[0]) {
                        Some(n) => if n <= usize::MAX as u64 {
                            n as usize
                        } else {
                            0
                        },
                        None => 0,
                    }
                } else {
                    0
                };
                let column: usize = if parts.len() > 1 {
                    match json_as_u64(&parts[1]) {
                        Some(n) => if n <= usize::MAX as u64 {
                            n as usize
                        } else {
                            0
                        },
                        None => 0,
                    }
                } else {
                    0
                };
                Position { line, column }
            },
            None => Position { line: 0, column: 0 },
        },
        None => Position { line: 0, column: 0 },
    }
}

fn parse_span(v: &serde_json::Value) -> Span {
    Span {
        filename: get_str_or_empty(v, "filename"),
        begin: parse_position(json_obj_get(v, "begin")),
        end: parse_position(json_obj_get(v, "end")),
    }
}

fn parse_deprecation(v: &serde_json::Value) -> Deprecation {
    Deprecation { since: get_str(v, "since"), note: get_str(v, "note") }
}

/// A resolved path; older producers write the path under `name`.
fn parse_resolved_path(v: &serde_json::Value, fuel: usize) -> ResolvedPath
    decreases fuel,
{
    let path = match get_str(v, "path") {
        Some(s) => s,
        None => get_str_or_empty(v, "name"),
    };
    let id = get_id(v, "id");
    let args = if fuel == 0 {
        None
    } else {
        match json_obj_get(v, "args") {
            Some(a) => match parse_generic_args(&a, fuel - 1) {
                Some(ga) => Some(Box::new(ga)),
                None => None,
            },
            None => None,
        }
    };
    ResolvedPath { path, id, args }
}

/// A type reference; unrecognized tags degrade to `Unknown`.
fn parse_type(v: &serde_json::Value, fuel: usize) -> Type
    decreases fuel,
{
    if fuel == 0 {
        return Type::Unknown;
    }
    match json_as_str(v) {
        Some(s) => {
            if string_is(&s, "infer") {
                return Type::Infer;
            }
            return Type::Unknown;
        },
        None => (),
    }
    let entries = match json_obj_entries(v) {
        Some(e) => e,
        None => {
            return Type::Unknown;
        },
    };
    if entries.len() == 0 {
        return Type::Unknown;
    }
    let tag = &entries[0].0;
    let payload = &entries[0].1;
    if string_is(tag, "resolved_path") {
        Type::ResolvedPath(parse_resolved_path(payload, fuel - 1))
    } else if string_is(tag, "primitive") {
        match json_as_str(payload) {
            Some(s) => Type::Primitive(s),
            None => Type::Unknown,
        }
    } else if string_is(tag, "tuple") {
        let mut elems: Vec<Type> = Vec::new();
        match json_as_array(payload) {
            Some(items) => {
                let mut i: usize = 0;
                while i < items.len()
                    invariant
                        fuel >= 1,
                    decreases items@.len() - i,
                {
                    elems.push(parse_type(&items[i], fuel - 1));
                    i = i + 1;
                }
            },
            None => (),
        }
        Type::Tuple(elems)
    } else if string_is(tag, "slice") {
        Type::Slice(Box::new(parse_type(payload, fuel - 1)))
    } else if string_is(tag, "array") {
        let inner = match json_obj_get(payload, "type") {
            Some(t) => parse_type(&t, fuel - 1),
            None => Type::Unknown,
        };
        Type::Array { type_: Box::new(inner), len: get_str_or_empty(payload, "len") }
    } else if string_is(tag, "raw_pointer") {
        let inner = match json_obj_get(payload, "type") {
            Some(t) => parse_type(&t, fuel - 1),
            None => Type::Unknown,
        };
        Type::RawPointer {
            is_mutable: get_bool_or(payload, "is_mutable", false),
            type_: Box::new(inner),
        }
    } else if string_is(tag, "borrowed_ref") {
        let inner = match json_obj_get(payload, "type") {
            Some(t) => parse_type(&t, fuel - 1),
            None => Type::Unknown,
        };
        Type::BorrowedRef {
            lifetime: get_str(payload, "lifetime"),
            is_mutable: get_bool_or(payload, "is_mutable", false),
            type_: Box::new(inner),
        }
    } else if string_is(tag, "function_pointer") {
        let sig = match json_obj_get(payload, "sig") {
            Some(s) => parse_function_signature(&s, fuel - 1),
            None => FunctionSignature { inputs: Vec::new(), output: None, is_c_variadic: false },
        };
        Type::FunctionPointer(
            Box::new(
                FunctionPointer {
                    sig,
                    generic_params: parse_generic_param_defs(payload, "generic_params", fuel - 1),
                    header: parse_function_header(json_obj_get(payload, "header")),
                },
            ),
        )
    } else if string_is(tag, "qualified_path") {
        let self_type = match json_obj_get(payload, "self_type") {
            Some(t) => parse_type(&t, fuel - 1),
            None => Type::Unknown,
        };
        let args = match json_obj_get(payload, "args") {
            Some(a) => match parse_generic_args(&a, fuel - 1) {
                Some(ga) => Some(Box::new(ga)),
                None => None,
            },
            None => None,
        };
        let trait_ = match json_obj_get(payload, "trait") {
            Some(t) => match json_as_str(&t) {
                Some(_) => None,
                None => Some(parse_resolved_path(&t, fuel - 1)),
            },
            None => None,
        };
        Type::QualifiedPath {
            name: get_str_or_empty(payload, "name"),
            args,
            self_type: Box::new(self_type),
            trait_,
        }
    } else if string_is(tag, "impl_trait") {
        Type::ImplTrait(parse_generic_bound_array(payload, fuel - 1))
    } else if string_is(tag, "dyn_trait") {
        let mut traits: Vec<PolyTrait> = Vec::new();
        match json_obj_get(payload, "traits") {
            Some(ts) => match json_as_array(&ts) {
                Some(items) => {
                    let mut i: usize = 0;
                    while i < items.len()
                        invariant
                            fuel >= 1,
                        decreases items@.len() - i,
                    {
                        traits.push(
                            PolyTrait {
                                trait_: match json_obj_get(&items[i], "trait") {
                                    Some(t) => parse_resolved_path(&t, fuel - 1),
                                    None => ResolvedPath {
                                        path: String::new(),
                                        id: None,
                                        args: None,
                                    },
                                },
                                generic_params: parse_generic_param_defs(
                                    &items[i],
                                    "generic_params",
                                    fuel - 1,
                                ),
                            },
                        );
                        i = i + 1;
                    }
                },
                None => (),
            },
            None => (),
        }
        Type::DynTrait(DynTrait { traits, lifetime: get_str(payload, "lifetime") })
    } else if string_is(tag, "generic") {
        match json_as_str(payload) {
            Some(s) => Type::Generic(s),
            None => Type::Unknown,
        }
    } else if string_is(tag, "infer") {
        Type::Infer
    } else {
        Type::Unknown
    }
}

/// Generic arguments; an unrecognized form is dropped.
fn parse_generic_args(v: &serde_json::Value, fuel: usize) -> Option<GenericArgs>
    decreases fuel,
{
    if fuel == 0 {
        return None;
    }
    let entries = match json_obj_entries(v) {
        Some(e) => e,
        None => {
            return None;
        },
    };
    if entries.len() == 0 {
        return None;
    }
    let tag = &entries[0].0;
    let payload = &entries[0].1;
    if string_is(tag, "angle_bracketed") {
        let mut args: Vec<GenericArg> = Vec::new();
        match json_obj_get(payload, "args") {
            Some(a) => match json_as_array(&a) {
                Some(items) => {
                    let mut i: usize = 0;
                    while i < items.len()
                        invariant
                            fuel >= 1,
                        decreases items@.len() - i,
                    {
                        args.push(parse_generic_arg(&items[i], fuel - 1));
                        i = i + 1;
                    }
                },
                None => (),
            },
            None => (),
        }
        let mut constraints: Vec<TypeBinding> = Vec::new();
        match json_obj_get(payload, "constraints") {
            Some(c) => match json_as_array(&c) {
                Some(items) => {
                    let mut i: usize = 0;
                    while i < items.len()
                        invariant
                            fuel >= 1,
                        decreases items@.len() - i,
                    {
                        constraints.push(parse_type_binding(&items[i], fuel - 1));
                        i = i + 1;
                    }
                },
                None => (),
            },
            None => (),
        }
        Some(GenericArgs::AngleBracketed { args, constraints })
    } else if string_is(tag, "parenthesized") {
        let mut inputs: Vec<Type> = Vec::new();
        match json_obj_get(payload, "inputs") {
            Some(a) => match json_as_array(&a) {
                Some(items) => {
                    let mut i: usize = 0;
                    while i < items.len()
                        invariant
                            fuel >= 1,
                        decreases items@.len() - i,
                    {
                        inputs.push(parse_type(&items[i], fuel - 1));
                        i = i + 1;
                    }
                },
                None => (),
            },
            None => (),
        }
        let output = match json_obj_get(payload, "output") {
            Some(o) => Some(parse_type(&o, fuel - 1)),
            None => None,
        };
        Some(GenericArgs::Parenthesized { inputs, output })
    } else {
        None
    }
}

fn parse_generic_arg(v: &serde_json::Value, fuel: usize) -> GenericArg
    decreases fuel,
{
    if fuel == 0 {
        return GenericArg::Infer;
    }
    match json_as_str(v) {
        Some(s) => {
            if string_is(&s, "infer") {
                return GenericArg::Infer;
            }
            return GenericArg::Infer;
        },
        None => (),
    }
    let entries = match json_obj_entries(v) {
        Some(e) => e,
        None => {
            return GenericArg::Infer;
        },
    };
    if entries.len() == 0 {
        return GenericArg::Infer;
    }
    let tag = &entries[0].0;
    let payload = &entries[0].1;
    if string_is(tag, "lifetime") {
        match json_as_str(payload) {
            Some(s) => GenericArg::Lifetime(s),
            None => GenericArg::Infer,
        }
    } else if string_is(tag, "type") {
        GenericArg::Type(parse_type(payload, fuel - 1))
    } else if string_is(tag, "const") {
        GenericArg::Const(
            ConstantValue {
                value: get_str(payload, "value"),
                is_literal: get_bool_or(payload, "is_literal", false),
            },
        )
    } else {
        GenericArg::Infer
    }
}

fn parse_type_binding(v: &serde_json::Value, fuel: usize) -> TypeBinding
    decreases fuel,
{
    let binding = if fuel == 0 {
        TypeBindingKind::Unknown
    } else {
        match json_obj_get(v, "binding") {
            Some(b) => {
                match json_obj_entries(&b) {
                    Some(entries) => {
                        if entries.len() == 0 {
                            TypeBindingKind::Unknown
                        } else if string_is(&entries[0].0, "equality") {
                            TypeBindingKind::Equality(parse_type(&entries[0].1, fuel - 1))
                        } else if string_is(&entries[0].0, "constraint") {
                            TypeBindingKind::Constraint(
                                parse_generic_bound_array(&entries[0].1, fuel - 1),
                            )
                        } else {
                            TypeBindingKind::Unknown
                        }
                    },
                    None => TypeBindingKind::Unknown,
                }
            },
            None => TypeBindingKind::Unknown,
        }
    };
    let args = if fuel == 0 {
        None
    } else {
        match json_obj_get(v, "args") {
            Some(a) => parse_generic_args(&a, fuel - 1),
            None => None,
        }
    };
    TypeBinding { name: get_str_or_empty(v, "name"), args, binding }
}

/// The bounds in an array value (not under a key).
fn parse_generic_bound_array(v: &serde_json::Value, fuel: usize) -> Vec<GenericBound>
    decreases fuel,
{
    let mut out: Vec<GenericBound> = Vec::new();
    if fuel == 0 {
        return out;
    }
    match json_as_array(v) {
        Some(items) => {
            let mut i: usize = 0;
            while i < items.len()
                invariant
                    fuel >= 1,
                decreases items@.len() - i,
            {
                match parse_generic_bound(&items[i], fuel - 1) {
                    Some(b) => out.push(b),
                    None => (),
                }
                i = i + 1;
            }
        },
        None => (),
    }
    out
}

fn parse_generic_bound(v: &serde_json::Value, fuel: usize) -> Option<GenericBound>
    decreases fuel,
{
    if fuel == 0 {
        return None;
    }
    let entries = match json_obj_entries(v) {
        Some(e) => e,
        None => {
            return None;
        },
    };
    if entries.len() == 0 {
        return None;
    }
    let tag = &entries[0].0;
    let payload = &entries[0].1;
    if string_is(tag, "trait_bound") {
        let trait_ = match json_obj_get(payload, "trait") {
            Some(t) => parse_resolved_path(&t, fuel - 1),
            None => ResolvedPath { path: String::new(), id: None, args: None },
        };
        let modifier = match get_str(payload, "modifier") {
            Some(m) => {
                if string_is(&m, "maybe") {
                    TraitBoundModifier::Maybe
                } else if string_is(&m, "maybe_const") {
                    TraitBoundModifier::MaybeConst
                } else {
                    TraitBoundModifier::NoModifier
                }
            },
            None => TraitBoundModifier::NoModifier,
        };
        Some(
            GenericBound::TraitBound {
                trait_,
                modifier,
                generic_params: parse_generic_param_defs(payload, "generic_params", fuel - 1),
            },
        )
    } else if string_is(tag, "outlives") {
        match json_as_str(payload) {
            Some(s) => Some(GenericBound::Outlives(s)),
            None => None,
        }
    } else if string_is(tag, "use") {
        let mut names: Vec<String> = Vec::new();
        match json_as_array(payload) {
            Some(items) => {
                let mut i: usize = 0;
                while i < items.len()
                    decreases items@.len() - i,
                {
                    match json_as_str(&items[i]) {
                        Some(s) => names.push(s),
                        None => (),
                    }
                    i = i + 1;
                }
            },
            None => (),
        }
        Some(GenericBound::Use(names))
    } else {
        None
    }
}

fn parse_generic_param_defs(v: &serde_json::Value, key: &str, fuel: usize) -> Vec<GenericParamDef>
    decreases fuel,
{
    let mut out: Vec<GenericParamDef> = Vec::new();
    if fuel == 0 {
        return out;
    }
    match json_obj_get(v, key) {
        Some(a) => match json_as_array(&a) {
            Some(items) => {
                let mut i: usize = 0;
                while i < items.len()
                    invariant
                        fuel >= 1,
                    decreases items@.len() - i,
                {
                    out.push(parse_generic_param_def(&items[i], fuel - 1));
                    i = i + 1;
                }
            },
            None => (),
        },
        None => (),
    }
    out
}

fn parse_generic_param_def(v: &serde_json::Value, fuel: usize) -> GenericParamDef
    decreases fuel,
{
    let name = get_str_or_empty(v, "name");
    let kind = if fuel == 0 {
        GenericParamDefKind::Unknown
    } else {
        match json_obj_get(v, "kind") {
            Some(k) => parse_generic_param_def_kind(&k, fuel - 1),
            None => GenericParamDefKind::Unknown,
        }
    };
    GenericParamDef { name, kind }
}

fn parse_generic_param_def_kind(v: &serde_json::Value, fuel: usize) -> GenericParamDefKind
    decreases fuel,
{
    if fuel == 0 {
        return GenericParamDefKind::Unknown;
    }
    let entries = match json_obj_entries(v) {
        Some(e) => e,
        None => {
            return GenericParamDefKind::Unknown;
        },
    };
    if entries.len() == 0 {
        return GenericParamDefKind::Unknown;
    }
    let tag = &entries[0].0;
    let payload = &entries[0].1;
    if string_is(tag, "lifetime") {
        let mut outlives: Vec<String> = Vec::new();
        match json_obj_get(payload, "outlives") {
            Some(a) => match json_as_array(&a) {
                Some(items) => {
                    let mut i: usize = 0;
                    while i < items.len()
                        decreases items@.len() - i,
                    {
                        match json_as_str(&items[i]) {
                            Some(s) => outlives.push(s),
                            None => (),
                        }
                        i = i + 1;
                    }
                },
                None => (),
            },
            None => (),
        }
        GenericParamDefKind::Lifetime { outlives }
    } else if string_is(tag, "type") {
        let default = match json_obj_get(payload, "default") {
            Some(d) => Some(parse_type(&d, fuel - 1)),
            None => None,
        };
        GenericParamDefKind::Type {
            bounds: match json_obj_get(payload, "bounds") {
                Some(b) => parse_generic_bound_array(&b, fuel - 1),
                None => Vec::new(),
            },
            default,
            is_synthetic: get_bool_or(payload, "is_synthetic", false),
        }
    } else if string_is(tag, "const") {
        let type_ = match json_obj_get(payload, "type") {
            Some(t) => parse_type(&t, fuel - 1),
            None => Type::Unknown,
        };
        GenericParamDefKind::Const { type_, default: get_str(payload, "default") }
    } else {
        GenericParamDefKind::Unknown
    }
}

fn parse_where_predicates(v: &serde_json::Value, fuel: usize) -> Vec<WherePredicate>
    decreases fuel,
{
    let mut out: Vec<WherePredicate> = Vec::new();
    if fuel == 0 {
        return out;
    }
    match json_obj_get(v, "where_predicates") {
        Some(a) => match json_as_array(&a) {
            Some(items) => {
                let mut i: usize = 0;
                while i < items.len()
                    invariant
                        fuel >= 1,
                    decreases items@.len() - i,
                {
                    match parse_where_predicate(&items[i], fuel - 1) {
                        Some(p) => out.push(p),
                        None => (),
                    }
                    i = i + 1;
                }
            },
            None => (),
        },
        None => (),
    }
    out
}

fn parse_where_predicate(v: &serde_json::Value, fuel: usize) -> Option<WherePredicate>
    decreases fuel,
{
    if fuel == 0 {
        return None;
    }
    let entries = match json_obj_entries(v) {
        Some(e) => e,
        None => {
            return None;
        },
    };
    if entries.len() == 0 {
        return None;
    }
    let tag = &entries[0].0;
    let payload = &entries[0].1;
    if string_is(tag, "bound_predicate") {
        let type_ = match json_obj_get(payload, "type") {
            Some(t) => parse_type(&t, fuel - 1),
            None => Type::Unknown,
        };
        Some(
            WherePredicate::BoundPredicate {
                type_,
                bounds: match json_obj_get(payload, "bounds") {
                    Some(b) => parse_generic_bound_array(&b, fuel - 1),
                    None => Vec::new(),
                },
                generic_params: parse_generic_param_defs(payload, "generic_params", fuel - 1),
            },
        )
    } else if string_is(tag, "lifetime_predicate") {
        let mut outlives: Vec<String> = Vec::new();
        match json_obj_get(payload, "outlives") {
            Some(a) => match json_as_array(&a) {
                Some(items) => {
                    let mut i: usize = 0;
                    while i < items.len()
                        decreases items@.len() - i,
                    {
                        match json_as_str(&items[i]) {
                            Some(s) => outlives.push(s),
                            None => (),
                        }
                        i = i + 1;
                    }
                },
                None => (),
            },
            None => (),
        }
        Some(
            WherePredicate::LifetimePredicate {
                lifetime: get_str_or_empty(payload, "lifetime"),
                outlives,
            },
        )
    } else if string_is(tag, "eq_predicate") {
        let lhs = match json_obj_get(payload, "lhs") {
            Some(t) => parse_type(&t, fuel - 1),
            None => Type::Unknown,
        };
        let rhs = match json_obj_get(payload, "rhs") {
            Some(t) => parse_type(&t, fuel - 1),
            None => Type::Unknown,
        };
        Some(WherePredicate::EqPredicate { lhs, rhs })
    } else {
        None
    }
}

fn parse_generics(v: Option<serde_json::Value>, fuel: usize) -> Generics {
    match v {
        Some(val) => Generics {
            params: parse_generic_param_defs(&val, "params", fuel),
            where_predicates: parse_where_predicates(&val, fuel),
        },
        None => Generics { params: Vec::new(), where_predicates: Vec::new() },
    }
}

fn parse_function_header(v: Option<serde_json::Value>) -> FunctionHeader {
    match v {
        Some(val) => FunctionHeader {
            is_const: get_bool_or(&val, "is_const", false),
            is_unsafe: get_bool_or(&val, "is_unsafe", false),
            is_async: get_bool_or(&val, "is_async", false),
            abi: get_str(&val, "abi"),
        },
        None => FunctionHeader { is_const: false, is_unsafe: false, is_async: false, abi: None },
    }
}

fn parse_function_signature(v: &serde_json::Value, fuel: usize) -> FunctionSignature
    decreases fuel,
{
    let mut inputs: Vec<(String, Type)> = Vec::new();
    if fuel == 0 {
        return FunctionSignature { inputs, output: None, is_c_variadic: false };
    }
    match json_obj_get(v, "inputs") {
        Some(a) => match json_as_array(&a) {
            Some(items) => {
                let mut i: usize = 0;
                while i < items.len()
                    invariant
                        fuel >= 1,
                    decreases items@.len() - i,
                {
                    match json_as_array(&items[i]) {
                        Some(pair) => {
                            if pair.len() >= 2 {
                                let name = match json_as_str(&pair[0]) {
                                    Some(s) => s,
                                    None => String::new(),
                                };
                                inputs.push((name, parse_type(&pair[1], fuel - 1)));
                            }
                        },
                        None => (),
                    }
                    i = i + 1;
                }
            },
            None => (),
        },
        None => (),
    }
    let output = match json_obj_get(v, "output") {
        Some(o) => match json_as_str(&o) {
            Some(_) => None,
            None => Some(parse_type(&o, fuel - 1)),
        },
        None => None,
    };
    FunctionSignature { inputs, output, is_c_variadic: get_bool_or(v, "is_c_variadic", false) }
}

fn parse_struct_kind(v: Option<serde_json::Value>) -> StructKind {
    let val = match v {
        Some(x) => x,
        None => {
            return StructKind::Unit;
        },
    };
    match json_as_str(&val) {
        Some(s) => {
            if string_is(&s, "unit") {
                return StructKind::Unit;
            }
            return StructKind::Unit;
        },
        None => (),
    }
    match json_obj_get(&val, "tuple") {
        Some(t) => {
            return StructKind::Tuple(parse_opt_id_array(&t));
        },
        None => (),
    }
    match json_obj_get(&val, "plain") {
        Some(p) => {
            let has_stripped = if get_bool_or(&p, "has_stripped_fields", false) {
                true
            } else {
                get_bool_or(&p, "fields_stripped", false)
            };
            StructKind::Plain { fields: get_id_array(&p, "fields"), has_stripped_fields: has_stripped }
        },
        None => StructKind::Unit,
    }
}

fn parse_variant_kind(v: Option<serde_json::Value>) -> VariantKind {
    let val = match v {
        Some(x) => x,
        None => {
            return VariantKind::Plain;
        },
    };
    match json_as_str(&val) {
        Some(s) => {
            if string_is(&s, "plain") {
                return VariantKind::Plain;
            }
            return VariantKind::Plain;
        },
        None => (),
    }
    match json_obj_get(&val, "tuple") {
        Some(t) => {
            return VariantKind::Tuple(parse_opt_id_array(&t));
        },
        None => (),
    }
    match json_obj_get(&val, "struct") {
        Some(p) => {
            let has_stripped = if get_bool_or(&p, "has_stripped_fields", false) {
                true
            } else {
                get_bool_or(&p, "fields_stripped", false)
            };
            VariantKind::Struct {
                fields: get_id_array(&p, "fields"),
                has_stripped_fields: has_stripped,
            }
        },
        None => VariantKind::Plain,
    }
}

/// The inner declaration of an item; an absent or unrecognized tag becomes
/// `Unknown`.
fn parse_item_enum(v: Option<serde_json::Value>, fuel: usize) -> ItemEnum {
    let val = match v {
        Some(x) => x,
        None => {
            return ItemEnum::Unknown;
        },
    };
    let entries = match json_obj_entries(&val) {
        Some(e) => e,
        None => {
            return ItemEnum::Unknown;
        },
    };
    if entries.len() == 0 {
        return ItemEnum::Unknown;
    }
    let tag = &entries[0].0;
    let payload = &entries[0].1;
    if string_is(tag, "module") {
        ItemEnum::Module {
            items: get_id_array(payload, "items"),
            is_stripped: get_bool_or(payload, "is_stripped", false),
        }
    } else if string_is(tag, "struct") {
        ItemEnum::Struct {
            kind: parse_struct_kind(json_obj_get(payload, "kind")),
            generics: parse_generics(json_obj_get(payload, "generics"), fuel),
            impls: get_id_array(payload, "impls"),
        }
    } else if string_is(tag, "union") {
        let has_stripped = if get_bool_or(payload, "has_stripped_fields", false) {
            true
        } else {
            get_bool_or(payload, "fields_stripped", false)
        };
        ItemEnum::Union {
            generics: parse_generics(json_obj_get(payload, "generics"), fuel),
            fields: get_id_array(payload, "fields"),
            has_stripped_fields: has_stripped,
            impls: get_id_array(payload, "impls"),
        }
    } else if string_is(tag, "enum") {
        ItemEnum::Enum {
            generics: parse_generics(json_obj_get(payload, "generics"), fuel),
            variants: get_id_array(payload, "variants"),
            variants_stripped: get_bool_or(payload, "variants_stripped", false),
            impls: get_id_array(payload, "impls"),
        }
    } else if string_is(tag, "variant") {
        let discriminant = match json_obj_get(payload, "discriminant") {
            Some(d) => match json_obj_entries(&d) {
                Some(_) => Some(
                    Discriminant { expr: get_str(&d, "expr"), value: get_str(&d, "value") },
                ),
                None => None,
            },
            None => None,
        };
        ItemEnum::Variant(
            VariantData { kind: parse_variant_kind(json_obj_get(payload, "kind")), discriminant },
        )
    } else if string_is(tag, "function") {
        let sig = match json_obj_get(payload, "sig") {
            Some(s) => parse_function_signature(&s, fuel),
            None => FunctionSignature { inputs: Vec::new(), output: None, is_c_variadic: false },
        };
        ItemEnum::Function {
            sig,
            generics: parse_generics(json_obj_get(payload, "generics"), fuel),
            has_body: get_bool_or(payload, "has_body", false),
            header: parse_function_header(json_obj_get(payload, "header")),
        }
    } else if string_is(tag, "trait") {
        let is_dyn_compatible = if get_bool_or(payload, "is_dyn_compatible", false) {
            true
        } else {
            get_bool_or(payload, "is_object_safe", false)
        };
        ItemEnum::Trait {
            generics: parse_generics(json_obj_get(payload, "generics"), fuel),
            bounds: match json_obj_get(payload, "bounds") {
                Some(b) => parse_generic_bound_array(&b, fuel),
                None => Vec::new(),
            },
            items: get_id_array(payload, "items"),
            implementations: get_id_array(payload, "implementations"),
            is_auto: get_bool_or(payload, "is_auto", false),
            is_unsafe: get_bool_or(payload, "is_unsafe", false),
            is_dyn_compatible,
        }
    } else if string_is(tag, "impl") {
        let trait_ = match json_obj_get(payload, "trait") {
            Some(t) => match json_as_str(&t) {
                Some(_) => None,
                None => match json_obj_entries(&t) {
                    Some(_) => Some(parse_resolved_path(&t, fuel)),
                    None => None,
                },
            },
            None => None,
        };
        let for_ = match json_obj_get(payload, "for") {
            Some(f) => parse_type(&f, fuel),
            None => Type::Unknown,
        };
        let blanket_impl = match json_obj_get(payload, "blanket_impl") {
            Some(b) => match json_obj_entries(&b) {
                Some(_) => Some(parse_type(&b, fuel)),
                None => match json_as_str(&b) {
                    Some(_) => Some(parse_type(&b, fuel)),
                    None => None,
                },
            },
            None => None,
        };
        ItemEnum::Impl {
            generics: parse_generics(json_obj_get(payload, "generics"), fuel),
            trait_,
            for_,
            items: get_id_array(payload, "items"),
            is_unsafe: get_bool_or(payload, "is_unsafe", false),
            is_negative: get_bool_or(payload, "is_negative", false),
            is_synthetic: get_bool_or(payload, "is_synthetic", false),
            blanket_impl,
        }
    } else if string_is(tag, "use") {
        ItemEnum::Use {
            source: get_str_or_empty(payload, "source"),
            name: get_str(payload, "name"),
            id: get_id(payload, "id"),
            is_glob: get_bool_or(payload, "is_glob", false),
        }
    } else if string_is(tag, "type_alias") {
        let type_ = match json_obj_get(payload, "type") {
            Some(t) => match json_obj_entries(&t) {
                Some(_) => Some(parse_type(&t, fuel)),
                None => match json_as_str(&t) {
                    Some(_) => Some(parse_type(&t, fuel)),
                    None => None,
                },
            },
            None => None,
        };
        ItemEnum::TypeAlias {
            generics: parse_generics(json_obj_get(payload, "generics"), fuel),
            type_,
        }
    } else if string_is(tag, "constant") {
        let type_ = match json_obj_get(payload, "type") {
            Some(t) => parse_type(&t, fuel),
            None => Type::Unknown,
        };
        let const_ = match json_obj_get(payload, "const") {
            Some(c) => match json_obj_entries(&c) {
                Some(_) => Some(
                    ConstExpr {
                        expr: get_str(&c, "expr"),
                        value: get_str(&c, "value"),
                        is_literal: get_bool_or(&c, "is_literal", false),
                    },
                ),
                None => None,
            },
            None => None,
        };
        ItemEnum::Constant { type_, const_ }
    } else if string_is(tag, "static") {
        let type_ = match json_obj_get(payload, "type") {
            Some(t) => parse_type(&t, fuel),
            None => Type::Unknown,
        };
        ItemEnum::Static {
            type_,
            is_mutable: get_bool_or(payload, "is_mutable", false),
            is_unsafe: get_bool_or(payload, "is_unsafe", false),
            expr: get_str(payload, "expr"),
        }
    } else if string_is(tag, "struct_field") {
        ItemEnum::StructField(parse_type(payload, fuel))
    } else if string_is(tag, "macro") {
        match json_as_str(payload) {
            Some(s) => ItemEnum::Macro(s),
            None => ItemEnum::Unknown,
        }
    } else if string_is(tag, "assoc_const") {
        let type_ = match json_obj_get(payload, "type") {
            Some(t) => parse_type(&t, fuel),
            None => Type::Unknown,
        };
        ItemEnum::AssocConst { type_, value: get_str(payload, "value") }
    } else if string_is(tag, "assoc_type") {
        let type_ = match json_obj_get(payload, "type") {
            Some(t) => Some(parse_type(&t, fuel)),
            None => None,
        };
        ItemEnum::AssocType {
            generics: parse_generics(json_obj_get(payload, "generics"), fuel),
            bounds: match json_obj_get(payload, "bounds") {
                Some(b) => parse_generic_bound_array(&b, fuel),
                None => Vec::new(),
            },
            type_,
        }
    } else {
        ItemEnum::Unknown
    }
}

/// One item of the tree, every inessential field defaulted when absent.
fn parse_item(v: &serde_json::Value, fuel: usize) -> Item {
    let mut attrs: Vec<AttrValue> = Vec::new();
    match json_obj_get(v, "attrs") {
        Some(a) => match json_as_array(&a) {
            Some(items) => {
                let mut i: usize = 0;
                while i < items.len()
                    decreases items@.len() - i,
                {
                    attrs.push(parse_attr(&items[i]));
                    i = i + 1;
                }
            },
            None => (),
        },
        None => (),
    }
    let mut links: Vec<(String, Id)> = Vec::new();
    match json_obj_get(v, "links") {
        Some(l) => match json_obj_entries(&l) {
            Some(entries) => {
                let mut i: usize = 0;
                while i < entries.len()
                    decreases entries@.len() - i,
                {
                    match parse_id(&entries[i].1) {
                        Some(id) => {
                            let key = entries[i].0.clone();
                            links.push((key, id));
                        },
                        None => (),
                    }
                    i = i + 1;
                }
            },
            None => (),
        },
        None => (),
    }
    let visibility = match json_obj_get(v, "visibility") {
        Some(vis) => parse_visibility(Some(&vis)),
        None => parse_visibility(None),
    };
    let deprecation = match json_obj_get(v, "deprecation") {
        Some(d) => match json_obj_entries(&d) {
            Some(_) => Some(parse_deprecation(&d)),
            None => None,
        },
        None => None,
    };
    let span = match json_obj_get(v, "span") {
        Some(s) => match json_obj_entries(&s) {
            Some(_) => Some(parse_span(&s)),
            None => None,
        },
        None => None,
    };
    Item {
        id: get_id(v, "id"),
        name: get_str(v, "name"),
        visibility,
        attrs,
        deprecation,
        docs: get_str(v, "docs"),
        span,
        inner: parse_item_enum(json_obj_get(v, "inner"), fuel),
        links,
    }
}

fn parse_item_summary(v: &serde_json::Value) -> ItemSummary {
    let mut path: Vec<String> = Vec::new();
    match json_obj_get(v, "path") {
        Some(p) => match json_as_array(&p) {
            Some(items) => {
                let mut i: usize = 0;
                while i < items.len()
                    decreases items@.len() - i,
                {
                    match json_as_str(&items[i]) {
                        Some(s) => path.push(s),
                        None => (),
                    }
                    i = i + 1;
                }
            },
            None => (),
        },
        None => (),
    }
    let kind = match json_obj_get(v, "kind") {
        Some(k) => parse_item_kind(Some(&k)),
        None => parse_item_kind(None),
    };
    ItemSummary { path, kind }
}

/// A whole document from its JSON tree: fails only when the root pointer is
/// missing or unusable.
fn parse_crate_value(v: &serde_json::Value, fuel: usize) -> (r: Result<Crate, ParseError>)
    ensures
        match spec_id_at(*v, "root"@) {
            Some(idv) => match r {
                Ok(k) => k.root.0@ == idv,
                Err(_) => false,
            },
            None => r == Err::<Crate, ParseError>(ParseError::MissingRoot),
        },
{
    let root = match get_id(v, "root") {
        Some(id) => id,
        None => {
            return Err(ParseError::MissingRoot);
        },
    };
    let mut index: Vec<(String, Item)> = Vec::new();
    match json_obj_get(v, "index") {
        Some(ix) => match json_obj_entries(&ix) {
            Some(entries) => {
                let mut i: usize = 0;
                while i < entries.len()
                    decreases entries@.len() - i,
                {
                    let key = entries[i].0.clone();
                    let item = parse_item(&entries[i].1, fuel);
                    index.push((key, item));
                    i = i + 1;
                }
            },
            None => (),
        },
        None => (),
    }
    let mut paths: Vec<(String, ItemSummary)> = Vec::new();
    match json_obj_get(v, "paths") {
        Some(px) => match json_obj_entries(&px) {
            Some(entries) => {
                let mut i: usize = 0;
                while i < entries.len()
                    decreases entries@.len() - i,
                {
                    let key = entries[i].0.clone();
                    let summary = parse_item_summary(&entries[i].1);
                    paths.push((key, summary));
                    i = i + 1;
                }
            },
            None => (),
        },
        None => (),
    }
    let mut external_crates: Vec<(String, ExternalCrate)> = Vec::new();
    match json_obj_get(v, "external_crates") {
        Some(ex) => match json_obj_entries(&ex) {
            Some(entries) => {
                let mut i: usize = 0;
                while i < entries.len()
                    decreases entries@.len() - i,
                {
                    match get_str(&entries[i].1, "name") {
                        Some(name) => {
                            let key = entries[i].0.clone();
                            let html_root_url = get_str(&entries[i].1, "html_root_url");
                            external_crates.push((key, ExternalCrate { name, html_root_url }));
                        },
                        None => (),
                    }
                    i = i + 1;
                }
            },
            None => (),
        },
        None => (),
    }
    let format_version: u32 = match json_obj_get(v, "format_version") {
        Some(fv) => match json_as_u64(&fv) {
            Some(n) => if n <= u32::MAX as u64 {
                n as u32
            } else {
                0
            },
            None => 0,
        },
        None => 0,
    };
    Ok(
        Crate {
            root,
            crate_version: get_str(v, "crate_version"),
            index,
            paths,
            external_crates,
            format_version,
        },
    )
}

/// Nesting depth can never exceed the text length, so this fuel is never
/// exhausted on real input.
fn fuel_for(text: &str) -> usize {
    let n = text.unicode_len();
    if n < usize::MAX {
        n + 1
    } else {
        n
    }
}

/// A whole document from JSON text. Fails exactly on malformed JSON and on
/// a document without a usable root pointer; everything else degrades to
/// defaults or `Unknown` variants, and the root identifier comes back
/// normalized from its textual or numeric wire form.
pub fn parse_crate_json(text: &str) -> (r: Result<Crate, ParseError>)
    ensures
        match json_value_of(text@) {
            None => r matches Err(ParseError::Syntax(_)),
            Some(v) => match spec_id_at(v, "root"@) {
                Some(idv) => match r {
                    Ok(k) => k.root.0@ == idv,
                    Err(_) => false,
                },
                None => r == Err::<Crate, ParseError>(ParseError::MissingRoot),
            },
        },
{
    let v = match json_parse(text) {
        Ok(v) => v,
        Err(m) => {
            return Err(ParseError::Syntax(m));
        },
    };
    parse_crate_value(&v, fuel_for(text))
}

/// One item from JSON text, for callers that handle fragments. Fails
/// exactly on malformed JSON; every tree parses to some item, unrecognized
/// forms degrading to defaults and `Unknown`.
pub fn parse_item_json(text: &str) -> (r: Result<Item, ParseError>)
    ensures
        json_value_of(text@) is None <==> r matches Err(ParseError::Syntax(_)),
        json_value_of(text@) is Some <==> r is Ok,
{
    let v = match json_parse(text) {
        Ok(v) => v,
        Err(m) => {
            return Err(ParseError::Syntax(m));
        },
    };
    Ok(parse_item(&v, fuel_for(text)))
}

/// One type reference from JSON text, for callers that handle fragments.
/// Fails exactly on malformed JSON; unrecognized tags degrade to `Unknown`.
pub fn parse_type_json(text: &str) -> (r: Result<Type, ParseError>)
    ensures
        json_value_of(text@) is None <==> r matches Err(ParseError::Syntax(_)),
        json_value_of(text@) is Some <==> r is Ok,
{
    let v = match json_parse(text) {
        Ok(v) => v,
        Err(m) => {
            return Err(ParseError::Syntax(m));
        },
    };
    Ok(parse_type(&v, fuel_for(text)))
}

/// One generic bound from JSON text, for callers that handle fragments.
/// Fails exactly on malformed JSON; an unrecognized bound form is dropped.
pub fn parse_generic_bound_json(text: &str) -> (r: Result<Option<GenericBound>, ParseError>)
    ensures
        json_value_of(text@) is None <==> r matches Err(ParseError::Syntax(_)),
        json_value_of(text@) is Some <==> r is Ok,
{
    let v = match json_parse(text) {
        Ok(v) => v,
        Err(m) => {
            return Err(ParseError::Syntax(m));
        },
    };
    Ok(parse_generic_bound(&v, fuel_for(text)))
}

} // verus!
