//! The schema model: a typed, version-tolerant representation of the input
//! document.
//!
//! The document is a tagged-union item tree with forward- and
//! backward-compatible defaults. Every enum that mirrors a wire tag carries
//! an `Unknown` catch-all so that documents from newer or older producers
//! degrade gracefully instead of failing. Identifiers accept a textual or a
//! numeric wire form, normalized here to one string form.
//!
//! Mappings are kept as association lists in document order, so one parsed
//! document always walks the same way.

use vstd::prelude::*;

verus! {

/// An item identifier, normalized to its textual form.
#[derive(Debug, Clone, PartialEq, Eq)]
pub struct Id(pub String);

/// The top-level document: a root item, the item tree, a side table for
/// externally-defined references, and the referenced external library units.
pub struct Crate {
    /// Root module item identifier.
    pub root: Id,
    /// The library's version, if the producer recorded one.
    pub crate_version: Option<String>,
    /// All items, keyed by identifier, in document order.
    pub index: Vec<(String, Item)>,
    /// Path information for items not defined locally, keyed by identifier.
    pub paths: Vec<(String, ItemSummary)>,
    /// Referenced external library units, keyed by producer-assigned key.
    pub external_crates: Vec<(String, ExternalCrate)>,
    /// Schema format version, informational.
    pub format_version: u32,
}

/// Dotted path and kind for an item known only by reference.
#[derive(Debug)]
pub struct ItemSummary {
    pub path: Vec<String>,
    pub kind: ItemKind,
}

/// A referenced external library unit: only the name matters here.
#[derive(Debug)]
pub struct ExternalCrate {
    pub name: String,
    pub html_root_url: Option<String>,
}

/// One declaration node of the item tree.
pub struct Item {
    pub id: Option<Id>,
    pub name: Option<String>,
    pub visibility: Visibility,
    /// Free-form attribute values; only textual ones are meaningful here.
    pub attrs: Vec<AttrValue>,
    pub deprecation: Option<Deprecation>,
    pub docs: Option<String>,
    pub span: Option<Span>,
    pub inner: ItemEnum,
    pub links: Vec<(String, Id)>,
}

/// An attribute value: textual, or some structured form this model does not
/// interpret.
#[derive(Debug, PartialEq, Eq)]
pub enum AttrValue {
    Text(String),
    Other,
}

/// A line/column position in a source file.
pub struct Position {
    pub line: usize,
    pub column: usize,
}

/// A source span; unused by the extraction, kept for completeness.
pub struct Span {
    pub filename: String,
    pub begin: Position,
    pub end: Position,
}

/// Deprecation metadata.
pub struct Deprecation {
    pub since: Option<String>,
    pub note: Option<String>,
}

/// Visibility of an item.
#[derive(Debug)]
pub enum Visibility {
    Public,
    Default,
    Crate,
    Restricted(VisibilityRestricted),
}

/// Restricted visibility details.
#[derive(Debug)]
pub struct VisibilityRestricted {
    pub parent: Id,
    pub path: String,
}

/// The kind of an item, as the side table reports it.
#[derive(Debug)]
pub enum ItemKind {
    Module,
    ExternCrate,
    Use,
    Struct,
    StructField,
    Union,
    Enum,
    Variant,
    Function,
    TypeAlias,
    Constant,
    Trait,
    TraitAlias,
    Impl,
    Static,
    ExternType,
    Macro,
    ProcMacro,
    ProcAttribute,
    ProcDerive,
    AssocConst,
    AssocType,
    Primitive,
    Keyword,
}

/// What kind of declaration an item is, with its kind-specific payload.
#[derive(Debug)]
pub enum ItemEnum {
    Module { items: Vec<Id>, is_stripped: bool },
    Struct { kind: StructKind, generics: Generics, impls: Vec<Id> },
    Union { generics: Generics, fields: Vec<Id>, has_stripped_fields: bool, impls: Vec<Id> },
    Enum { generics: Generics, variants: Vec<Id>, variants_stripped: bool, impls: Vec<Id> },
    Variant(VariantData),
    Function { sig: FunctionSignature, generics: Generics, has_body: bool, header: FunctionHeader },
    Trait {
        generics: Generics,
        bounds: Vec<GenericBound>,
        items: Vec<Id>,
        implementations: Vec<Id>,
        is_auto: bool,
        is_unsafe: bool,
        is_dyn_compatible: bool,
    },
    Impl {
        generics: Generics,
        trait_: Option<ResolvedPath>,
        for_: Type,
        items: Vec<Id>,
        is_unsafe: bool,
        is_negative: bool,
        is_synthetic: bool,
        blanket_impl: Option<Type>,
    },
    Use { source: String, name: Option<String>, id: Option<Id>, is_glob: bool },
    TypeAlias { generics: Generics, type_: Option<Type> },
    Constant { type_: Type, const_: Option<ConstExpr> },
    Static { type_: Type, is_mutable: bool, is_unsafe: bool, expr: Option<String> },
    StructField(Type),
    Macro(String),
    AssocConst { type_: Type, value: Option<String> },
    AssocType { generics: Generics, bounds: Vec<GenericBound>, type_: Option<Type> },
    /// Catch-all for unrecognized item kinds.
    Unknown,
}

/// A constant expression with value information.
#[derive(Debug)]
pub struct ConstExpr {
    pub expr: Option<String>,
    pub value: Option<String>,
    pub is_literal: bool,
}

/// Struct layout kind.
#[derive(Debug)]
pub enum StructKind {
    Unit,
    Tuple(Vec<Option<Id>>),
    Plain { fields: Vec<Id>, has_stripped_fields: bool },
}

/// Variant payload: its kind and optional discriminant.
#[derive(Debug)]
pub struct VariantData {
    pub kind: VariantKind,
    pub discriminant: Option<Discriminant>,
}

/// Discriminant value of an enum variant.
#[derive(Debug)]
pub struct Discriminant {
    pub expr: Option<String>,
    pub value: Option<String>,
}

/// Enum variant kind.
#[derive(Debug)]
pub enum VariantKind {
    Plain,
    Tuple(Vec<Option<Id>>),
    Struct { fields: Vec<Id>, has_stripped_fields: bool },
}

/// A resolved path reference to another item.
#[derive(Debug)]
pub struct ResolvedPath {
    /// The path string; producers write it either under `path` or `name`.
    pub path: String,
    pub id: Option<Id>,
    pub args: Option<Box<GenericArgs>>,
}

/// A type reference.
#[derive(Debug)]
pub enum Type {
    ResolvedPath(ResolvedPath),
    Primitive(String),
    Tuple(Vec<Type>),
    Slice(Box<Type>),
    Array { type_: Box<Type>, len: String },
    RawPointer { is_mutable: bool, type_: Box<Type> },
    BorrowedRef { lifetime: Option<String>, is_mutable: bool, type_: Box<Type> },
    FunctionPointer(Box<FunctionPointer>),
    QualifiedPath {
        name: String,
        args: Option<Box<GenericArgs>>,
        self_type: Box<Type>,
        trait_: Option<ResolvedPath>,
    },
    ImplTrait(Vec<GenericBound>),
    DynTrait(DynTrait),
    Infer,
    Generic(String),
    /// Catch-all for unrecognized type kinds.
    Unknown,
}

impl Default for Type {
    /// The forward-compatible default: an unrecognized type.
    fn default() -> (r: Self)
        ensures
            r is Unknown,
    {
        Type::Unknown
    }
}

/// A function pointer type.
#[derive(Debug)]
pub struct FunctionPointer {
    pub sig: FunctionSignature,
    pub generic_params: Vec<GenericParamDef>,
    pub header: FunctionHeader,
}

/// A function signature: ordered name/type parameter pairs and an optional
/// return type.
#[derive(Debug)]
pub struct FunctionSignature {
    pub inputs: Vec<(String, Type)>,
    pub output: Option<Type>,
    pub is_c_variadic: bool,
}

/// Function header qualifiers.
#[derive(Debug)]
pub struct FunctionHeader {
    pub is_const: bool,
    pub is_unsafe: bool,
    pub is_async: bool,
    pub abi: Option<String>,
}

/// Generic parameters and where-clauses.
#[derive(Debug)]
pub struct Generics {
    pub params: Vec<GenericParamDef>,
    pub where_predicates: Vec<WherePredicate>,
}

/// One generic parameter.
#[derive(Debug)]
pub struct GenericParamDef {
    pub name: String,
    pub kind: GenericParamDefKind,
}

/// The kind of a generic parameter.
#[derive(Debug)]
pub enum GenericParamDefKind {
    Lifetime { outlives: Vec<String> },
    Type { bounds: Vec<GenericBound>, default: Option<Type>, is_synthetic: bool },
    Const { type_: Type, default: Option<String> },
    /// Catch-all for unrecognized parameter kinds.
    Unknown,
}

/// A bound on a generic parameter.
#[derive(Debug)]
pub enum GenericBound {
    TraitBound {
        trait_: ResolvedPath,
        modifier: TraitBoundModifier,
        generic_params: Vec<GenericParamDef>,
    },
    Outlives(String),
    Use(Vec<String>),
}

/// Trait bound modifier.
#[derive(Debug)]
pub enum TraitBoundModifier {
    NoModifier,
    Maybe,
    MaybeConst,
}

/// A where-clause predicate.
#[derive(Debug)]
pub enum WherePredicate {
    BoundPredicate { type_: Type, bounds: Vec<GenericBound>, generic_params: Vec<GenericParamDef> },
    LifetimePredicate { lifetime: String, outlives: Vec<String> },
    EqPredicate { lhs: Type, rhs: Type },
}

/// Generic arguments.
#[derive(Debug)]
pub enum GenericArgs {
    AngleBracketed { args: Vec<GenericArg>, constraints: Vec<TypeBinding> },
    Parenthesized { inputs: Vec<Type>, output: Option<Type> },
}

/// One generic argument.
#[derive(Debug)]
pub enum GenericArg {
    Lifetime(String),
    Type(Type),
    Const(ConstantValue),
    Infer,
}

/// A constant argument value.
#[derive(Debug)]
pub struct ConstantValue {
    pub value: Option<String>,
    pub is_literal: bool,
}

/// An associated-type binding.
#[derive(Debug)]
pub struct TypeBinding {
    pub name: String,
    pub args: Option<GenericArgs>,
    pub binding: TypeBindingKind,
}

/// The kind of an associated-type binding.
#[derive(Debug)]
pub enum TypeBindingKind {
    Equality(Type),
    Constraint(Vec<GenericBound>),
    /// Catch-all for unrecognized binding kinds.
    Unknown,
}

/// A dynamic trait object.
#[derive(Debug)]
pub struct DynTrait {
    pub traits: Vec<PolyTrait>,
    pub lifetime: Option<String>,
}

/// One trait of a dynamic trait object.
#[derive(Debug)]
pub struct PolyTrait {
    pub trait_: ResolvedPath,
    pub generic_params: Vec<GenericParamDef>,
}

} // verus!
