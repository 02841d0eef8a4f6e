//! The graph walker and resolver.
//!
//! A single depth-first traversal of the item tree emits ontology statements
//! for every reachable declaration through the configured sink, resolving
//! references between declarations and guarding against duplicate emission
//! with two visited sets. Impl blocks are processed in a dedicated final
//! pass, after the whole tree walk, so that they can be matched against
//! already-emitted type nodes.
//!
//! Namespace prefixes are registered first and nothing later registers any:
//! `extract`'s contract pins the first five events to the prefix
//! registrations, the next five to the library node, and promises that no
//! prefix registration follows them.

use vstd::prelude::*;

use crate::emitter::{Event, TriplesEmitter};
use crate::iri::{
    spec_crate_iri, spec_member_iri, spec_module_iri, spec_primitive_type_iri,
    spec_array_type_iri, spec_raw_pointer_type_iri, spec_ref_type_iri, spec_slice_type_iri,
    spec_tuple_type_iri, spec_type_iri, IriMinter,
};
use crate::model::{
    AttrValue, Crate, ExternalCrate, FunctionHeader, FunctionSignature, GenericArg, GenericArgs,
    GenericBound, GenericParamDef, GenericParamDefKind, Generics, Id, Item, ItemEnum, ItemSummary,
    ResolvedPath, StructKind, Type, VariantKind, Visibility,
};
use crate::ontology;
use crate::ontology::{
    spec_rdf_ns, spec_rdf_type, spec_rdfs_ns, spec_rt_crate, spec_rt_module, spec_rt_ns,
    spec_rt_prefix, spec_tg_accessibility, spec_tg_assembly, spec_tg_defined_in_assembly,
    spec_tg_full_name, spec_tg_language, spec_tg_name, spec_tg_namespace, spec_tg_ns,
    spec_tg_parent_namespace, spec_tg_prefix, spec_tg_version, spec_rt_depends_on, spec_xsd_ns,
};
use crate::text::{append_str, chars_eq, chars_eq_str, chars_to_string, str_to_chars};

verus! {

// ---------------------------------------------------------------------------
// History extension
// ---------------------------------------------------------------------------
/// The sink's history grew, and nothing added was a prefix registration.
pub open spec fn extends_without_prefixes(h0: Seq<Event>, h1: Seq<Event>) -> bool {
    &&& h0.len() <= h1.len()
    &&& h1.subrange(0, h0.len() as int) == h0
    &&& forall|i: int| h0.len() <= i < h1.len() ==> !(#[trigger] h1[i] is Prefix)
}

pub broadcast proof fn lemma_add_empty(s: Seq<Event>)
    ensures
        #[trigger] (s + Seq::<Event>::empty()) == s,
{
    assert(s + Seq::<Event>::empty() =~= s);
}

pub broadcast proof fn lemma_extends_refl(h: Seq<Event>)
    ensures
        #[trigger] extends_without_prefixes(h, h),
{
    assert(h.subrange(0, h.len() as int) =~= h);
}

pub broadcast proof fn lemma_extends_trans(h0: Seq<Event>, h1: Seq<Event>, h2: Seq<Event>)
    requires
        #[trigger] extends_without_prefixes(h0, h1),
        #[trigger] extends_without_prefixes(h1, h2),
    ensures
        extends_without_prefixes(h0, h2),
{
    assert(h2.subrange(0, h0.len() as int) =~= h1.subrange(0, h0.len() as int));
    assert forall|i: int| h0.len() <= i < h2.len() implies !(#[trigger] h2[i] is Prefix) by {
        if i < h1.len() {
            assert(h2.subrange(0, h1.len() as int)[i] == h2[i]);
        }
    }
}

pub broadcast proof fn lemma_extends_concat(h0: Seq<Event>, tail: Seq<Event>)
    requires
        forall|i: int| 0 <= i < tail.len() ==> !(#[trigger] tail[i] is Prefix),
    ensures
        #[trigger] extends_without_prefixes(h0, h0 + tail),
{
    assert((h0 + tail).subrange(0, h0.len() as int) =~= h0);
    assert forall|i: int| h0.len() <= i < (h0 + tail).len() implies !(#[trigger] (h0 + tail)[i]
        is Prefix) by {
        assert((h0 + tail)[i] == tail[i - h0.len()]);
    }
}

// ---------------------------------------------------------------------------
// Association-list lookups
// ---------------------------------------------------------------------------
/// The first item under a key.
pub open spec fn assoc_item(entries: Seq<(String, Item)>, key: Seq<char>) -> Option<Item>
    decreases entries.len(),
{
    if entries.len() == 0 {
        None
    } else if entries[0].0@ == key {
        Some(entries[0].1)
    } else {
        assoc_item(entries.drop_first(), key)
    }
}

/// The first side-table summary under a key.
pub open spec fn assoc_summary(entries: Seq<(String, ItemSummary)>, key: Seq<char>) -> Option<
    ItemSummary,
>
    decreases entries.len(),
{
    if entries.len() == 0 {
        None
    } else if entries[0].0@ == key {
        Some(entries[0].1)
    } else {
        assoc_summary(entries.drop_first(), key)
    }
}

proof fn lemma_assoc_item_skip(entries: Seq<(String, Item)>, key: Seq<char>, i: int)
    requires
        0 <= i <= entries.len(),
        forall|j: int| 0 <= j < i ==> (#[trigger] entries[j].0)@ != key,
    ensures
        assoc_item(entries, key) == assoc_item(entries.skip(i), key),
    decreases i,
{
    if i > 0 {
        lemma_assoc_item_skip(entries.drop_first(), key, i - 1);
        assert(entries.drop_first().skip(i - 1) =~= entries.skip(i));
        assert(forall|j: int|
            0 <= j < i - 1 ==> (#[trigger] entries.drop_first()[j].0)@ != key);
    } else {
        assert(entries.skip(0) =~= entries);
    }
}

proof fn lemma_assoc_summary_skip(entries: Seq<(String, ItemSummary)>, key: Seq<char>, i: int)
    requires
        0 <= i <= entries.len(),
        forall|j: int| 0 <= j < i ==> (#[trigger] entries[j].0)@ != key,
    ensures
        assoc_summary(entries, key) == assoc_summary(entries.skip(i), key),
    decreases i,
{
    if i > 0 {
        lemma_assoc_summary_skip(entries.drop_first(), key, i - 1);
        assert(entries.drop_first().skip(i - 1) =~= entries.skip(i));
        assert(forall|j: int|
            0 <= j < i - 1 ==> (#[trigger] entries.drop_first()[j].0)@ != key);
    } else {
        assert(entries.skip(0) =~= entries);
    }
}

/// Look an item up in the item tree.
fn index_get<'b>(kr: &'b Crate, id: &str) -> (r: Option<&'b Item>)
    ensures
        match r {
            Some(it) => assoc_item(kr.index@, id@) == Some(*it),
            None => assoc_item(kr.index@, id@) is None,
        },
{
    let idc = str_to_chars(id);
    let mut i: usize = 0;
    while i < kr.index.len()
        invariant
            i <= kr.index@.len(),
            idc@ == id@,
            forall|j: int| 0 <= j < i ==> (#[trigger] kr.index@[j].0)@ != id@,
        decreases kr.index@.len() - i,
    {
        let kc = str_to_chars(kr.index[i].0.as_str());
        if chars_eq(&kc, &idc) {
            proof {
                lemma_assoc_item_skip(kr.index@, id@, i as int);
                assert(kr.index@.skip(i as int)[0] == kr.index@[i as int]);
            }
            return Some(&kr.index[i].1);
        }
        i = i + 1;
    }
    proof {
        lemma_assoc_item_skip(kr.index@, id@, i as int);
    }
    None
}

/// Look a reference up in the side table.
fn paths_get<'b>(kr: &'b Crate, id: &str) -> (r: Option<&'b ItemSummary>)
    ensures
        match r {
            Some(s) => assoc_summary(kr.paths@, id@) == Some(*s),
            None => assoc_summary(kr.paths@, id@) is None,
        },
{
    let idc = str_to_chars(id);
    let mut i: usize = 0;
    while i < kr.paths.len()
        invariant
            i <= kr.paths@.len(),
            idc@ == id@,
            forall|j: int| 0 <= j < i ==> (#[trigger] kr.paths@[j].0)@ != id@,
        decreases kr.paths@.len() - i,
    {
        let kc = str_to_chars(kr.paths[i].0.as_str());
        if chars_eq(&kc, &idc) {
            proof {
                lemma_assoc_summary_skip(kr.paths@, id@, i as int);
                assert(kr.paths@.skip(i as int)[0] == kr.paths@[i as int]);
            }
            return Some(&kr.paths[i].1);
        }
        i = i + 1;
    }
    proof {
        lemma_assoc_summary_skip(kr.paths@, id@, i as int);
    }
    None
}

// ---------------------------------------------------------------------------
// Visited sets
// ---------------------------------------------------------------------------
/// The identifiers a set of strings holds.
pub open spec fn strings_view(v: Seq<String>) -> Seq<Seq<char>> {
    Seq::new(v.len(), |i: int| v[i]@)
}

/// Whether a visited set holds the given identifier.
pub open spec fn contains_str(set: Seq<Seq<char>>, s: Seq<char>) -> bool {
    exists|i: int| 0 <= i < set.len() && #[trigger] set[i] == s
}

fn set_contains(set: &Vec<String>, key: &Vec<char>) -> (r: bool)
    ensures
        r == contains_str(strings_view(set@), key@),
{
    let mut i: usize = 0;
    while i < set.len()
        invariant
            i <= set@.len(),
            forall|j: int| 0 <= j < i ==> strings_view(set@)[j] != key@,
        decreases set@.len() - i,
    {
        let sc = str_to_chars(set[i].as_str());
        if chars_eq(&sc, key) {
            proof {
                assert(strings_view(set@)[i as int] == key@);
            }
            return true;
        }
        i = i + 1;
    }
    false
}

/// Every member of the smaller set is in the larger one.
pub open spec fn set_extended(s0: Seq<Seq<char>>, s1: Seq<Seq<char>>) -> bool {
    forall|x: Seq<char>| #[trigger] contains_str(s0, x) ==> contains_str(s1, x)
}

pub broadcast proof fn lemma_set_extended_refl(s: Seq<Seq<char>>)
    ensures
        #[trigger] set_extended(s, s),
{
}

pub broadcast proof fn lemma_set_extended_trans(
    s0: Seq<Seq<char>>,
    s1: Seq<Seq<char>>,
    s2: Seq<Seq<char>>,
)
    requires
        #[trigger] set_extended(s0, s1),
        #[trigger] set_extended(s1, s2),
    ensures
        set_extended(s0, s2),
{
}

pub broadcast proof fn lemma_set_extended_push(s: Seq<Seq<char>>, x: Seq<char>)
    ensures
        #[trigger] set_extended(s, s.push(x)),
{
    assert forall|y: Seq<char>| contains_str(s, y) implies contains_str(s.push(x), y) by {
        let i = choose|i: int| 0 <= i < s.len() && #[trigger] s[i] == y;
        assert(s.push(x)[i] == y);
    }
}

/// The traversal's visited sets, as the specification threads them.
pub struct Sets {
    pub types: Seq<Seq<char>>,
    pub modules: Seq<Seq<char>>,
}

/// What one step of the traversal does: the statements it appends and the
/// visited sets it leaves behind.
pub struct Emission {
    pub events: Seq<Event>,
    pub sets: Sets,
}

/// An emission that appends nothing and changes nothing.
pub open spec fn emit_nothing(sets: Sets) -> Emission {
    Emission { events: Seq::empty(), sets }
}

/// Everything the traversal reads: the minter's base, the library's name and
/// version, the document's tables, and the per-declaration option flags. The
/// impl-pass flag stays outside, so that its effect is visible as a whole
/// appended segment.
pub struct Ctx {
    pub base: Seq<char>,
    pub cname: Seq<char>,
    pub cver: Seq<char>,
    pub root: Seq<char>,
    pub index: Seq<(String, Item)>,
    pub paths: Seq<(String, ItemSummary)>,
    pub exts: Seq<(String, ExternalCrate)>,
    pub error_types: bool,
    pub derives: bool,
}

// ---------------------------------------------------------------------------
// Options
// ---------------------------------------------------------------------------
/// What gets extracted.
pub struct ExtractionOptions {
    /// Base address for all minted identifiers.
    pub base_uri: String,
    /// Process impl blocks in the final pass.
    pub include_impls: bool,
    /// Reserved for attribute extraction.
    pub include_attributes: bool,
    /// Detect error types of `Result`-shaped returns.
    pub extract_error_types: bool,
    /// Record derived trait names on structs and enums.
    pub extract_derives: bool,
}

impl Default for ExtractionOptions {
    /// Everything on, with the stock base address.
    fn default() -> (r: Self)
        ensures
            r.base_uri@ == "http://rust.example"@,
            r.include_impls,
            r.include_attributes,
            r.extract_error_types,
            r.extract_derives,
    {
        let base = str_to_chars("http://rust.example");
        ExtractionOptions {
            base_uri: chars_to_string(&base),
            include_impls: true,
            include_attributes: true,
            extract_error_types: true,
            extract_derives: true,
        }
    }
}

// ---------------------------------------------------------------------------
// Pure helpers
// ---------------------------------------------------------------------------
/// The display string of a visibility tag.
pub open spec fn spec_visibility_str(v: Visibility) -> Seq<char> {
    match v {
        Visibility::Public => "Public"@,
        Visibility::Default => "Private"@,
        Visibility::Crate => "Internal"@,
        Visibility::Restricted(r) => if r.path@ == "super"@ {
            "Protected"@
        } else {
            "Internal"@
        },
    }
}

fn visibility_str(v: &Visibility) -> (r: &'static str)
    ensures
        r@ == spec_visibility_str(*v),
{
    match v {
        Visibility::Public => "Public",
        Visibility::Default => "Private",
        Visibility::Crate => "Internal",
        Visibility::Restricted(rr) => {
            let p = str_to_chars(rr.path.as_str());
            let s = str_to_chars("super");
            if chars_eq(&p, &s) {
                "Protected"
            } else {
                "Internal"
            }
        },
    }
}

/// The display name of a type, used inside composite-type identifiers.
pub open spec fn spec_type_display(ty: Type) -> Seq<char>
    decreases ty,
{
    match ty {
        Type::Primitive(name) => name@,
        Type::ResolvedPath(path) => path.path@,
        Type::Generic(name) => name@,
        Type::Tuple(types) => seq!['('] + spec_type_display_list(types@) + seq![')'],
        Type::Slice(inner) => seq!['['] + spec_type_display(*inner) + seq![']'],
        Type::Array { type_, len } => seq!['['] + spec_type_display(*type_) + seq![';'] + len@
            + seq![']'],
        Type::BorrowedRef { is_mutable, type_, .. } => if is_mutable {
            "&mut "@ + spec_type_display(*type_)
        } else {
            seq!['&'] + spec_type_display(*type_)
        },
        Type::RawPointer { is_mutable, type_ } => if is_mutable {
            "*mut "@ + spec_type_display(*type_)
        } else {
            "*const "@ + spec_type_display(*type_)
        },
        _ => "unknown"@,
    }
}

/// The comma-separated display names of tuple elements.
pub open spec fn spec_type_display_list(types: Seq<Type>) -> Seq<char>
    decreases types,
{
    if types.len() == 0 {
        Seq::empty()
    } else if types.len() == 1 {
        spec_type_display(types[0])
    } else {
        spec_type_display_list(types.drop_last()) + seq![','] + spec_type_display(types.last())
    }
}

/// A human-readable display name for a type, used for composite-type
/// identifiers.
fn type_display_name(ty: &Type) -> (r: String)
    ensures
        r@ == spec_type_display(*ty),
    decreases *ty,
{
    match ty {
        Type::Primitive(name) => name.clone(),
        Type::ResolvedPath(path) => path.path.clone(),
        Type::Generic(name) => name.clone(),
        Type::Tuple(types) => {
            let mut out: Vec<char> = Vec::new();
            out.push('(');
            let mut i: usize = 0;
            while i < types.len()
                invariant
                    i <= types@.len(),
                    *ty == Type::Tuple(*types),
                    out@ == seq!['('] + spec_type_display_list(types@.take(i as int)),
                decreases types@.len() - i,
            {
                if i > 0 {
                    out.push(',');
                }
                proof {
                    vstd::seq::axiom_seq_index_decreases::<Type>(types@, i as int);
                    vstd::std_specs::vec::axiom_vec_decreases_to_view::<Type>(*types);
                    assert(decreases_to!(*ty => (*ty)->Tuple_0));
                    assert((*ty)->Tuple_0 == *types);
                    assert(decreases_to!(*ty => *types));
                    assert(decreases_to!(*types => types@));
                    assert(decreases_to!(types@ => types@[i as int]));
                    assert(decreases_to!(*ty => types@[i as int]));
                }
                let part = type_display_name(&types[i]);
                append_str(&mut out, part.as_str());
                i = i + 1;
                proof {
                    assert(types@.take(i as int).drop_last() =~= types@.take(i - 1));
                    assert(types@.take(i as int).last() == types@[i - 1]);
                    if i == 1 {
                        assert(out@ =~= seq!['('] + spec_type_display_list(types@.take(1)));
                    } else {
                        assert(out@ =~= seq!['('] + spec_type_display_list(types@.take(i as int)));
                    }
                }
            }
            out.push(')');
            proof {
                assert(types@.take(types@.len() as int) =~= types@);
                assert(out@ =~= spec_type_display(*ty));
            }
            chars_to_string(&out)
        },
        Type::Slice(inner) => {
            let mut out: Vec<char> = Vec::new();
            out.push('[');
            let part = type_display_name(inner);
            append_str(&mut out, part.as_str());
            out.push(']');
            proof {
                assert(out@ =~= spec_type_display(*ty));
            }
            chars_to_string(&out)
        },
        Type::Array { type_, len } => {
            let mut out: Vec<char> = Vec::new();
            out.push('[');
            let part = type_display_name(type_);
            append_str(&mut out, part.as_str());
            out.push(';');
            append_str(&mut out, len.as_str());
            out.push(']');
            proof {
                assert(out@ =~= spec_type_display(*ty));
            }
            chars_to_string(&out)
        },
        Type::BorrowedRef { is_mutable, type_, .. } => {
            let mut out: Vec<char> = Vec::new();
            if *is_mutable {
                append_str(&mut out, "&mut ");
            } else {
                out.push('&');
            }
            let part = type_display_name(type_);
            append_str(&mut out, part.as_str());
            proof {
                assert(out@ =~= spec_type_display(*ty));
            }
            chars_to_string(&out)
        },
        Type::RawPointer { is_mutable, type_ } => {
            let mut out: Vec<char> = Vec::new();
            if *is_mutable {
                append_str(&mut out, "*mut ");
            } else {
                append_str(&mut out, "*const ");
            }
            let part = type_display_name(type_);
            append_str(&mut out, part.as_str());
            proof {
                assert(out@ =~= spec_type_display(*ty));
            }
            chars_to_string(&out)
        },
        _ => {
            let v = str_to_chars("unknown");
            chars_to_string(&v)
        },
    }
}

/// The dotted path a side-table entry records.
pub open spec fn spec_join_path(parts: Seq<String>) -> Seq<char>
    decreases parts.len(),
{
    if parts.len() == 0 {
        Seq::empty()
    } else if parts.len() == 1 {
        parts[0]@
    } else {
        spec_join_path(parts.drop_last()) + "::"@ + parts.last()@
    }
}

fn join_path(parts: &Vec<String>) -> (r: String)
    ensures
        r@ == spec_join_path(parts@),
{
    let mut out: Vec<char> = Vec::new();
    let mut i: usize = 0;
    while i < parts.len()
        invariant
            i <= parts@.len(),
            out@ == spec_join_path(parts@.take(i as int)),
        decreases parts@.len() - i,
    {
        if i > 0 {
            append_str(&mut out, "::");
        }
        append_str(&mut out, parts[i].as_str());
        i = i + 1;
        proof {
            assert(parts@.take(i as int).drop_last() =~= parts@.take(i - 1));
            assert(parts@.take(i as int).last() == parts@[i - 1]);
            if i == 1 {
                assert(out@ =~= spec_join_path(parts@.take(1)));
            } else {
                assert(out@ =~= spec_join_path(parts@.take(i as int)));
            }
        }
    }
    proof {
        assert(parts@.take(parts@.len() as int) =~= parts@);
    }
    chars_to_string(&out)
}

/// Where the last `::` separator starts, if any.
pub open spec fn spec_last_sep(s: Seq<char>) -> Option<int>
    decreases s.len(),
{
    if s.len() < 2 {
        None
    } else if s[s.len() - 2] == ':' && s[s.len() - 1] == ':' {
        Some(s.len() - 2)
    } else {
        spec_last_sep(s.drop_last())
    }
}

/// The parent dotted path: everything before the last separator.
pub open spec fn spec_parent_path(s: Seq<char>) -> Option<Seq<char>> {
    match spec_last_sep(s) {
        Some(i) => Some(s.take(i)),
        None => None,
    }
}

/// The parent dotted path of a module path, if it has one.
fn parent_path(path: &Vec<char>) -> (r: Option<Vec<char>>)
    ensures
        match r {
            Some(p) => spec_parent_path(path@) == Some(p@),
            None => spec_parent_path(path@) is None,
        },
{
    let mut end: usize = path.len();
    proof {
        assert(path@.take(path@.len() as int) =~= path@);
    }
    while end >= 2
        invariant
            end <= path@.len(),
            spec_last_sep(path@) == spec_last_sep(path@.take(end as int)),
        decreases end,
    {
        if path[end - 2] == ':' && path[end - 1] == ':' {
            let mut p: Vec<char> = Vec::new();
            let mut i: usize = 0;
            while i < end - 2
                invariant
                    i <= end - 2 <= path@.len(),
                    p@ == path@.take(i as int),
                decreases end - i,
            {
                p.push(path[i]);
                i = i + 1;
                proof {
                    assert(p@ =~= path@.take(i as int));
                }
            }
            proof {
                assert(path@.take(end as int)[end - 2] == path@[end - 2]);
                assert(path@.take(end as int).len() == end);
                assert(spec_last_sep(path@.take(end as int)) == Some(end - 2));
            }
            return Some(p);
        }
        proof {
            assert(path@.take(end as int).drop_last() =~= path@.take(end - 1));
            assert(path@.take(end as int)[end - 2] == path@[end - 2]);
            assert(path@.take(end as int)[end - 1] == path@[end - 1]);
        }
        end = end - 1;
    }
    proof {
        assert(path@.take(end as int).len() < 2);
    }
    None
}


// ---------------------------------------------------------------------------
// Event shorthands
// ---------------------------------------------------------------------------
pub open spec fn ev_iri(s: Seq<char>, p: Seq<char>, o: Seq<char>) -> Event {
    Event::Iri { subject: s, predicate: p, object: o }
}

pub open spec fn ev_lit(s: Seq<char>, p: Seq<char>, v: Seq<char>) -> Event {
    Event::Literal { subject: s, predicate: p, value: v }
}

pub open spec fn ev_bool(s: Seq<char>, p: Seq<char>, b: bool) -> Event {
    Event::Typed {
        subject: s,
        predicate: p,
        value: crate::emitter::spec_bool_chars(b),
        datatype: crate::ontology::spec_xsd_boolean(),
    }
}

pub open spec fn ev_int(s: Seq<char>, p: Seq<char>, v: int) -> Event {
    Event::Typed {
        subject: s,
        predicate: p,
        value: crate::text::spec_dec_int(v),
        datatype: crate::ontology::spec_xsd_integer(),
    }
}

pub open spec fn ev_prefix(p: Seq<char>, ns: Seq<char>) -> Event {
    Event::Prefix { prefix: p, iri: ns }
}

/// The five standard prefix registrations, in registration order.
pub open spec fn prefix_events() -> Seq<Event> {
    seq![
        ev_prefix("rdf"@, spec_rdf_ns()),
        ev_prefix("rdfs"@, spec_rdfs_ns()),
        ev_prefix("xsd"@, spec_xsd_ns()),
        ev_prefix(spec_tg_prefix(), spec_tg_ns()),
        ev_prefix(spec_rt_prefix(), spec_rt_ns()),
    ]
}

/// The statements of the library node: type tags, name, source language,
/// version.
pub open spec fn crate_node_events(ci: Seq<char>, name: Seq<char>, version: Seq<char>) -> Seq<
    Event,
> {
    seq![
        ev_iri(ci, spec_rdf_type(), spec_rt_crate()),
        ev_iri(ci, spec_rdf_type(), spec_tg_assembly()),
        ev_lit(ci, spec_tg_name(), name),
        ev_lit(ci, spec_tg_language(), "rust"@),
        ev_lit(ci, spec_tg_version(), version),
    ]
}

/// The statements for one external library unit: a dependency edge and a
/// minimal stub node, with the placeholder version.
pub open spec fn dep_one_events(base: Seq<char>, ci: Seq<char>, name: Seq<char>) -> Seq<Event> {
    let dep = spec_crate_iri(base, name, "0.0.0"@);
    seq![
        ev_iri(ci, spec_rt_depends_on(), dep),
        ev_iri(dep, spec_rdf_type(), spec_rt_crate()),
        ev_lit(dep, spec_tg_name(), name),
    ]
}

/// The statements for all external library units, in table order.
pub open spec fn dep_events(base: Seq<char>, ci: Seq<char>, exts: Seq<(String, ExternalCrate)>) -> Seq<
    Event,
>
    decreases exts.len(),
{
    if exts.len() == 0 {
        Seq::empty()
    } else {
        dep_events(base, ci, exts.drop_last()) + dep_one_events(base, ci, exts.last().1.name@)
    }
}

/// The statements of one namespace node, with a parent edge when the dotted
/// path has a parent.
pub open spec fn module_node_events(
    base: Seq<char>,
    cname: Seq<char>,
    cver: Seq<char>,
    path: Seq<char>,
    item: Item,
) -> Seq<Event> {
    let mi = spec_module_iri(base, cname, cver, path);
    let ci = spec_crate_iri(base, cname, cver);
    let nm = match item.name {
        Some(n) => n@,
        None => path,
    };
    seq![
        ev_iri(mi, spec_rdf_type(), spec_rt_module()),
        ev_iri(mi, spec_rdf_type(), spec_tg_namespace()),
        ev_lit(mi, spec_tg_name(), nm),
        ev_lit(mi, spec_tg_full_name(), path),
        ev_iri(mi, spec_tg_defined_in_assembly(), ci),
        ev_lit(mi, spec_tg_accessibility(), spec_visibility_str(item.visibility)),
    ] + match spec_parent_path(path) {
        Some(pp) => seq![ev_iri(mi, spec_tg_parent_namespace(), spec_module_iri(base, cname, cver, pp))],
        None => Seq::empty(),
    }
}

/// Resolution of a path reference: the side table first, then the local item
/// tree, then the raw path carried on the reference.
pub open spec fn spec_resolve_path(
    base: Seq<char>,
    cname: Seq<char>,
    cver: Seq<char>,
    index: Seq<(String, Item)>,
    paths: Seq<(String, ItemSummary)>,
    p: ResolvedPath,
) -> Seq<char> {
    match p.id {
        Some(id) => match assoc_summary(paths, id.0@) {
            Some(sum) => spec_type_iri(base, cname, cver, spec_join_path(sum.path@)),
            None => match assoc_item(index, id.0@) {
                Some(it) => match it.name {
                    Some(n) => spec_type_iri(base, cname, cver, n@),
                    None => spec_type_iri(base, cname, cver, p.path@),
                },
                None => spec_type_iri(base, cname, cver, p.path@),
            },
        },
        None => spec_type_iri(base, cname, cver, p.path@),
    }
}

/// Resolution of a type reference to an identifier, or to nothing for the
/// kinds that are deliberately not modelled as nodes.
pub open spec fn spec_resolve_type(
    base: Seq<char>,
    cname: Seq<char>,
    cver: Seq<char>,
    index: Seq<(String, Item)>,
    paths: Seq<(String, ItemSummary)>,
    ty: Type,
) -> Option<Seq<char>> {
    match ty {
        Type::ResolvedPath(p) => Some(spec_resolve_path(base, cname, cver, index, paths, p)),
        Type::Primitive(name) => Some(spec_primitive_type_iri(base, name@)),
        Type::Tuple(ts) => Some(spec_tuple_type_iri(base, ts@.len())),
        Type::Slice(inner) => Some(spec_slice_type_iri(base, spec_type_display(*inner))),
        Type::Array { type_, len } => Some(
            spec_array_type_iri(base, spec_type_display(*type_), len@),
        ),
        Type::RawPointer { is_mutable, type_ } => Some(
            spec_raw_pointer_type_iri(base, spec_type_display(*type_), is_mutable),
        ),
        Type::BorrowedRef { is_mutable, type_, .. } => Some(
            spec_ref_type_iri(base, spec_type_display(*type_), is_mutable),
        ),
        _ => None,
    }
}

/// The statements of one field of a struct, union or variant owner.
pub open spec fn field_events(
    base: Seq<char>,
    cname: Seq<char>,
    cver: Seq<char>,
    index: Seq<(String, Item)>,
    paths: Seq<(String, ItemSummary)>,
    field_id: Seq<char>,
    owner: Seq<char>,
) -> Seq<Event> {
    match assoc_item(index, field_id) {
        Some(it) => match it.inner {
            ItemEnum::StructField(ty) => {
                let nm = match it.name {
                    Some(n) => n@,
                    None => "unnamed"@,
                };
                let fi = spec_member_iri(owner, nm, ""@);
                seq![
                    ev_iri(fi, spec_rdf_type(), crate::ontology::spec_tg_field()),
                    ev_lit(fi, spec_tg_name(), nm),
                    ev_iri(owner, crate::ontology::spec_tg_has_member(), fi),
                    ev_iri(fi, crate::ontology::spec_tg_member_of(), owner),
                    ev_lit(fi, spec_tg_accessibility(), spec_visibility_str(it.visibility)),
                ] + match spec_resolve_type(base, cname, cver, index, paths, ty) {
                    Some(ti) => seq![ev_iri(fi, crate::ontology::spec_tg_field_type(), ti)],
                    None => Seq::empty(),
                }
            },
            _ => Seq::empty(),
        },
        None => Seq::empty(),
    }
}

/// Statement counts add up over appended histories.
proof fn lemma_count_concat(a: Seq<Event>, b: Seq<Event>)
    ensures
        crate::emitter::count_statements(a + b) == crate::emitter::count_statements(a)
            + crate::emitter::count_statements(b),
    decreases b.len(),
{
    if b.len() == 0 {
        assert(a + b =~= a);
    } else {
        lemma_count_concat(a, b.drop_last());
        assert((a + b).drop_last() =~= a + b.drop_last());
        assert((a + b).last() == b.last());
    }
}

/// Turning the impl pass off never increases the statement count: the pass
/// only appends a final segment after everything else, for any document,
/// options and starting state.
pub proof fn lemma_impl_pass_only_adds(ctx: Ctx, sets: Sets)
    ensures
        crate::emitter::count_statements(pipeline_emission(ctx, sets, false).events)
            <= crate::emitter::count_statements(pipeline_emission(ctx, sets, true).events),
{
    reveal(pipeline_emission);
    let ci = spec_crate_iri(ctx.base, ctx.cname, ctx.cver);
    let fixed = prefix_events() + crate_node_events(ci, ctx.cname, ctx.cver) + dep_events(
        ctx.base,
        ci,
        ctx.exts,
    );
    let w = walk_module_emission(ctx, sets, ctx.root, ctx.cname, sp_fuel(ctx.index.len()));
    let imp = all_impls_emission(ctx, w.sets, ctx.index);
    lemma_count_concat(fixed + w.events, Seq::<Event>::empty());
    lemma_count_concat(fixed + w.events, imp.events);
    assert(pipeline_emission(ctx, sets, false).events =~= fixed + w.events
        + Seq::<Event>::empty());
    assert(pipeline_emission(ctx, sets, true).events =~= fixed + w.events + imp.events);
}

// ---------------------------------------------------------------------------
// The extractor
// ---------------------------------------------------------------------------
/// Walks a parsed document and emits statements through a sink.
pub struct CrateExtractor<'a, E: TriplesEmitter> {
    emitter: E,
    iris: IriMinter,
    krate: &'a Crate,
    crate_name: String,
    crate_version: String,
    options: ExtractionOptions,
    emitted_types: Vec<String>,
    emitted_modules: Vec<String>,
}

// ---------------------------------------------------------------------------
// The traversal, as the specification sees it
// ---------------------------------------------------------------------------
// Each spec function below renders one extractor step as the exact sequence
// of events it appends and the visited sets it leaves behind, in the order
// the step takes them. The executable methods are proved equal to these.
/// Whether any declared generic parameter is a type parameter.
pub open spec fn sp_has_type_params(params: Seq<GenericParamDef>) -> bool {
    exists|j: int| 0 <= j < params.len() && (#[trigger] params[j].kind) is Type
}

/// Ordinals are emitted as integer literals; an ordinal beyond the literal
/// range saturates.
pub open spec fn spec_ord(i: int) -> int {
    if i <= 0x7fff_ffff_ffff_ffff {
        i
    } else {
        0x7fff_ffff_ffff_ffff
    }
}

/// A minimal stub node for a foreign entity, emitted once.
pub open spec fn stub_emission(sets: Sets, ti: Seq<char>, name: Seq<char>) -> Emission {
    if contains_str(sets.types, ti) {
        emit_nothing(sets)
    } else {
        Emission {
            events: seq![
                ev_iri(ti, spec_rdf_type(), crate::ontology::spec_tg_type()),
                ev_lit(ti, spec_tg_name(), name),
            ],
            sets: Sets { types: sets.types.push(ti), modules: sets.modules },
        }
    }
}

/// One field of an enum variant.
pub open spec fn variant_field_events(ctx: Ctx, field_id: Seq<char>, variant_iri: Seq<char>) -> Seq<
    Event,
> {
    match assoc_item(ctx.index, field_id) {
        Some(it) => match it.inner {
            ItemEnum::StructField(ty) => {
                let nm = match it.name {
                    Some(n) => n@,
                    None => "unnamed"@,
                };
                let fi = spec_member_iri(variant_iri, nm, ""@);
                seq![
                    ev_iri(fi, spec_rdf_type(), crate::ontology::spec_tg_field()),
                    ev_lit(fi, spec_tg_name(), nm),
                    ev_iri(variant_iri, crate::ontology::spec_rt_variant_field(), fi),
                ] + match spec_resolve_type(ctx.base, ctx.cname, ctx.cver, ctx.index, ctx.paths, ty) {
                    Some(ti) => seq![ev_iri(fi, crate::ontology::spec_tg_field_type(), ti)],
                    None => Seq::empty(),
                }
            },
            _ => Seq::empty(),
        },
        None => Seq::empty(),
    }
}

/// The fields of a tuple variant or tuple struct, present slots only, in
/// declaration order.
pub open spec fn opt_fields_events(
    ctx: Ctx,
    ids: Seq<Option<Id>>,
    owner: Seq<char>,
    variant: bool,
) -> Seq<Event>
    decreases ids.len(),
{
    if ids.len() == 0 {
        Seq::empty()
    } else {
        opt_fields_events(ctx, ids.drop_last(), owner, variant) + match ids.last() {
            Some(fid) => if variant {
                variant_field_events(ctx, fid.0@, owner)
            } else {
                field_events(ctx.base, ctx.cname, ctx.cver, ctx.index, ctx.paths, fid.0@, owner)
            },
            None => Seq::empty(),
        }
    }
}

/// The fields named by a list of identifiers, in declaration order.
pub open spec fn fields_events(ctx: Ctx, ids: Seq<Id>, owner: Seq<char>, variant: bool) -> Seq<
    Event,
>
    decreases ids.len(),
{
    if ids.len() == 0 {
        Seq::empty()
    } else {
        fields_events(ctx, ids.drop_last(), owner, variant) + if variant {
            variant_field_events(ctx, ids.last().0@, owner)
        } else {
            field_events(ctx.base, ctx.cname, ctx.cver, ctx.index, ctx.paths, ids.last().0@, owner)
        }
    }
}

/// One enum variant: its node, kind tag, and fields.
pub open spec fn variant_events(ctx: Ctx, variant_id: Seq<char>, enum_iri: Seq<char>) -> Seq<
    Event,
> {
    match assoc_item(ctx.index, variant_id) {
        Some(it) => match it.name {
            Some(n) => {
                let vi = crate::iri::spec_variant_iri(enum_iri, n@);
                seq![
                    ev_iri(vi, spec_rdf_type(), crate::ontology::spec_rt_enum_variant()),
                    ev_lit(vi, spec_tg_name(), n@),
                    ev_iri(enum_iri, crate::ontology::spec_rt_has_variant(), vi),
                ] + match it.inner {
                    ItemEnum::Variant(data) => match data.kind {
                        VariantKind::Plain => seq![
                            ev_lit(vi, crate::ontology::spec_rt_variant_kind(), "plain"@),
                        ],
                        VariantKind::Tuple(ids) => seq![
                            ev_lit(vi, crate::ontology::spec_rt_variant_kind(), "tuple"@),
                        ] + opt_fields_events(ctx, ids@, vi, true),
                        VariantKind::Struct { fields, .. } => seq![
                            ev_lit(vi, crate::ontology::spec_rt_variant_kind(), "struct"@),
                        ] + fields_events(ctx, fields@, vi, true),
                    },
                    _ => Seq::empty(),
                }
            },
            None => Seq::empty(),
        },
        None => Seq::empty(),
    }
}

/// The variants of an enum, in declaration order.
pub open spec fn variants_events(ctx: Ctx, ids: Seq<Id>, enum_iri: Seq<char>) -> Seq<Event>
    decreases ids.len(),
{
    if ids.len() == 0 {
        Seq::empty()
    } else {
        variants_events(ctx, ids.drop_last(), enum_iri) + variant_events(
            ctx,
            ids.last().0@,
            enum_iri,
        )
    }
}

/// The trait-bound edges of one type parameter, each bound's target given a
/// stub when foreign.
pub open spec fn bounds_emission(
    ctx: Ctx,
    sets: Sets,
    bounds: Seq<GenericBound>,
    tp_iri: Seq<char>,
) -> Emission
    decreases bounds.len(),
{
    if bounds.len() == 0 {
        emit_nothing(sets)
    } else {
        let prev = bounds_emission(ctx, sets, bounds.drop_last(), tp_iri);
        match bounds.last() {
            GenericBound::TraitBound { trait_, .. } => {
                let bi = spec_resolve_path(ctx.base, ctx.cname, ctx.cver, ctx.index, ctx.paths, trait_);
                let stub = stub_emission(prev.sets, bi, trait_.path@);
                Emission {
                    events: prev.events + seq![
                        ev_iri(tp_iri, crate::ontology::spec_rt_trait_bound(), bi),
                    ] + stub.events,
                    sets: stub.sets,
                }
            },
            _ => prev,
        }
    }
}

/// One generic parameter by ordinal: a type parameter with its bounds, a
/// lifetime, or a const parameter with its declared type.
pub open spec fn param_emission(
    ctx: Ctx,
    sets: Sets,
    param: GenericParamDef,
    ordinal: int,
    owner: Seq<char>,
) -> Emission {
    match param.kind {
        GenericParamDefKind::Type { bounds, .. } => {
            let tp = crate::iri::spec_type_parameter_iri(owner, ordinal as nat);
            let b = bounds_emission(ctx, sets, bounds@, tp);
            Emission {
                events: seq![
                    ev_iri(tp, spec_rdf_type(), crate::ontology::spec_tg_type_parameter()),
                    ev_lit(tp, spec_tg_name(), param.name@),
                    ev_int(tp, crate::ontology::spec_tg_ordinal(), spec_ord(ordinal)),
                    ev_iri(owner, crate::ontology::spec_tg_has_type_parameter(), tp),
                    ev_iri(tp, crate::ontology::spec_tg_type_parameter_of(), owner),
                ] + b.events,
                sets: b.sets,
            }
        },
        GenericParamDefKind::Lifetime { .. } => {
            let lt = crate::iri::spec_lifetime_iri(owner, param.name@);
            Emission {
                events: seq![
                    ev_iri(lt, spec_rdf_type(), crate::ontology::spec_rt_lifetime()),
                    ev_lit(lt, spec_tg_name(), param.name@),
                    ev_iri(owner, crate::ontology::spec_rt_has_lifetime(), lt),
                ],
                sets,
            }
        },
        GenericParamDefKind::Const { type_, .. } => {
            let cp = crate::iri::spec_type_parameter_iri(owner, ordinal as nat);
            Emission {
                events: seq![
                    ev_iri(cp, spec_rdf_type(), crate::ontology::spec_rt_const_param()),
                    ev_lit(cp, spec_tg_name(), param.name@),
                    ev_int(cp, crate::ontology::spec_tg_ordinal(), spec_ord(ordinal)),
                    ev_iri(owner, crate::ontology::spec_tg_has_type_parameter(), cp),
                ] + match spec_resolve_type(
                    ctx.base,
                    ctx.cname,
                    ctx.cver,
                    ctx.index,
                    ctx.paths,
                    type_,
                ) {
                    Some(ti) => seq![ev_iri(cp, crate::ontology::spec_tg_parameter_type(), ti)],
                    None => Seq::empty(),
                },
                sets,
            }
        },
        GenericParamDefKind::Unknown => emit_nothing(sets),
    }
}

/// The generic parameters of an owner, by ordinal.
pub open spec fn generics_emission(
    ctx: Ctx,
    sets: Sets,
    params: Seq<GenericParamDef>,
    owner: Seq<char>,
) -> Emission
    decreases params.len(),
{
    if params.len() == 0 {
        emit_nothing(sets)
    } else {
        let prev = generics_emission(ctx, sets, params.drop_last(), owner);
        let last = param_emission(ctx, prev.sets, params.last(), params.len() - 1, owner);
        Emission { events: prev.events + last.events, sets: last.sets }
    }
}

/// The non-receiver parameters of a signature, by ordinal.
pub open spec fn sig_params_events(ctx: Ctx, inputs: Seq<(String, Type)>, fn_iri: Seq<char>) -> Seq<
    Event,
>
    decreases inputs.len(),
{
    if inputs.len() == 0 {
        Seq::empty()
    } else {
        sig_params_events(ctx, inputs.drop_last(), fn_iri) + {
            let name = inputs.last().0;
            let ty = inputs.last().1;
            let ordinal = inputs.len() - 1;
            if name@ == "self"@ {
                Seq::empty()
            } else {
                let pi = crate::iri::spec_parameter_iri(fn_iri, ordinal as nat);
                seq![
                    ev_iri(pi, spec_rdf_type(), crate::ontology::spec_tg_parameter()),
                    ev_lit(pi, spec_tg_name(), name@),
                    ev_int(pi, crate::ontology::spec_tg_ordinal(), spec_ord(ordinal as int)),
                    ev_iri(fn_iri, crate::ontology::spec_tg_has_parameter(), pi),
                    ev_iri(pi, crate::ontology::spec_tg_parameter_of(), fn_iri),
                ] + match spec_resolve_type(ctx.base, ctx.cname, ctx.cver, ctx.index, ctx.paths, ty) {
                    Some(ti) => seq![ev_iri(pi, crate::ontology::spec_tg_parameter_type(), ti)],
                    None => Seq::empty(),
                }
            }
        }
    }
}

/// The header flags (only when true), generics, parameters and return type
/// of a function.
#[verifier::opaque]
pub open spec fn function_details_emission(
    ctx: Ctx,
    sets: Sets,
    fn_iri: Seq<char>,
    sig: FunctionSignature,
    generics: Generics,
    header: FunctionHeader,
) -> Emission {
    let flags = header_flag_events(fn_iri, header, generics.params@);
    let g = generics_emission(ctx, sets, generics.params@, fn_iri);
    let params = sig_params_events(ctx, sig.inputs@, fn_iri);
    let ret = match sig.output {
        Some(rt) => match spec_resolve_type(ctx.base, ctx.cname, ctx.cver, ctx.index, ctx.paths, rt) {
            Some(ti) => seq![ev_iri(fn_iri, crate::ontology::spec_tg_return_type(), ti)],
            None => Seq::empty(),
        },
        None => Seq::empty(),
    };
    Emission { events: flags + g.events + params + ret, sets: g.sets }
}

/// The return-type edge of a signature, when its type resolves.
pub open spec fn ret_events(ctx: Ctx, fn_iri: Seq<char>, sig: FunctionSignature) -> Seq<Event> {
    match sig.output {
        Some(rt) => match spec_resolve_type(ctx.base, ctx.cname, ctx.cver, ctx.index, ctx.paths, rt) {
            Some(ti) => seq![ev_iri(fn_iri, crate::ontology::spec_tg_return_type(), ti)],
            None => Seq::<Event>::empty(),
        },
        None => Seq::<Event>::empty(),
    }
}

/// The header and genericity facts, only when true.
pub open spec fn header_flag_events(
    fn_iri: Seq<char>,
    header: FunctionHeader,
    params: Seq<GenericParamDef>,
) -> Seq<Event> {
    (if header.is_unsafe {
        seq![ev_bool(fn_iri, crate::ontology::spec_rt_is_unsafe(), true)]
    } else {
        Seq::<Event>::empty()
    }) + (if header.is_async {
        seq![ev_bool(fn_iri, crate::ontology::spec_tg_is_async(), true)]
    } else {
        Seq::<Event>::empty()
    }) + (if header.is_const {
        seq![ev_bool(fn_iri, crate::ontology::spec_tg_is_const(), true)]
    } else {
        Seq::<Event>::empty()
    }) + (if sp_has_type_params(params) {
        seq![ev_bool(fn_iri, crate::ontology::spec_tg_is_generic(), true)]
    } else {
        Seq::<Event>::empty()
    })
}

proof fn lemma_function_details_unfold(
    ctx: Ctx,
    sets: Sets,
    fn_iri: Seq<char>,
    sig: FunctionSignature,
    generics: Generics,
    header: FunctionHeader,
)
    ensures
        ({
            let em = function_details_emission(ctx, sets, fn_iri, sig, generics, header);
            let g = generics_emission(ctx, sets, generics.params@, fn_iri);
            &&& em.sets == g.sets
            &&& em.events == header_flag_events(fn_iri, header, generics.params@) + g.events
                + sig_params_events(ctx, sig.inputs@, fn_iri) + ret_events(ctx, fn_iri, sig)
        }),
{
    reveal(function_details_emission);
}

/// The error-type edge: exactly one, exactly when the return type is
/// `Result`-shaped with a resolvable second type argument.
pub open spec fn error_type_events(ctx: Ctx, fn_iri: Seq<char>, sig: FunctionSignature) -> Seq<
    Event,
> {
    match sig.output {
        Some(Type::ResolvedPath(path)) => {
            let named_result = path.path@ == "Result"@ || (path.path@.len() >= "::Result"@.len()
                && path.path@.skip(path.path@.len() - "::Result"@.len()) == "::Result"@);
            if named_result {
                match path.args {
                    Some(args_box) => match *args_box {
                        GenericArgs::AngleBracketed { args, .. } => if args@.len() >= 2 {
                            match args@[1] {
                                GenericArg::Type(err_type) => match spec_resolve_type(
                                    ctx.base,
                                    ctx.cname,
                                    ctx.cver,
                                    ctx.index,
                                    ctx.paths,
                                    err_type,
                                ) {
                                    Some(ei) => seq![
                                        ev_iri(fn_iri, crate::ontology::spec_rt_error_type(), ei),
                                    ],
                                    None => Seq::empty(),
                                },
                                _ => Seq::empty(),
                            }
                        } else {
                            Seq::empty()
                        },
                        _ => Seq::empty(),
                    },
                    None => Seq::empty(),
                }
            } else {
                Seq::empty()
            }
        },
        _ => Seq::empty(),
    }
}

/// A method of a trait or impl owner: its node, details, an abstract flag
/// for a bodiless declaration, and the error-type edge when enabled.
#[verifier::opaque]
pub open spec fn method_emission(
    ctx: Ctx,
    sets: Sets,
    method_id: Seq<char>,
    owner: Seq<char>,
) -> Emission {
    match assoc_item(ctx.index, method_id) {
        Some(it) => match it.name {
            Some(n) => {
                let mi = spec_member_iri(owner, n@, ""@);
                let head = seq![
                    ev_iri(mi, spec_rdf_type(), crate::ontology::spec_tg_method()),
                    ev_lit(mi, spec_tg_name(), n@),
                    ev_iri(owner, crate::ontology::spec_tg_has_member(), mi),
                    ev_iri(mi, crate::ontology::spec_tg_member_of(), owner),
                    ev_lit(mi, spec_tg_accessibility(), spec_visibility_str(it.visibility)),
                ];
                match it.inner {
                    ItemEnum::Function { sig, generics, header, has_body } => {
                        let d = function_details_emission(ctx, sets, mi, sig, generics, header);
                        let ab: Seq<Event> = if !has_body {
                            seq![ev_bool(mi, crate::ontology::spec_tg_is_abstract(), true)]
                        } else {
                            Seq::empty()
                        };
                        let et: Seq<Event> = if ctx.error_types {
                            error_type_events(ctx, mi, sig)
                        } else {
                            Seq::empty()
                        };
                        Emission { events: head + d.events + ab + et, sets: d.sets }
                    },
                    _ => Emission { events: head, sets },
                }
            },
            None => emit_nothing(sets),
        },
        None => emit_nothing(sets),
    }
}

/// The methods of a trait, in declaration order.
pub open spec fn methods_emission(ctx: Ctx, sets: Sets, ids: Seq<Id>, owner: Seq<char>) -> Emission
    decreases ids.len(),
{
    if ids.len() == 0 {
        emit_nothing(sets)
    } else {
        let prev = methods_emission(ctx, sets, ids.drop_last(), owner);
        let last = method_emission(ctx, prev.sets, ids.last().0@, owner);
        Emission { events: prev.events + last.events, sets: last.sets }
    }
}

/// A module-level function as a member of its namespace.
#[verifier::opaque]
pub open spec fn module_function_emission(
    ctx: Ctx,
    sets: Sets,
    item: Item,
    mod_path: Seq<char>,
) -> Emission {
    match item.name {
        Some(n) => {
            let mi = spec_module_iri(ctx.base, ctx.cname, ctx.cver, mod_path);
            let fi = spec_member_iri(mi, n@, ""@);
            let head = seq![
                ev_iri(fi, spec_rdf_type(), crate::ontology::spec_tg_method()),
                ev_lit(fi, spec_tg_name(), n@),
                ev_lit(fi, spec_tg_full_name(), mod_path + "::"@ + n@),
                ev_iri(mi, crate::ontology::spec_tg_has_member(), fi),
                ev_iri(fi, crate::ontology::spec_tg_member_of(), mi),
                ev_lit(fi, spec_tg_accessibility(), spec_visibility_str(item.visibility)),
            ];
            match item.inner {
                ItemEnum::Function { sig, generics, header, .. } => {
                    let d = function_details_emission(ctx, sets, fi, sig, generics, header);
                    let et: Seq<Event> = if ctx.error_types {
                        error_type_events(ctx, fi, sig)
                    } else {
                        Seq::empty()
                    };
                    Emission { events: head + d.events + et, sets: d.sets }
                },
                _ => Emission { events: head, sets },
            }
        },
        None => emit_nothing(sets),
    }
}

/// A module-level constant as a member node.
pub open spec fn constant_events(ctx: Ctx, item: Item, mod_path: Seq<char>) -> Seq<Event> {
    match item.name {
        Some(n) => {
            let mi = spec_module_iri(ctx.base, ctx.cname, ctx.cver, mod_path);
            let ci = spec_member_iri(mi, n@, ""@);
            seq![
                ev_iri(ci, spec_rdf_type(), crate::ontology::spec_tg_field()),
                ev_iri(ci, spec_rdf_type(), crate::ontology::spec_rt_constant()),
                ev_lit(ci, spec_tg_name(), n@),
                ev_bool(ci, crate::ontology::spec_tg_is_const(), true),
                ev_iri(mi, crate::ontology::spec_tg_has_member(), ci),
                ev_iri(ci, crate::ontology::spec_tg_member_of(), mi),
                ev_lit(ci, spec_tg_accessibility(), spec_visibility_str(item.visibility)),
            ] + match item.inner {
                ItemEnum::Constant { type_, .. } => match spec_resolve_type(
                    ctx.base,
                    ctx.cname,
                    ctx.cver,
                    ctx.index,
                    ctx.paths,
                    type_,
                ) {
                    Some(ti) => seq![ev_iri(ci, crate::ontology::spec_tg_field_type(), ti)],
                    None => Seq::empty(),
                },
                _ => Seq::empty(),
            }
        },
        None => Seq::empty(),
    }
}

/// A static as a member node, with a mutability flag when true.
pub open spec fn static_events(ctx: Ctx, item: Item, mod_path: Seq<char>) -> Seq<Event> {
    match item.name {
        Some(n) => {
            let mi = spec_module_iri(ctx.base, ctx.cname, ctx.cver, mod_path);
            let si = spec_member_iri(mi, n@, ""@);
            seq![
                ev_iri(si, spec_rdf_type(), crate::ontology::spec_rt_static()),
                ev_lit(si, spec_tg_name(), n@),
                ev_iri(mi, crate::ontology::spec_tg_has_member(), si),
                ev_iri(si, crate::ontology::spec_tg_member_of(), mi),
                ev_lit(si, spec_tg_accessibility(), spec_visibility_str(item.visibility)),
            ] + match item.inner {
                ItemEnum::Static { type_, is_mutable, .. } => (if is_mutable {
                    seq![ev_bool(si, crate::ontology::spec_rt_is_mutable(), true)]
                } else {
                    Seq::empty()
                }) + match spec_resolve_type(ctx.base, ctx.cname, ctx.cver, ctx.index, ctx.paths, type_) {
                    Some(ti) => seq![ev_iri(si, crate::ontology::spec_tg_field_type(), ti)],
                    None => Seq::empty(),
                },
                _ => Seq::empty(),
            }
        },
        None => Seq::empty(),
    }
}

/// Whether an item's attributes mark it as compiler-synthesized.
pub open spec fn sp_is_auto_derived(attrs: Seq<AttrValue>) -> bool {
    exists|j: int|
        0 <= j < attrs.len() && match #[trigger] attrs[j] {
            AttrValue::Text(t) => t@ == "automatically_derived"@,
            AttrValue::Other => false,
        }
}

/// One literal fact per derived trait name, from the compiler-synthesized
/// impls in the list.
pub open spec fn derives_events(ctx: Ctx, impl_ids: Seq<Id>, type_iri: Seq<char>) -> Seq<Event>
    decreases impl_ids.len(),
{
    if impl_ids.len() == 0 {
        Seq::empty()
    } else {
        derives_events(ctx, impl_ids.drop_last(), type_iri) + match assoc_item(
            ctx.index,
            impl_ids.last().0@,
        ) {
            Some(imp) => if sp_is_auto_derived(imp.attrs@) {
                match imp.inner {
                    ItemEnum::Impl { trait_: Some(tp), .. } => seq![
                        ev_lit(type_iri, crate::ontology::spec_rt_derives(), tp.path@),
                    ],
                    _ => Seq::empty(),
                }
            } else {
                Seq::empty()
            },
            None => Seq::empty(),
        }
    }
}

/// The derive facts of a struct or enum, when its impl list is known.
pub open spec fn derives_for_item_events(ctx: Ctx, item_id: Seq<char>, type_iri: Seq<char>) -> Seq<
    Event,
> {
    match assoc_item(ctx.index, item_id) {
        Some(it) => match it.inner {
            ItemEnum::Struct { impls, .. } => derives_events(ctx, impls@, type_iri),
            ItemEnum::Enum { impls, .. } => derives_events(ctx, impls@, type_iri),
            _ => Seq::empty(),
        },
        None => Seq::empty(),
    }
}

/// The head of a named type node: its class tags, names, owner edges and
/// accessibility, guarded by the visited-types set.
#[verifier::opaque]
pub open spec fn begin_type_emission(
    ctx: Ctx,
    sets: Sets,
    item: Item,
    mod_path: Seq<char>,
    class1: Seq<char>,
    class2: Option<Seq<char>>,
) -> (Option<Seq<char>>, Emission) {
    match item.name {
        Some(n) => {
            let full = mod_path + "::"@ + n@;
            let ti = spec_type_iri(ctx.base, ctx.cname, ctx.cver, full);
            if contains_str(sets.types, ti) {
                (None, emit_nothing(sets))
            } else {
                let head = seq![ev_iri(ti, spec_rdf_type(), class1)] + (match class2 {
                    Some(c) => seq![ev_iri(ti, spec_rdf_type(), c)],
                    None => Seq::empty(),
                }) + seq![
                    ev_lit(ti, spec_tg_name(), n@),
                    ev_lit(ti, spec_tg_full_name(), full),
                    ev_iri(ti, spec_tg_defined_in_assembly(), spec_crate_iri(ctx.base, ctx.cname, ctx.cver)),
                    ev_iri(ti, crate::ontology::spec_tg_in_namespace(), spec_module_iri(ctx.base, ctx.cname, ctx.cver, mod_path)),
                    ev_lit(ti, spec_tg_accessibility(), spec_visibility_str(item.visibility)),
                ];
                (
                    Some(ti),
                    Emission {
                        events: head,
                        sets: Sets { types: sets.types.push(ti), modules: sets.modules },
                    },
                )
            }
        },
        None => (None, emit_nothing(sets)),
    }
}

/// The isGeneric fact, exactly when a type parameter exists.
pub open spec fn is_generic_events(ti: Seq<char>, params: Seq<GenericParamDef>) -> Seq<Event> {
    if sp_has_type_params(params) {
        seq![ev_bool(ti, crate::ontology::spec_tg_is_generic(), true)]
    } else {
        Seq::empty()
    }
}

/// The fields of a struct layout, in declaration order.
pub open spec fn struct_fields_events(ctx: Ctx, kind: StructKind, owner: Seq<char>) -> Seq<Event> {
    match kind {
        StructKind::Plain { fields, .. } => fields_events(ctx, fields@, owner, false),
        StructKind::Tuple(ids) => opt_fields_events(ctx, ids@, owner, false),
        StructKind::Unit => Seq::empty(),
    }
}

/// A struct: node head, isGeneric fact, generics, fields in declaration
/// order, derive facts when enabled.
#[verifier::opaque]
pub open spec fn struct_emission(
    ctx: Ctx,
    sets: Sets,
    item_id: Seq<char>,
    item: Item,
    mod_path: Seq<char>,
) -> Emission {
    let (ti_opt, head) = begin_type_emission(
        ctx,
        sets,
        item,
        mod_path,
        crate::ontology::spec_tg_struct(),
        None,
    );
    match ti_opt {
        None => head,
        Some(ti) => {
            let body = match item.inner {
                ItemEnum::Struct { kind, generics, .. } => {
                    let g = generics_emission(ctx, head.sets, generics.params@, ti);
                    Emission {
                        events: is_generic_events(ti, generics.params@) + g.events
                            + struct_fields_events(ctx, kind, ti),
                        sets: g.sets,
                    }
                },
                _ => emit_nothing(head.sets),
            };
            let d: Seq<Event> = if ctx.derives {
                derives_for_item_events(ctx, item_id, ti)
            } else {
                Seq::empty()
            };
            Emission { events: head.events + body.events + d, sets: body.sets }
        },
    }
}

/// An enum: node head, isGeneric fact, generics, variants in declaration
/// order, derive facts when enabled.
#[verifier::opaque]
pub open spec fn enum_emission(
    ctx: Ctx,
    sets: Sets,
    item_id: Seq<char>,
    item: Item,
    mod_path: Seq<char>,
) -> Emission {
    let (ti_opt, head) = begin_type_emission(
        ctx,
        sets,
        item,
        mod_path,
        crate::ontology::spec_tg_enum(),
        None,
    );
    match ti_opt {
        None => head,
        Some(ti) => {
            let body = match item.inner {
                ItemEnum::Enum { generics, variants, .. } => {
                    let g = generics_emission(ctx, head.sets, generics.params@, ti);
                    Emission {
                        events: is_generic_events(ti, generics.params@) + g.events
                            + variants_events(ctx, variants@, ti),
                        sets: g.sets,
                    }
                },
                _ => emit_nothing(head.sets),
            };
            let d: Seq<Event> = if ctx.derives {
                derives_for_item_events(ctx, item_id, ti)
            } else {
                Seq::empty()
            };
            Emission { events: head.events + body.events + d, sets: body.sets }
        },
    }
}

/// The supertrait edges of a trait, each target given a stub when foreign.
pub open spec fn supertraits_emission(
    ctx: Ctx,
    sets: Sets,
    bounds: Seq<GenericBound>,
    ti: Seq<char>,
) -> Emission
    decreases bounds.len(),
{
    if bounds.len() == 0 {
        emit_nothing(sets)
    } else {
        let prev = supertraits_emission(ctx, sets, bounds.drop_last(), ti);
        match bounds.last() {
            GenericBound::TraitBound { trait_, .. } => {
                let si = spec_resolve_path(ctx.base, ctx.cname, ctx.cver, ctx.index, ctx.paths, trait_);
                let stub = stub_emission(prev.sets, si, trait_.path@);
                Emission {
                    events: prev.events + seq![
                        ev_iri(ti, crate::ontology::spec_rt_super_trait(), si),
                    ] + stub.events,
                    sets: stub.sets,
                }
            },
            _ => prev,
        }
    }
}

/// A trait: node head with both class tags, unsafe and isGeneric facts,
/// generics, supertrait edges, and its methods.
#[verifier::opaque]
pub open spec fn trait_emission(ctx: Ctx, sets: Sets, item: Item, mod_path: Seq<char>) -> Emission {
    let (ti_opt, head) = begin_type_emission(
        ctx,
        sets,
        item,
        mod_path,
        crate::ontology::spec_tg_interface(),
        Some(crate::ontology::spec_rt_trait()),
    );
    match ti_opt {
        None => head,
        Some(ti) => {
            match item.inner {
                ItemEnum::Trait { generics, bounds, items, is_unsafe, .. } => {
                    let uns: Seq<Event> = if is_unsafe {
                        seq![ev_bool(ti, crate::ontology::spec_rt_is_unsafe(), true)]
                    } else {
                        Seq::empty()
                    };
                    let g = generics_emission(ctx, head.sets, generics.params@, ti);
                    let sup = supertraits_emission(ctx, g.sets, bounds@, ti);
                    let m = methods_emission(ctx, sup.sets, items@, ti);
                    Emission {
                        events: head.events + uns + is_generic_events(ti, generics.params@)
                            + g.events + sup.events + m.events,
                        sets: m.sets,
                    }
                },
                _ => head,
            }
        },
    }
}

/// A union: node head, generics, and fields.
#[verifier::opaque]
pub open spec fn union_emission(ctx: Ctx, sets: Sets, item: Item, mod_path: Seq<char>) -> Emission {
    let (ti_opt, head) = begin_type_emission(
        ctx,
        sets,
        item,
        mod_path,
        crate::ontology::spec_rt_union(),
        None,
    );
    match ti_opt {
        None => head,
        Some(ti) => {
            match item.inner {
                ItemEnum::Union { generics, fields, .. } => {
                    let g = generics_emission(ctx, head.sets, generics.params@, ti);
                    Emission {
                        events: head.events + g.events + fields_events(ctx, fields@, ti, false),
                        sets: g.sets,
                    }
                },
                _ => head,
            }
        },
    }
}

/// A type alias: node head and a related-to edge when the target resolves.
#[verifier::opaque]
pub open spec fn type_alias_emission(
    ctx: Ctx,
    sets: Sets,
    item: Item,
    mod_path: Seq<char>,
) -> Emission {
    let (ti_opt, head) = begin_type_emission(
        ctx,
        sets,
        item,
        mod_path,
        crate::ontology::spec_rt_type_alias(),
        None,
    );
    match ti_opt {
        None => head,
        Some(ti) => {
            let rel: Seq<Event> = match item.inner {
                ItemEnum::TypeAlias { type_: Some(target), .. } => match spec_resolve_type(
                    ctx.base,
                    ctx.cname,
                    ctx.cver,
                    ctx.index,
                    ctx.paths,
                    target,
                ) {
                    Some(tgt) => seq![ev_iri(ti, crate::ontology::spec_tg_related_to(), tgt)],
                    None => Seq::empty(),
                },
                _ => Seq::empty(),
            };
            Emission { events: head.events + rel, sets: head.sets }
        },
    }
}

/// One impl member: a method in full, an associated item minimally.
pub open spec fn impl_item_emission(
    ctx: Ctx,
    sets: Sets,
    item_id: Seq<char>,
    owner: Seq<char>,
) -> Emission {
    match assoc_item(ctx.index, item_id) {
        Some(it) => match it.inner {
            ItemEnum::Function { .. } => method_emission(ctx, sets, item_id, owner),
            ItemEnum::AssocType { .. } => match it.name {
                Some(n) => Emission {
                    events: {
                        let mi = spec_member_iri(owner, n@, ""@);
                        seq![
                            ev_iri(mi, spec_rdf_type(), crate::ontology::spec_tg_member()),
                            ev_lit(mi, spec_tg_name(), n@),
                            ev_iri(owner, crate::ontology::spec_tg_has_member(), mi),
                        ]
                    },
                    sets,
                },
                None => emit_nothing(sets),
            },
            ItemEnum::AssocConst { .. } => match it.name {
                Some(n) => Emission {
                    events: {
                        let mi = spec_member_iri(owner, n@, ""@);
                        seq![
                            ev_iri(mi, spec_rdf_type(), crate::ontology::spec_tg_member()),
                            ev_lit(mi, spec_tg_name(), n@),
                            ev_iri(owner, crate::ontology::spec_tg_has_member(), mi),
                        ]
                    },
                    sets,
                },
                None => emit_nothing(sets),
            },
            _ => emit_nothing(sets),
        },
        None => emit_nothing(sets),
    }
}

/// The members of one impl block, in declaration order.
pub open spec fn impl_items_emission(
    ctx: Ctx,
    sets: Sets,
    ids: Seq<Id>,
    owner: Seq<char>,
) -> Emission
    decreases ids.len(),
{
    if ids.len() == 0 {
        emit_nothing(sets)
    } else {
        let prev = impl_items_emission(ctx, sets, ids.drop_last(), owner);
        let last = impl_item_emission(ctx, prev.sets, ids.last().0@, owner);
        Emission { events: prev.events + last.events, sets: last.sets }
    }
}

/// One impl block: nothing for a missing or non-impl item, a synthetic or
/// blanket impl, an unresolvable target, or a target never locally emitted;
/// otherwise a trait-impl node with its edges and a stub for a foreign
/// trait, or an inherent-impl node whose members attach to the target type.
#[verifier::opaque]
pub open spec fn process_impl_emission(ctx: Ctx, sets: Sets, impl_id: Seq<char>) -> Emission {
    match assoc_item(ctx.index, impl_id) {
        Some(it) => match it.inner {
            ItemEnum::Impl { trait_, for_, items, is_synthetic, blanket_impl, .. } => {
                if is_synthetic || blanket_impl is Some {
                    emit_nothing(sets)
                } else {
                    match spec_resolve_type(ctx.base, ctx.cname, ctx.cver, ctx.index, ctx.paths, for_) {
                        Some(fi) => if !contains_str(sets.types, fi) {
                            emit_nothing(sets)
                        } else {
                            let ii = crate::iri::spec_impl_iri(ctx.base, ctx.cname, ctx.cver, impl_id);
                            match trait_ {
                                Some(tp) => {
                                    let tri = spec_resolve_path(ctx.base, ctx.cname, ctx.cver, ctx.index, ctx.paths, tp);
                                    let stub = stub_emission(sets, tri, tp.path@);
                                    let members = impl_items_emission(ctx, stub.sets, items@, ii);
                                    Emission {
                                        events: seq![
                                            ev_iri(ii, spec_rdf_type(), crate::ontology::spec_rt_trait_impl()),
                                            ev_iri(ii, crate::ontology::spec_rt_impl_for(), fi),
                                            ev_iri(ii, crate::ontology::spec_rt_impl_trait(), tri),
                                            ev_iri(fi, crate::ontology::spec_tg_implements(), tri),
                                        ] + stub.events + members.events,
                                        sets: members.sets,
                                    }
                                },
                                None => {
                                    let members = impl_items_emission(ctx, sets, items@, fi);
                                    Emission {
                                        events: seq![
                                            ev_iri(ii, spec_rdf_type(), crate::ontology::spec_rt_inherent_impl()),
                                            ev_iri(ii, crate::ontology::spec_rt_impl_for(), fi),
                                        ] + members.events,
                                        sets: members.sets,
                                    }
                                },
                            }
                        },
                        None => emit_nothing(sets),
                    }
                }
            },
            _ => emit_nothing(sets),
        },
        None => emit_nothing(sets),
    }
}

/// The flat final pass over the whole item tree, in table order.
pub open spec fn all_impls_emission(
    ctx: Ctx,
    sets: Sets,
    entries: Seq<(String, Item)>,
) -> Emission
    decreases entries.len(),
{
    if entries.len() == 0 {
        emit_nothing(sets)
    } else {
        let prev = all_impls_emission(ctx, sets, entries.drop_last());
        if entries.last().1.inner is Impl {
            let last = process_impl_emission(ctx, prev.sets, entries.last().0@);
            Emission { events: prev.events + last.events, sets: last.sets }
        } else {
            prev
        }
    }
}

/// A namespace node, once per distinct dotted path.
pub open spec fn module_node_emission(
    ctx: Ctx,
    sets: Sets,
    path: Seq<char>,
    item: Item,
) -> Emission {
    if contains_str(sets.modules, path) {
        emit_nothing(sets)
    } else {
        Emission {
            events: module_node_events(ctx.base, ctx.cname, ctx.cver, path, item),
            sets: Sets { types: sets.types, modules: sets.modules.push(path) },
        }
    }
}

/// One dispatched child of a module.
#[verifier::opaque]
pub open spec fn walk_item_emission(
    ctx: Ctx,
    sets: Sets,
    item_id: Seq<char>,
    parent_path: Seq<char>,
    fuel: nat,
) -> Emission
    decreases fuel, 2nat, 0nat,
{
    if fuel == 0 {
        emit_nothing(sets)
    } else {
        match assoc_item(ctx.index, item_id) {
            Some(it) => match it.inner {
                ItemEnum::Module { .. } => {
                    let nm = match it.name {
                        Some(n) => n@,
                        None => "unnamed"@,
                    };
                    walk_module_emission(
                        ctx,
                        sets,
                        item_id,
                        parent_path + "::"@ + nm,
                        (fuel - 1) as nat,
                    )
                },
                ItemEnum::Struct { .. } => struct_emission(ctx, sets, item_id, it, parent_path),
                ItemEnum::Enum { .. } => enum_emission(ctx, sets, item_id, it, parent_path),
                ItemEnum::Trait { .. } => trait_emission(ctx, sets, it, parent_path),
                ItemEnum::Function { .. } => module_function_emission(ctx, sets, it, parent_path),
                ItemEnum::Constant { .. } => Emission {
                    events: constant_events(ctx, it, parent_path),
                    sets,
                },
                ItemEnum::Static { .. } => Emission {
                    events: static_events(ctx, it, parent_path),
                    sets,
                },
                ItemEnum::TypeAlias { .. } => type_alias_emission(ctx, sets, it, parent_path),
                ItemEnum::Union { .. } => union_emission(ctx, sets, it, parent_path),
                _ => emit_nothing(sets),
            },
            None => emit_nothing(sets),
        }
    }
}

/// The children of a module, visited in declaration order.
pub open spec fn walk_children_emission(
    ctx: Ctx,
    sets: Sets,
    ids: Seq<Id>,
    path: Seq<char>,
    fuel: nat,
) -> Emission
    decreases fuel, 0nat, ids.len(),
{
    if fuel == 0 || ids.len() == 0 {
        emit_nothing(sets)
    } else {
        let prev = walk_children_emission(ctx, sets, ids.drop_last(), path, fuel);
        let last = walk_item_emission(ctx, prev.sets, ids.last().0@, path, (fuel - 1) as nat);
        Emission { events: prev.events + last.events, sets: last.sets }
    }
}

/// One module: its namespace node (skipped for the root, which doubles as
/// the library node), then its children by dotted-path concatenation.
#[verifier::opaque]
pub open spec fn walk_module_emission(
    ctx: Ctx,
    sets: Sets,
    item_id: Seq<char>,
    path: Seq<char>,
    fuel: nat,
) -> Emission
    decreases fuel, 1nat, 0nat,
{
    if fuel == 0 {
        emit_nothing(sets)
    } else {
        match assoc_item(ctx.index, item_id) {
            Some(it) => match it.inner {
                ItemEnum::Module { items, .. } => {
                    let head = if item_id == ctx.root {
                        emit_nothing(sets)
                    } else {
                        module_node_emission(ctx, sets, path, it)
                    };
                    let children = walk_children_emission(ctx, head.sets, items@, path, fuel);
                    Emission { events: head.events + children.events, sets: children.sets }
                },
                _ => emit_nothing(sets),
            },
            None => emit_nothing(sets),
        }
    }
}

proof fn lemma_walk_item_module(
    ctx: Ctx,
    sets: Sets,
    item_id: Seq<char>,
    parent_path: Seq<char>,
    fuel: nat,
    it: Item,
)
    requires
        fuel > 0,
        assoc_item(ctx.index, item_id) == Some(it),
        it.inner is Module,
    ensures
        walk_item_emission(ctx, sets, item_id, parent_path, fuel) == walk_module_emission(
            ctx,
            sets,
            item_id,
            parent_path + "::"@ + (match it.name {
                Some(n) => n@,
                None => "unnamed"@,
            }),
            (fuel - 1) as nat,
        ),
{
    reveal_with_fuel(walk_item_emission, 1);
    reveal(walk_module_emission);
}

proof fn lemma_walk_children_step(
    ctx: Ctx,
    sets: Sets,
    ids: Seq<Id>,
    path: Seq<char>,
    fuel: nat,
    i: int,
)
    requires
        0 <= i < ids.len(),
        fuel > 0,
    ensures
        ({
            let prev = walk_children_emission(ctx, sets, ids.take(i), path, fuel);
            let last = walk_item_emission(ctx, prev.sets, ids[i].0@, path, (fuel - 1) as nat);
            walk_children_emission(ctx, sets, ids.take(i + 1), path, fuel) == Emission {
                events: prev.events + last.events,
                sets: last.sets,
            }
        }),
{
    reveal(walk_item_emission);
    assert(ids.take(i + 1).drop_last() =~= ids.take(i));
    assert(ids.take(i + 1).last() == ids[i]);
}

/// The walk's recursion allowance: more than the deepest possible module
/// nesting of any document of this size.
pub open spec fn sp_fuel(n: nat) -> nat {
    if n <= ((usize::MAX - 2) as nat) / 2 {
        2 * n + 2
    } else {
        usize::MAX as nat
    }
}

/// The whole pipeline: prefix registrations, the library node, dependency
/// stubs, the tree walk from the root, and — only when enabled — the final
/// impl pass, appended after everything else.
#[verifier::opaque]
pub open spec fn pipeline_emission(ctx: Ctx, sets: Sets, include_impls: bool) -> Emission {
    let ci = spec_crate_iri(ctx.base, ctx.cname, ctx.cver);
    let fixed = prefix_events() + crate_node_events(ci, ctx.cname, ctx.cver) + dep_events(
        ctx.base,
        ci,
        ctx.exts,
    );
    let w = walk_module_emission(ctx, sets, ctx.root, ctx.cname, sp_fuel(ctx.index.len()));
    let imp = if include_impls {
        all_impls_emission(ctx, w.sets, ctx.index)
    } else {
        emit_nothing(w.sets)
    };
    Emission { events: fixed + w.events + imp.events, sets: imp.sets }
}

impl<'a, E: TriplesEmitter> CrateExtractor<'a, E> {
    /// The sink's emission history.
    pub closed spec fn hist(&self) -> Seq<Event> {
        self.emitter.history()
    }

    /// The sink is internally consistent.
    pub closed spec fn wf(&self) -> bool {
        self.emitter.wf()
    }

    /// The visited-types set.
    pub closed spec fn types_view(&self) -> Seq<Seq<char>> {
        strings_view(self.emitted_types@)
    }

    /// The visited-namespaces set.
    pub closed spec fn modules_view(&self) -> Seq<Seq<char>> {
        strings_view(self.emitted_modules@)
    }

    /// Both visited sets together.
    pub closed spec fn sets(&self) -> Sets {
        Sets { types: self.types_view(), modules: self.modules_view() }
    }

    /// Everything the traversal reads.
    pub closed spec fn ctx(&self) -> Ctx {
        Ctx {
            base: self.iris@,
            cname: self.crate_name@,
            cver: self.crate_version@,
            root: self.krate.root.0@,
            index: self.krate.index@,
            paths: self.krate.paths@,
            exts: self.krate.external_crates@,
            error_types: self.options.extract_error_types,
            derives: self.options.extract_derives,
        }
    }

    /// Everything but the sink and the visited sets is unchanged.
    pub closed spec fn frame_eq(&self, other: &Self) -> bool {
        &&& self.iris == other.iris
        &&& self.krate == other.krate
        &&& self.crate_name == other.crate_name
        &&& self.crate_version == other.crate_version
        &&& self.options.base_uri == other.options.base_uri
        &&& self.options.include_impls == other.options.include_impls
        &&& self.options.include_attributes == other.options.include_attributes
        &&& self.options.extract_error_types == other.options.extract_error_types
        &&& self.options.extract_derives == other.options.extract_derives
    }

    /// The library's name, as determined from the root item.
    pub closed spec fn name_view(&self) -> Seq<char> {
        self.crate_name@
    }

    /// The library's version label.
    pub closed spec fn version_view(&self) -> Seq<char> {
        self.crate_version@
    }

    /// Whether the final impl pass is enabled.
    pub closed spec fn include_impls_view(&self) -> bool {
        self.options.include_impls
    }

    /// The library node's identifier.
    pub closed spec fn crate_iri_view(&self) -> Seq<char> {
        spec_crate_iri(self.iris@, self.crate_name@, self.crate_version@)
    }

    spec fn res_ty(&self, ty: Type) -> Option<Seq<char>> {
        spec_resolve_type(
            self.iris@,
            self.crate_name@,
            self.crate_version@,
            self.krate.index@,
            self.krate.paths@,
            ty,
        )
    }

    /// Create an extractor over a parsed document. The library's name comes
    /// from the root item, and its version from the document, with fixed
    /// fallbacks for either.
    pub fn new(emitter: E, krate: &'a Crate, options: ExtractionOptions) -> (r: Self)
        requires
            emitter.wf(),
        ensures
            r.wf(),
            r.hist() == emitter.history(),
            r.types_view().len() == 0,
            r.modules_view().len() == 0,
            r.name_view() == match assoc_item(krate.index@, krate.root.0@) {
                Some(it) => match it.name {
                    Some(n) => n@,
                    None => "unknown"@,
                },
                None => "unknown"@,
            },
            r.version_view() == match krate.crate_version {
                Some(v) => v@,
                None => "0.0.0"@,
            },
    {
        let crate_name: String = match index_get(krate, krate.root.0.as_str()) {
            Some(item) => match &item.name {
                Some(n) => n.clone(),
                None => {
                    let v = str_to_chars("unknown");
                    chars_to_string(&v)
                },
            },
            None => {
                let v = str_to_chars("unknown");
                chars_to_string(&v)
            },
        };
        let crate_version: String = match &krate.crate_version {
            Some(v) => v.clone(),
            None => {
                let v = str_to_chars("0.0.0");
                chars_to_string(&v)
            },
        };
        let iris = IriMinter::new(options.base_uri.as_str());
        CrateExtractor {
            emitter,
            iris,
            krate,
            crate_name,
            crate_version,
            options,
            emitted_types: Vec::new(),
            emitted_modules: Vec::new(),
        }
    }

    /// Take the sink back, with everything that was emitted.
    pub fn into_emitter(self) -> (r: E)
        ensures
            self.wf() ==> r.wf(),
            r.history() == self.hist(),
    {
        self.emitter
    }

    /// Borrow the sink.
    pub fn emitter(&self) -> (r: &E)
        ensures
            self.wf() ==> r.wf(),
            r.history() == self.hist(),
    {
        &self.emitter
    }

    // -- sink call wrappers, each adding exactly one statement --
    fn e_iri(&mut self, s: &str, p: &str, o: &str)
        requires
            old(self).wf(),
        ensures
            final(self).wf(),
            final(self).frame_eq(old(self)),
            final(self).types_view() == old(self).types_view(),
            final(self).modules_view() == old(self).modules_view(),
            final(self).hist() == old(self).hist().push(ev_iri(s@, p@, o@)),
            extends_without_prefixes(old(self).hist(), final(self).hist()),
    {
        let ghost h0 = self.emitter.history();
        self.emitter.emit_iri(s, p, o);
        proof {
            let e = ev_iri(s@, p@, o@);
            assert(h0.push(e) =~= h0 + seq![e]);
            lemma_extends_concat(h0, seq![e]);
        }
    }

    fn e_lit(&mut self, s: &str, p: &str, v: &str)
        requires
            old(self).wf(),
        ensures
            final(self).wf(),
            final(self).frame_eq(old(self)),
            final(self).types_view() == old(self).types_view(),
            final(self).modules_view() == old(self).modules_view(),
            final(self).hist() == old(self).hist().push(ev_lit(s@, p@, v@)),
            extends_without_prefixes(old(self).hist(), final(self).hist()),
    {
        let ghost h0 = self.emitter.history();
        self.emitter.emit_literal(s, p, v);
        proof {
            let e = ev_lit(s@, p@, v@);
            assert(h0.push(e) =~= h0 + seq![e]);
            lemma_extends_concat(h0, seq![e]);
        }
    }

    fn e_bool(&mut self, s: &str, p: &str, b: bool)
        requires
            old(self).wf(),
        ensures
            final(self).wf(),
            final(self).frame_eq(old(self)),
            final(self).types_view() == old(self).types_view(),
            final(self).modules_view() == old(self).modules_view(),
            final(self).hist() == old(self).hist().push(ev_bool(s@, p@, b)),
            extends_without_prefixes(old(self).hist(), final(self).hist()),
    {
        let ghost h0 = self.emitter.history();
        self.emitter.emit_bool(s, p, b);
        proof {
            let e = ev_bool(s@, p@, b);
            assert(h0.push(e) =~= h0 + seq![e]);
            lemma_extends_concat(h0, seq![e]);
        }
    }

    fn e_int(&mut self, s: &str, p: &str, v: i64)
        requires
            old(self).wf(),
        ensures
            final(self).wf(),
            final(self).frame_eq(old(self)),
            final(self).types_view() == old(self).types_view(),
            final(self).modules_view() == old(self).modules_view(),
            final(self).hist() == old(self).hist().push(ev_int(s@, p@, v as int)),
            extends_without_prefixes(old(self).hist(), final(self).hist()),
    {
        let ghost h0 = self.emitter.history();
        self.emitter.emit_int(s, p, v);
        proof {
            let e = ev_int(s@, p@, v as int);
            assert(h0.push(e) =~= h0 + seq![e]);
            lemma_extends_concat(h0, seq![e]);
        }
    }

    // -- pure resolution --
    /// Resolve a path reference to an identifier: the side table's dotted
    /// path wins, then the local item's own name, then the raw path string.
    fn resolve_path_to_iri(&self, path: &ResolvedPath) -> (r: String)
        ensures
            r@ == spec_resolve_path(
                self.iris@,
                self.crate_name@,
                self.crate_version@,
                self.krate.index@,
                self.krate.paths@,
                *path,
            ),
    {
        match &path.id {
            Some(id) => {
                match paths_get(self.krate, id.0.as_str()) {
                    Some(summary) => {
                        let full = join_path(&summary.path);
                        self.iris.type_iri(
                            self.crate_name.as_str(),
                            self.crate_version.as_str(),
                            full.as_str(),
                        )
                    },
                    None => {
                        match index_get(self.krate, id.0.as_str()) {
                            Some(item) => match &item.name {
                                Some(n) => self.iris.type_iri(
                                    self.crate_name.as_str(),
                                    self.crate_version.as_str(),
                                    n.as_str(),
                                ),
                                None => self.iris.type_iri(
                                    self.crate_name.as_str(),
                                    self.crate_version.as_str(),
                                    path.path.as_str(),
                                ),
                            },
                            None => self.iris.type_iri(
                                self.crate_name.as_str(),
                                self.crate_version.as_str(),
                                path.path.as_str(),
                            ),
                        }
                    },
                }
            },
            None => self.iris.type_iri(
                self.crate_name.as_str(),
                self.crate_version.as_str(),
                path.path.as_str(),
            ),
        }
    }

    /// Resolve a type reference to an identifier, or to nothing for the
    /// kinds that are not modelled as nodes.
    fn resolve_type_to_iri(&self, ty: &Type) -> (r: Option<String>)
        ensures
            match r {
                Some(s) => self.res_ty(*ty) == Some(s@),
                None => self.res_ty(*ty) is None,
            },
    {
        match ty {
            Type::ResolvedPath(path) => Some(self.resolve_path_to_iri(path)),
            Type::Primitive(name) => Some(self.iris.primitive_type_iri(name.as_str())),
            Type::Tuple(types) => Some(self.iris.tuple_type_iri(types.len())),
            Type::Slice(inner) => {
                let elem = type_display_name(inner);
                Some(self.iris.slice_type_iri(elem.as_str()))
            },
            Type::Array { type_, len } => {
                let elem = type_display_name(type_);
                Some(self.iris.array_type_iri(elem.as_str(), len.as_str()))
            },
            Type::RawPointer { is_mutable, type_ } => {
                let target = type_display_name(type_);
                Some(self.iris.raw_pointer_type_iri(target.as_str(), *is_mutable))
            },
            Type::BorrowedRef { is_mutable, type_, .. } => {
                let target = type_display_name(type_);
                Some(self.iris.ref_type_iri(target.as_str(), *is_mutable))
            },
            Type::Generic(_) => None,
            Type::ImplTrait(_) => None,
            Type::DynTrait(_) => None,
            Type::QualifiedPath { .. } => None,
            Type::FunctionPointer(_) => None,
            Type::Infer => None,
            Type::Unknown => None,
        }
    }
}


proof fn lemma_dep_events_no_prefix(base: Seq<char>, ci: Seq<char>, exts: Seq<(String, ExternalCrate)>)
    ensures
        forall|j: int|
            0 <= j < dep_events(base, ci, exts).len() ==> !(#[trigger] dep_events(
                base,
                ci,
                exts,
            )[j] is Prefix),
    decreases exts.len(),
{
    if exts.len() > 0 {
        lemma_dep_events_no_prefix(base, ci, exts.drop_last());
        let rest = dep_events(base, ci, exts.drop_last());
        let one = dep_one_events(base, ci, exts.last().1.name@);
        assert forall|j: int| 0 <= j < dep_events(base, ci, exts).len() implies !(
        #[trigger] dep_events(base, ci, exts)[j] is Prefix) by {
            if j < rest.len() {
                assert(dep_events(base, ci, exts)[j] == rest[j]);
            } else {
                assert(dep_events(base, ci, exts)[j] == one[j - rest.len()]);
            }
        }
    }
}

/// `a::b` for a parent path and a name.
fn dotted(a: &str, b: &str) -> (r: String)
    ensures
        r@ == a@ + "::"@ + b@,
{
    let mut out = str_to_chars(a);
    append_str(&mut out, "::");
    append_str(&mut out, b);
    proof {
        assert(out@ =~= a@ + "::"@ + b@);
    }
    chars_to_string(&out)
}

/// Whether a string holds exactly the characters of a literal.
fn string_is(s: &String, lit: &str) -> (r: bool)
    ensures
        r == (s@ == lit@),
{
    let a = str_to_chars(s.as_str());
    let b = str_to_chars(lit);
    chars_eq(&a, &b)
}

/// Whether `s` ends with `suffix`.
fn str_ends_with(s: &str, suffix: &str) -> (r: bool)
    ensures
        r == (s@.len() >= suffix@.len() && s@.skip(s@.len() - suffix@.len()) == suffix@),
{
    let sc = str_to_chars(s);
    let fc = str_to_chars(suffix);
    if fc.len() > sc.len() {
        return false;
    }
    let n = sc.len();
    let start = n - fc.len();
    let mut i: usize = 0;
    while i < fc.len()
        invariant
            i <= fc@.len(),
            fc@.len() <= sc@.len(),
            n == sc@.len(),
            start == sc@.len() - fc@.len(),
            sc@ == s@,
            fc@ == suffix@,
            forall|j: int| 0 <= j < i ==> sc@[start + j] == fc@[j],
        decreases fc@.len() - i,
    {
        proof {
            assert(start + i < n);
        }
        if sc[start + i] != fc[i] {
            proof {
                assert(s@.skip(s@.len() - suffix@.len())[i as int] == sc@[start + i]);
            }
            return false;
        }
        i = i + 1;
    }
    proof {
        assert(s@.skip(s@.len() - suffix@.len()) =~= suffix@);
    }
    true
}

impl<'a, E: TriplesEmitter> CrateExtractor<'a, E> {
    /// Register the standard and ontology namespace prefixes. Always invoked
    /// first, whatever the sink, so behavior is sink-agnostic.
    fn register_prefixes(&mut self)
        requires
            old(self).wf(),
        ensures
            final(self).wf(),
            final(self).frame_eq(old(self)),
            final(self).types_view() == old(self).types_view(),
            final(self).modules_view() == old(self).modules_view(),
            final(self).hist() == old(self).hist() + prefix_events(),
    {
        let ghost h0 = self.emitter.history();
        self.emitter.add_prefix("rdf", ontology::rdf_ns());
        self.emitter.add_prefix("rdfs", ontology::rdfs_ns());
        self.emitter.add_prefix("xsd", ontology::xsd_ns());
        self.emitter.add_prefix(ontology::tg_prefix(), ontology::tg_ns());
        self.emitter.add_prefix(ontology::rt_prefix(), ontology::rt_ns());
        proof {
            assert(self.emitter.history() =~= h0 + prefix_events());
        }
    }

    /// Emit the library node.
    fn emit_crate_node(&mut self)
        requires
            old(self).wf(),
        ensures
            final(self).wf(),
            final(self).frame_eq(old(self)),
            final(self).types_view() == old(self).types_view(),
            final(self).modules_view() == old(self).modules_view(),
            final(self).hist() == old(self).hist() + crate_node_events(
                old(self).crate_iri_view(),
                old(self).name_view(),
                old(self).version_view(),
            ),
            extends_without_prefixes(old(self).hist(), final(self).hist()),
    {
        broadcast use lemma_extends_trans;

        let ghost h0 = self.hist();
        let crate_iri = self.iris.crate_iri(self.crate_name.as_str(), self.crate_version.as_str());
        self.e_iri(crate_iri.as_str(), ontology::rdf_type(), ontology::rt_crate());
        self.e_iri(crate_iri.as_str(), ontology::rdf_type(), ontology::tg_assembly());
        let name = self.crate_name.clone();
        self.e_lit(crate_iri.as_str(), ontology::tg_name(), name.as_str());
        self.e_lit(crate_iri.as_str(), ontology::tg_language(), "rust");
        let version = self.crate_version.clone();
        self.e_lit(crate_iri.as_str(), ontology::tg_version(), version.as_str());
        proof {
            assert(self.hist() =~= h0 + crate_node_events(
                old(self).crate_iri_view(),
                old(self).name_view(),
                old(self).version_view(),
            ));
        }
    }

    /// Emit a dependency edge and a minimal stub node for every external
    /// library unit; externals are never expanded further.
    fn emit_external_crates(&mut self)
        requires
            old(self).wf(),
        ensures
            final(self).wf(),
            final(self).frame_eq(old(self)),
            final(self).types_view() == old(self).types_view(),
            final(self).modules_view() == old(self).modules_view(),
            final(self).hist() == old(self).hist() + dep_events(
                old(self).iris@,
                old(self).crate_iri_view(),
                old(self).krate.external_crates@,
            ),
            extends_without_prefixes(old(self).hist(), final(self).hist()),
    {
        broadcast use lemma_extends_trans, lemma_extends_refl;

        let ghost h0 = self.hist();
        let ghost base = self.iris@;
        let ghost ci = self.crate_iri_view();
        let ghost exts = self.krate.external_crates@;
        let crate_iri = self.iris.crate_iri(self.crate_name.as_str(), self.crate_version.as_str());
        let kr = self.krate;
        let mut i: usize = 0;
        while i < kr.external_crates.len()
            invariant
                i <= kr.external_crates@.len(),
                old(self).wf(),
                self.wf(),
                self.frame_eq(old(self)),
                self.types_view() == old(self).types_view(),
                self.modules_view() == old(self).modules_view(),
                kr == self.krate,
                exts == kr.external_crates@,
                base == self.iris@,
                ci == self.crate_iri_view(),
                crate_iri@ == ci,
                self.hist() == h0 + dep_events(base, ci, exts.take(i as int)),
                extends_without_prefixes(h0, self.hist()),
                h0 == old(self).hist(),
            decreases kr.external_crates@.len() - i,
        {
            let name = &kr.external_crates[i].1.name;
            let dep_iri = self.iris.crate_iri(name.as_str(), "0.0.0");
            self.e_iri(crate_iri.as_str(), ontology::rt_depends_on(), dep_iri.as_str());
            self.e_iri(dep_iri.as_str(), ontology::rdf_type(), ontology::rt_crate());
            self.e_lit(dep_iri.as_str(), ontology::tg_name(), name.as_str());
            proof {
                assert(exts.take(i + 1).drop_last() =~= exts.take(i as int));
                assert(exts.take(i + 1).last() == exts[i as int]);
                assert(self.hist() =~= h0 + dep_events(base, ci, exts.take(i + 1)));
                lemma_dep_events_no_prefix(base, ci, exts.take(i + 1));
                lemma_extends_concat(h0, dep_events(base, ci, exts.take(i + 1)));
            }
            i = i + 1;
        }
        proof {
            assert(exts.take(exts.len() as int) =~= exts);
        }
    }

    /// Emit a namespace node once per distinct dotted path, with its parent
    /// edge when the path has a parent.
    fn emit_module_node(&mut self, mod_path: &str, item: &Item)
        requires
            old(self).wf(),
        ensures
            final(self).wf(),
            final(self).frame_eq(old(self)),
            final(self).types_view() == old(self).types_view(),
            extends_without_prefixes(old(self).hist(), final(self).hist()),
            set_extended(old(self).modules_view(), final(self).modules_view()),
            contains_str(old(self).modules_view(), mod_path@) ==> final(self).hist() == old(
                self,
            ).hist() && final(self).modules_view() == old(self).modules_view(),
            !contains_str(old(self).modules_view(), mod_path@) ==> final(self).hist() == old(
                self,
            ).hist() + module_node_events(
                old(self).iris@,
                old(self).name_view(),
                old(self).version_view(),
                mod_path@,
                *item,
            ),
            final(self).hist() == old(self).hist() + module_node_emission(
                old(self).ctx(),
                old(self).sets(),
                mod_path@,
                *item,
            ).events,
            final(self).sets() == module_node_emission(
                old(self).ctx(),
                old(self).sets(),
                mod_path@,
                *item,
            ).sets,
            contains_str(final(self).modules_view(), mod_path@),
    {
        broadcast use lemma_extends_trans, lemma_extends_refl, lemma_set_extended_refl,
            lemma_set_extended_push;

        let ghost h0 = self.hist();
        let path_chars = str_to_chars(mod_path);
        if set_contains(&self.emitted_modules, &path_chars) {
            return;
        }
        let path_string = chars_to_string(&path_chars);
        self.emitted_modules.push(path_string);
        proof {
            assert(self.modules_view() =~= strings_view(old(self).emitted_modules@).push(
                mod_path@,
            ));
            assert(contains_str(self.modules_view(), mod_path@)) by {
                assert(self.modules_view()[self.modules_view().len() - 1] == mod_path@);
            }
        }
        let module_iri = self.iris.module_iri(
            self.crate_name.as_str(),
            self.crate_version.as_str(),
            mod_path,
        );
        let crate_iri = self.iris.crate_iri(self.crate_name.as_str(), self.crate_version.as_str());
        self.e_iri(module_iri.as_str(), ontology::rdf_type(), ontology::rt_module());
        self.e_iri(module_iri.as_str(), ontology::rdf_type(), ontology::tg_namespace());
        let name: &str = match &item.name {
            Some(n) => n.as_str(),
            None => mod_path,
        };
        self.e_lit(module_iri.as_str(), ontology::tg_name(), name);
        self.e_lit(module_iri.as_str(), ontology::tg_full_name(), mod_path);
        self.e_iri(module_iri.as_str(), ontology::tg_defined_in_assembly(), crate_iri.as_str());
        let vis = visibility_str(&item.visibility);
        self.e_lit(module_iri.as_str(), ontology::tg_accessibility(), vis);
        match parent_path(&path_chars) {
            Some(pp) => {
                let parent = chars_to_string(&pp);
                let parent_iri = self.iris.module_iri(
                    self.crate_name.as_str(),
                    self.crate_version.as_str(),
                    parent.as_str(),
                );
                self.e_iri(
                    module_iri.as_str(),
                    ontology::tg_parent_namespace(),
                    parent_iri.as_str(),
                );
                proof {
                    assert(self.hist() =~= h0 + module_node_events(
                        old(self).iris@,
                        old(self).name_view(),
                        old(self).version_view(),
                        mod_path@,
                        *item,
                    ));
                }
            },
            None => {
                proof {
                    assert(self.hist() =~= h0 + module_node_events(
                        old(self).iris@,
                        old(self).name_view(),
                        old(self).version_view(),
                        mod_path@,
                        *item,
                    ));
                }
            },
        }
    }

    /// Emit a minimal stub node for a foreign entity, once.
    fn ensure_external_type_emitted(&mut self, type_iri: &str, name: &str)
        requires
            old(self).wf(),
        ensures
            final(self).wf(),
            final(self).frame_eq(old(self)),
            final(self).modules_view() == old(self).modules_view(),
            extends_without_prefixes(old(self).hist(), final(self).hist()),
            set_extended(old(self).types_view(), final(self).types_view()),
            contains_str(final(self).types_view(), type_iri@),
            final(self).hist() == old(self).hist() + stub_emission(
                old(self).sets(),
                type_iri@,
                name@,
            ).events,
            final(self).sets() == stub_emission(old(self).sets(), type_iri@, name@).sets,
    {
        broadcast use lemma_extends_trans, lemma_extends_refl, lemma_set_extended_refl,
            lemma_set_extended_push, lemma_add_empty;

        let ghost h0 = self.hist();
        let ti_chars = str_to_chars(type_iri);
        if set_contains(&self.emitted_types, &ti_chars) {
            return;
        }
        let ti_string = chars_to_string(&ti_chars);
        self.emitted_types.push(ti_string);
        proof {
            assert(self.types_view() =~= strings_view(old(self).emitted_types@).push(type_iri@));
            assert(contains_str(self.types_view(), type_iri@)) by {
                assert(self.types_view()[self.types_view().len() - 1] == type_iri@);
            }
        }
        self.e_iri(type_iri, ontology::rdf_type(), ontology::tg_type());
        self.e_lit(type_iri, ontology::tg_name(), name);
        proof {
            assert(self.hist() =~= h0 + stub_emission(old(self).sets(), type_iri@, name@).events);
        }
    }

    /// Emit one field node under its owner, with its resolved type when the
    /// reference resolves.
    fn extract_field(&mut self, field_id: &str, owner_iri: &str)
        requires
            old(self).wf(),
        ensures
            final(self).wf(),
            final(self).frame_eq(old(self)),
            final(self).types_view() == old(self).types_view(),
            final(self).modules_view() == old(self).modules_view(),
            extends_without_prefixes(old(self).hist(), final(self).hist()),
            final(self).hist() == old(self).hist() + field_events(
                old(self).iris@,
                old(self).name_view(),
                old(self).version_view(),
                old(self).krate.index@,
                old(self).krate.paths@,
                field_id@,
                owner_iri@,
            ),
    {
        broadcast use lemma_extends_trans, lemma_extends_refl;

        let ghost h0 = self.hist();
        let ghost evs = field_events(
            self.iris@,
            self.crate_name@,
            self.crate_version@,
            self.krate.index@,
            self.krate.paths@,
            field_id@,
            owner_iri@,
        );
        let kr = self.krate;
        let item = match index_get(kr, field_id) {
            Some(i) => i,
            None => {
                proof {
                    assert(self.hist() =~= h0 + evs);
                }
                return;
            },
        };
        let name: &str = match &item.name {
            Some(n) => n.as_str(),
            None => "unnamed",
        };
        match &item.inner {
            ItemEnum::StructField(ty) => {
                let field_iri = self.iris.member_iri(owner_iri, name, "");
                proof {
                    reveal_strlit("");
                }
                self.e_iri(field_iri.as_str(), ontology::rdf_type(), ontology::tg_field());
                self.e_lit(field_iri.as_str(), ontology::tg_name(), name);
                self.e_iri(owner_iri, ontology::tg_has_member(), field_iri.as_str());
                self.e_iri(field_iri.as_str(), ontology::tg_member_of(), owner_iri);
                let vis = visibility_str(&item.visibility);
                self.e_lit(field_iri.as_str(), ontology::tg_accessibility(), vis);
                match self.resolve_type_to_iri(ty) {
                    Some(type_iri) => {
                        self.e_iri(
                            field_iri.as_str(),
                            ontology::tg_field_type(),
                            type_iri.as_str(),
                        );
                    },
                    None => (),
                }
                proof {
                    assert(self.hist() =~= h0 + evs);
                }
            },
            _ => {
                proof {
                    assert(self.hist() =~= h0 + evs);
                }
            },
        }
    }
}


impl<'a, E: TriplesEmitter> CrateExtractor<'a, E> {
    /// Emit one enum variant: its node, kind tag, and fields.
    #[verifier::loop_isolation(false)]
    #[verifier::rlimit(100)]
    fn extract_variant(&mut self, variant_id: &str, enum_iri: &str)
        requires
            old(self).wf(),
        ensures
            final(self).wf(),
            final(self).frame_eq(old(self)),
            extends_without_prefixes(old(self).hist(), final(self).hist()),
            set_extended(old(self).types_view(), final(self).types_view()),
            set_extended(old(self).modules_view(), final(self).modules_view()),
            final(self).hist() == old(self).hist() + variant_events(
                old(self).ctx(),
                variant_id@,
                enum_iri@,
            ),
            final(self).sets() == old(self).sets(),
    {
        broadcast use lemma_extends_trans, lemma_extends_refl, lemma_extends_concat,
            lemma_set_extended_trans, lemma_set_extended_refl, lemma_set_extended_push,
            lemma_add_empty;

        let ghost h0 = self.hist();

        let kr = self.krate;
        let item = match index_get(kr, variant_id) {
            Some(i) => i,
            None => {
                return;
            },
        };
        let name: &str = match &item.name {
            Some(n) => n.as_str(),
            None => {
                return;
            },
        };
        let variant_iri = self.iris.variant_iri(enum_iri, name);
        self.e_iri(variant_iri.as_str(), ontology::rdf_type(), ontology::rt_enum_variant());
        self.e_lit(variant_iri.as_str(), ontology::tg_name(), name);
        self.e_iri(enum_iri, ontology::rt_has_variant(), variant_iri.as_str());
        let ghost head = self.hist();
        match &item.inner {
            ItemEnum::Variant(data) => {
                match &data.kind {
                    VariantKind::Plain => {
                        self.e_lit(variant_iri.as_str(), ontology::rt_variant_kind(), "plain");
                    },
                    VariantKind::Tuple(field_ids) => {
                        self.e_lit(variant_iri.as_str(), ontology::rt_variant_kind(), "tuple");
                        let ghost kind = self.hist();
                        let ghost ids = field_ids@;
                        let mut i: usize = 0;
                        while i < field_ids.len()
                            invariant
                                i <= field_ids@.len(),
                                self.wf(),
                                self.frame_eq(old(self)),
                                extends_without_prefixes(old(self).hist(), self.hist()),
                                set_extended(old(self).types_view(), self.types_view()),
                                set_extended(old(self).modules_view(), self.modules_view()),
                                self.sets() == old(self).sets(),
                                self.hist() == kind + opt_fields_events(
                                    old(self).ctx(),
                                    ids.take(i as int),
                                    variant_iri@,
                                    true,
                                ),
                            decreases field_ids@.len() - i,
                        {
                            proof {
                                assert(ids.take(i + 1).drop_last() =~= ids.take(i as int));
                                assert(ids.take(i + 1).last() == ids[i as int]);
                            }
                            match &field_ids[i] {
                                Some(fid) => {
                                    self.extract_variant_field(fid.0.as_str(), variant_iri.as_str());
                                },
                                None => (),
                            }
                            i = i + 1;
                            proof {
                                assert(self.hist() =~= kind + opt_fields_events(
                                    old(self).ctx(),
                                    ids.take(i as int),
                                    variant_iri@,
                                    true,
                                ));
                            }
                        }
                        proof {
                            assert(ids.take(ids.len() as int) =~= ids);
                        }
                    },
                    VariantKind::Struct { fields, .. } => {
                        self.e_lit(variant_iri.as_str(), ontology::rt_variant_kind(), "struct");
                        let ghost kind = self.hist();
                        let ghost ids = fields@;
                        let mut i: usize = 0;
                        while i < fields.len()
                            invariant
                                i <= fields@.len(),
                                self.wf(),
                                self.frame_eq(old(self)),
                                extends_without_prefixes(old(self).hist(), self.hist()),
                                set_extended(old(self).types_view(), self.types_view()),
                                set_extended(old(self).modules_view(), self.modules_view()),
                                self.sets() == old(self).sets(),
                                self.hist() == kind + fields_events(
                                    old(self).ctx(),
                                    ids.take(i as int),
                                    variant_iri@,
                                    true,
                                ),
                            decreases fields@.len() - i,
                        {
                            proof {
                                assert(ids.take(i + 1).drop_last() =~= ids.take(i as int));
                                assert(ids.take(i + 1).last() == ids[i as int]);
                            }
                            self.extract_variant_field(fields[i].0.as_str(), variant_iri.as_str());
                            i = i + 1;
                            proof {
                                assert(self.hist() =~= kind + fields_events(
                                    old(self).ctx(),
                                    ids.take(i as int),
                                    variant_iri@,
                                    true,
                                ));
                            }
                        }
                        proof {
                            assert(ids.take(ids.len() as int) =~= ids);
                        }
                    },
                }
            },
            _ => (),
        }
        proof {
            assert(self.hist() =~= h0 + variant_events(old(self).ctx(), variant_id@, enum_iri@));
        }
    }

    /// Emit one field of a variant.
    #[verifier::loop_isolation(false)]
    fn extract_variant_field(&mut self, field_id: &str, variant_iri: &str)
        requires
            old(self).wf(),
        ensures
            final(self).wf(),
            final(self).frame_eq(old(self)),
            extends_without_prefixes(old(self).hist(), final(self).hist()),
            set_extended(old(self).types_view(), final(self).types_view()),
            set_extended(old(self).modules_view(), final(self).modules_view()),
            final(self).hist() == old(self).hist() + variant_field_events(
                old(self).ctx(),
                field_id@,
                variant_iri@,
            ),
            final(self).sets() == old(self).sets(),
    {
        broadcast use lemma_extends_trans, lemma_extends_refl, lemma_extends_concat,
            lemma_set_extended_trans, lemma_set_extended_refl, lemma_set_extended_push,
            lemma_add_empty;

        let ghost h0 = self.hist();

        let kr = self.krate;
        let item = match index_get(kr, field_id) {
            Some(i) => i,
            None => {
                return;
            },
        };
        let name: &str = match &item.name {
            Some(n) => n.as_str(),
            None => "unnamed",
        };
        match &item.inner {
            ItemEnum::StructField(ty) => {
                let field_iri = self.iris.member_iri(variant_iri, name, "");
                self.e_iri(field_iri.as_str(), ontology::rdf_type(), ontology::tg_field());
                self.e_lit(field_iri.as_str(), ontology::tg_name(), name);
                self.e_iri(variant_iri, ontology::rt_variant_field(), field_iri.as_str());
                match self.resolve_type_to_iri(ty) {
                    Some(type_iri) => {
                        self.e_iri(field_iri.as_str(), ontology::tg_field_type(), type_iri.as_str());
                    },
                    None => (),
                }
            },
            _ => (),
        }
        proof {
            assert(self.hist() =~= h0 + variant_field_events(
                old(self).ctx(),
                field_id@,
                variant_iri@,
            ));
        }
    }

    /// Whether any declared generic parameter is a type parameter.
    fn has_type_params(generics: &Generics) -> (r: bool)
        ensures
            r == sp_has_type_params(generics.params@),
    {
        let mut i: usize = 0;
        let mut found = false;
        while i < generics.params.len()
            invariant
                i <= generics.params@.len(),
                found == exists|j: int|
                    0 <= j < i && (#[trigger] generics.params@[j].kind) is Type,
            decreases generics.params@.len() - i,
        {
            match &generics.params[i].kind {
                GenericParamDefKind::Type { .. } => {
                    found = true;
                    proof {
                        assert((generics.params@[i as int].kind) is Type);
                    }
                },
                _ => (),
            }
            i = i + 1;
        }
        found
    }

    /// Emit the common head of a named type node, guarded by the
    /// visited-types set; gives back the minted identifier, or nothing when
    /// the item has no name or was already emitted.
    #[verifier::loop_isolation(false)]
    #[verifier::rlimit(100)]
    #[verifier::spinoff_prover]
    fn begin_type_node(&mut self, item: &Item, mod_path: &str, rdf_class: &str, extra_class: Option<&str>) -> (r: Option<String>)
        requires
            old(self).wf(),
        ensures
            final(self).wf(),
            final(self).frame_eq(old(self)),
            extends_without_prefixes(old(self).hist(), final(self).hist()),
            set_extended(old(self).types_view(), final(self).types_view()),
            final(self).modules_view() == old(self).modules_view(),
            ({
                let be = begin_type_emission(
                    old(self).ctx(),
                    old(self).sets(),
                    *item,
                    mod_path@,
                    rdf_class@,
                    match extra_class {
                        Some(c) => Some(c@),
                        None => None,
                    },
                );
                &&& final(self).hist() == old(self).hist() + be.1.events
                &&& final(self).sets() == be.1.sets
                &&& match r {
                    Some(t) => be.0 == Some(t@),
                    None => be.0 is None,
                }
            }),
            item.name is Some ==> contains_str(
                final(self).types_view(),
                spec_type_iri(
                    old(self).iris@,
                    old(self).name_view(),
                    old(self).version_view(),
                    mod_path@ + "::"@ + item.name->0@,
                ),
            ),
    {
        broadcast use lemma_extends_trans, lemma_extends_refl, lemma_extends_concat,
            lemma_set_extended_trans, lemma_set_extended_refl, lemma_set_extended_push,
            lemma_add_empty;

        proof {
            reveal(begin_type_emission);
        }

        let name: &str = match &item.name {
            Some(n) => n.as_str(),
            None => {
                return None;
            },
        };
        let full_path = dotted(mod_path, name);
        let type_iri = self.iris.type_iri(
            self.crate_name.as_str(),
            self.crate_version.as_str(),
            full_path.as_str(),
        );
        let ti_chars = str_to_chars(type_iri.as_str());
        if set_contains(&self.emitted_types, &ti_chars) {
            return None;
        }
        let ti_string = chars_to_string(&ti_chars);
        self.emitted_types.push(ti_string);
        proof {
            assert(self.types_view() =~= strings_view(old(self).emitted_types@).push(type_iri@));
            assert(contains_str(self.types_view(), type_iri@)) by {
                assert(self.types_view()[self.types_view().len() - 1] == type_iri@);
            }
        }
        let crate_iri = self.iris.crate_iri(self.crate_name.as_str(), self.crate_version.as_str());
        let module_iri = self.iris.module_iri(
            self.crate_name.as_str(),
            self.crate_version.as_str(),
            mod_path,
        );
        self.e_iri(type_iri.as_str(), ontology::rdf_type(), rdf_class);
        match extra_class {
            Some(c) => {
                self.e_iri(type_iri.as_str(), ontology::rdf_type(), c);
            },
            None => (),
        }
        self.e_lit(type_iri.as_str(), ontology::tg_name(), name);
        self.e_lit(type_iri.as_str(), ontology::tg_full_name(), full_path.as_str());
        self.e_iri(type_iri.as_str(), ontology::tg_defined_in_assembly(), crate_iri.as_str());
        self.e_iri(type_iri.as_str(), ontology::tg_in_namespace(), module_iri.as_str());
        let vis = visibility_str(&item.visibility);
        self.e_lit(type_iri.as_str(), ontology::tg_accessibility(), vis);
        proof {
            reveal(begin_type_emission);
            let c2 = match extra_class {
                Some(c) => Some(c@),
                None => None::<Seq<char>>,
            };
            let em = begin_type_emission(old(self).ctx(), old(self).sets(), *item, mod_path@, rdf_class@, c2);
            let head = seq![ev_iri(type_iri@, spec_rdf_type(), rdf_class@)] + (match c2 {
                Some(c) => seq![ev_iri(type_iri@, spec_rdf_type(), c)],
                None => Seq::<Event>::empty(),
            }) + seq![
                ev_lit(type_iri@, spec_tg_name(), item.name->0@),
                ev_lit(type_iri@, spec_tg_full_name(), full_path@),
                ev_iri(type_iri@, spec_tg_defined_in_assembly(), crate_iri@),
                ev_iri(type_iri@, crate::ontology::spec_tg_in_namespace(), module_iri@),
                ev_lit(type_iri@, spec_tg_accessibility(), spec_visibility_str(item.visibility)),
            ];
            assert(self.hist() =~= old(self).hist() + head);
            assert(em.1.events =~= head);
        }
        Some(type_iri)
    }

    /// Emit the fields of a struct layout, in declaration order.
    #[verifier::loop_isolation(false)]
    fn extract_struct_fields(&mut self, kind: &'a StructKind, owner_iri: &str)
        requires
            old(self).wf(),
        ensures
            final(self).wf(),
            final(self).frame_eq(old(self)),
            extends_without_prefixes(old(self).hist(), final(self).hist()),
            final(self).sets() == old(self).sets(),
            final(self).hist() == old(self).hist() + struct_fields_events(
                old(self).ctx(),
                *kind,
                owner_iri@,
            ),
    {
        broadcast use lemma_extends_trans, lemma_extends_refl, lemma_add_empty;

        let ghost h0 = self.hist();
        let ghost ctx0 = self.ctx();
        let ghost ti = owner_iri@;
        match kind {
            StructKind::Plain { fields, .. } => {
                let ghost ids = fields@;
                let mut i: usize = 0;
                while i < fields.len()
                    invariant
                        i <= fields@.len(),
                        self.wf(),
                        self.frame_eq(old(self)),
                        extends_without_prefixes(old(self).hist(), self.hist()),
                        self.sets() == old(self).sets(),
                        self.hist() == h0 + fields_events(ctx0, ids.take(i as int), ti, false),
                    decreases fields@.len() - i,
                {
                    proof {
                        assert(ids.take(i + 1).drop_last() =~= ids.take(i as int));
                        assert(ids.take(i + 1).last() == ids[i as int]);
                    }
                    self.extract_field(fields[i].0.as_str(), owner_iri);
                    i = i + 1;
                    proof {
                        assert(self.hist() =~= h0 + fields_events(ctx0, ids.take(i as int), ti, false));
                    }
                }
                proof {
                    assert(ids.take(ids.len() as int) =~= ids);
                }
            },
            StructKind::Tuple(field_ids) => {
                let ghost ids = field_ids@;
                let mut i: usize = 0;
                while i < field_ids.len()
                    invariant
                        i <= field_ids@.len(),
                        self.wf(),
                        self.frame_eq(old(self)),
                        extends_without_prefixes(old(self).hist(), self.hist()),
                        self.sets() == old(self).sets(),
                        self.hist() == h0 + opt_fields_events(ctx0, ids.take(i as int), ti, false),
                    decreases field_ids@.len() - i,
                {
                    proof {
                        assert(ids.take(i + 1).drop_last() =~= ids.take(i as int));
                        assert(ids.take(i + 1).last() == ids[i as int]);
                    }
                    match &field_ids[i] {
                        Some(fid) => {
                            self.extract_field(fid.0.as_str(), owner_iri);
                        },
                        None => (),
                    }
                    i = i + 1;
                    proof {
                        assert(self.hist() =~= h0 + opt_fields_events(ctx0, ids.take(i as int), ti, false));
                    }
                }
                proof {
                    assert(ids.take(ids.len() as int) =~= ids);
                }
            },
            StructKind::Unit => (),
        }
    }

    /// Emit a struct node, its generics, its fields, and its recorded
    /// derives, exactly once per minted identifier.
    #[verifier::loop_isolation(false)]
    #[verifier::rlimit(100)]
    #[verifier::spinoff_prover]
    fn extract_struct(&mut self, item_id: &str, item: &'a Item, mod_path: &str)
        requires
            old(self).wf(),
        ensures
            final(self).wf(),
            final(self).frame_eq(old(self)),
            extends_without_prefixes(old(self).hist(), final(self).hist()),
            set_extended(old(self).types_view(), final(self).types_view()),
            set_extended(old(self).modules_view(), final(self).modules_view()),
            final(self).hist() == old(self).hist() + struct_emission(
                old(self).ctx(),
                old(self).sets(),
                item_id@,
                *item,
                mod_path@,
            ).events,
            final(self).sets() == struct_emission(
                old(self).ctx(),
                old(self).sets(),
                item_id@,
                *item,
                mod_path@,
            ).sets,
    {
        broadcast use lemma_extends_trans, lemma_extends_refl, lemma_extends_concat,
            lemma_set_extended_trans, lemma_set_extended_refl, lemma_set_extended_push,
            lemma_add_empty;

        proof {
            reveal(struct_emission);
        }

        let ghost h0 = self.hist();
        let ghost ctx0 = self.ctx();
        let ghost sets0 = self.sets();
        let ghost be = begin_type_emission(
            ctx0,
            sets0,
            *item,
            mod_path@,
            crate::ontology::spec_tg_struct(),
            None::<Seq<char>>,
        );
        let type_iri = match self.begin_type_node(item, mod_path, ontology::tg_struct(), None) {
            Some(t) => t,
            None => {
                return;
            },
        };
        let ghost ti = type_iri@;
        let ghost h1 = self.hist();
        match &item.inner {
            ItemEnum::Struct { kind, generics, .. } => {
                if Self::has_type_params(generics) {
                    self.e_bool(type_iri.as_str(), ontology::tg_is_generic(), true);
                }
                proof {
                    assert(self.hist() =~= h1 + is_generic_events(ti, generics.params@));
                }
                self.extract_generics(generics, type_iri.as_str());
                let ghost g = generics_emission(ctx0, be.1.sets, generics.params@, ti);
                let ghost h2 = self.hist();
                proof {
                    assert(h2 =~= h1 + is_generic_events(ti, generics.params@) + g.events);
                }
                self.extract_struct_fields(kind, type_iri.as_str());
            },
            _ => (),
        }
        if self.options.extract_derives {
            self.extract_derives_for_item(item_id, type_iri.as_str());
        }
        proof {
            reveal(struct_emission);
            let em = struct_emission(ctx0, sets0, item_id@, *item, mod_path@);
            assert(self.hist() =~= h0 + em.events);
        }
    }

    /// Emit an enum node, its generics, and its variants.
    #[verifier::loop_isolation(false)]
    #[verifier::rlimit(100)]
    fn extract_enum(&mut self, item_id: &str, item: &'a Item, mod_path: &str)
        requires
            old(self).wf(),
        ensures
            final(self).wf(),
            final(self).frame_eq(old(self)),
            extends_without_prefixes(old(self).hist(), final(self).hist()),
            set_extended(old(self).types_view(), final(self).types_view()),
            set_extended(old(self).modules_view(), final(self).modules_view()),
            final(self).hist() == old(self).hist() + enum_emission(
                old(self).ctx(),
                old(self).sets(),
                item_id@,
                *item,
                mod_path@,
            ).events,
            final(self).sets() == enum_emission(
                old(self).ctx(),
                old(self).sets(),
                item_id@,
                *item,
                mod_path@,
            ).sets,
    {
        broadcast use lemma_extends_trans, lemma_extends_refl, lemma_extends_concat,
            lemma_set_extended_trans, lemma_set_extended_refl, lemma_set_extended_push,
            lemma_add_empty;

        proof {
            reveal(enum_emission);
        }

        let ghost h0 = self.hist();
        let ghost ctx0 = self.ctx();
        let ghost sets0 = self.sets();
        let ghost be = begin_type_emission(
            ctx0,
            sets0,
            *item,
            mod_path@,
            crate::ontology::spec_tg_enum(),
            None::<Seq<char>>,
        );
        let type_iri = match self.begin_type_node(item, mod_path, ontology::tg_enum(), None) {
            Some(t) => t,
            None => {
                return;
            },
        };
        let ghost ti = type_iri@;
        let ghost h1 = self.hist();
        match &item.inner {
            ItemEnum::Enum { generics, variants, .. } => {
                if Self::has_type_params(generics) {
                    self.e_bool(type_iri.as_str(), ontology::tg_is_generic(), true);
                }
                proof {
                    assert(self.hist() =~= h1 + is_generic_events(ti, generics.params@));
                }
                self.extract_generics(generics, type_iri.as_str());
                let ghost g = generics_emission(ctx0, be.1.sets, generics.params@, ti);
                let ghost h2 = self.hist();
                proof {
                    assert(h2 =~= h1 + is_generic_events(ti, generics.params@) + g.events);
                }
                let ghost ids = variants@;
                let mut i: usize = 0;
                while i < variants.len()
                    invariant
                        i <= variants@.len(),
                        self.wf(),
                        self.frame_eq(old(self)),
                        extends_without_prefixes(old(self).hist(), self.hist()),
                        set_extended(old(self).types_view(), self.types_view()),
                        set_extended(old(self).modules_view(), self.modules_view()),
                        self.sets() == g.sets,
                        self.hist() == h2 + variants_events(ctx0, ids.take(i as int), ti),
                    decreases variants@.len() - i,
                {
                    proof {
                        assert(ids.take(i + 1).drop_last() =~= ids.take(i as int));
                        assert(ids.take(i + 1).last() == ids[i as int]);
                    }
                    self.extract_variant(variants[i].0.as_str(), type_iri.as_str());
                    i = i + 1;
                    proof {
                        assert(self.hist() =~= h2 + variants_events(ctx0, ids.take(i as int), ti));
                    }
                }
                proof {
                    assert(ids.take(ids.len() as int) =~= ids);
                }
            },
            _ => (),
        }
        if self.options.extract_derives {
            self.extract_derives_for_item(item_id, type_iri.as_str());
        }
        proof {
            reveal(enum_emission);
            let em = enum_emission(ctx0, sets0, item_id@, *item, mod_path@);
            assert(self.hist() =~= h0 + em.events);
        }
    }

    /// Emit the supertrait edges of a trait, each target given a stub when
    /// foreign.
    #[verifier::loop_isolation(false)]
    #[verifier::rlimit(60)]
    fn extract_supertraits(&mut self, bounds: &'a Vec<GenericBound>, ti: &str)
        requires
            old(self).wf(),
        ensures
            final(self).wf(),
            final(self).frame_eq(old(self)),
            extends_without_prefixes(old(self).hist(), final(self).hist()),
            set_extended(old(self).types_view(), final(self).types_view()),
            set_extended(old(self).modules_view(), final(self).modules_view()),
            final(self).hist() == old(self).hist() + supertraits_emission(
                old(self).ctx(),
                old(self).sets(),
                bounds@,
                ti@,
            ).events,
            final(self).sets() == supertraits_emission(
                old(self).ctx(),
                old(self).sets(),
                bounds@,
                ti@,
            ).sets,
    {
        broadcast use lemma_extends_trans, lemma_extends_refl, lemma_set_extended_trans,
            lemma_set_extended_refl, lemma_add_empty;

        let ghost h0 = self.hist();
        let ghost ctx0 = self.ctx();
        let ghost sets0 = self.sets();
        let ghost bs = bounds@;
        let mut i: usize = 0;
        while i < bounds.len()
            invariant
                i <= bounds@.len(),
                self.wf(),
                self.frame_eq(old(self)),
                extends_without_prefixes(old(self).hist(), self.hist()),
                set_extended(old(self).types_view(), self.types_view()),
                set_extended(old(self).modules_view(), self.modules_view()),
                self.hist() == h0 + supertraits_emission(ctx0, sets0, bs.take(i as int), ti@).events,
                self.sets() == supertraits_emission(ctx0, sets0, bs.take(i as int), ti@).sets,
            decreases bounds@.len() - i,
        {
            proof {
                assert(bs.take(i + 1).drop_last() =~= bs.take(i as int));
                assert(bs.take(i + 1).last() == bs[i as int]);
            }
            match &bounds[i] {
                GenericBound::TraitBound { trait_, .. } => {
                    let supertrait_iri = self.resolve_path_to_iri(trait_);
                    self.e_iri(ti, ontology::rt_super_trait(), supertrait_iri.as_str());
                    self.ensure_external_type_emitted(
                        supertrait_iri.as_str(),
                        trait_.path.as_str(),
                    );
                },
                _ => (),
            }
            i = i + 1;
            proof {
                assert(self.hist() =~= h0 + supertraits_emission(
                    ctx0,
                    sets0,
                    bs.take(i as int),
                    ti@,
                ).events);
            }
        }
        proof {
            assert(bs.take(bs.len() as int) =~= bs);
        }
    }

    /// Emit the methods of a trait, in declaration order.
    #[verifier::loop_isolation(false)]
    #[verifier::rlimit(60)]
    fn extract_trait_methods(&mut self, items: &'a Vec<Id>, ti: &str)
        requires
            old(self).wf(),
        ensures
            final(self).wf(),
            final(self).frame_eq(old(self)),
            extends_without_prefixes(old(self).hist(), final(self).hist()),
            set_extended(old(self).types_view(), final(self).types_view()),
            set_extended(old(self).modules_view(), final(self).modules_view()),
            final(self).hist() == old(self).hist() + methods_emission(
                old(self).ctx(),
                old(self).sets(),
                items@,
                ti@,
            ).events,
            final(self).sets() == methods_emission(
                old(self).ctx(),
                old(self).sets(),
                items@,
                ti@,
            ).sets,
    {
        broadcast use lemma_extends_trans, lemma_extends_refl, lemma_set_extended_trans,
            lemma_set_extended_refl, lemma_add_empty;

        let ghost h0 = self.hist();
        let ghost ctx0 = self.ctx();
        let ghost sets0 = self.sets();
        let ghost ms = items@;
        let mut j: usize = 0;
        while j < items.len()
            invariant
                j <= items@.len(),
                self.wf(),
                self.frame_eq(old(self)),
                extends_without_prefixes(old(self).hist(), self.hist()),
                set_extended(old(self).types_view(), self.types_view()),
                set_extended(old(self).modules_view(), self.modules_view()),
                self.hist() == h0 + methods_emission(ctx0, sets0, ms.take(j as int), ti@).events,
                self.sets() == methods_emission(ctx0, sets0, ms.take(j as int), ti@).sets,
            decreases items@.len() - j,
        {
            proof {
                assert(ms.take(j + 1).drop_last() =~= ms.take(j as int));
                assert(ms.take(j + 1).last() == ms[j as int]);
            }
            self.extract_type_method(items[j].0.as_str(), ti);
            j = j + 1;
            proof {
                assert(self.hist() =~= h0 + methods_emission(
                    ctx0,
                    sets0,
                    ms.take(j as int),
                    ti@,
                ).events);
            }
        }
        proof {
            assert(ms.take(ms.len() as int) =~= ms);
        }
    }

    /// Emit a trait node, its supertrait edges (with foreign stubs), and its
    /// methods.
    #[verifier::loop_isolation(false)]
    #[verifier::rlimit(60)]
    fn extract_trait(&mut self, item: &'a Item, mod_path: &str)
        requires
            old(self).wf(),
        ensures
            final(self).wf(),
            final(self).frame_eq(old(self)),
            extends_without_prefixes(old(self).hist(), final(self).hist()),
            set_extended(old(self).types_view(), final(self).types_view()),
            set_extended(old(self).modules_view(), final(self).modules_view()),
            final(self).hist() == old(self).hist() + trait_emission(
                old(self).ctx(),
                old(self).sets(),
                *item,
                mod_path@,
            ).events,
            final(self).sets() == trait_emission(
                old(self).ctx(),
                old(self).sets(),
                *item,
                mod_path@,
            ).sets,
    {
        broadcast use lemma_extends_trans, lemma_extends_refl, lemma_extends_concat,
            lemma_set_extended_trans, lemma_set_extended_refl, lemma_set_extended_push,
            lemma_add_empty;

        proof {
            reveal(trait_emission);
        }

        let ghost h0 = self.hist();
        let ghost ctx0 = self.ctx();
        let ghost sets0 = self.sets();
        let ghost be = begin_type_emission(
            ctx0,
            sets0,
            *item,
            mod_path@,
            crate::ontology::spec_tg_interface(),
            Some(crate::ontology::spec_rt_trait()),
        );
        let type_iri = match self.begin_type_node(
            item,
            mod_path,
            ontology::tg_interface(),
            Some(ontology::rt_trait()),
        ) {
            Some(t) => t,
            None => {
                return;
            },
        };
        let ghost ti = type_iri@;
        let ghost h1 = self.hist();
        match &item.inner {
            ItemEnum::Trait { generics, bounds, items, is_unsafe, .. } => {
                if *is_unsafe {
                    self.e_bool(type_iri.as_str(), ontology::rt_is_unsafe(), true);
                }
                let ghost uns: Seq<Event> = if *is_unsafe {
                    seq![ev_bool(ti, crate::ontology::spec_rt_is_unsafe(), true)]
                } else {
                    Seq::empty()
                };
                if Self::has_type_params(generics) {
                    self.e_bool(type_iri.as_str(), ontology::tg_is_generic(), true);
                }
                proof {
                    assert(self.hist() =~= h1 + uns + is_generic_events(ti, generics.params@));
                }
                self.extract_generics(generics, type_iri.as_str());
                let ghost g = generics_emission(ctx0, be.1.sets, generics.params@, ti);
                let ghost h2 = self.hist();
                proof {
                    assert(h2 =~= h1 + uns + is_generic_events(ti, generics.params@) + g.events);
                }
                self.extract_supertraits(bounds, type_iri.as_str());
                self.extract_trait_methods(items, type_iri.as_str());
            },
            _ => (),
        }
        proof {
            reveal(trait_emission);
            let em = trait_emission(ctx0, sets0, *item, mod_path@);
            assert(self.hist() =~= h0 + em.events);
        }
    }

    /// Emit a union node, its generics, and its fields.
    #[verifier::loop_isolation(false)]
    fn extract_union(&mut self, item: &'a Item, mod_path: &str)
        requires
            old(self).wf(),
        ensures
            final(self).wf(),
            final(self).frame_eq(old(self)),
            extends_without_prefixes(old(self).hist(), final(self).hist()),
            set_extended(old(self).types_view(), final(self).types_view()),
            set_extended(old(self).modules_view(), final(self).modules_view()),
            final(self).hist() == old(self).hist() + union_emission(
                old(self).ctx(),
                old(self).sets(),
                *item,
                mod_path@,
            ).events,
            final(self).sets() == union_emission(
                old(self).ctx(),
                old(self).sets(),
                *item,
                mod_path@,
            ).sets,
    {
        broadcast use lemma_extends_trans, lemma_extends_refl, lemma_extends_concat,
            lemma_set_extended_trans, lemma_set_extended_refl, lemma_set_extended_push,
            lemma_add_empty;

        proof {
            reveal(union_emission);
        }

        let ghost h0 = self.hist();
        let ghost ctx0 = self.ctx();
        let ghost sets0 = self.sets();
        let ghost be = begin_type_emission(
            ctx0,
            sets0,
            *item,
            mod_path@,
            crate::ontology::spec_rt_union(),
            None::<Seq<char>>,
        );
        let type_iri = match self.begin_type_node(item, mod_path, ontology::rt_union(), None) {
            Some(t) => t,
            None => {
                return;
            },
        };
        let ghost ti = type_iri@;
        match &item.inner {
            ItemEnum::Union { generics, fields, .. } => {
                self.extract_generics(generics, type_iri.as_str());
                let ghost g = generics_emission(ctx0, be.1.sets, generics.params@, ti);
                let ghost h2 = self.hist();
                let ghost ids = fields@;
                let mut i: usize = 0;
                while i < fields.len()
                    invariant
                        i <= fields@.len(),
                        self.wf(),
                        self.frame_eq(old(self)),
                        extends_without_prefixes(old(self).hist(), self.hist()),
                        set_extended(old(self).types_view(), self.types_view()),
                        set_extended(old(self).modules_view(), self.modules_view()),
                        self.sets() == g.sets,
                        self.hist() == h2 + fields_events(ctx0, ids.take(i as int), ti, false),
                    decreases fields@.len() - i,
                {
                    proof {
                        assert(ids.take(i + 1).drop_last() =~= ids.take(i as int));
                        assert(ids.take(i + 1).last() == ids[i as int]);
                    }
                    self.extract_field(fields[i].0.as_str(), type_iri.as_str());
                    i = i + 1;
                    proof {
                        assert(self.hist() =~= h2 + fields_events(ctx0, ids.take(i as int), ti, false));
                    }
                }
                proof {
                    assert(ids.take(ids.len() as int) =~= ids);
                }
            },
            _ => (),
        }
        proof {
            reveal(union_emission);
            let em = union_emission(ctx0, sets0, *item, mod_path@);
            assert(self.hist() =~= h0 + em.events);
        }
    }

    /// Emit a type-alias node, with a related-to edge to its resolved target
    /// when present.
    #[verifier::loop_isolation(false)]
    fn extract_type_alias(&mut self, item: &'a Item, mod_path: &str)
        requires
            old(self).wf(),
        ensures
            final(self).wf(),
            final(self).frame_eq(old(self)),
            extends_without_prefixes(old(self).hist(), final(self).hist()),
            set_extended(old(self).types_view(), final(self).types_view()),
            set_extended(old(self).modules_view(), final(self).modules_view()),
            final(self).hist() == old(self).hist() + type_alias_emission(
                old(self).ctx(),
                old(self).sets(),
                *item,
                mod_path@,
            ).events,
            final(self).sets() == type_alias_emission(
                old(self).ctx(),
                old(self).sets(),
                *item,
                mod_path@,
            ).sets,
    {
        broadcast use lemma_extends_trans, lemma_extends_refl, lemma_extends_concat,
            lemma_set_extended_trans, lemma_set_extended_refl, lemma_set_extended_push,
            lemma_add_empty;

        proof {
            reveal(type_alias_emission);
        }

        let ghost h0 = self.hist();
        let ghost ctx0 = self.ctx();
        let ghost sets0 = self.sets();
        let type_iri = match self.begin_type_node(item, mod_path, ontology::rt_type_alias(), None) {
            Some(t) => t,
            None => {
                return;
            },
        };
        match &item.inner {
            ItemEnum::TypeAlias { type_: Some(target), .. } => {
                match self.resolve_type_to_iri(target) {
                    Some(target_iri) => {
                        self.e_iri(type_iri.as_str(), ontology::tg_related_to(), target_iri.as_str());
                    },
                    None => (),
                }
            },
            _ => (),
        }
        proof {
            reveal(type_alias_emission);
            let em = type_alias_emission(ctx0, sets0, *item, mod_path@);
            assert(self.hist() =~= h0 + em.events);
        }
    }

    /// Emit a module-level function as a member of its namespace.
    #[verifier::loop_isolation(false)]
    fn extract_module_function(&mut self, item: &'a Item, mod_path: &str)
        requires
            old(self).wf(),
        ensures
            final(self).wf(),
            final(self).frame_eq(old(self)),
            extends_without_prefixes(old(self).hist(), final(self).hist()),
            set_extended(old(self).types_view(), final(self).types_view()),
            set_extended(old(self).modules_view(), final(self).modules_view()),
            final(self).hist() == old(self).hist() + module_function_emission(
                old(self).ctx(),
                old(self).sets(),
                *item,
                mod_path@,
            ).events,
            final(self).sets() == module_function_emission(
                old(self).ctx(),
                old(self).sets(),
                *item,
                mod_path@,
            ).sets,
    {
        broadcast use lemma_extends_trans, lemma_extends_refl, lemma_extends_concat,
            lemma_set_extended_trans, lemma_set_extended_refl, lemma_set_extended_push,
            lemma_add_empty;

        proof {
            reveal(module_function_emission);
        }

        let ghost h0 = self.hist();

        let name: &str = match &item.name {
            Some(n) => n.as_str(),
            None => {
                return;
            },
        };
        let full_path = dotted(mod_path, name);
        let module_iri = self.iris.module_iri(
            self.crate_name.as_str(),
            self.crate_version.as_str(),
            mod_path,
        );
        let fn_iri = self.iris.member_iri(module_iri.as_str(), name, "");
        self.e_iri(fn_iri.as_str(), ontology::rdf_type(), ontology::tg_method());
        self.e_lit(fn_iri.as_str(), ontology::tg_name(), name);
        self.e_lit(fn_iri.as_str(), ontology::tg_full_name(), full_path.as_str());
        self.e_iri(module_iri.as_str(), ontology::tg_has_member(), fn_iri.as_str());
        self.e_iri(fn_iri.as_str(), ontology::tg_member_of(), module_iri.as_str());
        let vis = visibility_str(&item.visibility);
        self.e_lit(fn_iri.as_str(), ontology::tg_accessibility(), vis);
        match &item.inner {
            ItemEnum::Function { sig, generics, header, .. } => {
                self.extract_function_details(fn_iri.as_str(), sig, generics, header);
                if self.options.extract_error_types {
                    self.extract_error_type(fn_iri.as_str(), sig);
                }
            },
            _ => (),
        }
        proof {
            reveal(module_function_emission);
            assert(self.hist() =~= h0 + module_function_emission(
                old(self).ctx(),
                old(self).sets(),
                *item,
                mod_path@,
            ).events);
        }
    }

    /// Emit a method of a trait or an impl. A trait method without a body is
    /// marked abstract.
    #[verifier::loop_isolation(false)]
    fn extract_type_method(&mut self, method_id: &str, owner_iri: &str)
        requires
            old(self).wf(),
        ensures
            final(self).wf(),
            final(self).frame_eq(old(self)),
            extends_without_prefixes(old(self).hist(), final(self).hist()),
            set_extended(old(self).types_view(), final(self).types_view()),
            set_extended(old(self).modules_view(), final(self).modules_view()),
            final(self).hist() == old(self).hist() + method_emission(
                old(self).ctx(),
                old(self).sets(),
                method_id@,
                owner_iri@,
            ).events,
            final(self).sets() == method_emission(
                old(self).ctx(),
                old(self).sets(),
                method_id@,
                owner_iri@,
            ).sets,
        decreases 0nat,
    {
        broadcast use lemma_extends_trans, lemma_extends_refl, lemma_extends_concat,
            lemma_set_extended_trans, lemma_set_extended_refl, lemma_set_extended_push,
            lemma_add_empty;

        proof {
            reveal(method_emission);
        }

        let ghost h0 = self.hist();

        let kr = self.krate;
        let item = match index_get(kr, method_id) {
            Some(i) => i,
            None => {
                return;
            },
        };
        let name: &str = match &item.name {
            Some(n) => n.as_str(),
            None => {
                return;
            },
        };
        let method_iri = self.iris.member_iri(owner_iri, name, "");
        self.e_iri(method_iri.as_str(), ontology::rdf_type(), ontology::tg_method());
        self.e_lit(method_iri.as_str(), ontology::tg_name(), name);
        self.e_iri(owner_iri, ontology::tg_has_member(), method_iri.as_str());
        self.e_iri(method_iri.as_str(), ontology::tg_member_of(), owner_iri);
        let vis = visibility_str(&item.visibility);
        self.e_lit(method_iri.as_str(), ontology::tg_accessibility(), vis);
        match &item.inner {
            ItemEnum::Function { sig, generics, header, has_body } => {
                self.extract_function_details(method_iri.as_str(), sig, generics, header);
                if !*has_body {
                    self.e_bool(method_iri.as_str(), ontology::tg_is_abstract(), true);
                }
                if self.options.extract_error_types {
                    self.extract_error_type(method_iri.as_str(), sig);
                }
            },
            _ => (),
        }
        proof {
            reveal(method_emission);
            assert(self.hist() =~= h0 + method_emission(
                old(self).ctx(),
                old(self).sets(),
                method_id@,
                owner_iri@,
            ).events);
        }
    }

    /// Emit a module-level constant as a member node.
    #[verifier::loop_isolation(false)]
    fn extract_constant(&mut self, item: &'a Item, mod_path: &str)
        requires
            old(self).wf(),
        ensures
            final(self).wf(),
            final(self).frame_eq(old(self)),
            extends_without_prefixes(old(self).hist(), final(self).hist()),
            set_extended(old(self).types_view(), final(self).types_view()),
            set_extended(old(self).modules_view(), final(self).modules_view()),
            final(self).hist() == old(self).hist() + constant_events(
                old(self).ctx(),
                *item,
                mod_path@,
            ),
            final(self).sets() == old(self).sets(),
    {
        broadcast use lemma_extends_trans, lemma_extends_refl, lemma_extends_concat,
            lemma_set_extended_trans, lemma_set_extended_refl, lemma_set_extended_push,
            lemma_add_empty;

        let ghost h0 = self.hist();

        let name: &str = match &item.name {
            Some(n) => n.as_str(),
            None => {
                return;
            },
        };
        let module_iri = self.iris.module_iri(
            self.crate_name.as_str(),
            self.crate_version.as_str(),
            mod_path,
        );
        let const_iri = self.iris.member_iri(module_iri.as_str(), name, "");
        self.e_iri(const_iri.as_str(), ontology::rdf_type(), ontology::tg_field());
        self.e_iri(const_iri.as_str(), ontology::rdf_type(), ontology::rt_constant());
        self.e_lit(const_iri.as_str(), ontology::tg_name(), name);
        self.e_bool(const_iri.as_str(), ontology::tg_is_const(), true);
        self.e_iri(module_iri.as_str(), ontology::tg_has_member(), const_iri.as_str());
        self.e_iri(const_iri.as_str(), ontology::tg_member_of(), module_iri.as_str());
        let vis = visibility_str(&item.visibility);
        self.e_lit(const_iri.as_str(), ontology::tg_accessibility(), vis);
        match &item.inner {
            ItemEnum::Constant { type_, .. } => {
                match self.resolve_type_to_iri(type_) {
                    Some(type_iri) => {
                        self.e_iri(const_iri.as_str(), ontology::tg_field_type(), type_iri.as_str());
                    },
                    None => (),
                }
            },
            _ => (),
        }
        proof {
            assert(self.hist() =~= h0 + constant_events(old(self).ctx(), *item, mod_path@));
        }
    }

    /// Emit a static as a member node, with a mutability flag when true.
    #[verifier::loop_isolation(false)]
    fn extract_static(&mut self, item: &'a Item, mod_path: &str)
        requires
            old(self).wf(),
        ensures
            final(self).wf(),
            final(self).frame_eq(old(self)),
            extends_without_prefixes(old(self).hist(), final(self).hist()),
            set_extended(old(self).types_view(), final(self).types_view()),
            set_extended(old(self).modules_view(), final(self).modules_view()),
            final(self).hist() == old(self).hist() + static_events(
                old(self).ctx(),
                *item,
                mod_path@,
            ),
            final(self).sets() == old(self).sets(),
    {
        broadcast use lemma_extends_trans, lemma_extends_refl, lemma_extends_concat,
            lemma_set_extended_trans, lemma_set_extended_refl, lemma_set_extended_push,
            lemma_add_empty;

        let ghost h0 = self.hist();

        let name: &str = match &item.name {
            Some(n) => n.as_str(),
            None => {
                return;
            },
        };
        let module_iri = self.iris.module_iri(
            self.crate_name.as_str(),
            self.crate_version.as_str(),
            mod_path,
        );
        let static_iri = self.iris.member_iri(module_iri.as_str(), name, "");
        self.e_iri(static_iri.as_str(), ontology::rdf_type(), ontology::rt_static());
        self.e_lit(static_iri.as_str(), ontology::tg_name(), name);
        self.e_iri(module_iri.as_str(), ontology::tg_has_member(), static_iri.as_str());
        self.e_iri(static_iri.as_str(), ontology::tg_member_of(), module_iri.as_str());
        let vis = visibility_str(&item.visibility);
        self.e_lit(static_iri.as_str(), ontology::tg_accessibility(), vis);
        match &item.inner {
            ItemEnum::Static { type_, is_mutable, .. } => {
                if *is_mutable {
                    self.e_bool(static_iri.as_str(), ontology::rt_is_mutable(), true);
                }
                match self.resolve_type_to_iri(type_) {
                    Some(type_iri) => {
                        self.e_iri(static_iri.as_str(), ontology::tg_field_type(), type_iri.as_str());
                    },
                    None => (),
                }
            },
            _ => (),
        }
        proof {
            assert(self.hist() =~= h0 + static_events(old(self).ctx(), *item, mod_path@));
        }
    }

    /// Emit every generic parameter by ordinal: type parameters with their
    /// trait bounds, lifetimes, and const parameters with their types.
    #[verifier::loop_isolation(false)]
    #[verifier::rlimit(60)]
    fn extract_generics(&mut self, generics: &'a Generics, owner_iri: &str)
        requires
            old(self).wf(),
        ensures
            final(self).wf(),
            final(self).frame_eq(old(self)),
            extends_without_prefixes(old(self).hist(), final(self).hist()),
            set_extended(old(self).types_view(), final(self).types_view()),
            set_extended(old(self).modules_view(), final(self).modules_view()),
            final(self).hist() == old(self).hist() + generics_emission(
                old(self).ctx(),
                old(self).sets(),
                generics.params@,
                owner_iri@,
            ).events,
            final(self).sets() == generics_emission(
                old(self).ctx(),
                old(self).sets(),
                generics.params@,
                owner_iri@,
            ).sets,
    {
        broadcast use lemma_extends_trans, lemma_extends_refl, lemma_extends_concat,
            lemma_set_extended_trans, lemma_set_extended_refl, lemma_set_extended_push,
            lemma_add_empty;

        let ghost h0 = self.hist();
        let ghost ps = generics.params@;
        let ghost ctx0 = self.ctx();
        let ghost sets0 = self.sets();
        let mut i: usize = 0;
        while i < generics.params.len()
            invariant
                i <= generics.params@.len(),
                self.wf(),
                self.frame_eq(old(self)),
                extends_without_prefixes(old(self).hist(), self.hist()),
                set_extended(old(self).types_view(), self.types_view()),
                set_extended(old(self).modules_view(), self.modules_view()),
                self.hist() == h0 + generics_emission(ctx0, sets0, ps.take(i as int), owner_iri@).events,
                self.sets() == generics_emission(ctx0, sets0, ps.take(i as int), owner_iri@).sets,
            decreases generics.params@.len() - i,
        {
            proof {
                assert(ps.take(i + 1).drop_last() =~= ps.take(i as int));
                assert(ps.take(i + 1).last() == ps[i as int]);
            }
            let ghost pre = self.hist();
            let ghost pre_sets = self.sets();
            let param = &generics.params[i];
            let ordinal: i64 = if (i as u64) <= (i64::MAX as u64) {
                i as i64
            } else {
                i64::MAX
            };
            match &param.kind {
                GenericParamDefKind::Type { bounds, .. } => {
                    let tp_iri = self.iris.type_parameter_iri(owner_iri, i);
                    self.e_iri(tp_iri.as_str(), ontology::rdf_type(), ontology::tg_type_parameter());
                    self.e_lit(tp_iri.as_str(), ontology::tg_name(), param.name.as_str());
                    self.e_int(tp_iri.as_str(), ontology::tg_ordinal(), ordinal);
                    self.e_iri(owner_iri, ontology::tg_has_type_parameter(), tp_iri.as_str());
                    self.e_iri(tp_iri.as_str(), ontology::tg_type_parameter_of(), owner_iri);
                    let ghost tp_head = self.hist();
                    let ghost tp_sets = self.sets();
                    let ghost bs = bounds@;
                    let mut j: usize = 0;
                    while j < bounds.len()
                        invariant
                            j <= bounds@.len(),
                            self.wf(),
                            self.frame_eq(old(self)),
                            extends_without_prefixes(old(self).hist(), self.hist()),
                            set_extended(old(self).types_view(), self.types_view()),
                            set_extended(old(self).modules_view(), self.modules_view()),
                            tp_iri@ == crate::iri::spec_type_parameter_iri(owner_iri@, i as nat),
                            self.hist() == tp_head + bounds_emission(ctx0, tp_sets, bs.take(j as int), tp_iri@).events,
                            self.sets() == bounds_emission(ctx0, tp_sets, bs.take(j as int), tp_iri@).sets,
                        decreases bounds@.len() - j,
                    {
                        proof {
                            assert(bs.take(j + 1).drop_last() =~= bs.take(j as int));
                            assert(bs.take(j + 1).last() == bs[j as int]);
                        }
                        match &bounds[j] {
                            GenericBound::TraitBound { trait_, .. } => {
                                let bound_iri = self.resolve_path_to_iri(trait_);
                                self.e_iri(
                                    tp_iri.as_str(),
                                    ontology::rt_trait_bound(),
                                    bound_iri.as_str(),
                                );
                                self.ensure_external_type_emitted(
                                    bound_iri.as_str(),
                                    trait_.path.as_str(),
                                );
                            },
                            _ => (),
                        }
                        j = j + 1;
                        proof {
                            assert(self.hist() =~= tp_head + bounds_emission(
                                ctx0,
                                tp_sets,
                                bs.take(j as int),
                                tp_iri@,
                            ).events);
                        }
                    }
                    proof {
                        assert(bs.take(bs.len() as int) =~= bs);
                        assert(self.hist() =~= pre + param_emission(
                            ctx0,
                            pre_sets,
                            ps[i as int],
                            i as int,
                            owner_iri@,
                        ).events);
                    }
                },
                GenericParamDefKind::Lifetime { .. } => {
                    let lt_iri = self.iris.lifetime_iri(owner_iri, param.name.as_str());
                    self.e_iri(lt_iri.as_str(), ontology::rdf_type(), ontology::rt_lifetime());
                    self.e_lit(lt_iri.as_str(), ontology::tg_name(), param.name.as_str());
                    self.e_iri(owner_iri, ontology::rt_has_lifetime(), lt_iri.as_str());
                    proof {
                        assert(self.hist() =~= pre + param_emission(
                            ctx0,
                            pre_sets,
                            ps[i as int],
                            i as int,
                            owner_iri@,
                        ).events);
                    }
                },
                GenericParamDefKind::Const { type_, .. } => {
                    let cp_iri = self.iris.type_parameter_iri(owner_iri, i);
                    self.e_iri(cp_iri.as_str(), ontology::rdf_type(), ontology::rt_const_param());
                    self.e_lit(cp_iri.as_str(), ontology::tg_name(), param.name.as_str());
                    self.e_int(cp_iri.as_str(), ontology::tg_ordinal(), ordinal);
                    self.e_iri(owner_iri, ontology::tg_has_type_parameter(), cp_iri.as_str());
                    match self.resolve_type_to_iri(type_) {
                        Some(type_iri) => {
                            self.e_iri(
                                cp_iri.as_str(),
                                ontology::tg_parameter_type(),
                                type_iri.as_str(),
                            );
                        },
                        None => (),
                    }
                    proof {
                        assert(self.hist() =~= pre + param_emission(
                            ctx0,
                            pre_sets,
                            ps[i as int],
                            i as int,
                            owner_iri@,
                        ).events);
                    }
                },
                GenericParamDefKind::Unknown => (),
            }
            i = i + 1;
            proof {
                assert(self.hist() =~= h0 + generics_emission(
                    ctx0,
                    sets0,
                    ps.take(i as int),
                    owner_iri@,
                ).events);
            }
        }
        proof {
            assert(ps.take(ps.len() as int) =~= ps);
        }
    }

    /// Emit the non-receiver parameters of a signature, by ordinal.
    #[verifier::loop_isolation(false)]
    #[verifier::rlimit(60)]
    fn extract_sig_params(&mut self, fn_iri: &str, sig: &'a FunctionSignature)
        requires
            old(self).wf(),
        ensures
            final(self).wf(),
            final(self).frame_eq(old(self)),
            extends_without_prefixes(old(self).hist(), final(self).hist()),
            set_extended(old(self).types_view(), final(self).types_view()),
            set_extended(old(self).modules_view(), final(self).modules_view()),
            final(self).hist() == old(self).hist() + sig_params_events(
                old(self).ctx(),
                sig.inputs@,
                fn_iri@,
            ),
            final(self).sets() == old(self).sets(),
    {
        broadcast use lemma_extends_trans, lemma_extends_refl, lemma_extends_concat,
            lemma_set_extended_trans, lemma_set_extended_refl, lemma_set_extended_push,
            lemma_add_empty;

        let ghost h0 = self.hist();
        let ghost ctx0 = self.ctx();
        let ghost inputs = sig.inputs@;
        let mut i: usize = 0;
        while i < sig.inputs.len()
            invariant
                i <= sig.inputs@.len(),
                self.wf(),
                self.frame_eq(old(self)),
                extends_without_prefixes(old(self).hist(), self.hist()),
                set_extended(old(self).types_view(), self.types_view()),
                set_extended(old(self).modules_view(), self.modules_view()),
                self.sets() == old(self).sets(),
                self.hist() == h0 + sig_params_events(ctx0, inputs.take(i as int), fn_iri@),
            decreases sig.inputs@.len() - i,
        {
            proof {
                assert(inputs.take(i + 1).drop_last() =~= inputs.take(i as int));
                assert(inputs.take(i + 1).last() == inputs[i as int]);
            }
            let name = &sig.inputs[i].0;
            let ty = &sig.inputs[i].1;
            if !string_is(name, "self") {
                let ordinal: i64 = if (i as u64) <= (i64::MAX as u64) {
                    i as i64
                } else {
                    i64::MAX
                };
                let param_iri = self.iris.parameter_iri(fn_iri, i);
                self.e_iri(param_iri.as_str(), ontology::rdf_type(), ontology::tg_parameter());
                self.e_lit(param_iri.as_str(), ontology::tg_name(), name.as_str());
                self.e_int(param_iri.as_str(), ontology::tg_ordinal(), ordinal);
                self.e_iri(fn_iri, ontology::tg_has_parameter(), param_iri.as_str());
                self.e_iri(param_iri.as_str(), ontology::tg_parameter_of(), fn_iri);
                match self.resolve_type_to_iri(ty) {
                    Some(type_iri) => {
                        self.e_iri(
                            param_iri.as_str(),
                            ontology::tg_parameter_type(),
                            type_iri.as_str(),
                        );
                    },
                    None => (),
                }
            }
            i = i + 1;
            proof {
                assert(self.hist() =~= h0 + sig_params_events(
                    ctx0,
                    inputs.take(i as int),
                    fn_iri@,
                ));
            }
        }
        proof {
            assert(inputs.take(inputs.len() as int) =~= inputs);
        }
    }

    /// Emit the header and genericity facts that are true.
    fn emit_header_flags(&mut self, fn_iri: &str, header: &'a FunctionHeader, generics: &'a Generics)
        requires
            old(self).wf(),
        ensures
            final(self).wf(),
            final(self).frame_eq(old(self)),
            extends_without_prefixes(old(self).hist(), final(self).hist()),
            final(self).sets() == old(self).sets(),
            final(self).hist() == old(self).hist() + header_flag_events(
                fn_iri@,
                *header,
                generics.params@,
            ),
    {
        broadcast use lemma_extends_trans, lemma_extends_refl;

        let ghost h0 = self.hist();
        if header.is_unsafe {
            self.e_bool(fn_iri, ontology::rt_is_unsafe(), true);
        }
        let ghost f1 = if header.is_unsafe {
            seq![ev_bool(fn_iri@, crate::ontology::spec_rt_is_unsafe(), true)]
        } else {
            Seq::<Event>::empty()
        };
        proof {
            assert(self.hist() =~= h0 + f1);
        }
        if header.is_async {
            self.e_bool(fn_iri, ontology::tg_is_async(), true);
        }
        let ghost f2 = f1 + if header.is_async {
            seq![ev_bool(fn_iri@, crate::ontology::spec_tg_is_async(), true)]
        } else {
            Seq::<Event>::empty()
        };
        proof {
            assert(self.hist() =~= h0 + f2);
        }
        if header.is_const {
            self.e_bool(fn_iri, ontology::tg_is_const(), true);
        }
        let ghost f3 = f2 + if header.is_const {
            seq![ev_bool(fn_iri@, crate::ontology::spec_tg_is_const(), true)]
        } else {
            Seq::<Event>::empty()
        };
        proof {
            assert(self.hist() =~= h0 + f3);
        }
        if Self::has_type_params(generics) {
            self.e_bool(fn_iri, ontology::tg_is_generic(), true);
        }
        proof {
            assert(header_flag_events(fn_iri@, *header, generics.params@) =~= f3
                + if sp_has_type_params(generics.params@) {
                seq![ev_bool(fn_iri@, crate::ontology::spec_tg_is_generic(), true)]
            } else {
                Seq::<Event>::empty()
            });
            assert(self.hist() =~= h0 + header_flag_events(fn_iri@, *header, generics.params@));
        }
    }

    /// Emit a function's header flags (only when true), its generics, its
    /// non-receiver parameters in declaration order, and its return type.
    #[verifier::rlimit(30)]
    fn extract_function_details(
        &mut self,
        fn_iri: &str,
        sig: &'a FunctionSignature,
        generics: &'a Generics,
        header: &'a FunctionHeader,
    )
        requires
            old(self).wf(),
        ensures
            final(self).wf(),
            final(self).frame_eq(old(self)),
            extends_without_prefixes(old(self).hist(), final(self).hist()),
            set_extended(old(self).types_view(), final(self).types_view()),
            set_extended(old(self).modules_view(), final(self).modules_view()),
            final(self).hist() == old(self).hist() + function_details_emission(
                old(self).ctx(),
                old(self).sets(),
                fn_iri@,
                *sig,
                *generics,
                *header,
            ).events,
            final(self).sets() == function_details_emission(
                old(self).ctx(),
                old(self).sets(),
                fn_iri@,
                *sig,
                *generics,
                *header,
            ).sets,
    {
        broadcast use lemma_extends_trans, lemma_extends_refl, lemma_set_extended_trans,
            lemma_set_extended_refl;

        let ghost h0 = self.hist();
        let ghost ctx0 = self.ctx();
        let ghost sets0 = self.sets();
        self.emit_header_flags(fn_iri, header, generics);
        let ghost flags_ev = header_flag_events(fn_iri@, *header, generics.params@);
        self.extract_generics(generics, fn_iri);
        let ghost g = generics_emission(ctx0, sets0, generics.params@, fn_iri@);
        proof {
            assert(self.hist() =~= h0 + flags_ev + g.events);
        }
        self.extract_sig_params(fn_iri, sig);
        let ghost params_ev = sig_params_events(ctx0, sig.inputs@, fn_iri@);
        let ghost h3 = self.hist();
        proof {
            assert(h3 =~= h0 + flags_ev + g.events + params_ev);
        }
        match &sig.output {
            Some(ret_type) => {
                match self.resolve_type_to_iri(ret_type) {
                    Some(type_iri) => {
                        self.e_iri(fn_iri, ontology::tg_return_type(), type_iri.as_str());
                    },
                    None => (),
                }
            },
            None => (),
        }
        let ghost ret_ev = ret_events(ctx0, fn_iri@, *sig);
        proof {
            assert(self.hist() =~= h3 + ret_ev);
            lemma_function_details_unfold(ctx0, sets0, fn_iri@, *sig, *generics, *header);
            let em = function_details_emission(ctx0, sets0, fn_iri@, *sig, *generics, *header);
            assert(em.events =~= flags_ev + g.events + params_ev + ret_ev);
            assert(self.hist() =~= h0 + em.events);
        }
    }

    /// Detect a `Result`-shaped return type by path-name match and emit an
    /// error-type edge to its resolved second type argument.
    #[verifier::loop_isolation(false)]
    fn extract_error_type(&mut self, fn_iri: &str, sig: &'a FunctionSignature)
        requires
            old(self).wf(),
        ensures
            final(self).wf(),
            final(self).frame_eq(old(self)),
            extends_without_prefixes(old(self).hist(), final(self).hist()),
            set_extended(old(self).types_view(), final(self).types_view()),
            set_extended(old(self).modules_view(), final(self).modules_view()),
            final(self).hist() == old(self).hist() + error_type_events(
                old(self).ctx(),
                fn_iri@,
                *sig,
            ),
            final(self).sets() == old(self).sets(),
    {
        broadcast use lemma_extends_trans, lemma_extends_refl, lemma_extends_concat,
            lemma_set_extended_trans, lemma_set_extended_refl, lemma_set_extended_push,
            lemma_add_empty;

        let ghost h0 = self.hist();

        match &sig.output {
            Some(Type::ResolvedPath(path)) => {
                let is_result = string_is(&path.path, "Result") || str_ends_with(
                    path.path.as_str(),
                    "::Result",
                );
                if is_result {
                    match &path.args {
                        Some(args_box) => {
                            match &**args_box {
                                GenericArgs::AngleBracketed { args, .. } => {
                                    if args.len() >= 2 {
                                        match &args[1] {
                                            GenericArg::Type(err_type) => {
                                                match self.resolve_type_to_iri(err_type) {
                                                    Some(err_iri) => {
                                                        self.e_iri(
                                                            fn_iri,
                                                            ontology::rt_error_type(),
                                                            err_iri.as_str(),
                                                        );
                                                    },
                                                    None => (),
                                                }
                                            },
                                            _ => (),
                                        }
                                    }
                                },
                                _ => (),
                            }
                        },
                        None => (),
                    }
                }
            },
            _ => (),
        }
        proof {
            assert(self.hist() =~= h0 + error_type_events(old(self).ctx(), fn_iri@, *sig));
        }
    }

    /// Record one literal fact per derived trait name, from the
    /// compiler-synthesized impls attached to the type.
    #[verifier::loop_isolation(false)]
    fn extract_derives_for_item(&mut self, item_id: &str, type_iri: &str)
        requires
            old(self).wf(),
        ensures
            final(self).wf(),
            final(self).frame_eq(old(self)),
            extends_without_prefixes(old(self).hist(), final(self).hist()),
            set_extended(old(self).types_view(), final(self).types_view()),
            set_extended(old(self).modules_view(), final(self).modules_view()),
            final(self).hist() == old(self).hist() + derives_for_item_events(
                old(self).ctx(),
                item_id@,
                type_iri@,
            ),
            final(self).sets() == old(self).sets(),
    {
        broadcast use lemma_extends_trans, lemma_extends_refl, lemma_extends_concat,
            lemma_set_extended_trans, lemma_set_extended_refl, lemma_set_extended_push,
            lemma_add_empty;

        let ghost h0 = self.hist();

        let kr = self.krate;
        let item = match index_get(kr, item_id) {
            Some(i) => i,
            None => {
                return;
            },
        };
        let impl_ids: &Vec<crate::model::Id> = match &item.inner {
            ItemEnum::Struct { impls, .. } => impls,
            ItemEnum::Enum { impls, .. } => impls,
            _ => {
                return;
            },
        };
        let ghost ids = impl_ids@;
        let mut i: usize = 0;
        while i < impl_ids.len()
            invariant
                i <= impl_ids@.len(),
                self.wf(),
                self.frame_eq(old(self)),
                extends_without_prefixes(old(self).hist(), self.hist()),
                set_extended(old(self).types_view(), self.types_view()),
                set_extended(old(self).modules_view(), self.modules_view()),
                self.sets() == old(self).sets(),
                self.hist() == h0 + derives_events(old(self).ctx(), ids.take(i as int), type_iri@),
            decreases impl_ids@.len() - i,
        {
            proof {
                assert(ids.take(i + 1).drop_last() =~= ids.take(i as int));
                assert(ids.take(i + 1).last() == ids[i as int]);
            }
            match index_get(kr, impl_ids[i].0.as_str()) {
                Some(imp_item) => {
                    let mut is_auto_derived = false;
                    let mut j: usize = 0;
                    while j < imp_item.attrs.len()
                        invariant
                            j <= imp_item.attrs@.len(),
                            is_auto_derived == exists|m: int|
                                0 <= m < j && match #[trigger] imp_item.attrs@[m] {
                                    AttrValue::Text(t) => t@ == "automatically_derived"@,
                                    AttrValue::Other => false,
                                },
                        decreases imp_item.attrs@.len() - j,
                    {
                        match &imp_item.attrs[j] {
                            AttrValue::Text(t) => {
                                if string_is(t, "automatically_derived") {
                                    is_auto_derived = true;
                                    proof {
                                        assert(match imp_item.attrs@[j as int] {
                                            AttrValue::Text(t) => t@
                                                == "automatically_derived"@,
                                            AttrValue::Other => false,
                                        });
                                    }
                                }
                            },
                            AttrValue::Other => (),
                        }
                        j = j + 1;
                    }
                    proof {
                        assert(is_auto_derived == sp_is_auto_derived(imp_item.attrs@));
                    }
                    if is_auto_derived {
                        match &imp_item.inner {
                            ItemEnum::Impl { trait_: Some(trait_path), .. } => {
                                self.e_lit(
                                    type_iri,
                                    ontology::rt_derives(),
                                    trait_path.path.as_str(),
                                );
                            },
                            _ => (),
                        }
                    }
                },
                None => (),
            }
            i = i + 1;
            proof {
                assert(self.hist() =~= h0 + derives_events(
                    old(self).ctx(),
                    ids.take(i as int),
                    type_iri@,
                ));
            }
        }
        proof {
            assert(ids.take(ids.len() as int) =~= ids);
            assert(self.hist() =~= h0 + derives_for_item_events(
                old(self).ctx(),
                item_id@,
                type_iri@,
            ));
        }
    }

    /// Emit a member node for an impl item: methods fully, associated items
    /// minimally.
    #[verifier::loop_isolation(false)]
    fn extract_impl_item(&mut self, item_id: &str, owner_iri: &str)
        requires
            old(self).wf(),
        ensures
            final(self).wf(),
            final(self).frame_eq(old(self)),
            extends_without_prefixes(old(self).hist(), final(self).hist()),
            set_extended(old(self).types_view(), final(self).types_view()),
            set_extended(old(self).modules_view(), final(self).modules_view()),
            final(self).hist() == old(self).hist() + impl_item_emission(
                old(self).ctx(),
                old(self).sets(),
                item_id@,
                owner_iri@,
            ).events,
            final(self).sets() == impl_item_emission(
                old(self).ctx(),
                old(self).sets(),
                item_id@,
                owner_iri@,
            ).sets,
    {
        broadcast use lemma_extends_trans, lemma_extends_refl, lemma_extends_concat,
            lemma_set_extended_trans, lemma_set_extended_refl, lemma_set_extended_push,
            lemma_add_empty;

        proof {
            reveal(method_emission);
        }

        let ghost h0 = self.hist();

        let kr = self.krate;
        let item = match index_get(kr, item_id) {
            Some(i) => i,
            None => {
                return;
            },
        };
        match &item.inner {
            ItemEnum::Function { .. } => {
                self.extract_type_method(item_id, owner_iri);
            },
            ItemEnum::AssocType { .. } => {
                match &item.name {
                    Some(name) => {
                        let member_iri = self.iris.member_iri(owner_iri, name.as_str(), "");
                        self.e_iri(member_iri.as_str(), ontology::rdf_type(), ontology::tg_member());
                        self.e_lit(member_iri.as_str(), ontology::tg_name(), name.as_str());
                        self.e_iri(owner_iri, ontology::tg_has_member(), member_iri.as_str());
                    },
                    None => (),
                }
            },
            ItemEnum::AssocConst { .. } => {
                match &item.name {
                    Some(name) => {
                        let member_iri = self.iris.member_iri(owner_iri, name.as_str(), "");
                        self.e_iri(member_iri.as_str(), ontology::rdf_type(), ontology::tg_member());
                        self.e_lit(member_iri.as_str(), ontology::tg_name(), name.as_str());
                        self.e_iri(owner_iri, ontology::tg_has_member(), member_iri.as_str());
                    },
                    None => (),
                }
            },
            _ => (),
        }
        proof {
            reveal(method_emission);
            assert(self.hist() =~= h0 + impl_item_emission(
                old(self).ctx(),
                old(self).sets(),
                item_id@,
                owner_iri@,
            ).events);
        }
    }

    /// Process one impl block: skip synthetic and blanket impls, and impls
    /// whose target type was never locally emitted; emit a trait-impl node
    /// with its edges, or an inherent-impl node whose methods attach to the
    /// target type.
    #[verifier::loop_isolation(false)]
    #[verifier::rlimit(100)]
    #[verifier::spinoff_prover]
    fn process_impl(&mut self, impl_id: &str)
        requires
            old(self).wf(),
        ensures
            final(self).wf(),
            final(self).frame_eq(old(self)),
            extends_without_prefixes(old(self).hist(), final(self).hist()),
            set_extended(old(self).types_view(), final(self).types_view()),
            set_extended(old(self).modules_view(), final(self).modules_view()),
            final(self).hist() == old(self).hist() + process_impl_emission(
                old(self).ctx(),
                old(self).sets(),
                impl_id@,
            ).events,
            final(self).sets() == process_impl_emission(
                old(self).ctx(),
                old(self).sets(),
                impl_id@,
            ).sets,
    {
        broadcast use lemma_extends_trans, lemma_extends_refl, lemma_extends_concat,
            lemma_set_extended_trans, lemma_set_extended_refl, lemma_set_extended_push,
            lemma_add_empty;

        proof {
            reveal(process_impl_emission);
        }
        let ghost h0 = self.hist();
        let ghost ctx0 = self.ctx();
        let ghost sets0 = self.sets();

        let kr = self.krate;
        let item = match index_get(kr, impl_id) {
            Some(i) => i,
            None => {
                return;
            },
        };
        match &item.inner {
            ItemEnum::Impl { trait_, for_, items, is_synthetic, blanket_impl, .. } => {
                if *is_synthetic {
                    return;
                }
                match blanket_impl {
                    Some(_) => {
                        return;
                    },
                    None => (),
                }
                let for_iri = match self.resolve_type_to_iri(for_) {
                    Some(iri) => iri,
                    None => {
                        return;
                    },
                };
                let fi_chars = str_to_chars(for_iri.as_str());
                if !set_contains(&self.emitted_types, &fi_chars) {
                    return;
                }
                let impl_iri = self.iris.impl_iri(
                    self.crate_name.as_str(),
                    self.crate_version.as_str(),
                    impl_id,
                );
                let mut inherent = false;
                match trait_ {
                    Some(trait_path) => {
                        let trait_iri = self.resolve_path_to_iri(trait_path);
                        self.e_iri(impl_iri.as_str(), ontology::rdf_type(), ontology::rt_trait_impl());
                        self.e_iri(impl_iri.as_str(), ontology::rt_impl_for(), for_iri.as_str());
                        self.e_iri(impl_iri.as_str(), ontology::rt_impl_trait(), trait_iri.as_str());
                        self.e_iri(for_iri.as_str(), ontology::tg_implements(), trait_iri.as_str());
                        self.ensure_external_type_emitted(
                            trait_iri.as_str(),
                            trait_path.path.as_str(),
                        );
                    },
                    None => {
                        inherent = true;
                        self.e_iri(
                            impl_iri.as_str(),
                            ontology::rdf_type(),
                            ontology::rt_inherent_impl(),
                        );
                        self.e_iri(impl_iri.as_str(), ontology::rt_impl_for(), for_iri.as_str());
                    },
                }
                let ghost h_head = self.hist();
                let ghost head_sets = self.sets();
                let ghost owner: Seq<char> = if inherent {
                    for_iri@
                } else {
                    impl_iri@
                };
                let ghost ids = items@;
                let mut i: usize = 0;
                while i < items.len()
                    invariant
                        i <= items@.len(),
                        self.wf(),
                        self.frame_eq(old(self)),
                        extends_without_prefixes(old(self).hist(), self.hist()),
                        set_extended(old(self).types_view(), self.types_view()),
                        set_extended(old(self).modules_view(), self.modules_view()),
                        inherent ==> owner == for_iri@,
                        !inherent ==> owner == impl_iri@,
                        self.hist() == h_head + impl_items_emission(ctx0, head_sets, ids.take(i as int), owner).events,
                        self.sets() == impl_items_emission(ctx0, head_sets, ids.take(i as int), owner).sets,
                    decreases items@.len() - i,
                {
                    proof {
                        assert(ids.take(i + 1).drop_last() =~= ids.take(i as int));
                        assert(ids.take(i + 1).last() == ids[i as int]);
                    }
                    if inherent {
                        self.extract_impl_item(items[i].0.as_str(), for_iri.as_str());
                    } else {
                        self.extract_impl_item(items[i].0.as_str(), impl_iri.as_str());
                    }
                    i = i + 1;
                    proof {
                        assert(self.hist() =~= h_head + impl_items_emission(
                            ctx0,
                            head_sets,
                            ids.take(i as int),
                            owner,
                        ).events);
                    }
                }
                proof {
                    assert(ids.take(ids.len() as int) =~= ids);
                    reveal(process_impl_emission);
                    assert(self.hist() =~= h0 + process_impl_emission(ctx0, sets0, impl_id@).events);
                }
            },
            _ => (),
        }
    }

    /// Scan the whole item tree once for impl blocks, in table order, and
    /// process each.
    #[verifier::loop_isolation(false)]
    fn process_all_impls(&mut self)
        requires
            old(self).wf(),
        ensures
            final(self).wf(),
            final(self).frame_eq(old(self)),
            extends_without_prefixes(old(self).hist(), final(self).hist()),
            set_extended(old(self).types_view(), final(self).types_view()),
            set_extended(old(self).modules_view(), final(self).modules_view()),
            final(self).hist() == old(self).hist() + all_impls_emission(
                old(self).ctx(),
                old(self).sets(),
                old(self).ctx().index,
            ).events,
            final(self).sets() == all_impls_emission(
                old(self).ctx(),
                old(self).sets(),
                old(self).ctx().index,
            ).sets,
    {
        broadcast use lemma_extends_trans, lemma_extends_refl, lemma_extends_concat,
            lemma_set_extended_trans, lemma_set_extended_refl, lemma_set_extended_push,
            lemma_add_empty;

        let ghost h0 = self.hist();
        let ghost ctx0 = self.ctx();
        let ghost sets0 = self.sets();
        let kr = self.krate;
        let ghost entries = kr.index@;
        let mut i: usize = 0;
        while i < kr.index.len()
            invariant
                i <= kr.index@.len(),
                kr == self.krate,
                self.wf(),
                self.frame_eq(old(self)),
                extends_without_prefixes(old(self).hist(), self.hist()),
                set_extended(old(self).types_view(), self.types_view()),
                set_extended(old(self).modules_view(), self.modules_view()),
                self.hist() == h0 + all_impls_emission(ctx0, sets0, entries.take(i as int)).events,
                self.sets() == all_impls_emission(ctx0, sets0, entries.take(i as int)).sets,
            decreases kr.index@.len() - i,
        {
            proof {
                assert(entries.take(i + 1).drop_last() =~= entries.take(i as int));
                assert(entries.take(i + 1).last() == entries[i as int]);
            }
            let is_impl = match &kr.index[i].1.inner {
                ItemEnum::Impl { .. } => true,
                _ => false,
            };
            if is_impl {
                self.process_impl(kr.index[i].0.as_str());
            }
            i = i + 1;
            proof {
                assert(self.hist() =~= h0 + all_impls_emission(
                    ctx0,
                    sets0,
                    entries.take(i as int),
                ).events);
            }
        }
        proof {
            assert(entries.take(entries.len() as int) =~= entries);
        }
    }

    /// Dispatch one item of a module's children to its extractor. Re-exports
    /// and impls are skipped here; impls are handled in the final pass.
    #[verifier::loop_isolation(false)]
    fn walk_item(&mut self, item_id: &str, parent_path: &str, fuel: usize)
        requires
            old(self).wf(),
        ensures
            final(self).wf(),
            final(self).frame_eq(old(self)),
            extends_without_prefixes(old(self).hist(), final(self).hist()),
            set_extended(old(self).types_view(), final(self).types_view()),
            set_extended(old(self).modules_view(), final(self).modules_view()),
            final(self).hist() == old(self).hist() + walk_item_emission(
                old(self).ctx(),
                old(self).sets(),
                item_id@,
                parent_path@,
                fuel as nat,
            ).events,
            final(self).sets() == walk_item_emission(
                old(self).ctx(),
                old(self).sets(),
                item_id@,
                parent_path@,
                fuel as nat,
            ).sets,
        decreases fuel,
    {
        broadcast use lemma_extends_trans, lemma_extends_refl, lemma_extends_concat,
            lemma_set_extended_trans, lemma_set_extended_refl, lemma_set_extended_push,
            lemma_add_empty;

        proof {
            reveal(walk_item_emission);
        }
        let ghost h0 = self.hist();
        let ghost ctx0 = self.ctx();
        let ghost sets0 = self.sets();
        if fuel == 0 {
            return;
        }
        let kr = self.krate;
        let item = match index_get(kr, item_id) {
            Some(i) => i,
            None => {
                return;
            },
        };
        match &item.inner {
            ItemEnum::Module { .. } => {
                let name: &str = match &item.name {
                    Some(n) => n.as_str(),
                    None => "unnamed",
                };
                let child_path = dotted(parent_path, name);
                self.walk_module(item_id, child_path.as_str(), fuel - 1);
                proof {
                    lemma_walk_item_module(
                        ctx0,
                        sets0,
                        item_id@,
                        parent_path@,
                        fuel as nat,
                        *item,
                    );
                    assert((fuel - 1) as nat == (fuel as nat - 1) as nat);
                    assert(child_path@ == parent_path@ + "::"@ + (match item.name {
                        Some(n) => n@,
                        None => "unnamed"@,
                    }));
                    assert(self.hist() =~= h0 + walk_item_emission(
                        ctx0,
                        sets0,
                        item_id@,
                        parent_path@,
                        fuel as nat,
                    ).events);
                }
            },
            ItemEnum::Struct { .. } => {
                self.extract_struct(item_id, item, parent_path);
                proof {
                    reveal(walk_item_emission);
                    assert(self.hist() =~= h0 + walk_item_emission(
                        ctx0,
                        sets0,
                        item_id@,
                        parent_path@,
                        fuel as nat,
                    ).events);
                }
            },
            ItemEnum::Enum { .. } => {
                self.extract_enum(item_id, item, parent_path);
                proof {
                    reveal(walk_item_emission);
                    assert(self.hist() =~= h0 + walk_item_emission(
                        ctx0,
                        sets0,
                        item_id@,
                        parent_path@,
                        fuel as nat,
                    ).events);
                }
            },
            ItemEnum::Trait { .. } => {
                self.extract_trait(item, parent_path);
                proof {
                    reveal(walk_item_emission);
                    assert(self.hist() =~= h0 + walk_item_emission(
                        ctx0,
                        sets0,
                        item_id@,
                        parent_path@,
                        fuel as nat,
                    ).events);
                }
            },
            ItemEnum::Function { .. } => {
                self.extract_module_function(item, parent_path);
                proof {
                    reveal(walk_item_emission);
                    assert(self.hist() =~= h0 + walk_item_emission(
                        ctx0,
                        sets0,
                        item_id@,
                        parent_path@,
                        fuel as nat,
                    ).events);
                }
            },
            ItemEnum::Constant { .. } => {
                self.extract_constant(item, parent_path);
                proof {
                    reveal(walk_item_emission);
                    assert(self.hist() =~= h0 + walk_item_emission(
                        ctx0,
                        sets0,
                        item_id@,
                        parent_path@,
                        fuel as nat,
                    ).events);
                }
            },
            ItemEnum::Static { .. } => {
                self.extract_static(item, parent_path);
                proof {
                    reveal(walk_item_emission);
                    assert(self.hist() =~= h0 + walk_item_emission(
                        ctx0,
                        sets0,
                        item_id@,
                        parent_path@,
                        fuel as nat,
                    ).events);
                }
            },
            ItemEnum::TypeAlias { .. } => {
                self.extract_type_alias(item, parent_path);
                proof {
                    reveal(walk_item_emission);
                    assert(self.hist() =~= h0 + walk_item_emission(
                        ctx0,
                        sets0,
                        item_id@,
                        parent_path@,
                        fuel as nat,
                    ).events);
                }
            },
            ItemEnum::Union { .. } => {
                self.extract_union(item, parent_path);
                proof {
                    reveal(walk_item_emission);
                    assert(self.hist() =~= h0 + walk_item_emission(
                        ctx0,
                        sets0,
                        item_id@,
                        parent_path@,
                        fuel as nat,
                    ).events);
                }
            },
            ItemEnum::Use { .. } => (),
            ItemEnum::Impl { .. } => (),
            _ => (),
        }
        proof {
            reveal(walk_item_emission);
            assert((fuel - 1) as nat == (fuel as nat - 1) as nat);
        }
    }

    /// Walk one module: emit its namespace node (except for the root, which
    /// doubles as the library) and recurse into its children by dotted-path
    /// concatenation.
    #[verifier::loop_isolation(false)]
    #[verifier::rlimit(100)]
    fn walk_module(&mut self, item_id: &str, mod_path: &str, fuel: usize)
        requires
            old(self).wf(),
        ensures
            final(self).wf(),
            final(self).frame_eq(old(self)),
            extends_without_prefixes(old(self).hist(), final(self).hist()),
            set_extended(old(self).types_view(), final(self).types_view()),
            set_extended(old(self).modules_view(), final(self).modules_view()),
            final(self).hist() == old(self).hist() + walk_module_emission(
                old(self).ctx(),
                old(self).sets(),
                item_id@,
                mod_path@,
                fuel as nat,
            ).events,
            final(self).sets() == walk_module_emission(
                old(self).ctx(),
                old(self).sets(),
                item_id@,
                mod_path@,
                fuel as nat,
            ).sets,
        decreases fuel,
    {
        broadcast use lemma_extends_trans, lemma_extends_refl, lemma_extends_concat,
            lemma_set_extended_trans, lemma_set_extended_refl, lemma_set_extended_push,
            lemma_add_empty;

        proof {
            reveal(walk_module_emission);
        }
        let ghost h0 = self.hist();
        let ghost ctx0 = self.ctx();
        let ghost sets0 = self.sets();
        if fuel == 0 {
            return;
        }
        let kr = self.krate;
        let item = match index_get(kr, item_id) {
            Some(i) => i,
            None => {
                return;
            },
        };
        match &item.inner {
            ItemEnum::Module { items, .. } => {
                let idc = str_to_chars(item_id);
                let is_root = chars_eq_str(&idc, kr.root.0.as_str());
                if !is_root {
                    self.emit_module_node(mod_path, item);
                }
                let ghost head = module_node_emission(ctx0, sets0, mod_path@, *item);
                let ghost h_head = self.hist();
                let ghost head_sets = self.sets();
                proof {
                    if is_root {
                        assert(h_head == h0 + emit_nothing(sets0).events);
                        assert(head_sets == sets0);
                    }
                }
                let ghost ids = items@;
                let mut i: usize = 0;
                while i < items.len()
                    invariant
                        i <= items@.len(),
                        self.wf(),
                        self.frame_eq(old(self)),
                        extends_without_prefixes(old(self).hist(), self.hist()),
                        set_extended(old(self).types_view(), self.types_view()),
                        set_extended(old(self).modules_view(), self.modules_view()),
                        fuel >= 1,
                        self.hist() == h_head + walk_children_emission(ctx0, head_sets, ids.take(i as int), mod_path@, fuel as nat).events,
                        self.sets() == walk_children_emission(ctx0, head_sets, ids.take(i as int), mod_path@, fuel as nat).sets,
                    decreases items@.len() - i,
                {
                    proof {
                        assert(ids.take(i + 1).drop_last() =~= ids.take(i as int));
                        assert(ids.take(i + 1).last() == ids[i as int]);
                    }
                    self.walk_item(items[i].0.as_str(), mod_path, fuel - 1);
                    proof {
                        assert((fuel - 1) as nat == (fuel as nat - 1) as nat);
                        lemma_walk_children_step(
                            ctx0,
                            head_sets,
                            ids,
                            mod_path@,
                            fuel as nat,
                            i as int,
                        );
                    }
                    i = i + 1;
                    proof {
                        assert(self.hist() =~= h_head + walk_children_emission(
                            ctx0,
                            head_sets,
                            ids.take(i as int),
                            mod_path@,
                            fuel as nat,
                        ).events);
                    }
                }
                proof {
                    reveal(walk_module_emission);
                    reveal(walk_item_emission);
                    assert(ids.take(ids.len() as int) =~= ids);
                    assert(self.hist() =~= h0 + walk_module_emission(
                        ctx0,
                        sets0,
                        item_id@,
                        mod_path@,
                        fuel as nat,
                    ).events);
                }
            },
            _ => (),
        }
    }

    /// Run the full extraction: register the namespace prefixes, emit the
    /// library node and its external dependencies, walk the item tree from
    /// the root, and finally process impl blocks when enabled. The prefix
    /// registrations come first and are the only ones ever taken.
    #[verifier::loop_isolation(false)]
    pub fn extract(&mut self)
        requires
            old(self).wf(),
        ensures
            final(self).wf(),
            final(self).frame_eq(old(self)),
            old(self).hist().len() + 10 <= final(self).hist().len(),
            final(self).hist().subrange(0, old(self).hist().len() as int) == old(self).hist(),
            final(self).hist().subrange(
                old(self).hist().len() as int,
                old(self).hist().len() as int + 5,
            ) == prefix_events(),
            final(self).hist().subrange(
                old(self).hist().len() as int + 5,
                old(self).hist().len() as int + 10,
            ) == crate_node_events(
                old(self).crate_iri_view(),
                old(self).name_view(),
                old(self).version_view(),
            ),
            forall|i: int|
                old(self).hist().len() + 5 <= i < final(self).hist().len() ==> !(
                #[trigger] final(self).hist()[i] is Prefix),
            final(self).hist() == old(self).hist() + pipeline_emission(
                old(self).ctx(),
                old(self).sets(),
                old(self).include_impls_view(),
            ).events,
            final(self).sets() == pipeline_emission(
                old(self).ctx(),
                old(self).sets(),
                old(self).include_impls_view(),
            ).sets,
    {
        broadcast use lemma_extends_trans, lemma_extends_refl, lemma_extends_concat,
            lemma_set_extended_trans, lemma_set_extended_refl, lemma_set_extended_push,
            lemma_add_empty;

        let ghost h0 = self.hist();
        let ghost ctx0 = self.ctx();
        let ghost sets0 = self.sets();
        let ghost impls_on = self.options.include_impls;
        self.register_prefixes();
        let ghost h1 = self.hist();
        self.emit_crate_node();
        let ghost h2 = self.hist();
        self.emit_external_crates();
        let ghost h3 = self.hist();
        let kr = self.krate;
        let n = kr.index.len();
        let fuel: usize = if n <= (usize::MAX - 2) / 2 {
            2 * n + 2
        } else {
            usize::MAX
        };
        proof {
            assert(self.ctx() == ctx0);
            assert(self.sets() == sets0);
            assert(fuel as nat == sp_fuel(ctx0.index.len()));
        }
        let root_id = kr.root.0.clone();
        let crate_name = self.crate_name.clone();
        self.walk_module(root_id.as_str(), crate_name.as_str(), fuel);
        let ghost w = walk_module_emission(ctx0, sets0, ctx0.root, ctx0.cname, sp_fuel(ctx0.index.len()));
        proof {
            assert(root_id@ == ctx0.root);
            assert(crate_name@ == ctx0.cname);
            assert(self.hist() == h3 + w.events);
            assert(self.sets() == w.sets);
            assert(self.ctx() == ctx0);
        }
        if self.options.include_impls {
            self.process_all_impls();
        }
        proof {
            reveal(pipeline_emission);
            let em = pipeline_emission(ctx0, sets0, impls_on);
            assert(self.hist() =~= h0 + em.events);
        }
        proof {
            let hf = self.hist();
            let cne = crate_node_events(
                old(self).crate_iri_view(),
                old(self).name_view(),
                old(self).version_view(),
            );
            assert(extends_without_prefixes(h1, hf));
            assert(extends_without_prefixes(h2, hf));
            assert(hf.subrange(0, h2.len() as int) == h2);
            assert forall|i: int| 0 <= i < h2.len() implies hf[i] == h2[i] by {
                assert(hf.subrange(0, h2.len() as int)[i] == hf[i]);
            }
            assert(hf.subrange(0, h0.len() as int) =~= h0);
            assert(hf.subrange(h0.len() as int, h0.len() as int + 5) =~= prefix_events());
            assert(hf.subrange(h0.len() as int + 5, h0.len() as int + 10) =~= cne);
        }
    }
}

} // verus!
