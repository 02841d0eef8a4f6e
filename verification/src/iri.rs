//! Identifier minting for graph entities.
//!
//! Every graph entity is addressed by a deterministic identifier built from a
//! configured base address, a category tag, and percent-escaped components.
//! Equal inputs give equal identifiers (each minting function's `ensures`
//! pins the result to a spec function of the inputs alone), and distinct
//! components or categories give distinct identifiers
//! ([`lemma_tagged_iri_injective`] and its corollaries).

use vstd::prelude::*;

use crate::escape::{append_escaped, lemma_escape_injective, lemma_escape_no_slash, spec_escape};
use crate::text::{
    append_chars, append_str, chars_to_string, spec_dec, spec_digit, str_to_chars, usize_to_chars,
};

verus! {

/// A sequence of components joined by `/`.
pub open spec fn spec_join(parts: Seq<Seq<char>>) -> Seq<char>
    decreases parts.len(),
{
    if parts.len() == 0 {
        Seq::empty()
    } else if parts.len() == 1 {
        parts[0]
    } else {
        spec_join(parts.drop_last()) + seq!['/'] + parts.last()
    }
}

/// The shape every base-rooted identifier takes: the base address, a
/// category tag, and the joined components.
pub open spec fn spec_tagged_iri(base: Seq<char>, tag: Seq<char>, parts: Seq<Seq<char>>) -> Seq<
    char,
> {
    base + seq!['/'] + tag + seq!['/'] + spec_join(parts)
}

/// A sequence with no path separator in it.
pub open spec fn slash_free(s: Seq<char>) -> bool {
    forall|i: int| 0 <= i < s.len() ==> s[i] != '/'
}

/// The base address with trailing path separators removed.
pub open spec fn spec_trim_base(s: Seq<char>) -> Seq<char>
    decreases s.len(),
{
    if s.len() > 0 && s.last() == '/' {
        spec_trim_base(s.drop_last())
    } else {
        s
    }
}

/// A lifetime name with its leading sigil removed.
pub open spec fn spec_strip_tick(s: Seq<char>) -> Seq<char> {
    if s.len() > 0 && s[0] == '\'' {
        s.drop_first()
    } else {
        s
    }
}

pub open spec fn spec_crate_iri(base: Seq<char>, name: Seq<char>, version: Seq<char>) -> Seq<
    char,
> {
    spec_tagged_iri(base, "crate"@, seq![spec_escape(name), spec_escape(version)])
}

pub open spec fn spec_module_iri(
    base: Seq<char>,
    crate_name: Seq<char>,
    version: Seq<char>,
    mod_path: Seq<char>,
) -> Seq<char> {
    spec_tagged_iri(
        base,
        "module"@,
        seq![spec_escape(crate_name), spec_escape(version), spec_escape(mod_path)],
    )
}

pub open spec fn spec_type_iri(
    base: Seq<char>,
    crate_name: Seq<char>,
    version: Seq<char>,
    full_path: Seq<char>,
) -> Seq<char> {
    spec_tagged_iri(
        base,
        "type"@,
        seq![spec_escape(crate_name), spec_escape(version), spec_escape(full_path)],
    )
}

pub open spec fn spec_impl_iri(
    base: Seq<char>,
    crate_name: Seq<char>,
    version: Seq<char>,
    impl_id: Seq<char>,
) -> Seq<char> {
    spec_tagged_iri(
        base,
        "impl"@,
        seq![spec_escape(crate_name), spec_escape(version), spec_escape(impl_id)],
    )
}

pub open spec fn spec_primitive_type_iri(base: Seq<char>, name: Seq<char>) -> Seq<char> {
    spec_tagged_iri(base, "type"@, seq!["_primitive_"@, spec_escape(name)])
}

pub open spec fn spec_tuple_type_iri(base: Seq<char>, element_count: nat) -> Seq<char> {
    spec_tagged_iri(base, "type"@, seq!["_tuple_"@, spec_dec(element_count)])
}

pub open spec fn spec_slice_type_iri(base: Seq<char>, element: Seq<char>) -> Seq<char> {
    spec_tagged_iri(base, "type"@, seq!["_slice_"@, spec_escape(element)])
}

pub open spec fn spec_array_type_iri(base: Seq<char>, element: Seq<char>, len: Seq<char>) -> Seq<
    char,
> {
    spec_tagged_iri(base, "type"@, seq!["_array_"@, spec_escape(element), spec_escape(len)])
}

pub open spec fn spec_ref_type_iri(base: Seq<char>, target: Seq<char>, mutable: bool) -> Seq<
    char,
> {
    spec_tagged_iri(
        base,
        "type"@,
        seq![if mutable { "_mut_"@ } else { "_ref_"@ }, spec_escape(target)],
    )
}

pub open spec fn spec_raw_pointer_type_iri(
    base: Seq<char>,
    target: Seq<char>,
    mutable: bool,
) -> Seq<char> {
    spec_tagged_iri(
        base,
        "type"@,
        seq![if mutable { "_ptr_mut_"@ } else { "_ptr_const_"@ }, spec_escape(target)],
    )
}

pub open spec fn spec_member_iri(owner: Seq<char>, name: Seq<char>, signature: Seq<char>) -> Seq<
    char,
> {
    if signature.len() == 0 {
        owner + "/member/"@ + spec_escape(name)
    } else {
        owner + "/member/"@ + spec_escape(name) + seq!['('] + spec_escape(signature) + seq![')']
    }
}

pub open spec fn spec_parameter_iri(owner: Seq<char>, ordinal: nat) -> Seq<char> {
    owner + "/param/"@ + spec_dec(ordinal)
}

pub open spec fn spec_type_parameter_iri(owner: Seq<char>, ordinal: nat) -> Seq<char> {
    owner + "/typeparam/"@ + spec_dec(ordinal)
}

pub open spec fn spec_variant_iri(owner: Seq<char>, name: Seq<char>) -> Seq<char> {
    owner + "/variant/"@ + spec_escape(name)
}

pub open spec fn spec_lifetime_iri(owner: Seq<char>, name: Seq<char>) -> Seq<char> {
    owner + "/lifetime/"@ + spec_escape(spec_strip_tick(name))
}

/// Generates deterministic identifiers for graph entities from a configured
/// base address.
pub struct IriMinter {
    base_uri: String,
}

impl View for IriMinter {
    type V = Seq<char>;

    closed spec fn view(&self) -> Seq<char> {
        self.base_uri@
    }
}

proof fn lemma_join2(a: Seq<char>, b: Seq<char>)
    ensures
        spec_join(seq![a, b]) == a + seq!['/'] + b,
{
    let parts = seq![a, b];
    assert(parts.drop_last() =~= seq![a]);
    assert(spec_join(seq![a]) == a);
}

proof fn lemma_join3(a: Seq<char>, b: Seq<char>, c: Seq<char>)
    ensures
        spec_join(seq![a, b, c]) == a + seq!['/'] + b + seq!['/'] + c,
{
    let parts = seq![a, b, c];
    assert(parts.drop_last() =~= seq![a, b]);
    lemma_join2(a, b);
    assert(spec_join(parts) =~= a + seq!['/'] + b + seq!['/'] + c);
}

impl IriMinter {
    /// Build a minter over a base address, stripping any trailing path
    /// separators from it.
    pub fn new(base_uri: &str) -> (r: Self)
        ensures
            r@ == spec_trim_base(base_uri@),
    {
        let mut chars = str_to_chars(base_uri);
        while chars.len() > 0 && chars[chars.len() - 1] == '/'
            invariant
                spec_trim_base(base_uri@) == spec_trim_base(chars@),
            decreases chars@.len(),
        {
            proof {
                assert(chars@.last() == '/');
            }
            chars.pop();
        }
        IriMinter { base_uri: chars_to_string(&chars) }
    }

    /// The configured base address.
    pub fn base_uri(&self) -> (r: &str)
        ensures
            r@ == self@,
    {
        self.base_uri.as_str()
    }

    fn tagged(&self, tag: &str, parts: &Vec<Vec<char>>) -> (r: String)
        requires
            parts@.len() >= 1,
        ensures
            r@ == spec_tagged_iri(self@, tag@, parts@.map_values(|p: Vec<char>| p@)),
    {
        let ghost ps = parts@.map_values(|p: Vec<char>| p@);
        let mut out = str_to_chars(self.base_uri.as_str());
        out.push('/');
        append_str(&mut out, tag);
        out.push('/');
        let ghost head = self@ + seq!['/'] + tag@ + seq!['/'];
        proof {
            assert(out@ =~= head);
        }
        append_chars(&mut out, &parts[0]);
        let mut i: usize = 1;
        while i < parts.len()
            invariant
                1 <= i <= parts@.len(),
                ps == parts@.map_values(|p: Vec<char>| p@),
                ps.len() == parts@.len(),
                forall|j: int| 0 <= j < ps.len() ==> ps[j] == parts@[j]@,
                out@ == head + spec_join(ps.take(i as int)),
            decreases parts@.len() - i,
        {
            out.push('/');
            append_chars(&mut out, &parts[i]);
            proof {
                let t = ps.take(i + 1);
                assert(t.drop_last() =~= ps.take(i as int));
                assert(t.last() == ps[i as int]);
                assert(out@ =~= head + spec_join(ps.take(i + 1)));
            }
            i = i + 1;
        }
        proof {
            assert(ps.take(ps.len() as int) =~= ps);
        }
        chars_to_string(&out)
    }

    /// Identifier for a library unit.
    pub fn crate_iri(&self, name: &str, version: &str) -> (r: String)
        ensures
            r@ == spec_crate_iri(self@, name@, version@),
    {
        let mut parts: Vec<Vec<char>> = Vec::new();
        let mut p0: Vec<char> = Vec::new();
        append_escaped(&mut p0, &str_to_chars(name));
        parts.push(p0);
        let mut p1: Vec<char> = Vec::new();
        append_escaped(&mut p1, &str_to_chars(version));
        parts.push(p1);
        let r = self.tagged("crate", &parts);
        proof {
            assert(parts@.map_values(|p: Vec<char>| p@) =~= seq![
                spec_escape(name@),
                spec_escape(version@),
            ]);
        }
        r
    }

    /// Identifier for a namespace, by dotted path.
    pub fn module_iri(&self, crate_name: &str, version: &str, mod_path: &str) -> (r: String)
        ensures
            r@ == spec_module_iri(self@, crate_name@, version@, mod_path@),
    {
        let mut parts: Vec<Vec<char>> = Vec::new();
        let mut p0: Vec<char> = Vec::new();
        append_escaped(&mut p0, &str_to_chars(crate_name));
        parts.push(p0);
        let mut p1: Vec<char> = Vec::new();
        append_escaped(&mut p1, &str_to_chars(version));
        parts.push(p1);
        let mut p2: Vec<char> = Vec::new();
        append_escaped(&mut p2, &str_to_chars(mod_path));
        parts.push(p2);
        let r = self.tagged("module", &parts);
        proof {
            assert(parts@.map_values(|p: Vec<char>| p@) =~= seq![
                spec_escape(crate_name@),
                spec_escape(version@),
                spec_escape(mod_path@),
            ]);
        }
        r
    }

    /// Identifier for a named type, by fully qualified path.
    pub fn type_iri(&self, crate_name: &str, version: &str, full_path: &str) -> (r: String)
        ensures
            r@ == spec_type_iri(self@, crate_name@, version@, full_path@),
    {
        let mut parts: Vec<Vec<char>> = Vec::new();
        let mut p0: Vec<char> = Vec::new();
        append_escaped(&mut p0, &str_to_chars(crate_name));
        parts.push(p0);
        let mut p1: Vec<char> = Vec::new();
        append_escaped(&mut p1, &str_to_chars(version));
        parts.push(p1);
        let mut p2: Vec<char> = Vec::new();
        append_escaped(&mut p2, &str_to_chars(full_path));
        parts.push(p2);
        let r = self.tagged("type", &parts);
        proof {
            assert(parts@.map_values(|p: Vec<char>| p@) =~= seq![
                spec_escape(crate_name@),
                spec_escape(version@),
                spec_escape(full_path@),
            ]);
        }
        r
    }

    /// Identifier for an impl block, by a stable per-impl token.
    pub fn impl_iri(&self, crate_name: &str, version: &str, impl_id: &str) -> (r: String)
        ensures
            r@ == spec_impl_iri(self@, crate_name@, version@, impl_id@),
    {
        let mut parts: Vec<Vec<char>> = Vec::new();
        let mut p0: Vec<char> = Vec::new();
        append_escaped(&mut p0, &str_to_chars(crate_name));
        parts.push(p0);
        let mut p1: Vec<char> = Vec::new();
        append_escaped(&mut p1, &str_to_chars(version));
        parts.push(p1);
        let mut p2: Vec<char> = Vec::new();
        append_escaped(&mut p2, &str_to_chars(impl_id));
        parts.push(p2);
        let r = self.tagged("impl", &parts);
        proof {
            assert(parts@.map_values(|p: Vec<char>| p@) =~= seq![
                spec_escape(crate_name@),
                spec_escape(version@),
                spec_escape(impl_id@),
            ]);
        }
        r
    }

    /// Identifier for a member of an owner: a method, field, constant or
    /// associated item. A non-empty signature is appended as a
    /// disambiguator.
    pub fn member_iri(&self, owner_iri: &str, name: &str, signature: &str) -> (r: String)
        ensures
            r@ == spec_member_iri(owner_iri@, name@, signature@),
    {
        let mut out = str_to_chars(owner_iri);
        append_str(&mut out, "/member/");
        append_escaped(&mut out, &str_to_chars(name));
        if signature.unicode_len() > 0 {
            out.push('(');
            append_escaped(&mut out, &str_to_chars(signature));
            out.push(')');
            proof {
                assert(out@ =~= spec_member_iri(owner_iri@, name@, signature@));
            }
        } else {
            proof {
                assert(out@ =~= spec_member_iri(owner_iri@, name@, signature@));
            }
        }
        chars_to_string(&out)
    }

    /// Identifier for a function parameter, by ordinal.
    pub fn parameter_iri(&self, method_iri: &str, ordinal: usize) -> (r: String)
        ensures
            r@ == spec_parameter_iri(method_iri@, ordinal as nat),
    {
        let mut out = str_to_chars(method_iri);
        append_str(&mut out, "/param/");
        let digits = usize_to_chars(ordinal);
        append_chars(&mut out, &digits);
        proof {
            assert(out@ =~= spec_parameter_iri(method_iri@, ordinal as nat));
        }
        chars_to_string(&out)
    }

    /// Identifier for a type parameter, by ordinal.
    pub fn type_parameter_iri(&self, owner_iri: &str, ordinal: usize) -> (r: String)
        ensures
            r@ == spec_type_parameter_iri(owner_iri@, ordinal as nat),
    {
        let mut out = str_to_chars(owner_iri);
        append_str(&mut out, "/typeparam/");
        let digits = usize_to_chars(ordinal);
        append_chars(&mut out, &digits);
        proof {
            assert(out@ =~= spec_type_parameter_iri(owner_iri@, ordinal as nat));
        }
        chars_to_string(&out)
    }

    /// Identifier for an enum variant.
    pub fn variant_iri(&self, enum_iri: &str, name: &str) -> (r: String)
        ensures
            r@ == spec_variant_iri(enum_iri@, name@),
    {
        let mut out = str_to_chars(enum_iri);
        append_str(&mut out, "/variant/");
        append_escaped(&mut out, &str_to_chars(name));
        proof {
            assert(out@ =~= spec_variant_iri(enum_iri@, name@));
        }
        chars_to_string(&out)
    }

    /// Identifier for a lifetime parameter, with the leading sigil stripped
    /// from its name.
    pub fn lifetime_iri(&self, owner_iri: &str, name: &str) -> (r: String)
        ensures
            r@ == spec_lifetime_iri(owner_iri@, name@),
    {
        let chars = str_to_chars(name);
        let mut clean: Vec<char> = Vec::new();
        let mut start: usize = 0;
        if chars.len() > 0 && chars[0] == '\'' {
            start = 1;
        }
        let mut i: usize = start;
        while i < chars.len()
            invariant
                start <= i <= chars@.len(),
                clean@ == chars@.subrange(start as int, i as int),
            decreases chars@.len() - i,
        {
            clean.push(chars[i]);
            i = i + 1;
            proof {
                assert(clean@ =~= chars@.subrange(start as int, i as int));
            }
        }
        proof {
            assert(clean@ =~= spec_strip_tick(name@));
        }
        let mut out = str_to_chars(owner_iri);
        append_str(&mut out, "/lifetime/");
        append_escaped(&mut out, &clean);
        proof {
            assert(out@ =~= spec_lifetime_iri(owner_iri@, name@));
        }
        chars_to_string(&out)
    }

    /// Identifier for a primitive type, by name.
    pub fn primitive_type_iri(&self, name: &str) -> (r: String)
        ensures
            r@ == spec_primitive_type_iri(self@, name@),
    {
        let mut parts: Vec<Vec<char>> = Vec::new();
        parts.push(str_to_chars("_primitive_"));
        let mut p1: Vec<char> = Vec::new();
        append_escaped(&mut p1, &str_to_chars(name));
        parts.push(p1);
        let r = self.tagged("type", &parts);
        proof {
            assert(parts@.map_values(|p: Vec<char>| p@) =~= seq![
                "_primitive_"@,
                spec_escape(name@),
            ]);
        }
        r
    }

    /// Identifier for a tuple type, by arity.
    pub fn tuple_type_iri(&self, element_count: usize) -> (r: String)
        ensures
            r@ == spec_tuple_type_iri(self@, element_count as nat),
    {
        let mut parts: Vec<Vec<char>> = Vec::new();
        parts.push(str_to_chars("_tuple_"));
        parts.push(usize_to_chars(element_count));
        let r = self.tagged("type", &parts);
        proof {
            assert(parts@.map_values(|p: Vec<char>| p@) =~= seq![
                "_tuple_"@,
                spec_dec(element_count as nat),
            ]);
        }
        r
    }

    /// Identifier for a slice type, by element type display name.
    pub fn slice_type_iri(&self, element_type_name: &str) -> (r: String)
        ensures
            r@ == spec_slice_type_iri(self@, element_type_name@),
    {
        let mut parts: Vec<Vec<char>> = Vec::new();
        parts.push(str_to_chars("_slice_"));
        let mut p1: Vec<char> = Vec::new();
        append_escaped(&mut p1, &str_to_chars(element_type_name));
        parts.push(p1);
        let r = self.tagged("type", &parts);
        proof {
            assert(parts@.map_values(|p: Vec<char>| p@) =~= seq![
                "_slice_"@,
                spec_escape(element_type_name@),
            ]);
        }
        r
    }

    /// Identifier for an array type, by element type display name and
    /// length.
    pub fn array_type_iri(&self, element_type_name: &str, length: &str) -> (r: String)
        ensures
            r@ == spec_array_type_iri(self@, element_type_name@, length@),
    {
        let mut parts: Vec<Vec<char>> = Vec::new();
        parts.push(str_to_chars("_array_"));
        let mut p1: Vec<char> = Vec::new();
        append_escaped(&mut p1, &str_to_chars(element_type_name));
        parts.push(p1);
        let mut p2: Vec<char> = Vec::new();
        append_escaped(&mut p2, &str_to_chars(length));
        parts.push(p2);
        let r = self.tagged("type", &parts);
        proof {
            assert(parts@.map_values(|p: Vec<char>| p@) =~= seq![
                "_array_"@,
                spec_escape(element_type_name@),
                spec_escape(length@),
            ]);
        }
        r
    }

    /// Identifier for a reference type, with the mutability folded in.
    pub fn ref_type_iri(&self, target_type_name: &str, mutable: bool) -> (r: String)
        ensures
            r@ == spec_ref_type_iri(self@, target_type_name@, mutable),
    {
        let mut parts: Vec<Vec<char>> = Vec::new();
        if mutable {
            parts.push(str_to_chars("_mut_"));
        } else {
            parts.push(str_to_chars("_ref_"));
        }
        let mut p1: Vec<char> = Vec::new();
        append_escaped(&mut p1, &str_to_chars(target_type_name));
        parts.push(p1);
        let r = self.tagged("type", &parts);
        proof {
            assert(parts@.map_values(|p: Vec<char>| p@) =~= seq![
                if mutable {
                    "_mut_"@
                } else {
                    "_ref_"@
                },
                spec_escape(target_type_name@),
            ]);
        }
        r
    }

    /// Identifier for a raw pointer type, with the mutability folded in.
    pub fn raw_pointer_type_iri(&self, target_type_name: &str, mutable: bool) -> (r: String)
        ensures
            r@ == spec_raw_pointer_type_iri(self@, target_type_name@, mutable),
    {
        let mut parts: Vec<Vec<char>> = Vec::new();
        if mutable {
            parts.push(str_to_chars("_ptr_mut_"));
        } else {
            parts.push(str_to_chars("_ptr_const_"));
        }
        let mut p1: Vec<char> = Vec::new();
        append_escaped(&mut p1, &str_to_chars(target_type_name));
        parts.push(p1);
        let r = self.tagged("type", &parts);
        proof {
            assert(parts@.map_values(|p: Vec<char>| p@) =~= seq![
                if mutable {
                    "_ptr_mut_"@
                } else {
                    "_ptr_const_"@
                },
                spec_escape(target_type_name@),
            ]);
        }
        r
    }
}


// ---------------------------------------------------------------------------
// Injectivity of the minted identifiers
// ---------------------------------------------------------------------------
/// Dropping a shared prefix of a concatenation.
proof fn lemma_prefix_strip(p: Seq<char>, a: Seq<char>, b: Seq<char>)
    requires
        p + a == p + b,
    ensures
        a == b,
{
    assert((p + a).len() == p.len() + a.len());
    assert((p + b).len() == p.len() + b.len());
    assert(a.len() == b.len());
    assert forall|i: int| 0 <= i < a.len() implies a[i] == b[i] by {
        assert((p + a)[p.len() + i] == a[i]);
        assert((p + b)[p.len() + i] == b[i]);
        assert((p + a)[p.len() + i] == (p + b)[p.len() + i]);
    }
    assert(a =~= b);
}

/// A split on the last separator is unique when what follows it holds no
/// separator.
proof fn lemma_rsplit_unique(a1: Seq<char>, b1: Seq<char>, a2: Seq<char>, b2: Seq<char>)
    requires
        a1 + seq!['/'] + b1 == a2 + seq!['/'] + b2,
        slash_free(b1),
        slash_free(b2),
    ensures
        a1 == a2,
        b1 == b2,
{
    let s = a1 + seq!['/'] + b1;
    let t = a2 + seq!['/'] + b2;
    assert(s.len() == a1.len() + 1 + b1.len());
    assert(t.len() == a2.len() + 1 + b2.len());
    assert(forall|i: int| 0 <= i < a1.len() ==> s[i] == a1[i]);
    assert(s[a1.len() as int] == seq!['/'][0]);
    assert(forall|i: int| 0 <= i < b1.len() ==> s[a1.len() + 1 + i] == b1[i]);
    assert(forall|i: int| 0 <= i < a2.len() ==> t[i] == a2[i]);
    assert(t[a2.len() as int] == seq!['/'][0]);
    assert(forall|i: int| 0 <= i < b2.len() ==> t[a2.len() + 1 + i] == b2[i]);
    if b1.len() < b2.len() {
        let j = a1.len() as int;
        assert(s[j] == '/');
        assert(j - a2.len() - 1 >= 0 && j - a2.len() - 1 < b2.len());
        assert(t[j] == b2[j - a2.len() - 1]);
        assert(false);
    }
    if b2.len() < b1.len() {
        let j = a2.len() as int;
        assert(t[j] == '/');
        assert(s[j] == b1[j - a1.len() - 1]);
        assert(false);
    }
    assert(a1.len() == a2.len());
    assert forall|i: int| 0 <= i < a1.len() implies a1[i] == a2[i] by {
        assert(s[i] == a1[i]);
        assert(t[i] == a2[i]);
    }
    assert forall|i: int| 0 <= i < b1.len() implies b1[i] == b2[i] by {
        assert(s[a1.len() + 1 + i] == b1[i]);
        assert(t[a2.len() + 1 + i] == b2[i]);
    }
    assert(a1 =~= a2);
    assert(b1 =~= b2);
}

/// A split on the first separator is unique when what precedes it holds no
/// separator.
proof fn lemma_fsplit_unique(a1: Seq<char>, b1: Seq<char>, a2: Seq<char>, b2: Seq<char>)
    requires
        a1 + seq!['/'] + b1 == a2 + seq!['/'] + b2,
        slash_free(a1),
        slash_free(a2),
    ensures
        a1 == a2,
        b1 == b2,
{
    let s = a1 + seq!['/'] + b1;
    let t = a2 + seq!['/'] + b2;
    assert(s.len() == a1.len() + 1 + b1.len());
    assert(t.len() == a2.len() + 1 + b2.len());
    assert(forall|i: int| 0 <= i < a1.len() ==> s[i] == a1[i]);
    assert(s[a1.len() as int] == seq!['/'][0]);
    assert(forall|i: int| 0 <= i < b1.len() ==> s[a1.len() + 1 + i] == b1[i]);
    assert(forall|i: int| 0 <= i < a2.len() ==> t[i] == a2[i]);
    assert(t[a2.len() as int] == seq!['/'][0]);
    assert(forall|i: int| 0 <= i < b2.len() ==> t[a2.len() + 1 + i] == b2[i]);
    if a1.len() < a2.len() {
        let j = a1.len() as int;
        assert(s[j] == '/');
        assert(t[j] == a2[j]);
        assert(false);
    }
    if a2.len() < a1.len() {
        let j = a2.len() as int;
        assert(t[j] == '/');
        assert(s[j] == a1[j]);
        assert(false);
    }
    assert(a1.len() == a2.len());
    assert forall|i: int| 0 <= i < a1.len() implies a1[i] == a2[i] by {
        assert(s[i] == a1[i]);
        assert(t[i] == a2[i]);
    }
    assert forall|i: int| 0 <= i < b1.len() implies b1[i] == b2[i] by {
        assert(s[a1.len() + 1 + i] == b1[i]);
        assert(t[a2.len() + 1 + i] == b2[i]);
    }
    assert(a1 =~= a2);
    assert(b1 =~= b2);
}

/// Joining separator-free components is injective, including in the number
/// of components.
proof fn lemma_join_unique(p1: Seq<Seq<char>>, p2: Seq<Seq<char>>)
    requires
        spec_join(p1) == spec_join(p2),
        p1.len() >= 1,
        p2.len() >= 1,
        forall|i: int| 0 <= i < p1.len() ==> slash_free(#[trigger] p1[i]),
        forall|i: int| 0 <= i < p2.len() ==> slash_free(#[trigger] p2[i]),
    ensures
        p1 == p2,
    decreases p1.len() + p2.len(),
{
    if p1.len() == 1 && p2.len() == 1 {
        assert(p1 =~= p2);
    } else if p1.len() == 1 {
        let j2 = spec_join(p2.drop_last());
        let k = j2.len() as int;
        assert(spec_join(p2)[k] == '/');
        assert(slash_free(p1[0]));
        assert(spec_join(p1) == p1[0]);
        assert(false);
    } else if p2.len() == 1 {
        let j1 = spec_join(p1.drop_last());
        let k = j1.len() as int;
        assert(spec_join(p1)[k] == '/');
        assert(slash_free(p2[0]));
        assert(false);
    } else {
        assert(slash_free(p1.last()));
        assert(slash_free(p2.last()));
        lemma_rsplit_unique(spec_join(p1.drop_last()), p1.last(), spec_join(p2.drop_last()), p2.last());
        assert(forall|i: int| 0 <= i < p1.drop_last().len() ==> slash_free(#[trigger] p1.drop_last()[i]));
        assert(forall|i: int| 0 <= i < p2.drop_last().len() ==> slash_free(#[trigger] p2.drop_last()[i]));
        lemma_join_unique(p1.drop_last(), p2.drop_last());
        assert(p1.len() == p2.len());
        assert forall|i: int| 0 <= i < p1.len() implies p1[i] == p2[i] by {
            if i < p1.len() - 1 {
                assert(p1.drop_last()[i] == p2.drop_last()[i]);
            }
        }
        assert(p1 =~= p2);
    }
}

/// No collisions among base-rooted identifiers: with one base address, equal
/// identifiers force the same category tag and the same components, down to
/// the number of components.
pub proof fn lemma_tagged_iri_injective(
    base: Seq<char>,
    t1: Seq<char>,
    p1: Seq<Seq<char>>,
    t2: Seq<char>,
    p2: Seq<Seq<char>>,
)
    requires
        spec_tagged_iri(base, t1, p1) == spec_tagged_iri(base, t2, p2),
        slash_free(t1),
        slash_free(t2),
        p1.len() >= 1,
        p2.len() >= 1,
        forall|i: int| 0 <= i < p1.len() ==> slash_free(#[trigger] p1[i]),
        forall|i: int| 0 <= i < p2.len() ==> slash_free(#[trigger] p2[i]),
    ensures
        t1 == t2,
        p1 == p2,
{
    let pre = base + seq!['/'];
    assert(spec_tagged_iri(base, t1, p1) =~= pre + (t1 + seq!['/'] + spec_join(p1)));
    assert(spec_tagged_iri(base, t2, p2) =~= pre + (t2 + seq!['/'] + spec_join(p2)));
    lemma_prefix_strip(pre, t1 + seq!['/'] + spec_join(p1), t2 + seq!['/'] + spec_join(p2));
    lemma_fsplit_unique(t1, spec_join(p1), t2, spec_join(p2));
    lemma_join_unique(p1, p2);
}

/// The decimal digit string holds no separator.
proof fn lemma_dec_slash_free(n: nat)
    ensures
        slash_free(spec_dec(n)),
    decreases n,
{
    if n >= 10 {
        lemma_dec_slash_free(n / 10);
    }
}

/// The decimal rendering is injective.
proof fn lemma_dec_injective(a: nat, b: nat)
    requires
        spec_dec(a) == spec_dec(b),
    ensures
        a == b,
    decreases a + b,
{
    lemma_dec_len(a);
    lemma_dec_len(b);
    if a < 10 && b < 10 {
        assert(spec_dec(a)[0] == spec_dec(b)[0]);
        assert(spec_dec(a)[0] == spec_digit(a));
        assert(spec_dec(b)[0] == spec_digit(b));
        lemma_digit_code(a);
        lemma_digit_code(b);
    } else if a < 10 {
        assert(spec_dec(a).len() == 1);
        assert(spec_dec(b).len() >= 2);
    } else if b < 10 {
        assert(spec_dec(b).len() == 1);
        assert(spec_dec(a).len() >= 2);
    } else {
        assert(spec_dec(a).last() == spec_dec(b).last());
        assert(spec_dec(a).last() == spec_digit(a % 10));
        assert(spec_dec(b).last() == spec_digit(b % 10));
        lemma_digit_code(a % 10);
        lemma_digit_code(b % 10);
        assert(a % 10 == b % 10);
        assert(spec_dec(a).drop_last() =~= spec_dec(a / 10));
        assert(spec_dec(b).drop_last() =~= spec_dec(b / 10));
        lemma_dec_injective(a / 10, b / 10);
        assert(a == 10 * (a / 10) + a % 10);
        assert(b == 10 * (b / 10) + b % 10);
    }
}

/// The code point of a digit character determines the digit.
proof fn lemma_digit_code(d: nat)
    requires
        d < 10,
    ensures
        spec_digit(d) as u32 == 48 + d,
{
}

/// One digit for values below ten, two or more above.
proof fn lemma_dec_len(n: nat)
    ensures
        n < 10 ==> spec_dec(n).len() == 1,
        n >= 10 ==> spec_dec(n).len() >= 2,
    decreases n,
{
    if n >= 10 {
        lemma_dec_len(n / 10);
    }
}

/// Distinct library-unit components mint distinct identifiers.
pub proof fn lemma_crate_iri_injective(
    base: Seq<char>,
    n1: Seq<char>,
    v1: Seq<char>,
    n2: Seq<char>,
    v2: Seq<char>,
)
    requires
        spec_crate_iri(base, n1, v1) == spec_crate_iri(base, n2, v2),
    ensures
        n1 == n2,
        v1 == v2,
{
    reveal_strlit("crate");
    lemma_escape_no_slash(n1);
    lemma_escape_no_slash(v1);
    lemma_escape_no_slash(n2);
    lemma_escape_no_slash(v2);
    let p1 = seq![spec_escape(n1), spec_escape(v1)];
    let p2 = seq![spec_escape(n2), spec_escape(v2)];
    lemma_tagged_iri_injective(base, "crate"@, p1, "crate"@, p2);
    assert(p1[0] == p2[0]);
    assert(p1[1] == p2[1]);
    lemma_escape_injective(n1, n2);
    lemma_escape_injective(v1, v2);
}

/// Distinct namespace components mint distinct identifiers.
pub proof fn lemma_module_iri_injective(
    base: Seq<char>,
    c1: Seq<char>,
    v1: Seq<char>,
    m1: Seq<char>,
    c2: Seq<char>,
    v2: Seq<char>,
    m2: Seq<char>,
)
    requires
        spec_module_iri(base, c1, v1, m1) == spec_module_iri(base, c2, v2, m2),
    ensures
        c1 == c2,
        v1 == v2,
        m1 == m2,
{
    reveal_strlit("module");
    lemma_escape_no_slash(c1);
    lemma_escape_no_slash(v1);
    lemma_escape_no_slash(m1);
    lemma_escape_no_slash(c2);
    lemma_escape_no_slash(v2);
    lemma_escape_no_slash(m2);
    let p1 = seq![spec_escape(c1), spec_escape(v1), spec_escape(m1)];
    let p2 = seq![spec_escape(c2), spec_escape(v2), spec_escape(m2)];
    lemma_tagged_iri_injective(base, "module"@, p1, "module"@, p2);
    assert(p1[0] == p2[0]);
    assert(p1[1] == p2[1]);
    assert(p1[2] == p2[2]);
    lemma_escape_injective(c1, c2);
    lemma_escape_injective(v1, v2);
    lemma_escape_injective(m1, m2);
}

/// Distinct type-path components mint distinct identifiers.
pub proof fn lemma_type_iri_injective(
    base: Seq<char>,
    c1: Seq<char>,
    v1: Seq<char>,
    f1: Seq<char>,
    c2: Seq<char>,
    v2: Seq<char>,
    f2: Seq<char>,
)
    requires
        spec_type_iri(base, c1, v1, f1) == spec_type_iri(base, c2, v2, f2),
    ensures
        c1 == c2,
        v1 == v2,
        f1 == f2,
{
    reveal_strlit("type");
    lemma_escape_no_slash(c1);
    lemma_escape_no_slash(v1);
    lemma_escape_no_slash(f1);
    lemma_escape_no_slash(c2);
    lemma_escape_no_slash(v2);
    lemma_escape_no_slash(f2);
    let p1 = seq![spec_escape(c1), spec_escape(v1), spec_escape(f1)];
    let p2 = seq![spec_escape(c2), spec_escape(v2), spec_escape(f2)];
    lemma_tagged_iri_injective(base, "type"@, p1, "type"@, p2);
    assert(p1[0] == p2[0]);
    assert(p1[1] == p2[1]);
    assert(p1[2] == p2[2]);
    lemma_escape_injective(c1, c2);
    lemma_escape_injective(v1, v2);
    lemma_escape_injective(f1, f2);
}

/// Identifiers of different base-rooted categories never collide: the
/// category tag is pinned by the identifier.
pub proof fn lemma_crate_module_distinct(
    base: Seq<char>,
    n: Seq<char>,
    v: Seq<char>,
    c2: Seq<char>,
    v2: Seq<char>,
    m2: Seq<char>,
)
    ensures
        spec_crate_iri(base, n, v) != spec_module_iri(base, c2, v2, m2),
{
    reveal_strlit("crate");
    reveal_strlit("module");
    if spec_crate_iri(base, n, v) == spec_module_iri(base, c2, v2, m2) {
        lemma_escape_no_slash(n);
        lemma_escape_no_slash(v);
        lemma_escape_no_slash(c2);
        lemma_escape_no_slash(v2);
        lemma_escape_no_slash(m2);
        lemma_tagged_iri_injective(
            base,
            "crate"@,
            seq![spec_escape(n), spec_escape(v)],
            "module"@,
            seq![spec_escape(c2), spec_escape(v2), spec_escape(m2)],
        );
        assert("crate"@.len() == 5);
        assert("module"@.len() == 6);
        assert(false);
    }
}

/// A type identifier and a namespace identifier never collide.
pub proof fn lemma_type_module_distinct(
    base: Seq<char>,
    c1: Seq<char>,
    v1: Seq<char>,
    f1: Seq<char>,
    c2: Seq<char>,
    v2: Seq<char>,
    m2: Seq<char>,
)
    ensures
        spec_type_iri(base, c1, v1, f1) != spec_module_iri(base, c2, v2, m2),
{
    reveal_strlit("type");
    reveal_strlit("module");
    if spec_type_iri(base, c1, v1, f1) == spec_module_iri(base, c2, v2, m2) {
        lemma_escape_no_slash(c1);
        lemma_escape_no_slash(v1);
        lemma_escape_no_slash(f1);
        lemma_escape_no_slash(c2);
        lemma_escape_no_slash(v2);
        lemma_escape_no_slash(m2);
        lemma_tagged_iri_injective(
            base,
            "type"@,
            seq![spec_escape(c1), spec_escape(v1), spec_escape(f1)],
            "module"@,
            seq![spec_escape(c2), spec_escape(v2), spec_escape(m2)],
        );
        assert("type"@.len() == 4);
        assert("module"@.len() == 6);
        assert(false);
    }
}

/// A named-type identifier never collides with a primitive-type identifier:
/// the primitive form has one component fewer.
pub proof fn lemma_type_primitive_distinct(
    base: Seq<char>,
    c: Seq<char>,
    v: Seq<char>,
    f: Seq<char>,
    name: Seq<char>,
)
    ensures
        spec_type_iri(base, c, v, f) != spec_primitive_type_iri(base, name),
{
    reveal_strlit("type");
    reveal_strlit("_primitive_");
    if spec_type_iri(base, c, v, f) == spec_primitive_type_iri(base, name) {
        lemma_escape_no_slash(c);
        lemma_escape_no_slash(v);
        lemma_escape_no_slash(f);
        lemma_escape_no_slash(name);
        let p1 = seq![spec_escape(c), spec_escape(v), spec_escape(f)];
        let p2 = seq!["_primitive_"@, spec_escape(name)];
        assert(slash_free("_primitive_"@)) by {
            assert(forall|i: int| 0 <= i < "_primitive_"@.len() ==> "_primitive_"@[i] != '/');
        }
        lemma_tagged_iri_injective(base, "type"@, p1, "type"@, p2);
        assert(p1.len() != p2.len());
        assert(false);
    }
}

/// Distinct member names, or distinct signature disambiguators, mint
/// distinct member identifiers under one owner.
pub proof fn lemma_member_iri_injective(
    owner: Seq<char>,
    n1: Seq<char>,
    s1: Seq<char>,
    n2: Seq<char>,
    s2: Seq<char>,
)
    requires
        spec_member_iri(owner, n1, s1) == spec_member_iri(owner, n2, s2),
        s1.len() == 0,
        s2.len() == 0,
    ensures
        n1 == n2,
{
    lemma_prefix_strip(owner + "/member/"@, spec_escape(n1), spec_escape(n2));
    lemma_escape_injective(n1, n2);
}

/// Distinct variant names mint distinct variant identifiers under one owner.
pub proof fn lemma_variant_iri_injective(owner: Seq<char>, n1: Seq<char>, n2: Seq<char>)
    requires
        spec_variant_iri(owner, n1) == spec_variant_iri(owner, n2),
    ensures
        n1 == n2,
{
    lemma_prefix_strip(owner + "/variant/"@, spec_escape(n1), spec_escape(n2));
    lemma_escape_injective(n1, n2);
}

/// Distinct ordinals mint distinct parameter identifiers under one owner.
pub proof fn lemma_parameter_iri_injective(owner: Seq<char>, o1: nat, o2: nat)
    requires
        spec_parameter_iri(owner, o1) == spec_parameter_iri(owner, o2),
    ensures
        o1 == o2,
{
    lemma_prefix_strip(owner + "/param/"@, spec_dec(o1), spec_dec(o2));
    lemma_dec_injective(o1, o2);
}


/// Member and variant identifiers never collide, even under one owner: the
/// category segment is pinned by the identifier.
pub proof fn lemma_member_variant_distinct(
    owner: Seq<char>,
    n: Seq<char>,
    owner2: Seq<char>,
    v: Seq<char>,
)
    ensures
        spec_member_iri(owner, n, Seq::empty()) != spec_variant_iri(owner2, v),
{
    reveal_strlit("/member/");
    reveal_strlit("/variant/");
    reveal_strlit("/member");
    reveal_strlit("/variant");
    if spec_member_iri(owner, n, Seq::empty()) == spec_variant_iri(owner2, v) {
        lemma_escape_no_slash(n);
        lemma_escape_no_slash(v);
        let a1 = owner + "/member"@;
        let a2 = owner2 + "/variant"@;
        assert(owner + "/member/"@ + spec_escape(n) =~= a1 + seq!['/'] + spec_escape(n));
        assert(owner2 + "/variant/"@ + spec_escape(v) =~= a2 + seq!['/'] + spec_escape(v));
        lemma_rsplit_unique(a1, spec_escape(n), a2, spec_escape(v));
        assert(a1.len() == owner.len() + 7);
        assert(a2.len() == owner2.len() + 8);
        assert(a1.last() == 'r');
        assert(a1[a1.len() - 2] == 'e');
        assert(a2.last() == 't');
        assert(false);
    }
}

} // verus!
