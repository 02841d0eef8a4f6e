//! The fixed vocabulary of class and predicate addresses.
//!
//! Two namespaces: a shared cross-language vocabulary (`tg_` items) and a
//! source-language-specific extension vocabulary (`rt_` items), beside the
//! standard RDF, RDFS and XSD addresses. All are compile-time constants.

use vstd::prelude::*;

verus! {

pub open spec fn spec_rdf_ns() -> Seq<char> {
    "http://www.w3.org/1999/02/22-rdf-syntax-ns#"@
}

pub fn rdf_ns() -> (r: &'static str)
    ensures
        r@ == spec_rdf_ns(),
{
    "http://www.w3.org/1999/02/22-rdf-syntax-ns#"
}

pub open spec fn spec_rdfs_ns() -> Seq<char> {
    "http://www.w3.org/2000/01/rdf-schema#"@
}

pub fn rdfs_ns() -> (r: &'static str)
    ensures
        r@ == spec_rdfs_ns(),
{
    "http://www.w3.org/2000/01/rdf-schema#"
}

pub open spec fn spec_xsd_ns() -> Seq<char> {
    "http://www.w3.org/2001/XMLSchema#"@
}

pub fn xsd_ns() -> (r: &'static str)
    ensures
        r@ == spec_xsd_ns(),
{
    "http://www.w3.org/2001/XMLSchema#"
}

pub open spec fn spec_rdf_type() -> Seq<char> {
    "http://www.w3.org/1999/02/22-rdf-syntax-ns#type"@
}

pub fn rdf_type() -> (r: &'static str)
    ensures
        r@ == spec_rdf_type(),
{
    "http://www.w3.org/1999/02/22-rdf-syntax-ns#type"
}

pub open spec fn spec_rdfs_label() -> Seq<char> {
    "http://www.w3.org/2000/01/rdf-schema#label"@
}

pub fn rdfs_label() -> (r: &'static str)
    ensures
        r@ == spec_rdfs_label(),
{
    "http://www.w3.org/2000/01/rdf-schema#label"
}

pub open spec fn spec_rdfs_subclass_of() -> Seq<char> {
    "http://www.w3.org/2000/01/rdf-schema#subClassOf"@
}

pub fn rdfs_subclass_of() -> (r: &'static str)
    ensures
        r@ == spec_rdfs_subclass_of(),
{
    "http://www.w3.org/2000/01/rdf-schema#subClassOf"
}

pub open spec fn spec_xsd_string() -> Seq<char> {
    "http://www.w3.org/2001/XMLSchema#string"@
}

pub fn xsd_string() -> (r: &'static str)
    ensures
        r@ == spec_xsd_string(),
{
    "http://www.w3.org/2001/XMLSchema#string"
}

pub open spec fn spec_xsd_boolean() -> Seq<char> {
    "http://www.w3.org/2001/XMLSchema#boolean"@
}

pub fn xsd_boolean() -> (r: &'static str)
    ensures
        r@ == spec_xsd_boolean(),
{
    "http://www.w3.org/2001/XMLSchema#boolean"
}

pub open spec fn spec_xsd_integer() -> Seq<char> {
    "http://www.w3.org/2001/XMLSchema#integer"@
}

pub fn xsd_integer() -> (r: &'static str)
    ensures
        r@ == spec_xsd_integer(),
{
    "http://www.w3.org/2001/XMLSchema#integer"
}

pub open spec fn spec_tg_assembly() -> Seq<char> {
    "http://typegraph.example/ontology/Assembly"@
}

pub fn tg_assembly() -> (r: &'static str)
    ensures
        r@ == spec_tg_assembly(),
{
    "http://typegraph.example/ontology/Assembly"
}

pub open spec fn spec_tg_namespace() -> Seq<char> {
    "http://typegraph.example/ontology/Namespace"@
}

pub fn tg_namespace() -> (r: &'static str)
    ensures
        r@ == spec_tg_namespace(),
{
    "http://typegraph.example/ontology/Namespace"
}

pub open spec fn spec_tg_type() -> Seq<char> {
    "http://typegraph.example/ontology/Type"@
}

pub fn tg_type() -> (r: &'static str)
    ensures
        r@ == spec_tg_type(),
{
    "http://typegraph.example/ontology/Type"
}

pub open spec fn spec_tg_class() -> Seq<char> {
    "http://typegraph.example/ontology/Class"@
}

pub fn tg_class() -> (r: &'static str)
    ensures
        r@ == spec_tg_class(),
{
    "http://typegraph.example/ontology/Class"
}

pub open spec fn spec_tg_struct() -> Seq<char> {
    "http://typegraph.example/ontology/Struct"@
}

pub fn tg_struct() -> (r: &'static str)
    ensures
        r@ == spec_tg_struct(),
{
    "http://typegraph.example/ontology/Struct"
}

pub open spec fn spec_tg_interface() -> Seq<char> {
    "http://typegraph.example/ontology/Interface"@
}

pub fn tg_interface() -> (r: &'static str)
    ensures
        r@ == spec_tg_interface(),
{
    "http://typegraph.example/ontology/Interface"
}

pub open spec fn spec_tg_enum() -> Seq<char> {
    "http://typegraph.example/ontology/Enum"@
}

pub fn tg_enum() -> (r: &'static str)
    ensures
        r@ == spec_tg_enum(),
{
    "http://typegraph.example/ontology/Enum"
}

pub open spec fn spec_tg_member() -> Seq<char> {
    "http://typegraph.example/ontology/Member"@
}

pub fn tg_member() -> (r: &'static str)
    ensures
        r@ == spec_tg_member(),
{
    "http://typegraph.example/ontology/Member"
}

pub open spec fn spec_tg_method() -> Seq<char> {
    "http://typegraph.example/ontology/Method"@
}

pub fn tg_method() -> (r: &'static str)
    ensures
        r@ == spec_tg_method(),
{
    "http://typegraph.example/ontology/Method"
}

pub open spec fn spec_tg_field() -> Seq<char> {
    "http://typegraph.example/ontology/Field"@
}

pub fn tg_field() -> (r: &'static str)
    ensures
        r@ == spec_tg_field(),
{
    "http://typegraph.example/ontology/Field"
}

pub open spec fn spec_tg_parameter() -> Seq<char> {
    "http://typegraph.example/ontology/Parameter"@
}

pub fn tg_parameter() -> (r: &'static str)
    ensures
        r@ == spec_tg_parameter(),
{
    "http://typegraph.example/ontology/Parameter"
}

pub open spec fn spec_tg_type_parameter() -> Seq<char> {
    "http://typegraph.example/ontology/TypeParameter"@
}

pub fn tg_type_parameter() -> (r: &'static str)
    ensures
        r@ == spec_tg_type_parameter(),
{
    "http://typegraph.example/ontology/TypeParameter"
}

pub open spec fn spec_tg_name() -> Seq<char> {
    "http://typegraph.example/ontology/name"@
}

pub fn tg_name() -> (r: &'static str)
    ensures
        r@ == spec_tg_name(),
{
    "http://typegraph.example/ontology/name"
}

pub open spec fn spec_tg_full_name() -> Seq<char> {
    "http://typegraph.example/ontology/fullName"@
}

pub fn tg_full_name() -> (r: &'static str)
    ensures
        r@ == spec_tg_full_name(),
{
    "http://typegraph.example/ontology/fullName"
}

pub open spec fn spec_tg_accessibility() -> Seq<char> {
    "http://typegraph.example/ontology/accessibility"@
}

pub fn tg_accessibility() -> (r: &'static str)
    ensures
        r@ == spec_tg_accessibility(),
{
    "http://typegraph.example/ontology/accessibility"
}

pub open spec fn spec_tg_is_abstract() -> Seq<char> {
    "http://typegraph.example/ontology/isAbstract"@
}

pub fn tg_is_abstract() -> (r: &'static str)
    ensures
        r@ == spec_tg_is_abstract(),
{
    "http://typegraph.example/ontology/isAbstract"
}

pub open spec fn spec_tg_is_generic() -> Seq<char> {
    "http://typegraph.example/ontology/isGeneric"@
}

pub fn tg_is_generic() -> (r: &'static str)
    ensures
        r@ == spec_tg_is_generic(),
{
    "http://typegraph.example/ontology/isGeneric"
}

pub open spec fn spec_tg_is_async() -> Seq<char> {
    "http://typegraph.example/ontology/isAsync"@
}

pub fn tg_is_async() -> (r: &'static str)
    ensures
        r@ == spec_tg_is_async(),
{
    "http://typegraph.example/ontology/isAsync"
}

pub open spec fn spec_tg_is_const() -> Seq<char> {
    "http://typegraph.example/ontology/isConst"@
}

pub fn tg_is_const() -> (r: &'static str)
    ensures
        r@ == spec_tg_is_const(),
{
    "http://typegraph.example/ontology/isConst"
}

pub open spec fn spec_tg_defined_in_assembly() -> Seq<char> {
    "http://typegraph.example/ontology/definedInAssembly"@
}

pub fn tg_defined_in_assembly() -> (r: &'static str)
    ensures
        r@ == spec_tg_defined_in_assembly(),
{
    "http://typegraph.example/ontology/definedInAssembly"
}

pub open spec fn spec_tg_in_namespace() -> Seq<char> {
    "http://typegraph.example/ontology/inNamespace"@
}

pub fn tg_in_namespace() -> (r: &'static str)
    ensures
        r@ == spec_tg_in_namespace(),
{
    "http://typegraph.example/ontology/inNamespace"
}

pub open spec fn spec_tg_implements() -> Seq<char> {
    "http://typegraph.example/ontology/implements"@
}

pub fn tg_implements() -> (r: &'static str)
    ensures
        r@ == spec_tg_implements(),
{
    "http://typegraph.example/ontology/implements"
}

pub open spec fn spec_tg_has_member() -> Seq<char> {
    "http://typegraph.example/ontology/hasMember"@
}

pub fn tg_has_member() -> (r: &'static str)
    ensures
        r@ == spec_tg_has_member(),
{
    "http://typegraph.example/ontology/hasMember"
}

pub open spec fn spec_tg_has_type_parameter() -> Seq<char> {
    "http://typegraph.example/ontology/hasTypeParameter"@
}

pub fn tg_has_type_parameter() -> (r: &'static str)
    ensures
        r@ == spec_tg_has_type_parameter(),
{
    "http://typegraph.example/ontology/hasTypeParameter"
}

pub open spec fn spec_tg_related_to() -> Seq<char> {
    "http://typegraph.example/ontology/relatedTo"@
}

pub fn tg_related_to() -> (r: &'static str)
    ensures
        r@ == spec_tg_related_to(),
{
    "http://typegraph.example/ontology/relatedTo"
}

pub open spec fn spec_tg_member_of() -> Seq<char> {
    "http://typegraph.example/ontology/memberOf"@
}

pub fn tg_member_of() -> (r: &'static str)
    ensures
        r@ == spec_tg_member_of(),
{
    "http://typegraph.example/ontology/memberOf"
}

pub open spec fn spec_tg_return_type() -> Seq<char> {
    "http://typegraph.example/ontology/returnType"@
}

pub fn tg_return_type() -> (r: &'static str)
    ensures
        r@ == spec_tg_return_type(),
{
    "http://typegraph.example/ontology/returnType"
}

pub open spec fn spec_tg_field_type() -> Seq<char> {
    "http://typegraph.example/ontology/fieldType"@
}

pub fn tg_field_type() -> (r: &'static str)
    ensures
        r@ == spec_tg_field_type(),
{
    "http://typegraph.example/ontology/fieldType"
}

pub open spec fn spec_tg_has_parameter() -> Seq<char> {
    "http://typegraph.example/ontology/hasParameter"@
}

pub fn tg_has_parameter() -> (r: &'static str)
    ensures
        r@ == spec_tg_has_parameter(),
{
    "http://typegraph.example/ontology/hasParameter"
}

pub open spec fn spec_tg_ordinal() -> Seq<char> {
    "http://typegraph.example/ontology/ordinal"@
}

pub fn tg_ordinal() -> (r: &'static str)
    ensures
        r@ == spec_tg_ordinal(),
{
    "http://typegraph.example/ontology/ordinal"
}

pub open spec fn spec_tg_parameter_type() -> Seq<char> {
    "http://typegraph.example/ontology/parameterType"@
}

pub fn tg_parameter_type() -> (r: &'static str)
    ensures
        r@ == spec_tg_parameter_type(),
{
    "http://typegraph.example/ontology/parameterType"
}

pub open spec fn spec_tg_parameter_of() -> Seq<char> {
    "http://typegraph.example/ontology/parameterOf"@
}

pub fn tg_parameter_of() -> (r: &'static str)
    ensures
        r@ == spec_tg_parameter_of(),
{
    "http://typegraph.example/ontology/parameterOf"
}

pub open spec fn spec_tg_type_parameter_of() -> Seq<char> {
    "http://typegraph.example/ontology/typeParameterOf"@
}

pub fn tg_type_parameter_of() -> (r: &'static str)
    ensures
        r@ == spec_tg_type_parameter_of(),
{
    "http://typegraph.example/ontology/typeParameterOf"
}

pub open spec fn spec_tg_version() -> Seq<char> {
    "http://typegraph.example/ontology/version"@
}

pub fn tg_version() -> (r: &'static str)
    ensures
        r@ == spec_tg_version(),
{
    "http://typegraph.example/ontology/version"
}

pub open spec fn spec_tg_parent_namespace() -> Seq<char> {
    "http://typegraph.example/ontology/parentNamespace"@
}

pub fn tg_parent_namespace() -> (r: &'static str)
    ensures
        r@ == spec_tg_parent_namespace(),
{
    "http://typegraph.example/ontology/parentNamespace"
}

pub open spec fn spec_tg_language() -> Seq<char> {
    "http://typegraph.example/ontology/language"@
}

pub fn tg_language() -> (r: &'static str)
    ensures
        r@ == spec_tg_language(),
{
    "http://typegraph.example/ontology/language"
}

pub open spec fn spec_tg_prefix() -> Seq<char> {
    "tg"@
}

pub fn tg_prefix() -> (r: &'static str)
    ensures
        r@ == spec_tg_prefix(),
{
    "tg"
}

pub open spec fn spec_tg_ns() -> Seq<char> {
    "http://typegraph.example/ontology/"@
}

pub fn tg_ns() -> (r: &'static str)
    ensures
        r@ == spec_tg_ns(),
{
    "http://typegraph.example/ontology/"
}

pub open spec fn spec_rt_prefix() -> Seq<char> {
    "rt"@
}

pub fn rt_prefix() -> (r: &'static str)
    ensures
        r@ == spec_rt_prefix(),
{
    "rt"
}

pub open spec fn spec_rt_ns() -> Seq<char> {
    "http://rust.example/ontology/"@
}

pub fn rt_ns() -> (r: &'static str)
    ensures
        r@ == spec_rt_ns(),
{
    "http://rust.example/ontology/"
}

pub open spec fn spec_rt_crate() -> Seq<char> {
    "http://rust.example/ontology/Crate"@
}

pub fn rt_crate() -> (r: &'static str)
    ensures
        r@ == spec_rt_crate(),
{
    "http://rust.example/ontology/Crate"
}

pub open spec fn spec_rt_module() -> Seq<char> {
    "http://rust.example/ontology/Module"@
}

pub fn rt_module() -> (r: &'static str)
    ensures
        r@ == spec_rt_module(),
{
    "http://rust.example/ontology/Module"
}

pub open spec fn spec_rt_trait() -> Seq<char> {
    "http://rust.example/ontology/Trait"@
}

pub fn rt_trait() -> (r: &'static str)
    ensures
        r@ == spec_rt_trait(),
{
    "http://rust.example/ontology/Trait"
}

pub open spec fn spec_rt_union() -> Seq<char> {
    "http://rust.example/ontology/Union"@
}

pub fn rt_union() -> (r: &'static str)
    ensures
        r@ == spec_rt_union(),
{
    "http://rust.example/ontology/Union"
}

pub open spec fn spec_rt_type_alias() -> Seq<char> {
    "http://rust.example/ontology/TypeAlias"@
}

pub fn rt_type_alias() -> (r: &'static str)
    ensures
        r@ == spec_rt_type_alias(),
{
    "http://rust.example/ontology/TypeAlias"
}

pub open spec fn spec_rt_enum_variant() -> Seq<char> {
    "http://rust.example/ontology/EnumVariant"@
}

pub fn rt_enum_variant() -> (r: &'static str)
    ensures
        r@ == spec_rt_enum_variant(),
{
    "http://rust.example/ontology/EnumVariant"
}

pub open spec fn spec_rt_trait_impl() -> Seq<char> {
    "http://rust.example/ontology/TraitImpl"@
}

pub fn rt_trait_impl() -> (r: &'static str)
    ensures
        r@ == spec_rt_trait_impl(),
{
    "http://rust.example/ontology/TraitImpl"
}

pub open spec fn spec_rt_inherent_impl() -> Seq<char> {
    "http://rust.example/ontology/InherentImpl"@
}

pub fn rt_inherent_impl() -> (r: &'static str)
    ensures
        r@ == spec_rt_inherent_impl(),
{
    "http://rust.example/ontology/InherentImpl"
}

pub open spec fn spec_rt_lifetime() -> Seq<char> {
    "http://rust.example/ontology/Lifetime"@
}

pub fn rt_lifetime() -> (r: &'static str)
    ensures
        r@ == spec_rt_lifetime(),
{
    "http://rust.example/ontology/Lifetime"
}

pub open spec fn spec_rt_const_param() -> Seq<char> {
    "http://rust.example/ontology/ConstParam"@
}

pub fn rt_const_param() -> (r: &'static str)
    ensures
        r@ == spec_rt_const_param(),
{
    "http://rust.example/ontology/ConstParam"
}

pub open spec fn spec_rt_static() -> Seq<char> {
    "http://rust.example/ontology/Static"@
}

pub fn rt_static() -> (r: &'static str)
    ensures
        r@ == spec_rt_static(),
{
    "http://rust.example/ontology/Static"
}

pub open spec fn spec_rt_constant() -> Seq<char> {
    "http://rust.example/ontology/Constant"@
}

pub fn rt_constant() -> (r: &'static str)
    ensures
        r@ == spec_rt_constant(),
{
    "http://rust.example/ontology/Constant"
}

pub open spec fn spec_rt_depends_on() -> Seq<char> {
    "http://rust.example/ontology/dependsOn"@
}

pub fn rt_depends_on() -> (r: &'static str)
    ensures
        r@ == spec_rt_depends_on(),
{
    "http://rust.example/ontology/dependsOn"
}

pub open spec fn spec_rt_super_trait() -> Seq<char> {
    "http://rust.example/ontology/superTrait"@
}

pub fn rt_super_trait() -> (r: &'static str)
    ensures
        r@ == spec_rt_super_trait(),
{
    "http://rust.example/ontology/superTrait"
}

pub open spec fn spec_rt_impl_for() -> Seq<char> {
    "http://rust.example/ontology/implFor"@
}

pub fn rt_impl_for() -> (r: &'static str)
    ensures
        r@ == spec_rt_impl_for(),
{
    "http://rust.example/ontology/implFor"
}

pub open spec fn spec_rt_impl_trait() -> Seq<char> {
    "http://rust.example/ontology/implTrait"@
}

pub fn rt_impl_trait() -> (r: &'static str)
    ensures
        r@ == spec_rt_impl_trait(),
{
    "http://rust.example/ontology/implTrait"
}

pub open spec fn spec_rt_has_variant() -> Seq<char> {
    "http://rust.example/ontology/hasVariant"@
}

pub fn rt_has_variant() -> (r: &'static str)
    ensures
        r@ == spec_rt_has_variant(),
{
    "http://rust.example/ontology/hasVariant"
}

pub open spec fn spec_rt_variant_kind() -> Seq<char> {
    "http://rust.example/ontology/variantKind"@
}

pub fn rt_variant_kind() -> (r: &'static str)
    ensures
        r@ == spec_rt_variant_kind(),
{
    "http://rust.example/ontology/variantKind"
}

pub open spec fn spec_rt_variant_field() -> Seq<char> {
    "http://rust.example/ontology/variantField"@
}

pub fn rt_variant_field() -> (r: &'static str)
    ensures
        r@ == spec_rt_variant_field(),
{
    "http://rust.example/ontology/variantField"
}

pub open spec fn spec_rt_has_lifetime() -> Seq<char> {
    "http://rust.example/ontology/hasLifetime"@
}

pub fn rt_has_lifetime() -> (r: &'static str)
    ensures
        r@ == spec_rt_has_lifetime(),
{
    "http://rust.example/ontology/hasLifetime"
}

pub open spec fn spec_rt_is_unsafe() -> Seq<char> {
    "http://rust.example/ontology/isUnsafe"@
}

pub fn rt_is_unsafe() -> (r: &'static str)
    ensures
        r@ == spec_rt_is_unsafe(),
{
    "http://rust.example/ontology/isUnsafe"
}

pub open spec fn spec_rt_is_mutable() -> Seq<char> {
    "http://rust.example/ontology/isMutable"@
}

pub fn rt_is_mutable() -> (r: &'static str)
    ensures
        r@ == spec_rt_is_mutable(),
{
    "http://rust.example/ontology/isMutable"
}

pub open spec fn spec_rt_error_type() -> Seq<char> {
    "http://rust.example/ontology/errorType"@
}

pub fn rt_error_type() -> (r: &'static str)
    ensures
        r@ == spec_rt_error_type(),
{
    "http://rust.example/ontology/errorType"
}

pub open spec fn spec_rt_derives() -> Seq<char> {
    "http://rust.example/ontology/derives"@
}

pub fn rt_derives() -> (r: &'static str)
    ensures
        r@ == spec_rt_derives(),
{
    "http://rust.example/ontology/derives"
}

pub open spec fn spec_rt_trait_bound() -> Seq<char> {
    "http://rust.example/ontology/traitBound"@
}

pub fn rt_trait_bound() -> (r: &'static str)
    ensures
        r@ == spec_rt_trait_bound(),
{
    "http://rust.example/ontology/traitBound"
}

} // verus!
