//! What every hashed definition shares: a typed object (name, type, where it
//! was defined) and, for what is rendered into prompts, an alias, a
//! description and a skip flag.  The interface of a definition is what its
//! callers depend on; the implementation adds what only changes behaviour.

use vstd::prelude::*;
use crate::encode::{enc_bool, enc_str, push_bool, push_str};
use crate::order::{sorted_unique, str_eq, string_views, strictly_sorted};
use crate::type_rpc::{enc_type, push_type};
use crate::types::{TypeModel, TypeRPC};

verus! {

/// Where a definition comes from.
#[derive(Clone, Copy, Debug, PartialEq, Eq, Structural)]
pub enum DefinitionSource {
    /// Defined purely at compile time.
    CompileTime,
    /// Defined purely at runtime.
    Runtime,
    /// Defined at compile time, but overridden at runtime.
    OverriddenAtRuntime,
}

/// A string given literally, by an environment variable, or by a template.
#[derive(Clone, Debug)]
pub enum StringOr {
    EnvVar(String),
    Value(String),
    JinjaExpression(String),
}

/// Model of a `StringOr`.
pub enum StringOrModel {
    EnvVar(Seq<char>),
    Value(Seq<char>),
    JinjaExpression(Seq<char>),
}

pub open spec fn string_or_model(s: StringOr) -> StringOrModel {
    match s {
        StringOr::EnvVar(v) => StringOrModel::EnvVar(v@),
        StringOr::Value(v) => StringOrModel::Value(v@),
        StringOr::JinjaExpression(v) => StringOrModel::JinjaExpression(v@),
    }
}

pub open spec fn opt_string_or_model(o: Option<StringOr>) -> Option<StringOrModel> {
    match o {
        Some(s) => Some(string_or_model(s)),
        None => None,
    }
}

pub open spec fn opt_ref_string_or_model(o: Option<&StringOr>) -> Option<StringOrModel> {
    match o {
        Some(s) => Some(string_or_model(*s)),
        None => None,
    }
}

/// A copy of a `StringOr`.
pub fn copy_string_or(s: &StringOr) -> (r: StringOr)
    ensures
        string_or_model(r) == string_or_model(*s),
{
    match s {
        StringOr::EnvVar(v) => StringOr::EnvVar(v.clone()),
        StringOr::Value(v) => StringOr::Value(v.clone()),
        StringOr::JinjaExpression(v) => StringOr::JinjaExpression(v.clone()),
    }
}

/// An owned copy of an optional `StringOr`.
pub fn copy_opt_string_or(o: Option<&StringOr>) -> (r: Option<StringOr>)
    ensures
        opt_string_or_model(r) == opt_ref_string_or_model(o),
{
    match o {
        Some(s) => Some(copy_string_or(s)),
        None => None,
    }
}

/// The borrowed contents of an optional `StringOr`.
pub fn opt_string_or_ref(o: &Option<StringOr>) -> (r: Option<&StringOr>)
    ensures
        opt_ref_string_or_model(r) == opt_string_or_model(*o),
{
    match o {
        Some(s) => Some(s),
        None => None,
    }
}

/// Model of a typed object.
pub struct TypedModel {
    pub name: Seq<char>,
    pub ty: TypeModel,
    pub source: DefinitionSource,
}

/// Model of what is rendered of an object.
pub struct RenderModel {
    pub alias: Option<StringOrModel>,
    pub description: Option<StringOrModel>,
    pub skip: bool,
}

/// Something with a name, a type and a definition source.
pub trait TypedObject {
    spec fn typed_model(&self) -> TypedModel;

    fn name(&self) -> (r: &str)
        ensures
            r@ == self.typed_model().name,
    ;

    fn type_rpc(&self) -> (r: &TypeRPC)
        ensures
            r@ == self.typed_model().ty,
    ;

    fn definition_source(&self) -> (r: DefinitionSource)
        ensures
            r == self.typed_model().source,
    ;
}

/// Something rendered into prompts.
pub trait LLMRenderable {
    spec fn render_model(&self) -> RenderModel;

    fn alias(&self) -> (r: Option<&StringOr>)
        ensures
            opt_ref_string_or_model(r) == self.render_model().alias,
    ;

    fn description(&self) -> (r: Option<&StringOr>)
        ensures
            opt_ref_string_or_model(r) == self.render_model().description,
    ;

    fn skip(&self) -> (r: bool)
        ensures
            r == self.render_model().skip,
    ;
}

/// A definition's hashes and dependencies, before those of what it depends on
/// are taken into account.
pub trait ShallowSignature {
    /// The bytes its interface hash is the digest of.
    spec fn interface_bytes(&self) -> Seq<u8>;

    /// The bytes its implementation hash is the digest of.
    spec fn implementation_bytes(&self) -> Seq<u8>;

    /// The names its interface refers to.
    spec fn interface_deps(&self) -> Set<Seq<char>>;

    /// The names its implementation refers to.
    spec fn implementation_deps(&self) -> Set<Seq<char>>;

    /// The word that names the kind of definition.
    spec fn prefix_word(&self) -> Seq<char>;

    /// A word naming the kind of definition.
    fn shallow_hash_prefix(&self) -> (r: &'static str)
        ensures
            r@ == self.prefix_word(),
    ;

    fn shallow_interface_hash(&self) -> (r: Vec<u8>)
        ensures
            r@ == self.interface_bytes(),
    ;

    fn unsorted_interface_dependencies(&self) -> (r: Vec<String>)
        ensures
            string_views(r@).to_set() == self.interface_deps(),
    ;

    /// The interface dependencies, each once, in increasing order.
    fn interface_dependencies(&self) -> (r: Vec<String>)
        ensures
            strictly_sorted(string_views(r@)),
            string_views(r@).to_set() == self.interface_deps(),
    {
        sorted_unique(&self.unsorted_interface_dependencies())
    }

    fn shallow_implementation_hash(&self) -> (r: Vec<u8>)
        ensures
            r@ == self.implementation_bytes(),
    ;

    fn unsorted_implementation_dependencies(&self) -> (r: Vec<String>)
        ensures
            string_views(r@).to_set() == self.implementation_deps(),
    ;

    /// The implementation dependencies, each once, in increasing order.
    fn implementation_dependencies(&self) -> (r: Vec<String>)
        ensures
            strictly_sorted(string_views(r@)),
            string_views(r@).to_set() == self.implementation_deps(),
    {
        sorted_unique(&self.unsorted_implementation_dependencies())
    }
}

/// One byte for the definition source.
pub open spec fn enc_source(s: DefinitionSource) -> Seq<u8> {
    match s {
        DefinitionSource::CompileTime => seq![0u8],
        DefinitionSource::Runtime => seq![1u8],
        DefinitionSource::OverriddenAtRuntime => seq![2u8],
    }
}

/// The interface of a typed object: name, type and definition source.
pub open spec fn typed_interface(t: TypedModel) -> Seq<u8> {
    enc_str(t.name) + enc_type(t.ty) + enc_source(t.source)
}

/// The implementation of a typed object adds nothing to its interface.
pub open spec fn typed_implementation(t: TypedModel) -> Seq<u8> {
    typed_interface(t)
}

/// A `StringOr`: which kind, then the string.
pub open spec fn enc_string_or(s: StringOrModel) -> Seq<u8> {
    match s {
        StringOrModel::EnvVar(v) => seq![0u8] + enc_str(v),
        StringOrModel::Value(v) => seq![1u8] + enc_str(v),
        StringOrModel::JinjaExpression(v) => seq![2u8] + enc_str(v),
    }
}

pub open spec fn enc_opt_string_or(o: Option<StringOrModel>) -> Seq<u8> {
    match o {
        Some(s) => seq![1u8] + enc_string_or(s),
        None => seq![0u8],
    }
}

/// An alias counts only when it differs from the name and is not empty.
pub open spec fn effective_alias(alias: Option<StringOrModel>, name: Seq<char>) -> Option<StringOrModel> {
    match alias {
        Some(StringOrModel::Value(v)) => if v == name || v.len() == 0 {
            None
        } else {
            alias
        },
        _ => alias,
    }
}

/// Rendering does not reach the interface.
pub open spec fn renderable_interface(r: RenderModel) -> Seq<u8> {
    Seq::empty()
}

/// Rendering in the implementation: the effective alias, the description and
/// the skip flag.
pub open spec fn renderable_implementation(name: Seq<char>, r: RenderModel) -> Seq<u8> {
    renderable_interface(r) + enc_opt_string_or(effective_alias(r.alias, name)) + enc_opt_string_or(r.description)
        + enc_bool(r.skip)
}

/// Appends the interface of a typed object.
pub fn push_typed_interface<T: TypedObject>(out: &mut Vec<u8>, o: &T)
    ensures
        final(out)@ == old(out)@ + typed_interface(o.typed_model()),
{
    let ghost start = out@;
    push_str(out, o.name());
    push_type(out, o.type_rpc());
    let b: u8 = match o.definition_source() {
        DefinitionSource::CompileTime => 0u8,
        DefinitionSource::Runtime => 1u8,
        DefinitionSource::OverriddenAtRuntime => 2u8,
    };
    out.push(b);
    assert(out@ =~= start + typed_interface(o.typed_model()));
}

/// Appends a `StringOr`.
fn push_string_or(out: &mut Vec<u8>, s: &StringOr)
    ensures
        final(out)@ == old(out)@ + enc_string_or(string_or_model(*s)),
{
    let ghost start = out@;
    match s {
        StringOr::EnvVar(v) => {
            out.push(0u8);
            push_str(out, v.as_str());
        },
        StringOr::Value(v) => {
            out.push(1u8);
            push_str(out, v.as_str());
        },
        StringOr::JinjaExpression(v) => {
            out.push(2u8);
            push_str(out, v.as_str());
        },
    }
    assert(out@ =~= start + enc_string_or(string_or_model(*s)));
}

/// Appends an optional `StringOr`.
fn push_opt_string_or(out: &mut Vec<u8>, o: Option<&StringOr>)
    ensures
        final(out)@ == old(out)@ + enc_opt_string_or(opt_ref_string_or_model(o)),
{
    let ghost start = out@;
    match o {
        Some(s) => {
            out.push(1u8);
            push_string_or(out, s);
        },
        None => {
            out.push(0u8);
        },
    }
    assert(out@ =~= start + enc_opt_string_or(opt_ref_string_or_model(o)));
}

/// Appends the rendering part of an implementation.
pub fn push_renderable_implementation<T: TypedObject + LLMRenderable>(out: &mut Vec<u8>, o: &T)
    ensures
        final(out)@ == old(out)@ + renderable_implementation(o.typed_model().name, o.render_model()),
{
    let ghost start = out@;
    let name = o.name();
    let alias = o.alias();
    let effective: Option<&StringOr> = match alias {
        Some(StringOr::Value(val)) => {
            if str_eq(val.as_str(), name) || val.as_str().is_empty() {
                None
            } else {
                alias
            }
        },
        _ => alias,
    };
    assert(opt_ref_string_or_model(effective) == effective_alias(o.render_model().alias, o.typed_model().name));
    push_opt_string_or(out, effective);
    push_opt_string_or(out, o.description());
    push_bool(out, o.skip());
    assert(out@ =~= start + renderable_implementation(o.typed_model().name, o.render_model()));
}

} // verus!
