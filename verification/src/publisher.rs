//! What is published of a program's signatures: each function and each
//! type with its identifier and the identifiers of what it depends on.

use vstd::prelude::*;
use crate::agg::shallow_hash::{table_of, HashError};
use crate::agg::signature::{node_kind, signature_matches, signature_ok, Signature, SignatureType};
use crate::agg::{program_error, 
    class_entries, client_entries, enum_entries, function_entries, generate_signatures, kind_at,
    program_entries, program_names, retry_policy_entries, type_alias_entries, CanMakeSignature,
};
use crate::ast::class::ClassDefinition;
use crate::ast::enums::EnumDefinition;
use crate::ast::function::{FunctionDefinition, FunctionModel};
use crate::ast::type_alias::TypeAliasDefinition;
use crate::ast_node_id::{AstNodeId, AstNodeIdModel};
use crate::interfaces::{TypedModel, TypedObject};
use crate::ir::repr::IntermediateRepr;
use crate::ir::{adapts_program, default_configs_exist, IRSignatureAdapters};
use crate::order::{str_eq, string_views};
use crate::sorting::{sort_typed, typed_models};
use crate::types::{copy_string, copy_type, StreamingMode, TypeModel, TypeRPC};

verus! {

/// The identifier of a published type.
#[derive(Debug)]
pub struct BamlTypeId(pub AstNodeId);

/// The identifier of a published function.
#[derive(Debug)]
pub struct BamlFunctionId(pub AstNodeId);

/// A function as published: its identifier with those of its
/// dependencies, its parameters and its return type.
#[derive(Debug)]
pub struct FunctionSignatureWithDependencies {
    pub function_id: (BamlFunctionId, Vec<BamlTypeId>),
    pub inputs: Vec<(String, TypeRPC)>,
    pub output: TypeRPC,
}

/// A type as published: its identifier with those of its dependencies, the
/// type itself, and a class's fields or an enum's values.
#[derive(Debug)]
pub struct TypeWithDependencies {
    pub type_id: (BamlTypeId, Vec<BamlTypeId>),
    pub field_type: TypeRPC,
    pub class_fields: Option<Vec<(String, TypeRPC)>>,
    pub enum_values: Option<Vec<String>>,
}

/// The published functions and types of a program, each with its name, in
/// the program's order: functions; then classes, enums and type aliases.
#[derive(Debug)]
pub struct PublishedSignatures {
    pub functions: Vec<(String, FunctionSignatureWithDependencies)>,
    pub types: Vec<(String, TypeWithDependencies)>,
}

/// Why signatures could not be published.
#[derive(Debug)]
pub enum PublishError {
    /// A signature could not be made.
    Hash(HashError),
    /// A function has no signature.
    FunctionNotFound,
    /// A class has no signature.
    ClassNotFound,
    /// An enum has no signature.
    EnumNotFound,
    /// A type alias has no signature.
    TypeAliasNotFound,
}

/// The index of the last signature with the given name; a later signature
/// of a name replaces an earlier one.
pub open spec fn last_named(sigs: Seq<Signature>, name: Seq<char>) -> Option<int>
    decreases sigs.len(),
{
    if sigs.len() == 0 {
        None
    } else if sigs.last().display_name@ == name {
        Some(sigs.len() - 1)
    } else {
        last_named(sigs.drop_last(), name)
    }
}

/// The identifier a signature is published under.
pub open spec fn id_of(s: Signature) -> AstNodeIdModel {
    AstNodeIdModel { kind: node_kind(s.signature_type), name: s.display_name@, hash: s.hashes }
}

/// The identifiers of the named dependencies that have a signature, in
/// order; names without one are left out.
pub open spec fn dep_ids(sigs: Seq<Signature>, deps: Seq<Seq<char>>) -> Seq<AstNodeIdModel>
    decreases deps.len(),
{
    if deps.len() == 0 {
        Seq::empty()
    } else {
        let rest = dep_ids(sigs, deps.drop_last());
        match last_named(sigs, deps.last()) {
            Some(k) => rest.push(id_of(sigs[k])),
            None => rest,
        }
    }
}

pub open spec fn ids_view(v: Seq<BamlTypeId>) -> Seq<AstNodeIdModel> {
    v.map_values(|t: BamlTypeId| t.0@)
}

/// The identifier and dependencies published for a name.
pub open spec fn id_published(id: AstNodeIdModel, deps: Seq<BamlTypeId>, sigs: Seq<Signature>, name: Seq<char>) -> bool {
    &&& last_named(sigs, name) is Some
    &&& id == id_of(sigs[last_named(sigs, name)->0])
    &&& ids_view(deps) == dep_ids(sigs, string_views(sigs[last_named(sigs, name)->0].dependencies@))
}

pub open spec fn named_types_view(v: Seq<(String, TypeRPC)>) -> Seq<(Seq<char>, TypeModel)> {
    v.map_values(|p: (String, TypeRPC)| (p.0@, p.1@))
}

/// What is published of a function.
pub open spec fn function_published(p: FunctionSignatureWithDependencies, f: FunctionModel, sigs: Seq<Signature>) -> bool {
    &&& id_published(p.function_id.0.0@, p.function_id.1@, sigs, f.name)
    &&& named_types_view(p.inputs@) == f.params
    &&& p.output@ == f.ret
}

/// What is published of a class: its fields sorted by name.
pub open spec fn class_published(p: TypeWithDependencies, c: TypedModel, fields: Seq<TypedModel>, sigs: Seq<Signature>) -> bool {
    &&& id_published(p.type_id.0.0@, p.type_id.1@, sigs, c.name)
    &&& p.field_type@ == (TypeModel::Class { name: c.name, mode: StreamingMode::NonStreaming, dynamic: false, meta: Seq::empty() })
    &&& p.class_fields matches Some(fs) && named_types_view(fs@) == sort_typed(fields).map_values(
        |f: TypedModel| (f.name, f.ty),
    )
    &&& p.enum_values is None
}

/// What is published of an enum: its values in declaration order.
pub open spec fn enum_published(p: TypeWithDependencies, e: TypedModel, values: Seq<TypedModel>, sigs: Seq<Signature>) -> bool {
    &&& id_published(p.type_id.0.0@, p.type_id.1@, sigs, e.name)
    &&& p.field_type@ == (TypeModel::Enum { name: e.name, dynamic: false, meta: Seq::empty() })
    &&& p.class_fields is None
    &&& p.enum_values matches Some(vs) && string_views(vs@) == values.map_values(|v: TypedModel| v.name)
}

/// What is published of a type alias: the aliased type.
pub open spec fn alias_published(p: TypeWithDependencies, name: Seq<char>, ty: TypeModel, sigs: Seq<Signature>) -> bool {
    &&& id_published(p.type_id.0.0@, p.type_id.1@, sigs, name)
    &&& p.field_type@ == ty
    &&& p.class_fields is None
    &&& p.enum_values is None
}

/// Every one of the names has a signature.
pub open spec fn all_found(sigs: Seq<Signature>, names: Seq<Seq<char>>) -> bool {
    forall|i: int| 0 <= i < names.len() ==> #[trigger] last_named(sigs, names[i]) is Some
}

pub open spec fn function_names<S: CanMakeSignature>(s: S) -> Seq<Seq<char>> {
    s.function_refs().map_values(|f: &S::Function| f.function_model().name)
}

pub open spec fn class_names<S: CanMakeSignature>(s: S) -> Seq<Seq<char>> {
    s.class_refs().map_values(|c: &S::Class| c.typed_model().name)
}

pub open spec fn enum_names<S: CanMakeSignature>(s: S) -> Seq<Seq<char>> {
    s.enum_refs().map_values(|e: &S::Enum| e.typed_model().name)
}

pub open spec fn type_alias_names<S: CanMakeSignature>(s: S) -> Seq<Seq<char>> {
    s.type_alias_refs().map_values(|t: &S::TypeAlias| t.alias_model().name)
}

/// What is published of a program, given its signatures.
pub open spec fn program_published<S: CanMakeSignature>(s: S, sigs: Seq<Signature>, p: PublishedSignatures) -> bool {
    let fs = s.function_refs();
    let cs = s.class_refs();
    let es = s.enum_refs();
    let ts = s.type_alias_refs();
    &&& p.functions@.len() == fs.len()
    &&& forall|i: int| 0 <= i < fs.len() ==> {
        &&& (#[trigger] p.functions@[i]).0@ == fs[i].function_model().name
        &&& function_published(p.functions@[i].1, fs[i].function_model(), sigs)
    }
    &&& p.types@.len() == cs.len() + es.len() + ts.len()
    &&& forall|i: int| 0 <= i < cs.len() ==> {
        &&& (#[trigger] p.types@[i]).0@ == cs[i].typed_model().name
        &&& class_published(p.types@[i].1, cs[i].typed_model(), typed_models(cs[i].field_refs()), sigs)
    }
    &&& forall|i: int| 0 <= i < es.len() ==> {
        &&& (#[trigger] p.types@[cs.len() + i]).0@ == es[i].typed_model().name
        &&& enum_published(p.types@[cs.len() + i].1, es[i].typed_model(), typed_models(es[i].value_refs()), sigs)
    }
    &&& forall|i: int| 0 <= i < ts.len() ==> {
        &&& (#[trigger] p.types@[cs.len() + es.len() + i]).0@ == ts[i].alias_model().name
        &&& alias_published(p.types@[cs.len() + es.len() + i].1, ts[i].alias_model().name, ts[i].alias_model().ty, sigs)
    }
}

/// The index of the last signature with the given name.
fn find_signature(sigs: &Vec<Signature>, name: &str) -> (r: Option<usize>)
    ensures
        match r {
            Some(k) => k < sigs@.len() && last_named(sigs@, name@) == Some(k as int),
            None => last_named(sigs@, name@) is None,
        },
{
    let mut i: usize = sigs.len();
    assert(sigs@.take(i as int) =~= sigs@);
    while i > 0
        invariant
            i <= sigs@.len(),
            last_named(sigs@, name@) == last_named(sigs@.take(i as int), name@),
        decreases i,
    {
        let ghost t = sigs@.take(i as int);
        assert(t.drop_last() =~= sigs@.take(i - 1));
        if str_eq(sigs[i - 1].display_name.as_str(), name) {
            return Some(i - 1);
        }
        i = i - 1;
    }
    assert(sigs@.take(0) =~= Seq::<Signature>::empty());
    None
}

/// The identifier of a signature.
fn id_of_signature(s: &Signature) -> (r: AstNodeId)
    requires
        !(s.signature_type is TemplateString),
    ensures
        r@ == id_of(*s),
{
    s.to_ast_node()
}

/// The identifiers of the named dependencies that have a signature.
fn dependency_ids(sigs: &Vec<Signature>, deps: &Vec<String>) -> (r: Vec<BamlTypeId>)
    requires
        forall|i: int| 0 <= i < sigs@.len() ==> !(#[trigger] sigs@[i].signature_type is TemplateString),
    ensures
        ids_view(r@) == dep_ids(sigs@, string_views(deps@)),
{
    let mut out: Vec<BamlTypeId> = Vec::new();
    let mut i: usize = 0;
    while i < deps.len()
        invariant
            i <= deps@.len(),
            forall|j: int| 0 <= j < sigs@.len() ==> !(#[trigger] sigs@[j].signature_type is TemplateString),
            ids_view(out@) == dep_ids(sigs@, string_views(deps@).take(i as int)),
        decreases deps@.len() - i,
    {
        let ghost before = out@;
        let ghost d = string_views(deps@).take(i + 1);
        assert(d.drop_last() =~= string_views(deps@).take(i as int));
        assert(d.last() == deps@[i as int]@);
        match find_signature(sigs, deps[i].as_str()) {
            Some(k) => {
                out.push(BamlTypeId(id_of_signature(&sigs[k])));
                assert(ids_view(out@) =~= ids_view(before).push(id_of(sigs@[k as int])));
            },
            None => {
                assert(ids_view(out@) =~= ids_view(before));
            },
        }
        i = i + 1;
    }
    assert(string_views(deps@).take(i as int) =~= string_views(deps@));
    out
}

/// The published identifier and dependencies of a name.
fn published_id(sigs: &Vec<Signature>, name: &str) -> (r: Option<(AstNodeId, Vec<BamlTypeId>)>)
    requires
        forall|i: int| 0 <= i < sigs@.len() ==> !(#[trigger] sigs@[i].signature_type is TemplateString),
    ensures
        r is Some <==> last_named(sigs@, name@) is Some,
        r matches Some(p) ==> id_published(p.0@, p.1@, sigs@, name@),
{
    match find_signature(sigs, name) {
        Some(k) => {
            let id = id_of_signature(&sigs[k]);
            let deps = dependency_ids(sigs, sigs[k].dependency_names());
            Some((id, deps))
        },
        None => None,
    }
}

fn copy_named_types(v: &Vec<(&str, &TypeRPC)>) -> (r: Vec<(String, TypeRPC)>)
    ensures
        named_types_view(r@) == v@.map_values(|p: (&str, &TypeRPC)| (p.0@, p.1@)),
{
    let mut out: Vec<(String, TypeRPC)> = Vec::new();
    let mut i: usize = 0;
    while i < v.len()
        invariant
            i <= v@.len(),
            out@.len() == i,
            forall|k: int| 0 <= k < i ==> (#[trigger] out@[k]).0@ == v@[k].0@ && out@[k].1@ == v@[k].1@,
        decreases v@.len() - i,
    {
        let (name, ty) = v[i];
        out.push((name.to_owned(), copy_type(ty)));
        i = i + 1;
    }
    assert(named_types_view(out@) =~= v@.map_values(|p: (&str, &TypeRPC)| (p.0@, p.1@)));
    out
}

fn publish_function<F: FunctionDefinition>(f: &F, sigs: &Vec<Signature>) -> (r: Option<FunctionSignatureWithDependencies>)
    requires
        forall|i: int| 0 <= i < sigs@.len() ==> !(#[trigger] sigs@[i].signature_type is TemplateString),
    ensures
        r is Some <==> last_named(sigs@, f.function_model().name) is Some,
        r matches Some(p) ==> function_published(p, f.function_model(), sigs@),
{
    let (id, deps) = match published_id(sigs, f.name()) {
        Some(p) => p,
        None => return None,
    };
    let params = f.parameters();
    let inputs = copy_named_types(&params);
    assert(params@.map_values(|p: (&str, &TypeRPC)| (p.0@, p.1@)) =~= crate::ast::function::param_models(params@));
    let output = copy_type(f.return_type());
    Some(FunctionSignatureWithDependencies { function_id: (BamlFunctionId(id), deps), inputs, output })
}

fn publish_class<C: ClassDefinition>(c: &C, sigs: &Vec<Signature>) -> (r: Option<TypeWithDependencies>)
    requires
        forall|i: int| 0 <= i < sigs@.len() ==> !(#[trigger] sigs@[i].signature_type is TemplateString),
    ensures
        r is Some <==> last_named(sigs@, c.typed_model().name) is Some,
        r matches Some(p) ==> class_published(p, c.typed_model(), typed_models(c.field_refs()), sigs@),
{
    let (id, deps) = match published_id(sigs, c.name()) {
        Some(p) => p,
        None => return None,
    };
    let fields = c.fields_sorted_by_name();
    let ghost sorted = sort_typed(typed_models(c.field_refs()));
    proof {
        crate::sorting::lemma_sort_refs_models(c.field_refs());
        crate::sorting::lemma_typed_models_len(fields@);
    }
    let mut class_fields: Vec<(String, TypeRPC)> = Vec::new();
    let mut i: usize = 0;
    while i < fields.len()
        invariant
            i <= fields@.len(),
            sorted == typed_models(fields@),
            sorted.len() == fields@.len(),
            forall|k: int| 0 <= k < fields@.len() ==> #[trigger] sorted[k] == fields@[k].typed_model(),
            class_fields@.len() == i,
            forall|k: int| 0 <= k < i ==> (#[trigger] class_fields@[k]).0@ == sorted[k].name
                && class_fields@[k].1@ == sorted[k].ty,
        decreases fields@.len() - i,
    {
        let f = fields[i];
        class_fields.push((f.name().to_owned(), copy_type(f.type_rpc())));
        i = i + 1;
    }
    assert(named_types_view(class_fields@) =~= sorted.map_values(|f: TypedModel| (f.name, f.ty)));
    Some(TypeWithDependencies {
        type_id: (BamlTypeId(id), deps),
        field_type: TypeRPC::class(c.name()),
        class_fields: Some(class_fields),
        enum_values: None,
    })
}

fn publish_enum<E: EnumDefinition>(e: &E, sigs: &Vec<Signature>) -> (r: Option<TypeWithDependencies>)
    requires
        forall|i: int| 0 <= i < sigs@.len() ==> !(#[trigger] sigs@[i].signature_type is TemplateString),
    ensures
        r is Some <==> last_named(sigs@, e.typed_model().name) is Some,
        r matches Some(p) ==> enum_published(p, e.typed_model(), typed_models(e.value_refs()), sigs@),
{
    let (id, deps) = match published_id(sigs, e.name()) {
        Some(p) => p,
        None => return None,
    };
    let values = e.values_sorted_by_order();
    let ghost models = typed_models(values@);
    proof {
        crate::sorting::lemma_typed_models_len(values@);
    }
    let mut names: Vec<String> = Vec::new();
    let mut i: usize = 0;
    while i < values.len()
        invariant
            i <= values@.len(),
            values@ == e.value_refs(),
            models == typed_models(values@),
            models.len() == values@.len(),
            forall|k: int| 0 <= k < values@.len() ==> #[trigger] models[k] == values@[k].typed_model(),
            names@.len() == i,
            forall|k: int| 0 <= k < i ==> (#[trigger] names@[k])@ == models[k].name,
        decreases values@.len() - i,
    {
        names.push(values[i].name().to_owned());
        i = i + 1;
    }
    assert(string_views(names@) =~= models.map_values(|v: TypedModel| v.name));
    Some(TypeWithDependencies {
        type_id: (BamlTypeId(id), deps),
        field_type: TypeRPC::enum_named(e.name()),
        class_fields: None,
        enum_values: Some(names),
    })
}

fn publish_type_alias<T: TypeAliasDefinition>(t: &T, sigs: &Vec<Signature>) -> (r: Option<TypeWithDependencies>)
    requires
        forall|i: int| 0 <= i < sigs@.len() ==> !(#[trigger] sigs@[i].signature_type is TemplateString),
    ensures
        r is Some <==> last_named(sigs@, t.alias_model().name) is Some,
        r matches Some(p) ==> alias_published(p, t.alias_model().name, t.alias_model().ty, sigs@),
{
    let (id, deps) = match published_id(sigs, t.name()) {
        Some(p) => p,
        None => return None,
    };
    Some(TypeWithDependencies {
        type_id: (BamlTypeId(id), deps),
        field_type: copy_type(t.type_rpc()),
        class_fields: None,
        enum_values: None,
    })
}

/// Publishes a program's functions and types against its signatures.
/// Fails with the first function, class, enum or type alias, in that order,
/// whose name has no signature.  Requires that no signature is of a
/// template string, which has no published identifier.
pub fn publish_with<S: CanMakeSignature>(s: &S, sigs: &Vec<Signature>) -> (r: Result<PublishedSignatures, PublishError>)
    requires
        forall|i: int| 0 <= i < sigs@.len() ==> !(#[trigger] sigs@[i].signature_type is TemplateString),
    ensures
        match r {
            Ok(p) => program_published(*s, sigs@, p),
            Err(PublishError::FunctionNotFound) => !all_found(sigs@, function_names(*s)),
            Err(PublishError::ClassNotFound) => all_found(sigs@, function_names(*s)) && !all_found(sigs@, class_names(*s)),
            Err(PublishError::EnumNotFound) => all_found(sigs@, function_names(*s)) && all_found(sigs@, class_names(*s))
                && !all_found(sigs@, enum_names(*s)),
            Err(PublishError::TypeAliasNotFound) => all_found(sigs@, function_names(*s)) && all_found(sigs@, class_names(*s))
                && all_found(sigs@, enum_names(*s)) && !all_found(sigs@, type_alias_names(*s)),
            Err(PublishError::Hash(_)) => false,
        },
        r is Ok <==> all_found(sigs@, function_names(*s)) && all_found(sigs@, class_names(*s))
            && all_found(sigs@, enum_names(*s)) && all_found(sigs@, type_alias_names(*s)),
{
    let fs = s.functions();
    let mut functions: Vec<(String, FunctionSignatureWithDependencies)> = Vec::new();
    let mut i: usize = 0;
    while i < fs.len()
        invariant
            i <= fs@.len(),
            fs@ == s.function_refs(),
            forall|j: int| 0 <= j < sigs@.len() ==> !(#[trigger] sigs@[j].signature_type is TemplateString),
            functions@.len() == i,
            forall|k: int| 0 <= k < i ==> #[trigger] last_named(sigs@, function_names(*s)[k]) is Some,
            forall|k: int| 0 <= k < i ==> {
                &&& (#[trigger] functions@[k]).0@ == fs@[k].function_model().name
                &&& function_published(functions@[k].1, fs@[k].function_model(), sigs@)
            },
        decreases fs@.len() - i,
    {
        let f = fs[i];
        assert(function_names(*s)[i as int] == f.function_model().name);
        match publish_function(f, sigs) {
            Some(p) => functions.push((f.name().to_owned(), p)),
            None => return Err(PublishError::FunctionNotFound),
        }
        i = i + 1;
    }
    let cs = s.classes();
    let mut types: Vec<(String, TypeWithDependencies)> = Vec::new();
    let mut i: usize = 0;
    while i < cs.len()
        invariant
            i <= cs@.len(),
            cs@ == s.class_refs(),
            forall|j: int| 0 <= j < sigs@.len() ==> !(#[trigger] sigs@[j].signature_type is TemplateString),
            all_found(sigs@, function_names(*s)),
            types@.len() == i,
            forall|k: int| 0 <= k < i ==> #[trigger] last_named(sigs@, class_names(*s)[k]) is Some,
            forall|k: int| 0 <= k < i ==> {
                &&& (#[trigger] types@[k]).0@ == cs@[k].typed_model().name
                &&& class_published(types@[k].1, cs@[k].typed_model(), typed_models(cs@[k].field_refs()), sigs@)
            },
        decreases cs@.len() - i,
    {
        let c = cs[i];
        assert(class_names(*s)[i as int] == c.typed_model().name);
        match publish_class(c, sigs) {
            Some(p) => types.push((c.name().to_owned(), p)),
            None => return Err(PublishError::ClassNotFound),
        }
        i = i + 1;
    }
    let ghost nc = cs@.len();
    let es = s.enums();
    let mut i: usize = 0;
    while i < es.len()
        invariant
            i <= es@.len(),
            es@ == s.enum_refs(),
            nc == s.class_refs().len(),
            forall|j: int| 0 <= j < sigs@.len() ==> !(#[trigger] sigs@[j].signature_type is TemplateString),
            all_found(sigs@, function_names(*s)),
            all_found(sigs@, class_names(*s)),
            types@.len() == nc + i,
            forall|k: int| 0 <= k < i ==> #[trigger] last_named(sigs@, enum_names(*s)[k]) is Some,
            forall|k: int| 0 <= k < nc ==> {
                &&& (#[trigger] types@[k]).0@ == s.class_refs()[k].typed_model().name
                &&& class_published(types@[k].1, s.class_refs()[k].typed_model(), typed_models(s.class_refs()[k].field_refs()), sigs@)
            },
            forall|k: int| 0 <= k < i ==> {
                &&& (#[trigger] types@[nc + k]).0@ == es@[k].typed_model().name
                &&& enum_published(types@[nc + k].1, es@[k].typed_model(), typed_models(es@[k].value_refs()), sigs@)
            },
        decreases es@.len() - i,
    {
        let e = es[i];
        assert(enum_names(*s)[i as int] == e.typed_model().name);
        match publish_enum(e, sigs) {
            Some(p) => types.push((e.name().to_owned(), p)),
            None => return Err(PublishError::EnumNotFound),
        }
        i = i + 1;
    }
    let ghost ne = es@.len();
    let ts = s.type_aliases();
    let mut i: usize = 0;
    while i < ts.len()
        invariant
            i <= ts@.len(),
            ts@ == s.type_alias_refs(),
            nc == s.class_refs().len(),
            ne == s.enum_refs().len(),
            forall|j: int| 0 <= j < sigs@.len() ==> !(#[trigger] sigs@[j].signature_type is TemplateString),
            all_found(sigs@, function_names(*s)),
            all_found(sigs@, class_names(*s)),
            all_found(sigs@, enum_names(*s)),
            types@.len() == nc + ne + i,
            forall|k: int| 0 <= k < i ==> #[trigger] last_named(sigs@, type_alias_names(*s)[k]) is Some,
            forall|k: int| 0 <= k < nc ==> {
                &&& (#[trigger] types@[k]).0@ == s.class_refs()[k].typed_model().name
                &&& class_published(types@[k].1, s.class_refs()[k].typed_model(), typed_models(s.class_refs()[k].field_refs()), sigs@)
            },
            forall|k: int| 0 <= k < ne ==> {
                &&& (#[trigger] types@[nc + k]).0@ == s.enum_refs()[k].typed_model().name
                &&& enum_published(types@[nc + k].1, s.enum_refs()[k].typed_model(), typed_models(s.enum_refs()[k].value_refs()), sigs@)
            },
            forall|k: int| 0 <= k < i ==> {
                &&& (#[trigger] types@[nc + ne + k]).0@ == ts@[k].alias_model().name
                &&& alias_published(types@[nc + ne + k].1, ts@[k].alias_model().name, ts@[k].alias_model().ty, sigs@)
            },
        decreases ts@.len() - i,
    {
        let t = ts[i];
        assert(type_alias_names(*s)[i as int] == t.alias_model().name);
        match publish_type_alias(t, sigs) {
            Some(p) => types.push((t.name().to_owned(), p)),
            None => return Err(PublishError::TypeAliasNotFound),
        }
        i = i + 1;
    }
    Ok(PublishedSignatures { functions, types })
}

/// Every definition of a program can be signed.
pub open spec fn program_signable<S: CanMakeSignature>(s: S) -> bool {
    let names = program_names(s);
    forall|i: int| 0 <= i < names.len() ==> signature_ok(table_of(program_entries(s)), #[trigger] names[i].1)
}

/// `sigs` are the signatures of a program's definitions, in order.
pub open spec fn signatures_of<S: CanMakeSignature>(s: S, sigs: Seq<Signature>) -> bool {
    let names = program_names(s);
    &&& sigs.len() == names.len()
    &&& forall|i: int| 0 <= i < sigs.len() ==> signature_matches(
        #[trigger] sigs[i],
        names[i].0,
        names[i].1,
        table_of(program_entries(s)),
    )
}

proof fn lemma_named_found(sigs: Seq<Signature>, j: int, name: Seq<char>)
    requires
        0 <= j < sigs.len(),
        sigs[j].display_name@ == name,
    ensures
        last_named(sigs, name) is Some,
    decreases sigs.len(),
{
    if j < sigs.len() - 1 && sigs.last().display_name@ != name {
        assert(sigs.drop_last()[j] == sigs[j]);
        lemma_named_found(sigs.drop_last(), j, name);
    }
}

/// The signatures of a program name every definition, and none is of a
/// template string.
proof fn lemma_signatures_cover<S: CanMakeSignature>(s: S, sigs: Seq<Signature>)
    requires
        signatures_of(s, sigs),
    ensures
        forall|i: int| 0 <= i < sigs.len() ==> !(#[trigger] sigs[i].signature_type is TemplateString),
        all_found(sigs, function_names(s)),
        all_found(sigs, class_names(s)),
        all_found(sigs, enum_names(s)),
        all_found(sigs, type_alias_names(s)),
{
    let names = program_names(s);
    let es = program_entries(s);
    let nf = s.function_refs().len();
    let nc = s.class_refs().len();
    let ne = s.enum_refs().len();
    let nt = s.type_alias_refs().len();
    let fe = function_entries(s.function_refs());
    let ce = class_entries(s.class_refs());
    let ee = enum_entries(s.enum_refs());
    let te = type_alias_entries(s.type_alias_refs());
    let le = client_entries(s.client_refs());
    let re = retry_policy_entries(s.retry_policy_refs());
    assert(es == fe + ce + ee + te + le + re);
    assert forall|i: int| 0 <= i < sigs.len() implies !(#[trigger] sigs[i].signature_type is TemplateString) by {
        assert(sigs[i].signature_type == names[i].0);
        assert(names[i].0 == kind_at(s, i));
    }
    assert forall|i: int| 0 <= i < function_names(s).len() implies #[trigger] last_named(sigs, function_names(s)[i]) is Some by {
        assert(es[i] == fe[i]);
        assert(sigs[i].display_name@ == names[i].1);
        lemma_named_found(sigs, i, function_names(s)[i]);
    }
    assert forall|i: int| 0 <= i < class_names(s).len() implies #[trigger] last_named(sigs, class_names(s)[i]) is Some by {
        let k = nf + i;
        assert(es[k] == ce[i]);
        assert(sigs[k].display_name@ == names[k].1);
        lemma_named_found(sigs, k, class_names(s)[i]);
    }
    assert forall|i: int| 0 <= i < enum_names(s).len() implies #[trigger] last_named(sigs, enum_names(s)[i]) is Some by {
        let k = nf + nc + i;
        assert(es[k] == ee[i]);
        assert(sigs[k].display_name@ == names[k].1);
        lemma_named_found(sigs, k, enum_names(s)[i]);
    }
    assert forall|i: int| 0 <= i < type_alias_names(s).len() implies #[trigger] last_named(sigs, type_alias_names(s)[i]) is Some by {
        let k = nf + nc + ne + i;
        assert(es[k] == te[i]);
        assert(sigs[k].display_name@ == names[k].1);
        lemma_named_found(sigs, k, type_alias_names(s)[i]);
    }
}

/// A reference to a program has the program's definitions and names.
proof fn lemma_ref_program<S: CanMakeSignature>(s: S)
    ensures
        program_entries(&s) == program_entries(s),
        program_names(&s) == program_names(s),
{
    assert(program_entries(&s) == program_entries(s));
    assert forall|k: int| 0 <= k < program_names(s).len() implies #[trigger] program_names(&s)[k] == program_names(s)[k] by {
        assert(kind_at(&s, k) == kind_at(s, k));
    }
    assert(program_names(&s) =~= program_names(s));
}

/// Publishes the definitions of an adapted program against its signatures.
/// Fails exactly when a signature cannot be made.
pub fn publish_adapted<S: CanMakeSignature>(s: &S) -> (r: Result<PublishedSignatures, PublishError>)
    ensures
        match r {
            Ok(p) => program_signable(*s) && exists|sigs: Seq<Signature>| #[trigger] signatures_of(*s, sigs)
                && program_published(*s, sigs, p),
            Err(PublishError::Hash(HashError::DependencyNotFound(n))) => !program_signable(*s) && program_error(*s, n@),
            Err(_) => false,
        },
{
    proof {
        lemma_ref_program(*s);
    }
    let signatures = match generate_signatures(s) {
        Ok(v) => v,
        Err(e) => return Err(PublishError::Hash(e)),
    };
    proof {
        assert(signatures_of(*s, signatures@));
        lemma_signatures_cover(*s, signatures@);
    }
    let r = publish_with(s, &signatures);
    assert(r is Ok);
    r
}

/// The published functions and types of a program: its signatures are
/// made, then each function, class, enum and type alias is published with
/// them.  Fails exactly when a signature cannot be made.  Requires that
/// each function's default configuration exists.
pub fn publish(ir: &IntermediateRepr) -> (r: Result<PublishedSignatures, PublishError>)
    requires
        default_configs_exist(*ir),
    ensures
        exists|a: IRSignatureAdapters| #[trigger] adapts_program(a, ir) && match r {
            Ok(p) => program_signable(a) && exists|sigs: Seq<Signature>| #[trigger] signatures_of(a, sigs)
                && program_published(a, sigs, p),
            Err(PublishError::Hash(HashError::DependencyNotFound(n))) => !program_signable(a) && program_error(a, n@),
            Err(_) => false,
        },
{
    let adapters = ir.as_signature_adapters();
    let r = publish_adapted(&adapters);
    assert(adapts_program(adapters, ir));
    r
}

} // verus!
