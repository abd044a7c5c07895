//! The signature of a definition: its kind, name, full hashes and
//! transitive dependencies.

use vstd::prelude::*;
use crate::agg::shallow_hash::{all_deps, dep_graph, full_hash, missing_from, AllTops, DepKind, HashError, ShallowModel};
use crate::ast_node_id::{AstNodeId, AstNodeIdModel, AstNodeIdType, HashPart, NodeHash};
use crate::graph::closed_from;
use crate::order::string_views;

verus! {

/// The kind of a definition.
#[derive(Clone, Copy, Debug, PartialEq, Eq, Structural)]
pub enum SignatureType {
    Class,
    Function,
    Enum,
    TypeAlias,
    Client,
    RetryPolicy,
    TemplateString,
}

/// The signature of a definition.
#[derive(Debug)]
pub struct Signature {
    pub signature_type: SignatureType,
    pub display_name: String,
    pub hashes: NodeHash,
    pub dependencies: Vec<String>,
}

/// A signature can be made for `name` when it and everything it depends
/// on, through interfaces or implementations, have entries.
pub open spec fn signature_ok(t: Map<Seq<char>, ShallowModel>, name: Seq<char>) -> bool {
    &&& closed_from(dep_graph(t, DepKind::Implementation), name)
    &&& closed_from(dep_graph(t, DepKind::Interface), name)
}

/// What the signature of `name` holds: compile-time hashes of interface and
/// implementation, and the implementation's dependencies in order of name.
pub open spec fn signature_matches(s: Signature, ty: SignatureType, name: Seq<char>, t: Map<Seq<char>, ShallowModel>) -> bool {
    &&& s.signature_type == ty
    &&& s.display_name@ == name
    &&& s.hashes is CompileTimeOnly
    &&& s.hashes->CompileTimeOnly_0@ == (
        full_hash(t, name, DepKind::Interface),
        full_hash(t, name, DepKind::Implementation),
    )
    &&& string_views(s.dependencies@) == all_deps(t, name, DepKind::Implementation)
}

/// The name a failed signature of `name` reports: one that has no entry and
/// that the implementation of `name` reaches, or, where the implementation
/// reaches only names with entries, one that its interface reaches.
pub open spec fn signature_error(t: Map<Seq<char>, ShallowModel>, name: Seq<char>, n: Seq<char>) -> bool {
    if closed_from(dep_graph(t, DepKind::Implementation), name) {
        missing_from(t, DepKind::Interface, name, n)
    } else {
        missing_from(t, DepKind::Implementation, name, n)
    }
}

/// The kind of identifier a signature's kind is published as.
pub open spec fn node_kind(ty: SignatureType) -> AstNodeIdType {
    match ty {
        SignatureType::Class => AstNodeIdType::Class,
        SignatureType::Function => AstNodeIdType::Function,
        SignatureType::Enum => AstNodeIdType::Enum,
        SignatureType::TypeAlias => AstNodeIdType::TypeAlias,
        SignatureType::Client => AstNodeIdType::Client,
        SignatureType::RetryPolicy => AstNodeIdType::RetryPolicy,
        SignatureType::TemplateString => AstNodeIdType::TemplateString,
    }
}

impl Signature {
    /// The signature of `name`; fails when `name`, or something it depends
    /// on, has no entry.
    pub fn new(signature_type: SignatureType, name: &str, all_tops: &AllTops) -> (r: Result<Self, HashError>)
        ensures
            r is Ok <==> signature_ok(all_tops.table(), name@),
            r matches Ok(s) ==> signature_matches(s, signature_type, name@, all_tops.table()),
            r matches Err(HashError::DependencyNotFound(n)) ==> signature_error(all_tops.table(), name@, n@),
    {
        let implementation_hash = match all_tops.hash_implementation(name) {
            Ok(h) => h,
            Err(e) => return Err(e),
        };
        let interface_hash = match all_tops.hash_interface(name) {
            Ok(h) => h,
            Err(e) => return Err(e),
        };
        let dependencies = match all_tops.get_dependencies(name) {
            Ok(d) => d,
            Err(e) => return Err(e),
        };
        Ok(Signature {
            signature_type,
            display_name: name.to_owned(),
            hashes: NodeHash::CompileTimeOnly(HashPart::new(interface_hash, implementation_hash)),
            dependencies,
        })
    }

    /// The identifier under which the signature is published.
    pub fn to_ast_node(&self) -> (r: AstNodeId)
        requires
            !(self.signature_type is TemplateString),
        ensures
            r@ == (AstNodeIdModel { kind: node_kind(self.signature_type), name: self.display_name@, hash: self.hashes }),
    {
        let name = self.display_name.clone();
        match self.signature_type {
            SignatureType::Class => AstNodeId::new_class(name, self.hashes),
            SignatureType::Function => AstNodeId::new_function(name, self.hashes),
            SignatureType::Enum => AstNodeId::new_enum(name, self.hashes),
            SignatureType::TypeAlias => AstNodeId::new_type_alias(name, self.hashes),
            SignatureType::Client => AstNodeId::new_client(name, self.hashes),
            SignatureType::RetryPolicy => AstNodeId::new_retry_policy(name, self.hashes),
            SignatureType::TemplateString => AstNodeId::new_template_string(name, self.hashes),
        }
    }

    /// The names the definition depends on.
    pub fn dependency_names(&self) -> (r: &Vec<String>)
        ensures
            r@ == self.dependencies@,
    {
        &self.dependencies
    }
}

} // verus!
