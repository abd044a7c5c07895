//! Type aliases.  The interface is the name and the aliased type; the
//! implementation repeats the type.

use vstd::prelude::*;
use crate::encode::{enc_str, push_str};
use crate::interfaces::ShallowSignature;
use crate::order::string_views;
use crate::type_rpc::{enc_type, push_type};
use crate::types::{TypeModel, TypeRPC};

verus! {

/// Model of a type alias.
pub struct AliasModel {
    pub name: Seq<char>,
    pub ty: TypeModel,
    pub deps: Set<Seq<char>>,
}

/// A type alias.
pub trait TypeAliasDefinition {
    spec fn alias_model(&self) -> AliasModel;

    fn name(&self) -> (r: &str)
        ensures
            r@ == self.alias_model().name,
    ;

    fn type_rpc(&self) -> (r: &TypeRPC)
        ensures
            r@ == self.alias_model().ty,
    ;

    fn dependencies(&self) -> (r: Vec<String>)
        ensures
            string_views(r@).to_set() == self.alias_model().deps,
    ;
}

pub open spec fn alias_interface(a: AliasModel) -> Seq<u8> {
    enc_str(a.name) + enc_type(a.ty)
}

pub open spec fn alias_implementation(a: AliasModel) -> Seq<u8> {
    alias_interface(a) + enc_type(a.ty)
}

/// A type alias as a top-level definition.
pub struct TopTypeAliasDefinition<'a, A: TypeAliasDefinition>(pub &'a A);

impl<'a, A: TypeAliasDefinition> TopTypeAliasDefinition<'a, A> {
    pub fn new(definition: &'a A) -> (r: Self)
        ensures
            r.0 == definition,
    {
        TopTypeAliasDefinition(definition)
    }
}

impl<'a, A: TypeAliasDefinition> ShallowSignature for TopTypeAliasDefinition<'a, A> {
    open spec fn interface_bytes(&self) -> Seq<u8> {
        alias_interface(self.0.alias_model())
    }

    open spec fn implementation_bytes(&self) -> Seq<u8> {
        alias_implementation(self.0.alias_model())
    }

    open spec fn interface_deps(&self) -> Set<Seq<char>> {
        self.0.alias_model().deps
    }

    open spec fn implementation_deps(&self) -> Set<Seq<char>> {
        self.0.alias_model().deps
    }

    open spec fn prefix_word(&self) -> Seq<char> {
        "type_alias"@
    }

    fn shallow_hash_prefix(&self) -> (r: &'static str) {
        "type_alias"
    }

    fn shallow_interface_hash(&self) -> (r: Vec<u8>) {
        let mut out: Vec<u8> = Vec::new();
        push_str(&mut out, self.0.name());
        push_type(&mut out, self.0.type_rpc());
        assert(out@ =~= alias_interface(self.0.alias_model()));
        out
    }

    fn unsorted_interface_dependencies(&self) -> (r: Vec<String>) {
        self.0.dependencies()
    }

    fn shallow_implementation_hash(&self) -> (r: Vec<u8>) {
        let mut out = self.shallow_interface_hash();
        push_type(&mut out, self.0.type_rpc());
        out
    }

    fn unsorted_implementation_dependencies(&self) -> (r: Vec<String>) {
        self.0.dependencies()
    }
}

} // verus!
