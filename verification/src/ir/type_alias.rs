//! Type aliases of the intermediate representation as type alias
//! definitions.

use vstd::prelude::*;
use crate::ast::type_alias::{AliasModel, TypeAliasDefinition};
use crate::ir::repr::{Node, TypeAlias};
use crate::type_rpc::type_deps;
use crate::types::{copy_string, from_type_ir, rpc_model_of_ir, TypeRPC};

verus! {

/// A type alias with the aliased type in hashed form.
pub struct TypeAliasAdapter {
    pub name: String,
    pub converted_type: TypeRPC,
}

impl TypeAliasAdapter {
    pub fn new(type_alias_node: &Node<TypeAlias>) -> (r: Self)
        ensures
            r.name@ == type_alias_node.elem.name@,
            r.converted_type@ == rpc_model_of_ir(type_alias_node.elem.alias_type),
    {
        TypeAliasAdapter {
            name: copy_string(&type_alias_node.elem.name),
            converted_type: from_type_ir(&type_alias_node.elem.alias_type),
        }
    }
}

impl TypeAliasDefinition for TypeAliasAdapter {
    open spec fn alias_model(&self) -> AliasModel {
        AliasModel { name: self.name@, ty: self.converted_type@, deps: type_deps(self.converted_type@) }
    }

    fn name(&self) -> (r: &str) {
        self.name.as_str()
    }

    fn type_rpc(&self) -> (r: &TypeRPC) {
        &self.converted_type
    }

    /// The names the aliased type refers to.
    fn dependencies(&self) -> (r: Vec<String>) {
        self.converted_type.immediate_dependencies()
    }
}

} // verus!
