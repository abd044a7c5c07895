//! Classes of the intermediate representation as class definitions.

use vstd::prelude::*;
use crate::ast::class::{ClassDefinition, ClassField};
use crate::interfaces::{
    copy_opt_string_or, opt_string_or_model, opt_string_or_ref, DefinitionSource, LLMRenderable,
    RenderModel, StringOr, TypedModel, TypedObject,
};
use crate::ir::repr::{Class, Field, Node};
use crate::types::{copy_string, from_type_ir, rpc_model_of_ir, MetaRPC, StreamingMode, TypeModel, TypeRPC};

verus! {

/// A field with its type in hashed form and its rendering attributes.
pub struct FieldAdapter {
    pub name: String,
    pub converted_type: TypeRPC,
    pub alias: Option<StringOr>,
    pub description: Option<StringOr>,
    pub skip: bool,
}

/// Whether an adapter holds what a field node declares.
pub open spec fn adapts_field(a: FieldAdapter, f: Node<Field>) -> bool {
    &&& a.name@ == f.elem.name@
    &&& a.converted_type@ == rpc_model_of_ir(f.elem.field_type)
    &&& opt_string_or_model(a.alias) == opt_string_or_model(f.attributes.alias)
    &&& opt_string_or_model(a.description) == opt_string_or_model(f.attributes.description)
    &&& a.skip == f.attributes.skip
}

impl FieldAdapter {
    pub fn new(field_node: &Node<Field>) -> (r: Self)
        ensures
            adapts_field(r, *field_node),
    {
        FieldAdapter {
            name: copy_string(&field_node.elem.name),
            converted_type: from_type_ir(&field_node.elem.field_type),
            alias: copy_opt_string_or(field_node.attributes.alias()),
            description: copy_opt_string_or(field_node.attributes.description()),
            skip: field_node.attributes.skip(),
        }
    }
}

impl TypedObject for FieldAdapter {
    open spec fn typed_model(&self) -> TypedModel {
        TypedModel { name: self.name@, ty: self.converted_type@, source: DefinitionSource::CompileTime }
    }

    fn name(&self) -> (r: &str) {
        self.name.as_str()
    }

    fn type_rpc(&self) -> (r: &TypeRPC) {
        &self.converted_type
    }

    fn definition_source(&self) -> (r: DefinitionSource) {
        DefinitionSource::CompileTime
    }
}

impl LLMRenderable for FieldAdapter {
    open spec fn render_model(&self) -> RenderModel {
        RenderModel {
            alias: opt_string_or_model(self.alias),
            description: opt_string_or_model(self.description),
            skip: self.skip,
        }
    }

    fn alias(&self) -> (r: Option<&StringOr>) {
        opt_string_or_ref(&self.alias)
    }

    fn description(&self) -> (r: Option<&StringOr>) {
        opt_string_or_ref(&self.description)
    }

    fn skip(&self) -> (r: bool) {
        self.skip
    }
}

impl ClassField for FieldAdapter {
}

/// A class with its fields adapted and its own type in hashed form.
pub struct ClassAdapter {
    pub name: String,
    pub converted_fields: Vec<FieldAdapter>,
    pub class_type: TypeRPC,
    pub alias: Option<StringOr>,
    pub description: Option<StringOr>,
    pub skip: bool,
}

/// Whether an adapter holds what a class node declares.
pub open spec fn adapts_class(a: ClassAdapter, c: Node<Class>) -> bool {
    &&& a.name@ == c.elem.name@
    &&& a.converted_fields@.len() == c.elem.static_fields@.len()
    &&& forall|i: int| 0 <= i < a.converted_fields@.len()
        ==> adapts_field(#[trigger] a.converted_fields@[i], c.elem.static_fields@[i])
    &&& a.class_type@ == (TypeModel::Class {
        name: c.elem.name@,
        mode: StreamingMode::NonStreaming,
        dynamic: c.attributes.dynamic,
        meta: Seq::empty(),
    })
    &&& opt_string_or_model(a.alias) == opt_string_or_model(c.attributes.alias)
    &&& opt_string_or_model(a.description) == opt_string_or_model(c.attributes.description)
    &&& a.skip == c.attributes.skip
}

impl ClassAdapter {
    pub fn new(class_node: &Node<Class>) -> (r: Self)
        ensures
            adapts_class(r, *class_node),
    {
        let fields = &class_node.elem.static_fields;
        let mut converted_fields: Vec<FieldAdapter> = Vec::new();
        let mut i: usize = 0;
        while i < fields.len()
            invariant
                i <= fields@.len(),
                converted_fields@.len() == i,
                forall|k: int| 0 <= k < i ==> adapts_field(#[trigger] converted_fields@[k], fields@[k]),
            decreases fields@.len() - i,
        {
            converted_fields.push(FieldAdapter::new(&fields[i]));
            i = i + 1;
        }
        let class_type = TypeRPC::Class {
            name: copy_string(&class_node.elem.name),
            mode: StreamingMode::NonStreaming,
            dynamic: class_node.attributes.dynamic(),
            meta: MetaRPC { constraints: Vec::new() },
        };
        proof {
            assert(crate::types::constraints_model(Seq::<crate::types::Constraint>::empty()) =~= Seq::empty());
        }
        ClassAdapter {
            name: copy_string(&class_node.elem.name),
            converted_fields,
            class_type,
            alias: copy_opt_string_or(class_node.attributes.alias()),
            description: copy_opt_string_or(class_node.attributes.description()),
            skip: class_node.attributes.skip(),
        }
    }
}

impl TypedObject for ClassAdapter {
    open spec fn typed_model(&self) -> TypedModel {
        TypedModel { name: self.name@, ty: self.class_type@, source: DefinitionSource::CompileTime }
    }

    fn name(&self) -> (r: &str) {
        self.name.as_str()
    }

    fn type_rpc(&self) -> (r: &TypeRPC) {
        &self.class_type
    }

    fn definition_source(&self) -> (r: DefinitionSource) {
        DefinitionSource::CompileTime
    }
}

impl LLMRenderable for ClassAdapter {
    open spec fn render_model(&self) -> RenderModel {
        RenderModel {
            alias: opt_string_or_model(self.alias),
            description: opt_string_or_model(self.description),
            skip: self.skip,
        }
    }

    fn alias(&self) -> (r: Option<&StringOr>) {
        opt_string_or_ref(&self.alias)
    }

    fn description(&self) -> (r: Option<&StringOr>) {
        opt_string_or_ref(&self.description)
    }

    fn skip(&self) -> (r: bool) {
        self.skip
    }
}

impl ClassDefinition for ClassAdapter {
    type Field = FieldAdapter;

    open spec fn field_refs<'a>(&'a self) -> Seq<&'a FieldAdapter> {
        Seq::new(self.converted_fields@.len(), |i: int| &self.converted_fields@[i])
    }

    fn fields_sorted_by_order<'a>(&'a self) -> (r: Vec<&'a FieldAdapter>) {
        let mut out: Vec<&'a FieldAdapter> = Vec::new();
        let mut i: usize = 0;
        while i < self.converted_fields.len()
            invariant
                i <= self.converted_fields@.len(),
                out@ == self.field_refs().take(i as int),
            decreases self.converted_fields@.len() - i,
        {
            out.push(&self.converted_fields[i]);
            i = i + 1;
            assert(out@ =~= self.field_refs().take(i as int));
        }
        assert(self.field_refs().take(i as int) =~= self.field_refs());
        out
    }
}

} // verus!
