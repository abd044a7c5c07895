//! Enums of the intermediate representation as enum definitions.

use vstd::prelude::*;
use crate::ast::enums::{EnumDefinition, EnumValue};
use crate::interfaces::{
    copy_opt_string_or, opt_string_or_model, opt_string_or_ref, DefinitionSource, LLMRenderable,
    RenderModel, StringOr, TypedModel, TypedObject,
};
use crate::ir::repr::{Enum, EnumValue as IrEnumValue, Node};
use crate::types::{copy_string, Constraint, MetaRPC, TypeModel, TypeRPC};

verus! {

/// The type of an enum of the given name, as hashed.
pub open spec fn enum_type_model(name: Seq<char>, dynamic: bool) -> TypeModel {
    TypeModel::Enum { name, dynamic, meta: Seq::empty() }
}

fn enum_type(name: &String, dynamic: bool) -> (r: TypeRPC)
    ensures
        r@ == enum_type_model(name@, dynamic),
{
    proof {
        assert(crate::types::constraints_model(Seq::<Constraint>::empty()) =~= Seq::empty());
    }
    TypeRPC::Enum { name: copy_string(name), dynamic, meta: MetaRPC { constraints: Vec::new() } }
}

/// A value of an enum, typed as its enum, with its rendering attributes.
pub struct EnumValueAdapter {
    pub name: String,
    pub enum_name: String,
    pub value_type: TypeRPC,
    pub alias: Option<StringOr>,
    pub description: Option<StringOr>,
    pub skip: bool,
}

/// Whether an adapter holds what a value node of the named enum declares.
pub open spec fn adapts_value(a: EnumValueAdapter, v: Node<IrEnumValue>, enum_name: Seq<char>) -> bool {
    &&& a.name@ == v.elem.0@
    &&& a.enum_name@ == enum_name
    &&& a.value_type@ == enum_type_model(enum_name, false)
    &&& opt_string_or_model(a.alias) == opt_string_or_model(v.attributes.alias)
    &&& opt_string_or_model(a.description) == opt_string_or_model(v.attributes.description)
    &&& a.skip == v.attributes.skip
}

impl EnumValueAdapter {
    pub fn new(value_node: &Node<IrEnumValue>, enum_name: String) -> (r: Self)
        ensures
            adapts_value(r, *value_node, enum_name@),
    {
        let value_type = enum_type(&enum_name, false);
        EnumValueAdapter {
            name: copy_string(&value_node.elem.0),
            enum_name,
            value_type,
            alias: copy_opt_string_or(value_node.attributes.alias()),
            description: copy_opt_string_or(value_node.attributes.description()),
            skip: value_node.attributes.skip(),
        }
    }
}

impl TypedObject for EnumValueAdapter {
    open spec fn typed_model(&self) -> TypedModel {
        TypedModel { name: self.name@, ty: self.value_type@, source: DefinitionSource::CompileTime }
    }

    fn name(&self) -> (r: &str) {
        self.name.as_str()
    }

    fn type_rpc(&self) -> (r: &TypeRPC) {
        &self.value_type
    }

    fn definition_source(&self) -> (r: DefinitionSource) {
        DefinitionSource::CompileTime
    }
}

impl LLMRenderable for EnumValueAdapter {
    open spec fn render_model(&self) -> RenderModel {
        RenderModel {
            alias: opt_string_or_model(self.alias),
            description: opt_string_or_model(self.description),
            skip: self.skip,
        }
    }

    fn alias(&self) -> (r: Option<&StringOr>) {
        opt_string_or_ref(&self.alias)
    }

    fn description(&self) -> (r: Option<&StringOr>) {
        opt_string_or_ref(&self.description)
    }

    fn skip(&self) -> (r: bool) {
        self.skip
    }
}

impl EnumValue for EnumValueAdapter {
}

/// An enum with its values adapted and its own type in hashed form.
pub struct EnumAdapter {
    pub name: String,
    pub converted_values: Vec<EnumValueAdapter>,
    pub enum_type: TypeRPC,
    pub alias: Option<StringOr>,
    pub description: Option<StringOr>,
    pub skip: bool,
}

/// Whether an adapter holds what an enum node declares.
pub open spec fn adapts_enum(a: EnumAdapter, e: Node<Enum>) -> bool {
    &&& a.name@ == e.elem.name@
    &&& a.converted_values@.len() == e.elem.values@.len()
    &&& forall|i: int| 0 <= i < a.converted_values@.len()
        ==> adapts_value(#[trigger] a.converted_values@[i], e.elem.values@[i].0, e.elem.name@)
    &&& a.enum_type@ == enum_type_model(e.elem.name@, e.attributes.dynamic)
    &&& opt_string_or_model(a.alias) == opt_string_or_model(e.attributes.alias)
    &&& opt_string_or_model(a.description) == opt_string_or_model(e.attributes.description)
    &&& a.skip == e.attributes.skip
}

impl EnumAdapter {
    pub fn new(enum_node: &Node<Enum>) -> (r: Self)
        ensures
            adapts_enum(r, *enum_node),
    {
        let values = &enum_node.elem.values;
        let mut converted_values: Vec<EnumValueAdapter> = Vec::new();
        let mut i: usize = 0;
        while i < values.len()
            invariant
                i <= values@.len(),
                converted_values@.len() == i,
                forall|k: int| 0 <= k < i
                    ==> adapts_value(#[trigger] converted_values@[k], values@[k].0, enum_node.elem.name@),
            decreases values@.len() - i,
        {
            let v = EnumValueAdapter::new(&values[i].0, copy_string(&enum_node.elem.name));
            converted_values.push(v);
            i = i + 1;
        }
        EnumAdapter {
            name: copy_string(&enum_node.elem.name),
            converted_values,
            enum_type: enum_type(&enum_node.elem.name, enum_node.attributes.dynamic()),
            alias: copy_opt_string_or(enum_node.attributes.alias()),
            description: copy_opt_string_or(enum_node.attributes.description()),
            skip: enum_node.attributes.skip(),
        }
    }
}

impl TypedObject for EnumAdapter {
    open spec fn typed_model(&self) -> TypedModel {
        TypedModel { name: self.name@, ty: self.enum_type@, source: DefinitionSource::CompileTime }
    }

    fn name(&self) -> (r: &str) {
        self.name.as_str()
    }

    fn type_rpc(&self) -> (r: &TypeRPC) {
        &self.enum_type
    }

    fn definition_source(&self) -> (r: DefinitionSource) {
        DefinitionSource::CompileTime
    }
}

impl LLMRenderable for EnumAdapter {
    open spec fn render_model(&self) -> RenderModel {
        RenderModel {
            alias: opt_string_or_model(self.alias),
            description: opt_string_or_model(self.description),
            skip: self.skip,
        }
    }

    fn alias(&self) -> (r: Option<&StringOr>) {
        opt_string_or_ref(&self.alias)
    }

    fn description(&self) -> (r: Option<&StringOr>) {
        opt_string_or_ref(&self.description)
    }

    fn skip(&self) -> (r: bool) {
        self.skip
    }
}

impl EnumDefinition for EnumAdapter {
    type Value = EnumValueAdapter;

    open spec fn value_refs<'a>(&'a self) -> Seq<&'a EnumValueAdapter> {
        Seq::new(self.converted_values@.len(), |i: int| &self.converted_values@[i])
    }

    fn values_sorted_by_order<'a>(&'a self) -> (r: Vec<&'a EnumValueAdapter>) {
        let mut out: Vec<&'a EnumValueAdapter> = Vec::new();
        let mut i: usize = 0;
        while i < self.converted_values.len()
            invariant
                i <= self.converted_values@.len(),
                out@ == self.value_refs().take(i as int),
            decreases self.converted_values@.len() - i,
        {
            out.push(&self.converted_values[i]);
            i = i + 1;
            assert(out@ =~= self.value_refs().take(i as int));
        }
        assert(self.value_refs().take(i as int) =~= self.value_refs());
        out
    }
}

} // verus!
