//! Enums.  As for classes, the interface takes values in order of name and
//! the implementation in declaration order with rendering.  An enum depends
//! on nothing.

use vstd::prelude::*;
use crate::ast::class::{field_implementations, field_interfaces, lemma_render_models_len};
use crate::interfaces::{
    push_renderable_implementation, push_typed_interface, renderable_implementation,
    typed_implementation, typed_interface, LLMRenderable, RenderModel, ShallowSignature,
    TypedModel, TypedObject,
};
use crate::order::string_views;
use crate::sorting::{
    lemma_sort_refs_models, render_models, sort_by_name, sort_refs, sort_typed, typed_models,
};

verus! {

/// A value of an enum.
pub trait EnumValue: TypedObject + LLMRenderable {
}

/// An enum with its values.
pub trait EnumDefinition: TypedObject + LLMRenderable {
    type Value: EnumValue;

    /// The values, in declaration order.
    spec fn value_refs<'a>(&'a self) -> Seq<&'a Self::Value>;

    /// The values, in declaration order.
    fn values_sorted_by_order<'a>(&'a self) -> (r: Vec<&'a Self::Value>)
        ensures
            r@ == self.value_refs(),
    ;

    /// The values, stably sorted by name.
    fn values_sorted_by_name<'a>(&'a self) -> (r: Vec<&'a Self::Value>)
        ensures
            r@ == sort_refs(self.value_refs()),
    {
        let values = self.values_sorted_by_order();
        sort_by_name(&values)
    }
}

/// The interface of an enum: its own, then its values' sorted by name.
pub open spec fn enum_interface(e: TypedModel, values: Seq<TypedModel>) -> Seq<u8> {
    typed_interface(e) + field_interfaces(sort_typed(values))
}

/// The implementation of an enum: its own with rendering, then its values'
/// with rendering, in declaration order.
pub open spec fn enum_implementation(
    e: TypedModel,
    er: RenderModel,
    values: Seq<TypedModel>,
    renders: Seq<RenderModel>,
) -> Seq<u8> {
    typed_implementation(e) + renderable_implementation(e.name, er) + field_implementations(values, renders)
}

/// An enum as a top-level definition.
pub struct TopEnumDefinition<'a, C: EnumDefinition>(pub &'a C);

impl<'a, C: EnumDefinition> TopEnumDefinition<'a, C> {
    pub fn new(definition: &'a C) -> (r: Self)
        ensures
            r.0 == definition,
    {
        TopEnumDefinition(definition)
    }
}

impl<'a, C: EnumDefinition> ShallowSignature for TopEnumDefinition<'a, C> {
    open spec fn interface_bytes(&self) -> Seq<u8> {
        enum_interface(self.0.typed_model(), typed_models(self.0.value_refs()))
    }

    open spec fn implementation_bytes(&self) -> Seq<u8> {
        enum_implementation(
            self.0.typed_model(),
            self.0.render_model(),
            typed_models(self.0.value_refs()),
            render_models(self.0.value_refs()),
        )
    }

    open spec fn interface_deps(&self) -> Set<Seq<char>> {
        Set::empty()
    }

    open spec fn implementation_deps(&self) -> Set<Seq<char>> {
        Set::empty()
    }

    open spec fn prefix_word(&self) -> Seq<char> {
        "enum"@
    }

    fn shallow_hash_prefix(&self) -> (r: &'static str) {
        "enum"
    }

    fn shallow_interface_hash(&self) -> (r: Vec<u8>) {
        let mut out: Vec<u8> = Vec::new();
        push_typed_interface(&mut out, self.0);
        let fields = self.0.values_sorted_by_name();
        let ghost sorted = typed_models(fields@);
        proof {
            lemma_sort_refs_models(self.0.value_refs());
        }
        let ghost head = out@;
        let mut i: usize = 0;
        while i < fields.len()
            invariant
                i <= fields@.len(),
                sorted == typed_models(fields@),
                out@ == head + field_interfaces(sorted.take(i as int)),
            decreases fields@.len() - i,
        {
            push_typed_interface(&mut out, fields[i]);
            proof {
                crate::sorting::lemma_typed_models_len(fields@);
                assert(sorted.take(i + 1).drop_last() =~= sorted.take(i as int));
            }
            i = i + 1;
            assert(out@ =~= head + field_interfaces(sorted.take(i as int)));
        }
        proof {
            crate::sorting::lemma_typed_models_len(fields@);
        }
        assert(sorted.take(i as int) =~= sorted);
        out
    }

    fn unsorted_interface_dependencies(&self) -> (r: Vec<String>) {
        let out: Vec<String> = Vec::new();
        assert(string_views(out@).to_set() =~= Set::<Seq<char>>::empty());
        out
    }

    fn shallow_implementation_hash(&self) -> (r: Vec<u8>) {
        let mut out: Vec<u8> = Vec::new();
        push_typed_interface(&mut out, self.0);
        push_renderable_implementation(&mut out, self.0);
        let fields = self.0.values_sorted_by_order();
        let ghost tm = typed_models(fields@);
        let ghost rm = render_models(fields@);
        proof {
            crate::sorting::lemma_typed_models_len(fields@);
            lemma_render_models_len(fields@);
        }
        let ghost head = out@;
        let mut i: usize = 0;
        while i < fields.len()
            invariant
                i <= fields@.len(),
                tm == typed_models(fields@),
                rm == render_models(fields@),
                tm.len() == fields@.len(),
                rm.len() == fields@.len(),
                forall|k: int| 0 <= k < fields@.len() ==> #[trigger] tm[k] == fields@[k].typed_model(),
                forall|k: int| 0 <= k < fields@.len() ==> #[trigger] rm[k] == fields@[k].render_model(),
                out@ == head + field_implementations(tm.take(i as int), rm.take(i as int)),
            decreases fields@.len() - i,
        {
            push_typed_interface(&mut out, fields[i]);
            push_renderable_implementation(&mut out, fields[i]);
            proof {
                assert(tm.take(i + 1).drop_last() =~= tm.take(i as int));
                assert(rm.take(i + 1).drop_last() =~= rm.take(i as int));
            }
            i = i + 1;
            assert(out@ =~= head + field_implementations(tm.take(i as int), rm.take(i as int)));
        }
        assert(tm.take(i as int) =~= tm);
        assert(rm.take(i as int) =~= rm);
        out
    }

    fn unsorted_implementation_dependencies(&self) -> (r: Vec<String>) {
        self.unsorted_interface_dependencies()
    }
}

} // verus!
