//! Classes.  The interface of a class is its own typed interface and that of
//! each field, fields taken in order of name so that declaration order does
//! not matter; the implementation adds rendering and takes fields in
//! declaration order.

use vstd::prelude::*;
use crate::interfaces::{
    push_renderable_implementation, push_typed_interface, renderable_implementation,
    typed_implementation, typed_interface, LLMRenderable, RenderModel, ShallowSignature,
    TypedModel, TypedObject,
};
use crate::order::{append_strings, string_views};
use crate::sorting::{
    lemma_sort_refs_models, render_models, sort_by_name, sort_refs, sort_typed, typed_models,
};
use crate::type_rpc::dep_list;

verus! {

/// A field of a class.
pub trait ClassField: TypedObject + LLMRenderable {
}

/// A class with its fields.
pub trait ClassDefinition: TypedObject + LLMRenderable {
    type Field: ClassField;

    /// The fields, in declaration order.
    spec fn field_refs<'a>(&'a self) -> Seq<&'a Self::Field>;

    /// The fields, in declaration order.
    fn fields_sorted_by_order<'a>(&'a self) -> (r: Vec<&'a Self::Field>)
        ensures
            r@ == self.field_refs(),
    ;

    /// The fields, stably sorted by name.
    fn fields_sorted_by_name<'a>(&'a self) -> (r: Vec<&'a Self::Field>)
        ensures
            r@ == sort_refs(self.field_refs()),
    {
        let fields = self.fields_sorted_by_order();
        sort_by_name(&fields)
    }
}

/// The interfaces of fields, one after the other.
pub open spec fn field_interfaces(fs: Seq<TypedModel>) -> Seq<u8>
    decreases fs.len(),
{
    if fs.len() == 0 {
        Seq::empty()
    } else {
        field_interfaces(fs.drop_last()) + typed_interface(fs.last())
    }
}

/// The implementations of fields, one after the other.
pub open spec fn field_implementations(fs: Seq<TypedModel>, rs: Seq<RenderModel>) -> Seq<u8>
    decreases fs.len(),
{
    if fs.len() == 0 || rs.len() == 0 {
        Seq::empty()
    } else {
        field_implementations(fs.drop_last(), rs.drop_last()) + typed_implementation(fs.last())
            + renderable_implementation(fs.last().name, rs.last())
    }
}

/// The names the types of fields refer to, field by field.
pub open spec fn field_dep_list(fs: Seq<TypedModel>) -> Seq<Seq<char>>
    decreases fs.len(),
{
    if fs.len() == 0 {
        Seq::empty()
    } else {
        field_dep_list(fs.drop_last()) + dep_list(fs.last().ty)
    }
}

/// The interface of a class: its own, then its fields' sorted by name.
pub open spec fn class_interface(c: TypedModel, fields: Seq<TypedModel>) -> Seq<u8> {
    typed_interface(c) + field_interfaces(sort_typed(fields))
}

/// The implementation of a class: its own with rendering, then its fields'
/// with rendering, in declaration order.
pub open spec fn class_implementation(
    c: TypedModel,
    cr: RenderModel,
    fields: Seq<TypedModel>,
    renders: Seq<RenderModel>,
) -> Seq<u8> {
    typed_implementation(c) + renderable_implementation(c.name, cr) + field_implementations(fields, renders)
}

/// A class as a top-level definition.
pub struct TopClassDefinition<'a, C: ClassDefinition>(pub &'a C);

impl<'a, C: ClassDefinition> TopClassDefinition<'a, C> {
    pub fn new(definition: &'a C) -> (r: Self)
        ensures
            r.0 == definition,
    {
        TopClassDefinition(definition)
    }
}

impl<'a, C: ClassDefinition> ShallowSignature for TopClassDefinition<'a, C> {
    open spec fn interface_bytes(&self) -> Seq<u8> {
        class_interface(self.0.typed_model(), typed_models(self.0.field_refs()))
    }

    open spec fn implementation_bytes(&self) -> Seq<u8> {
        class_implementation(
            self.0.typed_model(),
            self.0.render_model(),
            typed_models(self.0.field_refs()),
            render_models(self.0.field_refs()),
        )
    }

    open spec fn interface_deps(&self) -> Set<Seq<char>> {
        field_dep_list(typed_models(self.0.field_refs())).to_set()
    }

    open spec fn implementation_deps(&self) -> Set<Seq<char>> {
        field_dep_list(typed_models(self.0.field_refs())).to_set()
    }

    open spec fn prefix_word(&self) -> Seq<char> {
        "class"@
    }

    fn shallow_hash_prefix(&self) -> (r: &'static str) {
        "class"
    }

    fn shallow_interface_hash(&self) -> (r: Vec<u8>) {
        let mut out: Vec<u8> = Vec::new();
        push_typed_interface(&mut out, self.0);
        let fields = self.0.fields_sorted_by_name();
        let ghost sorted = typed_models(fields@);
        proof {
            lemma_sort_refs_models(self.0.field_refs());
        }
        let ghost head = out@;
        let mut i: usize = 0;
        while i < fields.len()
            invariant
                i <= fields@.len(),
                sorted == typed_models(fields@),
                out@ == head + field_interfaces(sorted.take(i as int)),
            decreases fields@.len() - i,
        {
            push_typed_interface(&mut out, fields[i]);
            proof {
                crate::sorting::lemma_typed_models_len(fields@);
                assert(sorted.take(i + 1).drop_last() =~= sorted.take(i as int));
            }
            i = i + 1;
            assert(out@ =~= head + field_interfaces(sorted.take(i as int)));
        }
        proof {
            crate::sorting::lemma_typed_models_len(fields@);
        }
        assert(sorted.take(i as int) =~= sorted);
        out
    }

    fn unsorted_interface_dependencies(&self) -> (r: Vec<String>) {
        let fields = self.0.fields_sorted_by_order();
        let ghost models = typed_models(fields@);
        let mut out: Vec<String> = Vec::new();
        let mut i: usize = 0;
        while i < fields.len()
            invariant
                i <= fields@.len(),
                models == typed_models(fields@),
                string_views(out@) == field_dep_list(models.take(i as int)),
            decreases fields@.len() - i,
        {
            let deps = fields[i].type_rpc().immediate_dependencies();
            append_strings(&mut out, &deps);
            proof {
                crate::sorting::lemma_typed_models_len(fields@);
                assert(models.take(i + 1).drop_last() =~= models.take(i as int));
            }
            i = i + 1;
            assert(string_views(out@) =~= field_dep_list(models.take(i as int)));
        }
        proof {
            crate::sorting::lemma_typed_models_len(fields@);
        }
        assert(models.take(i as int) =~= models);
        out
    }

    fn shallow_implementation_hash(&self) -> (r: Vec<u8>) {
        let mut out: Vec<u8> = Vec::new();
        push_typed_interface(&mut out, self.0);
        push_renderable_implementation(&mut out, self.0);
        let fields = self.0.fields_sorted_by_order();
        let ghost tm = typed_models(fields@);
        let ghost rm = render_models(fields@);
        proof {
            crate::sorting::lemma_typed_models_len(fields@);
            lemma_render_models_len(fields@);
        }
        let ghost head = out@;
        let mut i: usize = 0;
        while i < fields.len()
            invariant
                i <= fields@.len(),
                tm == typed_models(fields@),
                rm == render_models(fields@),
                tm.len() == fields@.len(),
                rm.len() == fields@.len(),
                forall|k: int| 0 <= k < fields@.len() ==> #[trigger] tm[k] == fields@[k].typed_model(),
                forall|k: int| 0 <= k < fields@.len() ==> #[trigger] rm[k] == fields@[k].render_model(),
                out@ == head + field_implementations(tm.take(i as int), rm.take(i as int)),
            decreases fields@.len() - i,
        {
            push_typed_interface(&mut out, fields[i]);
            push_renderable_implementation(&mut out, fields[i]);
            proof {
                assert(tm.take(i + 1).drop_last() =~= tm.take(i as int));
                assert(rm.take(i + 1).drop_last() =~= rm.take(i as int));
            }
            i = i + 1;
            assert(out@ =~= head + field_implementations(tm.take(i as int), rm.take(i as int)));
        }
        assert(tm.take(i as int) =~= tm);
        assert(rm.take(i as int) =~= rm);
        out
    }

    fn unsorted_implementation_dependencies(&self) -> (r: Vec<String>) {
        self.unsorted_interface_dependencies()
    }
}

pub proof fn lemma_render_models_len<'a, T: LLMRenderable>(v: Seq<&'a T>)
    ensures
        render_models(v).len() == v.len(),
        forall|i: int| 0 <= i < v.len() ==> #[trigger] render_models(v)[i] == v[i].render_model(),
    decreases v.len(),
{
    if v.len() > 0 {
        lemma_render_models_len(v.drop_last());
    }
}

} // verus!
