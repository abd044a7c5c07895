//! A program's intermediate representation, and its definitions adapted so
//! that signatures can be made for them.

pub mod class;
pub mod client;
pub mod enum_impl;
pub mod function;
pub mod repr;
pub mod retry_policy;
pub mod type_alias;

use vstd::prelude::*;
use crate::agg::{
    class_entries, class_entry, client_entries, client_entry, enum_entries, enum_entry, function_entries,
    function_entry, program_entries, program_names, retry_policy_entries, retry_policy_entry,
    type_alias_entries, type_alias_entry, CanMakeSignature,
};
use crate::ast::class::{lemma_render_models_len, ClassDefinition};
use crate::ast::client::ClientDefinition;
use crate::ast::enums::EnumDefinition;
use crate::ast::function::FunctionDefinition;
use crate::ir::repr::{first_config_named, Class, Enum, Function, Node, TypeAlias};
use crate::sorting::{lemma_typed_models_len, render_models, typed_models};
use crate::ir::class::{adapts_class, ClassAdapter};
use crate::ir::client::{adapts_client, ClientAdapter};
use crate::ir::enum_impl::{adapts_enum, EnumAdapter};
use crate::ir::function::{adapts_function, FunctionAdapter};
use crate::ir::repr::{has_config_named, IntermediateRepr};
use crate::ir::retry_policy::RetryPolicyAdapter;
use crate::ir::type_alias::TypeAliasAdapter;
use crate::types::rpc_model_of_ir;

verus! {

/// The adapted definitions of a program.
pub struct IRSignatureAdapters<'ir> {
    pub function_adapters: Vec<FunctionAdapter<'ir>>,
    pub class_adapters: Vec<ClassAdapter>,
    pub enum_adapters: Vec<EnumAdapter>,
    pub type_alias_adapters: Vec<TypeAliasAdapter>,
    pub client_adapters: Vec<ClientAdapter<'ir>>,
    pub retry_policy_adapters: Vec<RetryPolicyAdapter<'ir>>,
}

/// Whether every function of a program has its default configuration.
pub open spec fn default_configs_exist(ir: IntermediateRepr) -> bool {
    forall|i: int| 0 <= i < ir.functions@.len()
        ==> has_config_named(#[trigger] ir.functions@[i].elem.configs@, ir.functions@[i].elem.default_config@)
}

/// Whether every function of a program has its default configuration.
pub fn all_default_configs_exist(ir: &IntermediateRepr) -> (r: bool)
    ensures
        r == default_configs_exist(*ir),
{
    let mut i: usize = 0;
    while i < ir.functions.len()
        invariant
            i <= ir.functions@.len(),
            forall|k: int| 0 <= k < i ==> has_config_named(
                #[trigger] ir.functions@[k].elem.configs@,
                ir.functions@[k].elem.default_config@,
            ),
        decreases ir.functions@.len() - i,
    {
        if ir.functions[i].elem.find_default_config().is_none() {
            return false;
        }
        i = i + 1;
    }
    true
}

/// Whether the adapters hold the program's definitions, one for each, in
/// the program's order.
pub open spec fn adapts_program<'ir>(a: IRSignatureAdapters<'ir>, ir: &'ir IntermediateRepr) -> bool {
    &&& a.function_adapters@.len() == ir.functions@.len()
    &&& forall|i: int| 0 <= i < ir.functions@.len()
        ==> adapts_function(#[trigger] a.function_adapters@[i], &ir.functions@[i].elem)
    &&& a.class_adapters@.len() == ir.classes@.len()
    &&& forall|i: int| 0 <= i < ir.classes@.len() ==> adapts_class(#[trigger] a.class_adapters@[i], ir.classes@[i])
    &&& a.enum_adapters@.len() == ir.enums@.len()
    &&& forall|i: int| 0 <= i < ir.enums@.len() ==> adapts_enum(#[trigger] a.enum_adapters@[i], ir.enums@[i])
    &&& a.type_alias_adapters@.len() == ir.type_aliases@.len()
    &&& forall|i: int| 0 <= i < ir.type_aliases@.len() ==> {
        &&& (#[trigger] a.type_alias_adapters@[i]).name@ == ir.type_aliases@[i].elem.name@
        &&& a.type_alias_adapters@[i].converted_type@ == rpc_model_of_ir(ir.type_aliases@[i].elem.alias_type)
    }
    &&& a.client_adapters@.len() == ir.clients@.len()
    &&& forall|i: int| 0 <= i < ir.clients@.len() ==> adapts_client(#[trigger] a.client_adapters@[i], &ir.clients@[i].elem)
    &&& a.retry_policy_adapters@.len() == ir.retry_policies@.len()
    &&& forall|i: int| 0 <= i < ir.retry_policies@.len()
        ==> (#[trigger] a.retry_policy_adapters@[i]).retry_policy == &ir.retry_policies@[i].elem
}

impl<'ir> IRSignatureAdapters<'ir> {
    /// Adapts every definition of a program.  Requires that each function's
    /// default configuration exists.
    pub fn new(ir: &'ir IntermediateRepr) -> (r: Self)
        requires
            default_configs_exist(*ir),
        ensures
            adapts_program(r, ir),
    {
        let mut function_adapters: Vec<FunctionAdapter<'ir>> = Vec::new();
        let mut i: usize = 0;
        while i < ir.functions.len()
            invariant
                i <= ir.functions@.len(),
                default_configs_exist(*ir),
                function_adapters@.len() == i,
                forall|k: int| 0 <= k < i ==> adapts_function(#[trigger] function_adapters@[k], &ir.functions@[k].elem),
            decreases ir.functions@.len() - i,
        {
            assert(has_config_named(ir.functions@[i as int].elem.configs@, ir.functions@[i as int].elem.default_config@));
            function_adapters.push(FunctionAdapter::new(&ir.functions[i].elem));
            i = i + 1;
        }
        let mut class_adapters: Vec<ClassAdapter> = Vec::new();
        let mut i: usize = 0;
        while i < ir.classes.len()
            invariant
                i <= ir.classes@.len(),
                class_adapters@.len() == i,
                forall|k: int| 0 <= k < i ==> adapts_class(#[trigger] class_adapters@[k], ir.classes@[k]),
            decreases ir.classes@.len() - i,
        {
            class_adapters.push(ClassAdapter::new(&ir.classes[i]));
            i = i + 1;
        }
        let mut enum_adapters: Vec<EnumAdapter> = Vec::new();
        let mut i: usize = 0;
        while i < ir.enums.len()
            invariant
                i <= ir.enums@.len(),
                enum_adapters@.len() == i,
                forall|k: int| 0 <= k < i ==> adapts_enum(#[trigger] enum_adapters@[k], ir.enums@[k]),
            decreases ir.enums@.len() - i,
        {
            enum_adapters.push(EnumAdapter::new(&ir.enums[i]));
            i = i + 1;
        }
        let mut type_alias_adapters: Vec<TypeAliasAdapter> = Vec::new();
        let mut i: usize = 0;
        while i < ir.type_aliases.len()
            invariant
                i <= ir.type_aliases@.len(),
                type_alias_adapters@.len() == i,
                forall|k: int| 0 <= k < i ==> {
                    &&& (#[trigger] type_alias_adapters@[k]).name@ == ir.type_aliases@[k].elem.name@
                    &&& type_alias_adapters@[k].converted_type@ == rpc_model_of_ir(ir.type_aliases@[k].elem.alias_type)
                },
            decreases ir.type_aliases@.len() - i,
        {
            type_alias_adapters.push(TypeAliasAdapter::new(&ir.type_aliases[i]));
            i = i + 1;
        }
        let mut client_adapters: Vec<ClientAdapter<'ir>> = Vec::new();
        let mut i: usize = 0;
        while i < ir.clients.len()
            invariant
                i <= ir.clients@.len(),
                client_adapters@.len() == i,
                forall|k: int| 0 <= k < i ==> adapts_client(#[trigger] client_adapters@[k], &ir.clients@[k].elem),
            decreases ir.clients@.len() - i,
        {
            client_adapters.push(ClientAdapter::new(&ir.clients[i].elem));
            i = i + 1;
        }
        let mut retry_policy_adapters: Vec<RetryPolicyAdapter<'ir>> = Vec::new();
        let mut i: usize = 0;
        while i < ir.retry_policies.len()
            invariant
                i <= ir.retry_policies@.len(),
                retry_policy_adapters@.len() == i,
                forall|k: int| 0 <= k < i
                    ==> (#[trigger] retry_policy_adapters@[k]).retry_policy == &ir.retry_policies@[k].elem,
            decreases ir.retry_policies@.len() - i,
        {
            retry_policy_adapters.push(RetryPolicyAdapter::new(&ir.retry_policies[i].elem));
            i = i + 1;
        }
        IRSignatureAdapters {
            function_adapters,
            class_adapters,
            enum_adapters,
            type_alias_adapters,
            client_adapters,
            retry_policy_adapters,
        }
    }
}

impl<'ir> CanMakeSignature for IRSignatureAdapters<'ir> {
    type Function = FunctionAdapter<'ir>;
    type Class = ClassAdapter;
    type Enum = EnumAdapter;
    type TypeAlias = TypeAliasAdapter;
    type Client = ClientAdapter<'ir>;
    type RetryPolicy = RetryPolicyAdapter<'ir>;

    open spec fn function_refs<'a>(&'a self) -> Seq<&'a FunctionAdapter<'ir>> {
        Seq::new(self.function_adapters@.len(), |i: int| &self.function_adapters@[i])
    }

    open spec fn class_refs<'a>(&'a self) -> Seq<&'a ClassAdapter> {
        Seq::new(self.class_adapters@.len(), |i: int| &self.class_adapters@[i])
    }

    open spec fn enum_refs<'a>(&'a self) -> Seq<&'a EnumAdapter> {
        Seq::new(self.enum_adapters@.len(), |i: int| &self.enum_adapters@[i])
    }

    open spec fn type_alias_refs<'a>(&'a self) -> Seq<&'a TypeAliasAdapter> {
        Seq::new(self.type_alias_adapters@.len(), |i: int| &self.type_alias_adapters@[i])
    }

    open spec fn client_refs<'a>(&'a self) -> Seq<&'a ClientAdapter<'ir>> {
        Seq::new(self.client_adapters@.len(), |i: int| &self.client_adapters@[i])
    }

    open spec fn retry_policy_refs<'a>(&'a self) -> Seq<&'a RetryPolicyAdapter<'ir>> {
        Seq::new(self.retry_policy_adapters@.len(), |i: int| &self.retry_policy_adapters@[i])
    }

    fn functions<'a>(&'a self) -> (r: Vec<&'a FunctionAdapter<'ir>>) {
        let mut out: Vec<&'a FunctionAdapter<'ir>> = Vec::new();
        let mut i: usize = 0;
        while i < self.function_adapters.len()
            invariant
                i <= self.function_adapters@.len(),
                out@ == self.function_refs().take(i as int),
            decreases self.function_adapters@.len() - i,
        {
            out.push(&self.function_adapters[i]);
            i = i + 1;
            assert(out@ =~= self.function_refs().take(i as int));
        }
        assert(self.function_refs().take(i as int) =~= self.function_refs());
        out
    }

    fn classes<'a>(&'a self) -> (r: Vec<&'a ClassAdapter>) {
        let mut out: Vec<&'a ClassAdapter> = Vec::new();
        let mut i: usize = 0;
        while i < self.class_adapters.len()
            invariant
                i <= self.class_adapters@.len(),
                out@ == self.class_refs().take(i as int),
            decreases self.class_adapters@.len() - i,
        {
            out.push(&self.class_adapters[i]);
            i = i + 1;
            assert(out@ =~= self.class_refs().take(i as int));
        }
        assert(self.class_refs().take(i as int) =~= self.class_refs());
        out
    }

    fn enums<'a>(&'a self) -> (r: Vec<&'a EnumAdapter>) {
        let mut out: Vec<&'a EnumAdapter> = Vec::new();
        let mut i: usize = 0;
        while i < self.enum_adapters.len()
            invariant
                i <= self.enum_adapters@.len(),
                out@ == self.enum_refs().take(i as int),
            decreases self.enum_adapters@.len() - i,
        {
            out.push(&self.enum_adapters[i]);
            i = i + 1;
            assert(out@ =~= self.enum_refs().take(i as int));
        }
        assert(self.enum_refs().take(i as int) =~= self.enum_refs());
        out
    }

    fn type_aliases<'a>(&'a self) -> (r: Vec<&'a TypeAliasAdapter>) {
        let mut out: Vec<&'a TypeAliasAdapter> = Vec::new();
        let mut i: usize = 0;
        while i < self.type_alias_adapters.len()
            invariant
                i <= self.type_alias_adapters@.len(),
                out@ == self.type_alias_refs().take(i as int),
            decreases self.type_alias_adapters@.len() - i,
        {
            out.push(&self.type_alias_adapters[i]);
            i = i + 1;
            assert(out@ =~= self.type_alias_refs().take(i as int));
        }
        assert(self.type_alias_refs().take(i as int) =~= self.type_alias_refs());
        out
    }

    fn clients<'a>(&'a self) -> (r: Vec<&'a ClientAdapter<'ir>>) {
        let mut out: Vec<&'a ClientAdapter<'ir>> = Vec::new();
        let mut i: usize = 0;
        while i < self.client_adapters.len()
            invariant
                i <= self.client_adapters@.len(),
                out@ == self.client_refs().take(i as int),
            decreases self.client_adapters@.len() - i,
        {
            out.push(&self.client_adapters[i]);
            i = i + 1;
            assert(out@ =~= self.client_refs().take(i as int));
        }
        assert(self.client_refs().take(i as int) =~= self.client_refs());
        out
    }

    fn retry_policies<'a>(&'a self) -> (r: Vec<&'a RetryPolicyAdapter<'ir>>) {
        let mut out: Vec<&'a RetryPolicyAdapter<'ir>> = Vec::new();
        let mut i: usize = 0;
        while i < self.retry_policy_adapters.len()
            invariant
                i <= self.retry_policy_adapters@.len(),
                out@ == self.retry_policy_refs().take(i as int),
            decreases self.retry_policy_adapters@.len() - i,
        {
            out.push(&self.retry_policy_adapters[i]);
            i = i + 1;
            assert(out@ =~= self.retry_policy_refs().take(i as int));
        }
        assert(self.retry_policy_refs().take(i as int) =~= self.retry_policy_refs());
        out
    }
}

impl IntermediateRepr {
    /// The program's definitions, adapted for signing.  Requires that each
    /// function's default configuration exists.
    pub fn as_signature_adapters<'ir>(&'ir self) -> (r: IRSignatureAdapters<'ir>)
        requires
            default_configs_exist(*self),
        ensures
            adapts_program(r, self),
    {
        IRSignatureAdapters::new(self)
    }
}

proof fn lemma_same_function<'ir>(f1: &FunctionAdapter<'ir>, f2: &FunctionAdapter<'ir>, f: &'ir Function)
    requires
        adapts_function(*f1, f),
        adapts_function(*f2, f),
    ensures
        function_entry(f1) == function_entry(f2),
{
    let n = f.default_config@;
    let k1 = choose|k: int| first_config_named(f.configs@, n, k) && f.configs@[k] == *f1.default_config;
    let k2 = choose|k: int| first_config_named(f.configs@, n, k) && f.configs@[k] == *f2.default_config;
    if k1 < k2 {
        assert(f.configs@[k1].name@ != n);
    }
    if k2 < k1 {
        assert(f.configs@[k2].name@ != n);
    }
    assert(f1.default_config == f2.default_config);
    assert(f1.function_model().params =~= f2.function_model().params);
    assert(f1.function_model() == f2.function_model());
}

proof fn lemma_same_class(c1: &ClassAdapter, c2: &ClassAdapter, n: Node<Class>)
    requires
        adapts_class(*c1, n),
        adapts_class(*c2, n),
    ensures
        class_entry(c1) == class_entry(c2),
{
    let r1 = c1.field_refs();
    let r2 = c2.field_refs();
    lemma_typed_models_len(r1);
    lemma_typed_models_len(r2);
    lemma_render_models_len(r1);
    lemma_render_models_len(r2);
    assert forall|i: int| 0 <= i < r1.len() implies #[trigger] typed_models(r1)[i] == typed_models(r2)[i]
        && render_models(r1)[i] == render_models(r2)[i] by {
        assert(r1[i] == &c1.converted_fields@[i]);
        assert(r2[i] == &c2.converted_fields@[i]);
    }
    assert(typed_models(r1) =~= typed_models(r2));
    assert(render_models(r1) =~= render_models(r2));
}

proof fn lemma_same_enum(e1: &EnumAdapter, e2: &EnumAdapter, n: Node<Enum>)
    requires
        adapts_enum(*e1, n),
        adapts_enum(*e2, n),
    ensures
        enum_entry(e1) == enum_entry(e2),
{
    let r1 = e1.value_refs();
    let r2 = e2.value_refs();
    lemma_typed_models_len(r1);
    lemma_typed_models_len(r2);
    lemma_render_models_len(r1);
    lemma_render_models_len(r2);
    assert forall|i: int| 0 <= i < r1.len() implies #[trigger] typed_models(r1)[i] == typed_models(r2)[i]
        && render_models(r1)[i] == render_models(r2)[i] by {
        assert(r1[i] == &e1.converted_values@[i]);
        assert(r2[i] == &e2.converted_values@[i]);
    }
    assert(typed_models(r1) =~= typed_models(r2));
    assert(render_models(r1) =~= render_models(r2));
}

/// Adapters of one program give it the same definitions: the same names,
/// kinds and shallow hashes, in the same order.
pub proof fn lemma_adapters_agree<'ir>(ir: &'ir IntermediateRepr, a1: IRSignatureAdapters<'ir>, a2: IRSignatureAdapters<'ir>)
    requires
        adapts_program(a1, ir),
        adapts_program(a2, ir),
    ensures
        program_entries(a1) == program_entries(a2),
        program_names(a1) == program_names(a2),
{
    assert(function_entries(a1.function_refs()) =~= function_entries(a2.function_refs())) by {
        assert forall|i: int| 0 <= i < a1.function_refs().len() implies #[trigger] function_entries(a1.function_refs())[i]
            == function_entries(a2.function_refs())[i] by {
            lemma_same_function(&a1.function_adapters@[i], &a2.function_adapters@[i], &ir.functions@[i].elem);
        }
    }
    assert(class_entries(a1.class_refs()) =~= class_entries(a2.class_refs())) by {
        assert forall|i: int| 0 <= i < a1.class_refs().len() implies #[trigger] class_entries(a1.class_refs())[i]
            == class_entries(a2.class_refs())[i] by {
            lemma_same_class(&a1.class_adapters@[i], &a2.class_adapters@[i], ir.classes@[i]);
        }
    }
    assert(enum_entries(a1.enum_refs()) =~= enum_entries(a2.enum_refs())) by {
        assert forall|i: int| 0 <= i < a1.enum_refs().len() implies #[trigger] enum_entries(a1.enum_refs())[i]
            == enum_entries(a2.enum_refs())[i] by {
            lemma_same_enum(&a1.enum_adapters@[i], &a2.enum_adapters@[i], ir.enums@[i]);
        }
    }
    assert(type_alias_entries(a1.type_alias_refs()) =~= type_alias_entries(a2.type_alias_refs())) by {
        assert forall|i: int| 0 <= i < a1.type_alias_refs().len() implies #[trigger] type_alias_entries(a1.type_alias_refs())[i]
            == type_alias_entries(a2.type_alias_refs())[i] by {
            assert(a1.type_alias_refs()[i] == &a1.type_alias_adapters@[i]);
            assert(a2.type_alias_refs()[i] == &a2.type_alias_adapters@[i]);
        }
    }
    assert(client_entries(a1.client_refs()) =~= client_entries(a2.client_refs())) by {
        assert forall|i: int| 0 <= i < a1.client_refs().len() implies #[trigger] client_entries(a1.client_refs())[i]
            == client_entries(a2.client_refs())[i] by {
            assert(adapts_client(a1.client_adapters@[i], &ir.clients@[i].elem));
            assert(adapts_client(a2.client_adapters@[i], &ir.clients@[i].elem));
            assert(a1.client_refs()[i].client_model() == a2.client_refs()[i].client_model());
        }
    }
    assert(retry_policy_entries(a1.retry_policy_refs()) =~= retry_policy_entries(a2.retry_policy_refs())) by {
        assert forall|i: int| 0 <= i < a1.retry_policy_refs().len() implies #[trigger] retry_policy_entries(a1.retry_policy_refs())[i]
            == retry_policy_entries(a2.retry_policy_refs())[i] by {
            assert(a1.retry_policy_adapters@[i].retry_policy == &ir.retry_policies@[i].elem);
            assert(a2.retry_policy_adapters@[i].retry_policy == &ir.retry_policies@[i].elem);
        }
    }
    assert(program_names(a1) =~= program_names(a2));
}

} // verus!
