//! What holds of hashes and dependencies across definitions, programs and
//! calls.

use vstd::prelude::*;
use crate::agg::shallow_hash::{
    all_deps, dep_graph, dep_hash_list, full_hash, full_hash_bytes, own_hash, signature_model, DepKind,
    ShallowModel,
};
use crate::agg::signature::{signature_error, signature_matches, signature_ok, Signature};
use crate::agg::{program_entries, program_names, signed, CanMakeSignature};
use crate::ir::repr::IntermediateRepr;
use crate::ir::{adapts_program, lemma_adapters_agree, IRSignatureAdapters};
use crate::agg::shallow_hash::{table_of, HashError};
use crate::agg::signature::SignatureType;
use crate::ast::class::{
    class_implementation, class_interface, field_dep_list, field_implementations, field_interfaces,
    ClassDefinition, TopClassDefinition,
};
use crate::ast::client::{client_interface, enc_client_spec, ClientModel, ClientSpecModel};
use crate::ast::enums::{enum_interface, EnumDefinition, TopEnumDefinition};
use crate::ast::function::{function_interface, params_interface, FunctionDefinition, FunctionModel, TopFunctionDefinition};
use crate::ast::retry_policy::{enc_strategy, retry_interface, RetryModel};
use crate::ast::type_alias::{alias_implementation, alias_interface, AliasModel};
use crate::ast_node_id::HashPart;
use crate::decoding::{
    all_fit, fits, interface_form, lemma_field_interfaces_injective, lemma_params_prefix, lemma_sort_fits,
    lemma_bool_prefix, lemma_str_prefix, lemma_tag, lemma_type_prefix, lemma_typed_prefix, lemma_u64_prefix,
    lemma_own_rendering_prefix, lemma_strategy_prefix, param_forms, params_fit, render_form, typed_form,
    typed_forms,
};
use crate::decoding::values::{entries_fit, lemma_entry_list_prefix, lemma_opt_string_or_prefix};
use crate::values::{enc_entries, enc_entry_list};
use crate::encode::{enc_bool, enc_str, enc_u64};
use crate::graph::{
    closed_from, lemma_reach_within, lemma_search_stops_once, lemma_reaches_trans, lemma_sorted_names_exist, reach_set, reaches,
};
use crate::interfaces::{
    effective_alias, enc_opt_string_or, renderable_implementation, typed_implementation, typed_interface, RenderModel,
    ShallowSignature,
    TypedModel,
};
use crate::order::{name_lt, string_views};
use crate::sorting::{distinct_names, insert_typed, lemma_sort_permutation, sort_typed, typed_models};
use crate::type_rpc::{dep_list, enc_type, type_deps};
use crate::types::{ir_model, lemma_conversion_strips_checks, rpc_model_of_ir, strip_checks, TypeIR};
use crate::agg::{class_entry, type_alias_entry};
use crate::interfaces::opt_string_or_model;
use crate::ir::class::{adapts_class, ClassAdapter};
use crate::ir::repr::{Class, Field, Node};
use crate::ir::type_alias::TypeAliasAdapter;
use crate::sorting::{lemma_typed_models_len, render_models};
use crate::ast::class::lemma_render_models_len;

verus! {

/// The interface of a class does not depend on the order in which its
/// fields are declared, no two fields sharing a name.
pub proof fn class_interface_ignores_field_order(c: TypedModel, a: Seq<TypedModel>, b: Seq<TypedModel>)
    requires
        distinct_names(a),
        a.to_multiset() == b.to_multiset(),
    ensures
        class_interface(c, a) == class_interface(c, b),
{
    lemma_sort_permutation(a, b);
}

/// The interface of an enum does not depend on the order in which its
/// values are declared, no two values sharing a name.
pub proof fn enum_interface_ignores_value_order(e: TypedModel, a: Seq<TypedModel>, b: Seq<TypedModel>)
    requires
        distinct_names(a),
        a.to_multiset() == b.to_multiset(),
    ensures
        enum_interface(e, a) == enum_interface(e, b),
{
    lemma_sort_permutation(a, b);
}

proof fn lemma_field_deps_contains(s: Seq<TypedModel>, x: Seq<char>)
    ensures
        field_dep_list(s).contains(x) <==> exists|i: int| 0 <= i < s.len() && #[trigger] dep_list(s[i].ty).contains(x),
    decreases s.len(),
{
    if s.len() > 0 {
        let init = s.drop_last();
        lemma_field_deps_contains(init, x);
        let l = field_dep_list(init);
        let d = dep_list(s.last().ty);
        assert(field_dep_list(s) == l + d);
        if field_dep_list(s).contains(x) {
            let k = choose|k: int| 0 <= k < (l + d).len() && (l + d)[k] == x;
            if k < l.len() {
                assert(l.contains(x));
                let i = choose|i: int| 0 <= i < init.len() && #[trigger] dep_list(init[i].ty).contains(x);
                assert(s[i] == init[i]);
            } else {
                assert(d[k - l.len()] == x);
                assert(dep_list(s[s.len() - 1].ty).contains(x));
            }
        }
        if exists|i: int| 0 <= i < s.len() && #[trigger] dep_list(s[i].ty).contains(x) {
            let i = choose|i: int| 0 <= i < s.len() && #[trigger] dep_list(s[i].ty).contains(x);
            if i < s.len() - 1 {
                assert(init[i] == s[i]);
                assert(l.contains(x));
                let k = choose|k: int| 0 <= k < l.len() && l[k] == x;
                assert((l + d)[k] == x);
            } else {
                let k = choose|k: int| 0 <= k < d.len() && d[k] == x;
                assert((l + d)[l.len() + k] == x);
            }
        }
    }
}

/// The names the fields' types refer to, as a set, do not depend on the
/// order of the fields.
proof fn lemma_field_deps_permutation(a: Seq<TypedModel>, b: Seq<TypedModel>)
    requires
        a.to_multiset() == b.to_multiset(),
    ensures
        field_dep_list(a).to_set() == field_dep_list(b).to_set(),
{
    broadcast use vstd::seq_lib::group_to_multiset_ensures;
    assert forall|x: Seq<char>| field_dep_list(a).to_set().contains(x) implies field_dep_list(b).to_set().contains(x) by {
        lemma_field_deps_contains(a, x);
        lemma_field_deps_contains(b, x);
        let i = choose|i: int| 0 <= i < a.len() && #[trigger] dep_list(a[i].ty).contains(x);
        assert(a.contains(a[i]));
        vstd::seq_lib::to_multiset_contains(a, a[i]);
        vstd::seq_lib::to_multiset_contains(b, a[i]);
        assert(b.contains(a[i]));
        let j = choose|j: int| 0 <= j < b.len() && b[j] == a[i];
        assert(dep_list(b[j].ty).contains(x));
    }
    assert forall|x: Seq<char>| field_dep_list(b).to_set().contains(x) implies field_dep_list(a).to_set().contains(x) by {
        lemma_field_deps_contains(a, x);
        lemma_field_deps_contains(b, x);
        let i = choose|i: int| 0 <= i < b.len() && #[trigger] dep_list(b[i].ty).contains(x);
        assert(b.contains(b[i]));
        vstd::seq_lib::to_multiset_contains(a, b[i]);
        vstd::seq_lib::to_multiset_contains(b, b[i]);
        assert(a.contains(b[i]));
        let j = choose|j: int| 0 <= j < a.len() && a[j] == b[i];
        assert(dep_list(a[j].ty).contains(x));
    }
    assert(field_dep_list(a).to_set() =~= field_dep_list(b).to_set());
}

/// A class's shallow interface digest and its dependencies do not depend
/// on the order in which its fields are declared, no two sharing a name.
pub proof fn class_shallow_interface_ignores_field_order<'a, 'b, C1: ClassDefinition, C2: ClassDefinition>(
    c1: &'a C1,
    c2: &'b C2,
)
    requires
        c1.typed_model() == c2.typed_model(),
        distinct_names(typed_models(c1.field_refs())),
        typed_models(c1.field_refs()).to_multiset() == typed_models(c2.field_refs()).to_multiset(),
    ensures
        signature_model(TopClassDefinition(c1)).iface == signature_model(TopClassDefinition(c2)).iface,
        signature_model(TopClassDefinition(c1)).iface_deps == signature_model(TopClassDefinition(c2)).iface_deps,
        signature_model(TopClassDefinition(c1)).impl_deps == signature_model(TopClassDefinition(c2)).impl_deps,
{
    let a = typed_models(c1.field_refs());
    let b = typed_models(c2.field_refs());
    class_interface_ignores_field_order(c1.typed_model(), a, b);
    lemma_field_deps_permutation(a, b);
}

/// An enum's shallow interface digest does not depend on the order in which
/// its values are declared, no two sharing a name.
pub proof fn enum_shallow_interface_ignores_value_order<'a, 'b, E1: EnumDefinition, E2: EnumDefinition>(
    e1: &'a E1,
    e2: &'b E2,
)
    requires
        e1.typed_model() == e2.typed_model(),
        distinct_names(typed_models(e1.value_refs())),
        typed_models(e1.value_refs()).to_multiset() == typed_models(e2.value_refs()).to_multiset(),
    ensures
        signature_model(TopEnumDefinition(e1)).iface == signature_model(TopEnumDefinition(e2)).iface,
        signature_model(TopEnumDefinition(e1)).iface_deps == signature_model(TopEnumDefinition(e2)).iface_deps,
{
    enum_interface_ignores_value_order(e1.typed_model(), typed_models(e1.value_refs()), typed_models(e2.value_refs()));
}

/// Aliases, descriptions and skip flags of a class and of its fields reach
/// only its implementation: classes that agree on the names, types and
/// sources of themselves and their fields, in order, have the same interface
/// digest and the same dependencies.
pub proof fn class_rendering_only_affects_implementation<'a, 'b, C1: ClassDefinition, C2: ClassDefinition>(
    c1: &'a C1,
    c2: &'b C2,
)
    requires
        c1.typed_model() == c2.typed_model(),
        typed_models(c1.field_refs()) == typed_models(c2.field_refs()),
    ensures
        signature_model(TopClassDefinition(c1)).iface == signature_model(TopClassDefinition(c2)).iface,
        signature_model(TopClassDefinition(c1)).iface_deps == signature_model(TopClassDefinition(c2)).iface_deps,
        signature_model(TopClassDefinition(c1)).impl_deps == signature_model(TopClassDefinition(c2)).impl_deps,
{
}

/// Aliases, descriptions and skip flags of an enum and of its values reach
/// only its implementation.
pub proof fn enum_rendering_only_affects_implementation<'a, 'b, E1: EnumDefinition, E2: EnumDefinition>(
    e1: &'a E1,
    e2: &'b E2,
)
    requires
        e1.typed_model() == e2.typed_model(),
        typed_models(e1.value_refs()) == typed_models(e2.value_refs()),
    ensures
        signature_model(TopEnumDefinition(e1)).iface == signature_model(TopEnumDefinition(e2)).iface,
        signature_model(TopEnumDefinition(e1)).iface_deps == signature_model(TopEnumDefinition(e2)).iface_deps,
{
}

/// The prompt and the client of a function reach only its implementation:
/// functions that agree on name, parameters and return type have the same
/// interface digest and the same interface dependencies.
pub proof fn function_prompt_and_client_only_affect_implementation<'a, 'b, F1: FunctionDefinition, F2: FunctionDefinition>(
    f1: &'a F1,
    f2: &'b F2,
)
    requires
        f1.function_model().name == f2.function_model().name,
        f1.function_model().params == f2.function_model().params,
        f1.function_model().ret == f2.function_model().ret,
    ensures
        signature_model(TopFunctionDefinition(f1)).iface == signature_model(TopFunctionDefinition(f2)).iface,
        signature_model(TopFunctionDefinition(f1)).iface_deps == signature_model(TopFunctionDefinition(f2)).iface_deps,
{
}

/// Two types of the intermediate representation that differ only in their
/// `@check` constraints, at any depth, convert to the same type, and so
/// encode, hash and depend alike.
pub proof fn conversion_ignores_checks(t1: TypeIR, t2: TypeIR)
    requires
        strip_checks(ir_model(t1)) == strip_checks(ir_model(t2)),
    ensures
        rpc_model_of_ir(t1) == rpc_model_of_ir(t2),
        enc_type(rpc_model_of_ir(t1)) == enc_type(rpc_model_of_ir(t2)),
        type_deps(rpc_model_of_ir(t1)) == type_deps(rpc_model_of_ir(t2)),
{
    lemma_conversion_strips_checks(t1);
    lemma_conversion_strips_checks(t2);
}

/// Two fields the same but for `@check` constraints in their types.
pub open spec fn field_same_but_checks(f1: Node<Field>, f2: Node<Field>) -> bool {
    &&& f1.elem.name@ == f2.elem.name@
    &&& strip_checks(ir_model(f1.elem.field_type)) == strip_checks(ir_model(f2.elem.field_type))
    &&& opt_string_or_model(f1.attributes.alias) == opt_string_or_model(f2.attributes.alias)
    &&& opt_string_or_model(f1.attributes.description) == opt_string_or_model(f2.attributes.description)
    &&& f1.attributes.skip == f2.attributes.skip
}

/// Two classes the same but for `@check` constraints in their fields' types.
pub open spec fn class_same_but_checks(n1: Node<Class>, n2: Node<Class>) -> bool {
    &&& n1.elem.name@ == n2.elem.name@
    &&& n1.attributes.dynamic == n2.attributes.dynamic
    &&& opt_string_or_model(n1.attributes.alias) == opt_string_or_model(n2.attributes.alias)
    &&& opt_string_or_model(n1.attributes.description) == opt_string_or_model(n2.attributes.description)
    &&& n1.attributes.skip == n2.attributes.skip
    &&& n1.elem.static_fields@.len() == n2.elem.static_fields@.len()
    &&& forall|i: int| 0 <= i < n1.elem.static_fields@.len()
        ==> field_same_but_checks(#[trigger] n1.elem.static_fields@[i], n2.elem.static_fields@[i])
}

/// `@check` constraints reach neither the hashes nor the dependencies of a
/// class: adapted classes that differ only in them have the same name and
/// shallow hash.
pub proof fn class_hashes_ignore_checks(n1: Node<Class>, n2: Node<Class>, c1: &ClassAdapter, c2: &ClassAdapter)
    requires
        adapts_class(*c1, n1),
        adapts_class(*c2, n2),
        class_same_but_checks(n1, n2),
    ensures
        class_entry(c1) == class_entry(c2),
{
    let r1 = c1.field_refs();
    let r2 = c2.field_refs();
    lemma_typed_models_len(r1);
    lemma_typed_models_len(r2);
    lemma_render_models_len(r1);
    lemma_render_models_len(r2);
    assert forall|i: int| 0 <= i < r1.len() implies #[trigger] typed_models(r1)[i] == typed_models(r2)[i]
        && render_models(r1)[i] == render_models(r2)[i] by {
        assert(r1[i] == &c1.converted_fields@[i]);
        assert(r2[i] == &c2.converted_fields@[i]);
        assert(field_same_but_checks(n1.elem.static_fields@[i], n2.elem.static_fields@[i]));
        conversion_ignores_checks(n1.elem.static_fields@[i].elem.field_type, n2.elem.static_fields@[i].elem.field_type);
    }
    assert(typed_models(r1) =~= typed_models(r2));
    assert(render_models(r1) =~= render_models(r2));
}

/// `@check` constraints reach neither the hashes nor the dependencies of a
/// type alias: adapted aliases of the same name whose types differ only in
/// them have the same name and shallow hash.
pub proof fn alias_hashes_ignore_checks(t1: TypeIR, t2: TypeIR, a1: &TypeAliasAdapter, a2: &TypeAliasAdapter)
    requires
        a1.name@ == a2.name@,
        a1.converted_type@ == rpc_model_of_ir(t1),
        a2.converted_type@ == rpc_model_of_ir(t2),
        strip_checks(ir_model(t1)) == strip_checks(ir_model(t2)),
    ensures
        type_alias_entry(a1) == type_alias_entry(a2),
{
    conversion_ignores_checks(t1, t2);
}

proof fn lemma_dep_hash_list_agree(
    t1: Map<Seq<char>, ShallowModel>,
    t2: Map<Seq<char>, ShallowModel>,
    deps: Seq<Seq<char>>,
    kind: DepKind,
)
    requires
        forall|i: int| 0 <= i < deps.len() ==> own_hash(t1[#[trigger] deps[i]], kind) == own_hash(t2[deps[i]], kind),
    ensures
        dep_hash_list(t1, deps, kind) == dep_hash_list(t2, deps, kind),
    decreases deps.len(),
{
    if deps.len() > 0 {
        let d0 = deps.drop_last();
        assert forall|i: int| 0 <= i < d0.len() implies own_hash(t1[#[trigger] d0[i]], kind) == own_hash(t2[d0[i]], kind) by {
            assert(d0[i] == deps[i]);
        }
        lemma_dep_hash_list_agree(t1, t2, d0, kind);
        assert(own_hash(t1[deps[deps.len() - 1]], kind) == own_hash(t2[deps[deps.len() - 1]], kind));
    }
}

/// Two tables that agree on which names have entries, and on the digest
/// and dependencies of each of the given kind, give every name whose
/// dependencies all have entries the same dependencies and the same full
/// hash of that kind.  So a change that reaches only implementations leaves
/// every interface hash as it was.
pub proof fn full_hash_depends_on_own_kind_only(
    t1: Map<Seq<char>, ShallowModel>,
    t2: Map<Seq<char>, ShallowModel>,
    name: Seq<char>,
    kind: DepKind,
)
    requires
        t1.dom().finite(),
        t1.dom() == t2.dom(),
        forall|n: Seq<char>| #[trigger] t1.dom().contains(n) ==> own_hash(t1[n], kind) == own_hash(t2[n], kind)
            && crate::agg::shallow_hash::deps_of(t1[n], kind) == crate::agg::shallow_hash::deps_of(t2[n], kind),
        closed_from(dep_graph(t1, kind), name),
    ensures
        closed_from(dep_graph(t2, kind), name),
        all_deps(t1, name, kind) == all_deps(t2, name, kind),
        full_hash(t1, name, kind) == full_hash(t2, name, kind),
{
    let g1 = dep_graph(t1, kind);
    let g2 = dep_graph(t2, kind);
    assert(g1 =~= g2);
    lemma_reach_within(g1, name);
    let reach = reach_set(g1, name);
    vstd::set_lib::lemma_set_subset_finite(t1.dom(), reach);
    lemma_sorted_names_exist(reach);
    let deps = all_deps(t1, name, kind);
    assert forall|i: int| 0 <= i < deps.len() implies own_hash(t1[#[trigger] deps[i]], kind) == own_hash(t2[deps[i]], kind) by {
        assert(deps.to_set().contains(deps[i]));
        assert(reach.contains(deps[i]));
    }
    lemma_dep_hash_list_agree(t1, t2, deps, kind);
    assert(full_hash_bytes(t1, name, kind) == full_hash_bytes(t2, name, kind));
}

/// Whatever a dependency depends on is a dependency too.
pub proof fn dependencies_are_transitive(
    t: Map<Seq<char>, ShallowModel>,
    a: Seq<char>,
    b: Seq<char>,
    c: Seq<char>,
    kind: DepKind,
)
    requires
        t.dom().finite(),
        closed_from(dep_graph(t, kind), a),
        all_deps(t, a, kind).contains(b),
        all_deps(t, b, kind).contains(c),
    ensures
        closed_from(dep_graph(t, kind), b),
        all_deps(t, a, kind).contains(c),
{
    let g = dep_graph(t, kind);
    lemma_reach_within(g, a);
    vstd::set_lib::lemma_set_subset_finite(t.dom(), reach_set(g, a));
    lemma_sorted_names_exist(reach_set(g, a));
    assert(all_deps(t, a, kind).to_set().contains(b));
    assert(reaches(g, a, b));
    assert forall|x: Seq<char>| reaches(g, b, x) implies g.dom().contains(x) by {
        lemma_reaches_trans(g, a, b, x);
    }
    assert(g.dom().contains(b));
    lemma_reach_within(g, b);
    vstd::set_lib::lemma_set_subset_finite(t.dom(), reach_set(g, b));
    lemma_sorted_names_exist(reach_set(g, b));
    assert(all_deps(t, b, kind).to_set().contains(c));
    assert(reaches(g, b, c));
    lemma_reaches_trans(g, a, b, c);
    assert(all_deps(t, a, kind).to_set().contains(c));
}

/// A definition is among its own dependencies exactly when it lies on a
/// cycle of dependencies.
pub proof fn self_dependency_iff_cycle(t: Map<Seq<char>, ShallowModel>, a: Seq<char>, kind: DepKind)
    requires
        t.dom().finite(),
        closed_from(dep_graph(t, kind), a),
    ensures
        all_deps(t, a, kind).contains(a) <==> reaches(dep_graph(t, kind), a, a),
{
    let g = dep_graph(t, kind);
    lemma_reach_within(g, a);
    vstd::set_lib::lemma_set_subset_finite(t.dom(), reach_set(g, a));
    lemma_sorted_names_exist(reach_set(g, a));
    assert(all_deps(t, a, kind).to_set().contains(a) <==> all_deps(t, a, kind).contains(a));
}

/// A signature is determined by the definition's kind and name and the
/// table it is made against: two such signatures agree in every field.
pub proof fn signatures_are_deterministic(
    s1: crate::agg::signature::Signature,
    s2: crate::agg::signature::Signature,
    ty: SignatureType,
    name: Seq<char>,
    t: Map<Seq<char>, ShallowModel>,
)
    requires
        signature_matches(s1, ty, name, t),
        signature_matches(s2, ty, name, t),
    ensures
        s1.signature_type == s2.signature_type,
        s1.display_name@ == s2.display_name@,
        s1.hashes == s2.hashes,
        string_views(s1.dependencies@) == string_views(s2.dependencies@),
{
    HashPart::lemma_view_injective(s1.hashes->CompileTimeOnly_0, s2.hashes->CompileTimeOnly_0);
}

/// A class's interface holds its name, source and type and the name, source
/// and type of each field in name order, each type all but its own
/// streaming mode and the levels of its own constraints: two classes that
/// differ in any of these hash different bytes, so their interface hashes
/// differ unless the digest collides.
pub proof fn class_interface_determines_form(
    c1: TypedModel,
    fs1: Seq<TypedModel>,
    c2: TypedModel,
    fs2: Seq<TypedModel>,
)
    requires
        fits(c1.ty),
        fits(c2.ty),
        all_fit(fs1),
        all_fit(fs2),
        class_interface(c1, fs1) == class_interface(c2, fs2),
    ensures
        typed_form(c1) == typed_form(c2),
        typed_forms(sort_typed(fs1)) == typed_forms(sort_typed(fs2)),
{
    lemma_sort_fits(fs1);
    lemma_sort_fits(fs2);
    lemma_typed_prefix(c1, c2, field_interfaces(sort_typed(fs1)), field_interfaces(sort_typed(fs2)));
    lemma_field_interfaces_injective(sort_typed(fs1), sort_typed(fs2));
}

/// An enum's interface holds its name, source and type and the name and
/// source of each value in name order: two enums that differ in any of these
/// hash different bytes.
pub proof fn enum_interface_determines_form(
    e1: TypedModel,
    vs1: Seq<TypedModel>,
    e2: TypedModel,
    vs2: Seq<TypedModel>,
)
    requires
        fits(e1.ty),
        fits(e2.ty),
        all_fit(vs1),
        all_fit(vs2),
        enum_interface(e1, vs1) == enum_interface(e2, vs2),
    ensures
        typed_form(e1) == typed_form(e2),
        typed_forms(sort_typed(vs1)) == typed_forms(sort_typed(vs2)),
{
    lemma_sort_fits(vs1);
    lemma_sort_fits(vs2);
    lemma_typed_prefix(e1, e2, field_interfaces(sort_typed(vs1)), field_interfaces(sort_typed(vs2)));
    lemma_field_interfaces_injective(sort_typed(vs1), sort_typed(vs2));
}

/// A type alias's interface holds its name and its target type, all but the
/// type's own streaming mode and the levels of its own constraints.
pub proof fn alias_interface_determines_form(a: AliasModel, b: AliasModel)
    requires
        fits(a.ty),
        fits(b.ty),
        alias_interface(a) == alias_interface(b),
    ensures
        a.name == b.name,
        interface_form(a.ty) == interface_form(b.ty),
{
    lemma_str_prefix(a.name, b.name, enc_type(a.ty), enc_type(b.ty));
    assert(enc_type(a.ty) + Seq::<u8>::empty() =~= enc_type(a.ty));
    assert(enc_type(b.ty) + Seq::<u8>::empty() =~= enc_type(b.ty));
    lemma_type_prefix(a.ty, b.ty, false, Seq::empty(), Seq::empty());
}

/// A function's interface holds its name, each parameter's name and type in
/// declaration order, and its return type, each type all but its own
/// streaming mode and the levels of its own constraints.
pub proof fn function_interface_determines_form(f: FunctionModel, g: FunctionModel)
    requires
        f.params.len() <= u64::MAX,
        g.params.len() <= u64::MAX,
        params_fit(f.params),
        params_fit(g.params),
        fits(f.ret),
        fits(g.ret),
        function_interface(f) == function_interface(g),
    ensures
        f.name == g.name,
        param_forms(f.params) == param_forms(g.params),
        interface_form(f.ret) == interface_form(g.ret),
{
    let tail_f = seq![2u8] + enc_type(f.ret);
    let tail_g = seq![2u8] + enc_type(g.ret);
    let p_f = params_interface(f.params) + tail_f;
    let p_g = params_interface(g.params) + tail_g;
    let l_f = enc_u64(f.params.len() as u64) + p_f;
    let l_g = enc_u64(g.params.len() as u64) + p_g;
    assert(function_interface(f) =~= enc_str(f.name) + (seq![1u8] + l_f));
    assert(function_interface(g) =~= enc_str(g.name) + (seq![1u8] + l_g));
    lemma_str_prefix(f.name, g.name, seq![1u8] + l_f, seq![1u8] + l_g);
    lemma_tag(1u8, 1u8, l_f, l_g);
    lemma_u64_prefix(f.params.len() as u64, g.params.len() as u64, p_f, p_g);
    lemma_params_prefix(f.params, g.params, tail_f, tail_g);
    lemma_tag(2u8, 2u8, enc_type(f.ret), enc_type(g.ret));
    assert(enc_type(f.ret) + Seq::<u8>::empty() =~= enc_type(f.ret));
    assert(enc_type(g.ret) + Seq::<u8>::empty() =~= enc_type(g.ret));
    lemma_type_prefix(f.ret, g.ret, false, Seq::empty(), Seq::empty());
}

/// A client's interface holds its name and what it is made from: a named
/// client, or a provider and a model.
pub proof fn client_interface_determines_form(a: ClientModel, b: ClientModel)
    requires
        client_interface(a) == client_interface(b),
    ensures
        a.name == b.name,
        a.spec == b.spec,
{
    lemma_str_prefix(a.name, b.name, enc_client_spec(a.spec), enc_client_spec(b.spec));
    let e = Seq::<u8>::empty();
    match (a.spec, b.spec) {
        (ClientSpecModel::Named(n1), ClientSpecModel::Named(n2)) => {
            assert(enc_client_spec(a.spec) =~= seq![0u8] + (enc_str(n1) + e));
            assert(enc_client_spec(b.spec) =~= seq![0u8] + (enc_str(n2) + e));
            lemma_tag(0u8, 0u8, enc_str(n1) + e, enc_str(n2) + e);
            lemma_str_prefix(n1, n2, e, e);
        },
        (ClientSpecModel::Shorthand(p1, m1), ClientSpecModel::Shorthand(p2, m2)) => {
            assert(enc_client_spec(a.spec) =~= seq![1u8] + (enc_str(p1) + (enc_str(m1) + e)));
            assert(enc_client_spec(b.spec) =~= seq![1u8] + (enc_str(p2) + (enc_str(m2) + e)));
            lemma_tag(1u8, 1u8, enc_str(p1) + (enc_str(m1) + e), enc_str(p2) + (enc_str(m2) + e));
            lemma_str_prefix(p1, p2, enc_str(m1) + e, enc_str(m2) + e);
            lemma_str_prefix(m1, m2, e, e);
        },
        (ClientSpecModel::Named(n1), ClientSpecModel::Shorthand(p2, m2)) => {
            assert(enc_client_spec(a.spec) =~= seq![0u8] + enc_str(n1));
            assert(enc_client_spec(b.spec) =~= seq![1u8] + (enc_str(p2) + enc_str(m2)));
            lemma_tag(0u8, 1u8, enc_str(n1), enc_str(p2) + enc_str(m2));
        },
        (ClientSpecModel::Shorthand(p1, m1), ClientSpecModel::Named(n2)) => {
            assert(enc_client_spec(a.spec) =~= seq![1u8] + (enc_str(p1) + enc_str(m1)));
            assert(enc_client_spec(b.spec) =~= seq![0u8] + enc_str(n2));
            lemma_tag(1u8, 0u8, enc_str(p1) + enc_str(m1), enc_str(n2));
        },
    }
}

/// A retry policy's interface holds all of it: its name, its number of
/// retries, its strategy with its delays and multiplier, and its options as
/// written, in order.
pub proof fn retry_interface_determines_policy(a: RetryModel, b: RetryModel)
    requires
        a.options.len() <= u64::MAX,
        b.options.len() <= u64::MAX,
        entries_fit(a.options),
        entries_fit(b.options),
        retry_interface(a) == retry_interface(b),
    ensures
        a == b,
{
    let o1 = enc_entries(a.options);
    let o2 = enc_entries(b.options);
    let s1 = enc_strategy(a.strategy) + o1;
    let s2 = enc_strategy(b.strategy) + o2;
    assert(retry_interface(a) =~= enc_str(a.name) + (enc_u64(a.max_retries as u64) + s1));
    assert(retry_interface(b) =~= enc_str(b.name) + (enc_u64(b.max_retries as u64) + s2));
    lemma_str_prefix(a.name, b.name, enc_u64(a.max_retries as u64) + s1, enc_u64(b.max_retries as u64) + s2);
    lemma_u64_prefix(a.max_retries as u64, b.max_retries as u64, s1, s2);
    lemma_strategy_prefix(a.strategy, b.strategy, o1, o2);
    let e = Seq::<u8>::empty();
    lemma_u64_prefix(a.options.len() as u64, b.options.len() as u64, enc_entry_list(a.options), enc_entry_list(b.options));
    assert(enc_entry_list(a.options) + e =~= enc_entry_list(a.options));
    assert(enc_entry_list(b.options) + e =~= enc_entry_list(b.options));
    lemma_entry_list_prefix(a.options, b.options, e, e);
}

/// A definition whose signature fails to be made cannot be signed.
proof fn lemma_error_not_ok(t: Map<Seq<char>, ShallowModel>, name: Seq<char>, n: Seq<char>)
    requires
        signature_error(t, name, n),
    ensures
        !signature_ok(t, name),
{
}

/// Signing a program twice gives the same outcome: both succeed, with the
/// same kinds, names, hashes and dependencies in the same order, or both
/// fail on the same missing name.
pub proof fn signing_is_deterministic<S: CanMakeSignature>(
    s: S,
    r1: Result<Vec<Signature>, HashError>,
    r2: Result<Vec<Signature>, HashError>,
)
    requires
        signed(s, r1),
        signed(s, r2),
    ensures
        r1 is Ok <==> r2 is Ok,
        match (r1, r2) {
            (Ok(v1), Ok(v2)) => v1@.len() == v2@.len() && forall|i: int| 0 <= i < v1@.len() ==> {
                &&& (#[trigger] v1@[i]).signature_type == v2@[i].signature_type
                &&& v1@[i].display_name@ == v2@[i].display_name@
                &&& v1@[i].hashes == v2@[i].hashes
                &&& string_views(v1@[i].dependencies@) == string_views(v2@[i].dependencies@)
            },
            (Err(HashError::DependencyNotFound(n1)), Err(HashError::DependencyNotFound(n2))) => n1@ == n2@,
            _ => true,
        },
{
    let names = program_names(s);
    let t = table_of(program_entries(s));
    match (r1, r2) {
        (Ok(v1), Ok(v2)) => {
            assert forall|i: int| 0 <= i < v1@.len() implies {
                &&& (#[trigger] v1@[i]).signature_type == v2@[i].signature_type
                &&& v1@[i].display_name@ == v2@[i].display_name@
                &&& v1@[i].hashes == v2@[i].hashes
                &&& string_views(v1@[i].dependencies@) == string_views(v2@[i].dependencies@)
            } by {
                signatures_are_deterministic(v1@[i], v2@[i], names[i].0, names[i].1, t);
            }
        },
        (Err(HashError::DependencyNotFound(n1)), Err(HashError::DependencyNotFound(n2))) => {
            let i1 = choose|i: int|
                0 <= i < names.len() && (forall|k: int| 0 <= k < i ==> signature_ok(t, #[trigger] names[k].1))
                    && signature_error(t, #[trigger] names[i].1, n1@);
            let i2 = choose|i: int|
                0 <= i < names.len() && (forall|k: int| 0 <= k < i ==> signature_ok(t, #[trigger] names[k].1))
                    && signature_error(t, #[trigger] names[i].1, n2@);
            lemma_error_not_ok(t, names[i1].1, n1@);
            lemma_error_not_ok(t, names[i2].1, n2@);
            if i1 < i2 {
                assert(signature_ok(t, names[i1].1));
            }
            if i2 < i1 {
                assert(signature_ok(t, names[i2].1));
            }
            assert(i1 == i2);
            let name = names[i1].1;
            let kind = if closed_from(dep_graph(t, DepKind::Implementation), name) {
                DepKind::Interface
            } else {
                DepKind::Implementation
            };
            lemma_search_stops_once(dep_graph(t, kind), name, n1@, n2@);
        },
        _ => {},
    }
}

/// Signing the adapters of one program, made twice, gives the same outcome:
/// both succeed, with the same kinds, names, hashes and dependencies in the
/// same order, or both fail on the same missing name.
pub proof fn signing_a_program_is_deterministic<'ir>(
    ir: &'ir IntermediateRepr,
    a1: IRSignatureAdapters<'ir>,
    a2: IRSignatureAdapters<'ir>,
    r1: Result<Vec<Signature>, HashError>,
    r2: Result<Vec<Signature>, HashError>,
)
    requires
        adapts_program(a1, ir),
        adapts_program(a2, ir),
        signed(a1, r1),
        signed(a2, r2),
    ensures
        r1 is Ok <==> r2 is Ok,
        match (r1, r2) {
            (Ok(v1), Ok(v2)) => v1@.len() == v2@.len() && forall|i: int| 0 <= i < v1@.len() ==> {
                &&& (#[trigger] v1@[i]).signature_type == v2@[i].signature_type
                &&& v1@[i].display_name@ == v2@[i].display_name@
                &&& v1@[i].hashes == v2@[i].hashes
                &&& string_views(v1@[i].dependencies@) == string_views(v2@[i].dependencies@)
            },
            (Err(HashError::DependencyNotFound(n1)), Err(HashError::DependencyNotFound(n2))) => n1@ == n2@,
            _ => true,
        },
{
    lemma_adapters_agree(ir, a1, a2);
    assert(signed(a1, r2));
    signing_is_deterministic(a1, r1, r2);
}

/// A class's implementation holds the class's own rendering: two classes
/// with the same implementation bytes agree on their name, type and source
/// and on their own effective alias, description and skip flag, so a change
/// of any of these changes the implementation hash unless the digest
/// collides.
pub proof fn class_implementation_determines_own_rendering<'a, 'b, C1: ClassDefinition, C2: ClassDefinition>(
    c1: &'a C1,
    c2: &'b C2,
)
    requires
        fits(c1.typed_model().ty),
        fits(c2.typed_model().ty),
        TopClassDefinition(c1).implementation_bytes() == TopClassDefinition(c2).implementation_bytes(),
    ensures
        typed_form(c1.typed_model()) == typed_form(c2.typed_model()),
        render_form(c1.typed_model().name, c1.render_model()) == render_form(c2.typed_model().name, c2.render_model()),
{
    let f1 = field_implementations(typed_models(c1.field_refs()), crate::sorting::render_models(c1.field_refs()));
    let f2 = field_implementations(typed_models(c2.field_refs()), crate::sorting::render_models(c2.field_refs()));
    lemma_own_rendering_prefix(c1.typed_model(), c1.render_model(), c2.typed_model(), c2.render_model(), f1, f2);
}

/// An enum's implementation holds the enum's own rendering: two enums with
/// the same implementation bytes agree on their name, type and source and on
/// their own effective alias, description and skip flag.
pub proof fn enum_implementation_determines_own_rendering<'a, 'b, E1: EnumDefinition, E2: EnumDefinition>(
    e1: &'a E1,
    e2: &'b E2,
)
    requires
        fits(e1.typed_model().ty),
        fits(e2.typed_model().ty),
        TopEnumDefinition(e1).implementation_bytes() == TopEnumDefinition(e2).implementation_bytes(),
    ensures
        typed_form(e1.typed_model()) == typed_form(e2.typed_model()),
        render_form(e1.typed_model().name, e1.render_model()) == render_form(e2.typed_model().name, e2.render_model()),
{
    let f1 = field_implementations(typed_models(e1.value_refs()), crate::sorting::render_models(e1.value_refs()));
    let f2 = field_implementations(typed_models(e2.value_refs()), crate::sorting::render_models(e2.value_refs()));
    lemma_own_rendering_prefix(e1.typed_model(), e1.render_model(), e2.typed_model(), e2.render_model(), f1, f2);
}

} // verus!
