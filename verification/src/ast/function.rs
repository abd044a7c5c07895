//! Functions.  The interface is the name, the parameters and the return
//! type; the implementation adds the client, the prompt, and repeats the
//! types.  The client's dependencies are implementation dependencies only.

use vstd::prelude::*;
use crate::ast::client::{client_spec_deps, client_spec_model, enc_client_spec, push_client_spec, ClientSpec, ClientSpecModel};
use crate::encode::{enc_str, enc_u64, push_str, push_u64};
use crate::interfaces::ShallowSignature;
use crate::order::{append_strings, string_views};
use crate::type_rpc::{dep_list, enc_type, push_type};
use crate::types::{TypeModel, TypeRPC};

verus! {

/// A prompt template.
#[derive(Clone, Debug)]
pub struct JinjaExpression(pub String);

/// Model of a function.
pub struct FunctionModel {
    pub name: Seq<char>,
    pub params: Seq<(Seq<char>, TypeModel)>,
    pub ret: TypeModel,
    pub client: ClientSpecModel,
    pub prompt: Seq<char>,
}

/// The models of parameters.
pub open spec fn param_models(v: Seq<(&str, &TypeRPC)>) -> Seq<(Seq<char>, TypeModel)> {
    Seq::new(v.len(), |i: int| (v[i].0@, v[i].1@))
}

/// A function.
pub trait FunctionDefinition {
    spec fn function_model(&self) -> FunctionModel;

    fn name(&self) -> (r: &str)
        ensures
            r@ == self.function_model().name,
    ;

    fn parameters(&self) -> (r: Vec<(&str, &TypeRPC)>)
        ensures
            param_models(r@) == self.function_model().params,
    ;

    fn return_type(&self) -> (r: &TypeRPC)
        ensures
            r@ == self.function_model().ret,
    ;

    fn prompt_config(&self) -> (r: (&ClientSpec, &JinjaExpression))
        ensures
            client_spec_model(*r.0) == self.function_model().client,
            r.1.0@ == self.function_model().prompt,
    ;
}

/// Parameters as the interface sees them: name and type of each.
pub open spec fn params_interface(ps: Seq<(Seq<char>, TypeModel)>) -> Seq<u8>
    decreases ps.len(),
{
    if ps.len() == 0 {
        Seq::empty()
    } else {
        params_interface(ps.drop_last()) + enc_str(ps.last().0) + enc_type(ps.last().1)
    }
}

/// Parameters as the implementation sees them: a marker, name and type of each.
pub open spec fn params_implementation(ps: Seq<(Seq<char>, TypeModel)>) -> Seq<u8>
    decreases ps.len(),
{
    if ps.len() == 0 {
        Seq::empty()
    } else {
        params_implementation(ps.drop_last()) + seq![3u8] + enc_str(ps.last().0) + enc_type(ps.last().1)
    }
}

/// The names the parameter types refer to, parameter by parameter.
pub open spec fn params_dep_list(ps: Seq<(Seq<char>, TypeModel)>) -> Seq<Seq<char>>
    decreases ps.len(),
{
    if ps.len() == 0 {
        Seq::empty()
    } else {
        params_dep_list(ps.drop_last()) + dep_list(ps.last().1)
    }
}

pub open spec fn function_interface(f: FunctionModel) -> Seq<u8> {
    enc_str(f.name) + seq![1u8] + enc_u64(f.params.len() as u64) + params_interface(f.params) + seq![2u8]
        + enc_type(f.ret)
}

pub open spec fn function_implementation(f: FunctionModel) -> Seq<u8> {
    function_interface(f) + enc_client_spec(f.client) + seq![4u8] + enc_str(f.prompt) + params_implementation(
        f.params,
    ) + seq![2u8] + enc_type(f.ret)
}

/// What the signature of a function refers to.
pub open spec fn function_interface_dep_list(f: FunctionModel) -> Seq<Seq<char>> {
    params_dep_list(f.params) + dep_list(f.ret)
}

/// What the signature and the client of a function refer to.
pub open spec fn function_implementation_dep_list(f: FunctionModel) -> Seq<Seq<char>> {
    function_interface_dep_list(f) + client_spec_deps(f.client)
}

/// A function as a top-level definition.
pub struct TopFunctionDefinition<'a, F: FunctionDefinition>(pub &'a F);

impl<'a, F: FunctionDefinition> TopFunctionDefinition<'a, F> {
    pub fn new(definition: &'a F) -> (r: Self)
        ensures
            r.0 == definition,
    {
        TopFunctionDefinition(definition)
    }

    fn push_params(&self, out: &mut Vec<u8>, ps: &Vec<(&str, &TypeRPC)>, marker: bool)
        requires
            param_models(ps@) == self.0.function_model().params,
        ensures
            marker ==> final(out)@ == old(out)@ + params_implementation(self.0.function_model().params),
            !marker ==> final(out)@ == old(out)@ + params_interface(self.0.function_model().params),
    {
        let ghost start = out@;
        let ghost ms = param_models(ps@);
        let mut i: usize = 0;
        while i < ps.len()
            invariant
                i <= ps@.len(),
                ms == param_models(ps@),
                marker ==> out@ == start + params_implementation(ms.take(i as int)),
                !marker ==> out@ == start + params_interface(ms.take(i as int)),
            decreases ps@.len() - i,
        {
            if marker {
                out.push(3u8);
            }
            push_str(out, ps[i].0);
            push_type(out, ps[i].1);
            proof {
                assert(ms.take(i + 1).drop_last() =~= ms.take(i as int));
                assert(ms.take(i + 1).last() == (ps@[i as int].0@, ps@[i as int].1@));
            }
            i = i + 1;
            assert(marker ==> out@ =~= start + params_implementation(ms.take(i as int)));
            assert(!marker ==> out@ =~= start + params_interface(ms.take(i as int)));
        }
        assert(ms.take(i as int) =~= ms);
    }
}

impl<'a, F: FunctionDefinition> ShallowSignature for TopFunctionDefinition<'a, F> {
    open spec fn interface_bytes(&self) -> Seq<u8> {
        function_interface(self.0.function_model())
    }

    open spec fn implementation_bytes(&self) -> Seq<u8> {
        function_implementation(self.0.function_model())
    }

    open spec fn interface_deps(&self) -> Set<Seq<char>> {
        function_interface_dep_list(self.0.function_model()).to_set()
    }

    open spec fn implementation_deps(&self) -> Set<Seq<char>> {
        function_implementation_dep_list(self.0.function_model()).to_set()
    }

    open spec fn prefix_word(&self) -> Seq<char> {
        "function"@
    }

    fn shallow_hash_prefix(&self) -> (r: &'static str) {
        "function"
    }

    fn shallow_interface_hash(&self) -> (r: Vec<u8>) {
        let mut out: Vec<u8> = Vec::new();
        push_str(&mut out, self.0.name());
        let params = self.0.parameters();
        out.push(1u8);
        push_u64(&mut out, params.len() as u64);
        self.push_params(&mut out, &params, false);
        out.push(2u8);
        push_type(&mut out, self.0.return_type());
        assert(out@ =~= function_interface(self.0.function_model()));
        out
    }

    fn unsorted_interface_dependencies(&self) -> (r: Vec<String>) {
        let params = self.0.parameters();
        let ghost ms = param_models(params@);
        let mut out: Vec<String> = Vec::new();
        let mut i: usize = 0;
        while i < params.len()
            invariant
                i <= params@.len(),
                ms == param_models(params@),
                string_views(out@) == params_dep_list(ms.take(i as int)),
            decreases params@.len() - i,
        {
            let deps = params[i].1.immediate_dependencies();
            append_strings(&mut out, &deps);
            proof {
                assert(ms.take(i + 1).drop_last() =~= ms.take(i as int));
                assert(ms.take(i + 1).last() == (params@[i as int].0@, params@[i as int].1@));
            }
            i = i + 1;
            assert(string_views(out@) =~= params_dep_list(ms.take(i as int)));
        }
        assert(ms.take(i as int) =~= ms);
        let ret = self.0.return_type().immediate_dependencies();
        append_strings(&mut out, &ret);
        assert(string_views(out@) =~= function_interface_dep_list(self.0.function_model()));
        out
    }

    fn shallow_implementation_hash(&self) -> (r: Vec<u8>) {
        let mut out = self.shallow_interface_hash();
        let (client, prompt) = self.0.prompt_config();
        push_client_spec(&mut out, client);
        out.push(4u8);
        push_str(&mut out, prompt.0.as_str());
        let params = self.0.parameters();
        self.push_params(&mut out, &params, true);
        out.push(2u8);
        push_type(&mut out, self.0.return_type());
        assert(out@ =~= function_implementation(self.0.function_model()));
        out
    }

    fn unsorted_implementation_dependencies(&self) -> (r: Vec<String>) {
        let mut deps = self.unsorted_interface_dependencies();
        let ghost before = string_views(deps@);
        let (client, _) = self.0.prompt_config();
        let client_deps = client.dependencies();
        append_strings(&mut deps, &client_deps);
        proof {
            lemma_concat_to_set(
                function_interface_dep_list(self.0.function_model()),
                client_spec_deps(self.0.function_model().client),
                before,
                string_views(client_deps@),
            );
        }
        deps
    }
}

/// Two lists with the same sets, concatenated, have the same set.
proof fn lemma_concat_to_set(a: Seq<Seq<char>>, b: Seq<Seq<char>>, a2: Seq<Seq<char>>, b2: Seq<Seq<char>>)
    requires
        a.to_set() == a2.to_set(),
        b == b2,
    ensures
        (a + b).to_set() == (a2 + b2).to_set(),
{
    assert forall|x| (a + b).to_set().contains(x) implies (a2 + b2).to_set().contains(x) by {
        let i = choose|i: int| 0 <= i < (a + b).len() && (a + b)[i] == x;
        if i < a.len() {
            assert(a.to_set().contains(x));
            let j = choose|j: int| 0 <= j < a2.len() && a2[j] == x;
            assert((a2 + b2)[j] == x);
        } else {
            assert((a2 + b2)[a2.len() + i - a.len()] == x);
        }
    }
    assert forall|x| (a2 + b2).to_set().contains(x) implies (a + b).to_set().contains(x) by {
        let i = choose|i: int| 0 <= i < (a2 + b2).len() && (a2 + b2)[i] == x;
        if i < a2.len() {
            assert(a2.to_set().contains(x));
            let j = choose|j: int| 0 <= j < a.len() && a[j] == x;
            assert((a + b)[j] == x);
        } else {
            assert((a + b)[a.len() + i - a2.len()] == x);
        }
    }
    assert((a + b).to_set() =~= (a2 + b2).to_set());
}

} // verus!
