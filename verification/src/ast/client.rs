//! LLM clients.  The interface is the name and which client the spec
//! selects; the implementation adds the retry policy and the options.

use vstd::prelude::*;
use crate::encode::{enc_str, push_str};
use crate::interfaces::ShallowSignature;
use crate::order::{push_string, string_views};
use crate::values::{enc_entries, entries_model, push_entries, UnresolvedValue, ValueModel};

verus! {

/// How a client is named: a client defined elsewhere, or a provider and a
/// model written inline.
#[derive(Clone, Debug)]
pub enum ClientSpec {
    Named(String),
    Shorthand(String, String),
}

/// Model of a `ClientSpec`.
pub enum ClientSpecModel {
    Named(Seq<char>),
    Shorthand(Seq<char>, Seq<char>),
}

pub open spec fn client_spec_model(s: ClientSpec) -> ClientSpecModel {
    match s {
        ClientSpec::Named(n) => ClientSpecModel::Named(n@),
        ClientSpec::Shorthand(p, m) => ClientSpecModel::Shorthand(p@, m@),
    }
}

/// A named client depends on the client of that name.
pub open spec fn client_spec_deps(s: ClientSpecModel) -> Seq<Seq<char>> {
    match s {
        ClientSpecModel::Named(n) => seq![n],
        ClientSpecModel::Shorthand(..) => Seq::empty(),
    }
}

pub open spec fn enc_client_spec(s: ClientSpecModel) -> Seq<u8> {
    match s {
        ClientSpecModel::Named(n) => seq![0u8] + enc_str(n),
        ClientSpecModel::Shorthand(p, m) => seq![1u8] + enc_str(p) + enc_str(m),
    }
}

impl ClientSpec {
    /// The definitions this spec refers to.
    pub fn dependencies(&self) -> (r: Vec<String>)
        ensures
            string_views(r@) == client_spec_deps(client_spec_model(*self)),
    {
        let mut out: Vec<String> = Vec::new();
        match self {
            ClientSpec::Named(n) => push_string(&mut out, n),
            ClientSpec::Shorthand(..) => {},
        }
        assert(string_views(out@) =~= client_spec_deps(client_spec_model(*self)));
        out
    }
}

/// Appends the encoding of a client spec.
pub fn push_client_spec(out: &mut Vec<u8>, s: &ClientSpec)
    ensures
        final(out)@ == old(out)@ + enc_client_spec(client_spec_model(*s)),
{
    let ghost start = out@;
    match s {
        ClientSpec::Named(n) => {
            out.push(0u8);
            push_str(out, n.as_str());
        },
        ClientSpec::Shorthand(p, m) => {
            out.push(1u8);
            push_str(out, p.as_str());
            push_str(out, m.as_str());
        },
    }
    assert(out@ =~= start + enc_client_spec(client_spec_model(*s)));
}

/// The options of a client, unresolved.
#[derive(Debug)]
pub struct UnresolvedClientProperty {
    pub properties: Vec<(String, UnresolvedValue)>,
}

pub open spec fn opt_str_model(o: Option<&str>) -> Option<Seq<char>> {
    match o {
        Some(s) => Some(s@),
        None => None,
    }
}

/// Model of a client.
pub struct ClientModel {
    pub name: Seq<char>,
    pub spec: ClientSpecModel,
    pub retry_policy: Option<Seq<char>>,
    pub options: Seq<(Seq<char>, ValueModel)>,
    pub deps: Seq<Seq<char>>,
}

/// A client.
pub trait ClientDefinition {
    spec fn client_model(&self) -> ClientModel;

    fn name(&self) -> (r: &str)
        ensures
            r@ == self.client_model().name,
    ;

    fn spec(&self) -> (r: &ClientSpec)
        ensures
            client_spec_model(*r) == self.client_model().spec,
    ;

    fn retry_policy(&self) -> (r: Option<&str>)
        ensures
            opt_str_model(r) == self.client_model().retry_policy,
    ;

    fn options(&self) -> (r: &UnresolvedClientProperty)
        ensures
            entries_model(r.properties@) == self.client_model().options,
    ;

    fn dependencies(&self) -> (r: Vec<String>)
        ensures
            string_views(r@) == self.client_model().deps,
    ;
}

pub open spec fn client_interface(c: ClientModel) -> Seq<u8> {
    enc_str(c.name) + enc_client_spec(c.spec)
}

pub open spec fn client_implementation(c: ClientModel) -> Seq<u8> {
    client_interface(c) + match c.retry_policy {
        Some(r) => seq![1u8] + enc_str(r),
        None => Seq::empty(),
    } + enc_entries(c.options)
}

/// What a client refers to: its own dependencies, then its retry policy.
pub open spec fn client_dep_list(c: ClientModel) -> Seq<Seq<char>> {
    c.deps + match c.retry_policy {
        Some(r) => seq![r],
        None => Seq::empty(),
    }
}

/// A client as a top-level definition.
pub struct TopClientDefinition<'a, C: ClientDefinition>(pub &'a C);

impl<'a, C: ClientDefinition> TopClientDefinition<'a, C> {
    pub fn new(definition: &'a C) -> (r: Self)
        ensures
            r.0 == definition,
    {
        TopClientDefinition(definition)
    }
}

impl<'a, C: ClientDefinition> ShallowSignature for TopClientDefinition<'a, C> {
    open spec fn interface_bytes(&self) -> Seq<u8> {
        client_interface(self.0.client_model())
    }

    open spec fn implementation_bytes(&self) -> Seq<u8> {
        client_implementation(self.0.client_model())
    }

    open spec fn interface_deps(&self) -> Set<Seq<char>> {
        client_dep_list(self.0.client_model()).to_set()
    }

    open spec fn implementation_deps(&self) -> Set<Seq<char>> {
        client_dep_list(self.0.client_model()).to_set()
    }

    open spec fn prefix_word(&self) -> Seq<char> {
        "client"@
    }

    fn shallow_hash_prefix(&self) -> (r: &'static str) {
        "client"
    }

    fn shallow_interface_hash(&self) -> (r: Vec<u8>) {
        let mut out: Vec<u8> = Vec::new();
        push_str(&mut out, self.0.name());
        push_client_spec(&mut out, self.0.spec());
        assert(out@ =~= client_interface(self.0.client_model()));
        out
    }

    fn unsorted_interface_dependencies(&self) -> (r: Vec<String>) {
        let mut deps = self.0.dependencies();
        match self.0.retry_policy() {
            Some(r) => {
                let ghost before = string_views(deps@);
                deps.push(r.to_owned());
                assert(string_views(deps@) =~= before.push(r@));
            },
            None => {},
        }
        assert(string_views(deps@) =~= client_dep_list(self.0.client_model()));
        deps
    }

    fn shallow_implementation_hash(&self) -> (r: Vec<u8>) {
        let mut out = self.shallow_interface_hash();
        let ghost head = out@;
        match self.0.retry_policy() {
            Some(r) => {
                out.push(1u8);
                push_str(&mut out, r);
            },
            None => {},
        }
        push_entries(&mut out, &self.0.options().properties);
        assert(out@ =~= client_implementation(self.0.client_model()));
        out
    }

    fn unsorted_implementation_dependencies(&self) -> (r: Vec<String>) {
        self.unsorted_interface_dependencies()
    }
}

} // verus!
