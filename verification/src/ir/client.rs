//! Clients of the intermediate representation as client definitions.

use vstd::prelude::*;
use crate::ast::client::{client_spec_model, ClientDefinition, ClientModel, ClientSpec, ClientSpecModel, UnresolvedClientProperty};
use crate::ir::repr::Client;
use crate::order::string_views;
use crate::types::{copy_string, option_string_model};
use crate::values::entries_model;

verus! {

/// A client, named by its provider with the model `default`, so that a
/// change of provider changes the hash.
pub struct ClientAdapter<'a> {
    pub client: &'a Client,
    pub client_spec: ClientSpec,
}

/// A client depends on its retry policy, if it names one.
pub open spec fn client_deps(c: Client) -> Seq<Seq<char>> {
    match c.retry_policy_id {
        Some(r) => seq![r@],
        None => Seq::empty(),
    }
}

/// Whether the adapter holds the client, named by its provider with the
/// model `default`.
pub open spec fn adapts_client<'a>(a: ClientAdapter<'a>, c: &'a Client) -> bool {
    &&& a.client == c
    &&& client_spec_model(a.client_spec) == ClientSpecModel::Shorthand(c.provider@, "default"@)
}

impl<'a> ClientAdapter<'a> {
    pub fn new(client: &'a Client) -> (r: Self)
        ensures
            r.client == client,
            client_spec_model(r.client_spec) == ClientSpecModel::Shorthand(client.provider@, "default"@),
    {
        let client_spec = ClientSpec::Shorthand(copy_string(&client.provider), "default".to_owned());
        ClientAdapter { client, client_spec }
    }
}

impl<'a> ClientDefinition for ClientAdapter<'a> {
    open spec fn client_model(&self) -> ClientModel {
        ClientModel {
            name: self.client.name@,
            spec: client_spec_model(self.client_spec),
            retry_policy: option_string_model(self.client.retry_policy_id),
            options: entries_model(self.client.options.properties@),
            deps: client_deps(*self.client),
        }
    }

    fn name(&self) -> (r: &str) {
        self.client.name.as_str()
    }

    fn spec(&self) -> (r: &ClientSpec) {
        &self.client_spec
    }

    fn retry_policy(&self) -> (r: Option<&str>) {
        match &self.client.retry_policy_id {
            Some(r) => Some(r.as_str()),
            None => None,
        }
    }

    fn options(&self) -> (r: &UnresolvedClientProperty) {
        &self.client.options
    }

    fn dependencies(&self) -> (r: Vec<String>) {
        let mut deps: Vec<String> = Vec::new();
        if let Some(retry_policy) = &self.client.retry_policy_id {
            deps.push(copy_string(retry_policy));
        }
        assert(string_views(deps@) =~= client_deps(*self.client));
        deps
    }
}

} // verus!
