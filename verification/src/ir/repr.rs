//! The intermediate representation of a program, as far as signing it
//! needs: its definitions, each with the attributes it was declared with.

use vstd::prelude::*;
use crate::ast::client::{ClientSpec, UnresolvedClientProperty};
use crate::ast::retry_policy::RetryPolicyStrategy;
use crate::interfaces::StringOr;
use crate::types::TypeIR;
use crate::values::UnresolvedValue;

verus! {

/// Attributes written on a definition, a field or an enum value.
#[derive(Debug)]
pub struct NodeAttributes {
    pub alias: Option<StringOr>,
    pub description: Option<StringOr>,
    pub skip: bool,
    pub dynamic: bool,
}

impl NodeAttributes {
    /// The `@alias`, if any.
    pub fn alias(&self) -> (r: Option<&StringOr>)
        ensures
            r matches Some(a) ==> self.alias == Some(*a),
            r is None <==> self.alias is None,
    {
        match &self.alias {
            Some(a) => Some(a),
            None => None,
        }
    }

    /// The `@description`, if any.
    pub fn description(&self) -> (r: Option<&StringOr>)
        ensures
            r matches Some(d) ==> self.description == Some(*d),
            r is None <==> self.description is None,
    {
        match &self.description {
            Some(d) => Some(d),
            None => None,
        }
    }

    /// Whether `@skip` is set.
    pub fn skip(&self) -> (r: bool)
        ensures
            r == self.skip,
    {
        self.skip
    }

    /// Whether `@@dynamic` is set.
    pub fn dynamic(&self) -> (r: bool)
        ensures
            r == self.dynamic,
    {
        self.dynamic
    }
}

/// An element with its attributes.
#[derive(Debug)]
pub struct Node<T> {
    pub elem: T,
    pub attributes: NodeAttributes,
}

/// A field of a class.
#[derive(Debug)]
pub struct Field {
    pub name: String,
    pub field_type: TypeIR,
}

/// A class.
#[derive(Debug)]
pub struct Class {
    pub name: String,
    pub static_fields: Vec<Node<Field>>,
}

/// A value of an enum.
#[derive(Debug)]
pub struct EnumValue(pub String);

/// An enum, each value with its doc comment.
#[derive(Debug)]
pub struct Enum {
    pub name: String,
    pub values: Vec<(Node<EnumValue>, Option<String>)>,
}

/// A type alias.
#[derive(Debug)]
pub struct TypeAlias {
    pub name: String,
    pub alias_type: TypeIR,
}

/// One configuration of a function: its prompt and the client it runs on.
#[derive(Debug)]
pub struct FunctionConfig {
    pub name: String,
    pub prompt_template: String,
    pub client: ClientSpec,
}

/// A function, with the name of the configuration it uses by default.
#[derive(Debug)]
pub struct Function {
    pub name: String,
    pub inputs: Vec<(String, TypeIR)>,
    pub output: TypeIR,
    pub configs: Vec<FunctionConfig>,
    pub default_config: String,
}

/// A client.
#[derive(Debug)]
pub struct Client {
    pub name: String,
    pub provider: String,
    pub retry_policy_id: Option<String>,
    pub options: UnresolvedClientProperty,
}

/// A retry policy.
#[derive(Debug)]
pub struct RetryPolicy {
    pub name: String,
    pub max_retries: u32,
    pub strategy: RetryPolicyStrategy,
    pub options: Vec<(String, UnresolvedValue)>,
}

/// The definitions of a program.
#[derive(Debug)]
pub struct IntermediateRepr {
    pub functions: Vec<Node<Function>>,
    pub classes: Vec<Node<Class>>,
    pub enums: Vec<Node<Enum>>,
    pub type_aliases: Vec<Node<TypeAlias>>,
    pub clients: Vec<Node<Client>>,
    pub retry_policies: Vec<Node<RetryPolicy>>,
}

/// Whether `k` is the first configuration with the given name.
pub open spec fn first_config_named(configs: Seq<FunctionConfig>, name: Seq<char>, k: int) -> bool {
    &&& 0 <= k < configs.len()
    &&& configs[k].name@ == name
    &&& forall|j: int| 0 <= j < k ==> #[trigger] configs[j].name@ != name
}

/// Whether some configuration has the given name.
pub open spec fn has_config_named(configs: Seq<FunctionConfig>, name: Seq<char>) -> bool {
    exists|k: int| 0 <= k < configs.len() && #[trigger] configs[k].name@ == name
}

impl Function {
    /// The default configuration: the first one with its name.
    pub fn find_default_config(&self) -> (r: Option<&FunctionConfig>)
        ensures
            r is Some <==> has_config_named(self.configs@, self.default_config@),
            r matches Some(c) ==> exists|k: int| first_config_named(self.configs@, self.default_config@, k)
                && self.configs@[k] == *c,
    {
        let mut i: usize = 0;
        while i < self.configs.len()
            invariant
                i <= self.configs@.len(),
                forall|j: int| 0 <= j < i ==> #[trigger] self.configs@[j].name@ != self.default_config@,
            decreases self.configs@.len() - i,
        {
            let c = &self.configs[i];
            if crate::order::str_eq(c.name.as_str(), self.default_config.as_str()) {
                assert(first_config_named(self.configs@, self.default_config@, i as int));
                return Some(c);
            }
            i = i + 1;
        }
        None
    }
}

} // verus!
