//! Functions of the intermediate representation as function definitions.

use vstd::prelude::*;
use crate::ast::client::{client_spec_model, ClientSpec};
use crate::ast::function::{param_models, FunctionDefinition, FunctionModel, JinjaExpression};
use crate::ir::repr::{first_config_named, has_config_named, Function, FunctionConfig};
use crate::types::{copy_string, from_type_ir, rpc_model_of_ir, TypeRPC};

verus! {

/// A function with its parameter and return types in hashed form and the
/// prompt of its default configuration.
pub struct FunctionAdapter<'a> {
    pub function: &'a Function,
    pub converted_inputs: Vec<(String, TypeRPC)>,
    pub converted_output: TypeRPC,
    pub converted_prompt: JinjaExpression,
    pub default_config: &'a FunctionConfig,
}

/// Whether an adapter holds what a function declares, with its default
/// configuration the first one of that name.
pub open spec fn adapts_function<'a>(a: FunctionAdapter<'a>, f: &'a Function) -> bool {
    &&& a.function == f
    &&& a.converted_inputs@.len() == f.inputs@.len()
    &&& forall|i: int| 0 <= i < f.inputs@.len() ==> {
        &&& (#[trigger] a.converted_inputs@[i]).0@ == f.inputs@[i].0@
        &&& a.converted_inputs@[i].1@ == rpc_model_of_ir(f.inputs@[i].1)
    }
    &&& a.converted_output@ == rpc_model_of_ir(f.output)
    &&& exists|k: int| first_config_named(f.configs@, f.default_config@, k) && f.configs@[k] == *a.default_config
    &&& a.converted_prompt.0@ == a.default_config.prompt_template@
}

impl<'a> FunctionAdapter<'a> {
    /// Requires that the default configuration exists.
    pub fn new(function: &'a Function) -> (r: Self)
        requires
            has_config_named(function.configs@, function.default_config@),
        ensures
            adapts_function(r, function),
    {
        let mut converted_inputs: Vec<(String, TypeRPC)> = Vec::new();
        let mut i: usize = 0;
        while i < function.inputs.len()
            invariant
                i <= function.inputs@.len(),
                converted_inputs@.len() == i,
                forall|k: int| 0 <= k < i ==> {
                    &&& (#[trigger] converted_inputs@[k]).0@ == function.inputs@[k].0@
                    &&& converted_inputs@[k].1@ == rpc_model_of_ir(function.inputs@[k].1)
                },
            decreases function.inputs@.len() - i,
        {
            let (name, ty) = &function.inputs[i];
            converted_inputs.push((copy_string(name), from_type_ir(ty)));
            i = i + 1;
        }
        let converted_output = from_type_ir(&function.output);
        let default_config = function.find_default_config().unwrap();
        let converted_prompt = JinjaExpression(copy_string(&default_config.prompt_template));
        FunctionAdapter { function, converted_inputs, converted_output, converted_prompt, default_config }
    }
}

impl<'a> FunctionDefinition for FunctionAdapter<'a> {
    open spec fn function_model(&self) -> FunctionModel {
        FunctionModel {
            name: self.function.name@,
            params: Seq::new(
                self.converted_inputs@.len(),
                |i: int| (self.converted_inputs@[i].0@, self.converted_inputs@[i].1@),
            ),
            ret: self.converted_output@,
            client: client_spec_model(self.default_config.client),
            prompt: self.converted_prompt.0@,
        }
    }

    fn name(&self) -> (r: &str) {
        self.function.name.as_str()
    }

    fn parameters(&self) -> (r: Vec<(&str, &TypeRPC)>) {
        let mut out: Vec<(&str, &TypeRPC)> = Vec::new();
        let mut i: usize = 0;
        while i < self.converted_inputs.len()
            invariant
                i <= self.converted_inputs@.len(),
                out@.len() == i,
                forall|k: int| 0 <= k < i ==> {
                    &&& (#[trigger] out@[k]).0@ == self.converted_inputs@[k].0@
                    &&& out@[k].1@ == self.converted_inputs@[k].1@
                },
            decreases self.converted_inputs@.len() - i,
        {
            let (name, ty) = &self.converted_inputs[i];
            out.push((name.as_str(), ty));
            i = i + 1;
        }
        assert(param_models(out@) =~= self.function_model().params);
        out
    }

    fn return_type(&self) -> (r: &TypeRPC) {
        &self.converted_output
    }

    fn prompt_config(&self) -> (r: (&ClientSpec, &JinjaExpression)) {
        (&self.default_config.client, &self.converted_prompt)
    }
}

} // verus!
