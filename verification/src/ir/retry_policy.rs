//! Retry policies of the intermediate representation as retry policy
//! definitions.

use vstd::prelude::*;
use crate::ast::retry_policy::{RetryModel, RetryPolicyDefinition, RetryPolicyStrategy};
use crate::ir::repr::RetryPolicy;
use crate::values::{entries_model, UnresolvedValue};

verus! {

/// A retry policy read as it was declared.
pub struct RetryPolicyAdapter<'a> {
    pub retry_policy: &'a RetryPolicy,
}

impl<'a> RetryPolicyAdapter<'a> {
    pub fn new(retry_policy: &'a RetryPolicy) -> (r: Self)
        ensures
            r.retry_policy == retry_policy,
    {
        RetryPolicyAdapter { retry_policy }
    }
}

impl<'a> RetryPolicyDefinition for RetryPolicyAdapter<'a> {
    open spec fn retry_model(&self) -> RetryModel {
        RetryModel {
            name: self.retry_policy.name@,
            max_retries: self.retry_policy.max_retries,
            strategy: self.retry_policy.strategy,
            options: entries_model(self.retry_policy.options@),
        }
    }

    fn name(&self) -> (r: &str) {
        self.retry_policy.name.as_str()
    }

    fn max_retries(&self) -> (r: u32) {
        self.retry_policy.max_retries
    }

    fn strategy(&self) -> (r: &RetryPolicyStrategy) {
        &self.retry_policy.strategy
    }

    fn options(&self) -> (r: &Vec<(String, UnresolvedValue)>) {
        &self.retry_policy.options
    }
}

} // verus!
