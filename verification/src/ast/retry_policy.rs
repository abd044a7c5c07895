//! Retry policies.  Their configuration changes behaviour, so all of it is
//! part of the interface; the implementation repeats it.

use vstd::prelude::*;
use crate::encode::{enc_str, enc_u64, push_str, push_u64};
use crate::interfaces::ShallowSignature;
use crate::values::{enc_entries, entries_model, push_entries, UnresolvedValue, ValueModel};

verus! {

/// How long to wait between retries.  The multiplier of exponential backoff
/// is held as the bit pattern of its `f32`.
#[derive(Clone, Copy, Debug, PartialEq, Eq, Structural)]
pub enum RetryPolicyStrategy {
    ConstantDelay { delay_ms: u32 },
    ExponentialBackoff { delay_ms: u32, multiplier_bits: u32, max_delay_ms: u32 },
}

pub open spec fn enc_strategy(s: RetryPolicyStrategy) -> Seq<u8> {
    match s {
        RetryPolicyStrategy::ConstantDelay { delay_ms } => seq![0u8] + enc_u64(delay_ms as u64),
        RetryPolicyStrategy::ExponentialBackoff { delay_ms, multiplier_bits, max_delay_ms } => seq![1u8]
            + enc_u64(delay_ms as u64) + enc_u64(multiplier_bits as u64) + enc_u64(max_delay_ms as u64),
    }
}

fn push_strategy(out: &mut Vec<u8>, s: &RetryPolicyStrategy)
    ensures
        final(out)@ == old(out)@ + enc_strategy(*s),
{
    let ghost start = out@;
    match s {
        RetryPolicyStrategy::ConstantDelay { delay_ms } => {
            out.push(0u8);
            push_u64(out, *delay_ms as u64);
        },
        RetryPolicyStrategy::ExponentialBackoff { delay_ms, multiplier_bits, max_delay_ms } => {
            out.push(1u8);
            push_u64(out, *delay_ms as u64);
            push_u64(out, *multiplier_bits as u64);
            push_u64(out, *max_delay_ms as u64);
        },
    }
    assert(out@ =~= start + enc_strategy(*s));
}

/// Model of a retry policy.
pub struct RetryModel {
    pub name: Seq<char>,
    pub max_retries: u32,
    pub strategy: RetryPolicyStrategy,
    pub options: Seq<(Seq<char>, ValueModel)>,
}

/// A retry policy.
pub trait RetryPolicyDefinition {
    spec fn retry_model(&self) -> RetryModel;

    fn name(&self) -> (r: &str)
        ensures
            r@ == self.retry_model().name,
    ;

    fn max_retries(&self) -> (r: u32)
        ensures
            r == self.retry_model().max_retries,
    ;

    fn strategy(&self) -> (r: &RetryPolicyStrategy)
        ensures
            *r == self.retry_model().strategy,
    ;

    fn options(&self) -> (r: &Vec<(String, UnresolvedValue)>)
        ensures
            entries_model(r@) == self.retry_model().options,
    ;
}

pub open spec fn retry_configuration(r: RetryModel) -> Seq<u8> {
    enc_u64(r.max_retries as u64) + enc_strategy(r.strategy) + enc_entries(r.options)
}

pub open spec fn retry_interface(r: RetryModel) -> Seq<u8> {
    enc_str(r.name) + retry_configuration(r)
}

pub open spec fn retry_implementation(r: RetryModel) -> Seq<u8> {
    retry_interface(r) + retry_configuration(r)
}

/// A retry policy as a top-level definition.
pub struct TopRetryPolicyDefinition<'a, R: RetryPolicyDefinition>(pub &'a R);

impl<'a, R: RetryPolicyDefinition> TopRetryPolicyDefinition<'a, R> {
    pub fn new(definition: &'a R) -> (r: Self)
        ensures
            r.0 == definition,
    {
        TopRetryPolicyDefinition(definition)
    }

    fn push_configuration(&self, out: &mut Vec<u8>)
        ensures
            final(out)@ == old(out)@ + retry_configuration(self.0.retry_model()),
    {
        let ghost start = out@;
        push_u64(out, self.0.max_retries() as u64);
        push_strategy(out, self.0.strategy());
        push_entries(out, self.0.options());
        assert(out@ =~= start + retry_configuration(self.0.retry_model()));
    }
}

impl<'a, R: RetryPolicyDefinition> ShallowSignature for TopRetryPolicyDefinition<'a, R> {
    open spec fn interface_bytes(&self) -> Seq<u8> {
        retry_interface(self.0.retry_model())
    }

    open spec fn implementation_bytes(&self) -> Seq<u8> {
        retry_implementation(self.0.retry_model())
    }

    open spec fn interface_deps(&self) -> Set<Seq<char>> {
        Set::empty()
    }

    open spec fn implementation_deps(&self) -> Set<Seq<char>> {
        Set::empty()
    }

    open spec fn prefix_word(&self) -> Seq<char> {
        "retry_policy"@
    }

    fn shallow_hash_prefix(&self) -> (r: &'static str) {
        "retry_policy"
    }

    fn shallow_interface_hash(&self) -> (r: Vec<u8>) {
        let mut out: Vec<u8> = Vec::new();
        push_str(&mut out, self.0.name());
        self.push_configuration(&mut out);
        assert(out@ =~= retry_interface(self.0.retry_model()));
        out
    }

    fn unsorted_interface_dependencies(&self) -> (r: Vec<String>) {
        let out: Vec<String> = Vec::new();
        assert(crate::order::string_views(out@).to_set() =~= Set::<Seq<char>>::empty());
        out
    }

    fn shallow_implementation_hash(&self) -> (r: Vec<u8>) {
        let mut out = self.shallow_interface_hash();
        self.push_configuration(&mut out);
        out
    }

    fn unsorted_implementation_dependencies(&self) -> (r: Vec<String>) {
        self.unsorted_interface_dependencies()
    }
}

} // verus!
