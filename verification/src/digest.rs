//! The 64-bit digest of a byte stream, computed by the standard library's
//! `DefaultHasher` (specified by vstd).

use vstd::prelude::*;
use std::hash::Hasher;
use std::collections::hash_map::DefaultHasher;
use vstd::std_specs::hash::DefaultHasherAdditionalSpecFns;

verus! {

/// The digest of a byte stream: what a fresh `DefaultHasher` finishes with
/// after one write of those bytes.
pub open spec fn sip_digest(bytes: Seq<u8>) -> u64 {
    DefaultHasher::spec_finish(seq![bytes])
}

/// The digest of a byte stream.
pub fn digest(bytes: &[u8]) -> (d: u64)
    ensures
        d == sip_digest(bytes@),
{
    let mut h = DefaultHasher::new();
    h.write(bytes);
    proof {
        assert(h@ =~= seq![bytes@]);
    }
    h.finish()
}

} // verus!
