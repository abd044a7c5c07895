//! Canonical byte encodings and the byte order on names.
//!
//! Every hash in this crate is the digest of a byte stream.  The helpers here
//! build such streams; each helper is specified by a spec function so that the
//! stream, and hence the hash, is a function of the data that is encoded.

use vstd::prelude::*;
use vstd::utf8::*;

verus! {

/// Little-endian bytes of `x`, `n` of them.
pub open spec fn le_bytes(x: nat, n: nat) -> Seq<u8>
    decreases n,
{
    if n == 0 {
        Seq::empty()
    } else {
        seq![(x % 256) as u8] + le_bytes(x / 256, (n - 1) as nat)
    }
}

/// A `u64` as eight little-endian bytes.
pub open spec fn enc_u64(x: u64) -> Seq<u8> {
    le_bytes(x as nat, 8)
}

/// A boolean as one byte.
pub open spec fn enc_bool(b: bool) -> Seq<u8> {
    if b {
        seq![1u8]
    } else {
        seq![0u8]
    }
}

/// A string as its UTF-8 bytes followed by `0xff`, a byte that UTF-8 never uses.
pub open spec fn enc_str(s: Seq<char>) -> Seq<u8> {
    encode_utf8(s) + seq![0xffu8]
}

/// Appends the eight little-endian bytes of `x`.
pub fn push_u64(out: &mut Vec<u8>, x: u64)
    ensures
        final(out)@ == old(out)@ + enc_u64(x),
{
    let ghost start = out@;
    let mut y: u64 = x;
    let mut k: usize = 0;
    while k < 8
        invariant
            k <= 8,
            out@ + le_bytes(y as nat, (8 - k) as nat) == start + enc_u64(x),
        decreases 8 - k,
    {
        let b: u8 = (y % 256) as u8;
        proof {
            assert(le_bytes(y as nat, (8 - k) as nat) == seq![b] + le_bytes((y / 256) as nat, (8 - k - 1) as nat));
        }
        out.push(b);
        y = y / 256;
        k = k + 1;
        proof {
            assert(out@ + le_bytes(y as nat, (8 - k) as nat) =~= start + enc_u64(x));
        }
    }
    assert(le_bytes(y as nat, 0) =~= Seq::<u8>::empty());
    assert(out@ =~= start + enc_u64(x));
}

/// Appends the encoding of a boolean.
pub fn push_bool(out: &mut Vec<u8>, b: bool)
    ensures
        final(out)@ == old(out)@ + enc_bool(b),
{
    if b {
        out.push(1u8);
    } else {
        out.push(0u8);
    }
    assert(final(out)@ =~= old(out)@ + enc_bool(b)) by {}
}

/// Appends all bytes of a slice.
pub fn push_slice(out: &mut Vec<u8>, bytes: &[u8])
    ensures
        final(out)@ == old(out)@ + bytes@,
{
    let ghost start = out@;
    let mut i: usize = 0;
    while i < bytes.len()
        invariant
            i <= bytes@.len(),
            out@ == start + bytes@.take(i as int),
        decreases bytes@.len() - i,
    {
        out.push(bytes[i]);
        i = i + 1;
        assert(out@ =~= start + bytes@.take(i as int));
    }
    assert(bytes@.take(i as int) =~= bytes@);
}

/// Appends the encoding of a string.
pub fn push_str(out: &mut Vec<u8>, s: &str)
    ensures
        final(out)@ == old(out)@ + enc_str(s@),
{
    let bytes = s.as_bytes();
    push_slice(out, bytes);
    out.push(0xffu8);
    assert(final(out)@ =~= old(out)@ + enc_str(s@));
}

} // verus!
