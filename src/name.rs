//! 32-bit FNV-1a fingerprints of hierarchical names.

use vstd::prelude::*;

verus! {

/// FNV-1a offset basis for 32-bit hashes.
pub const FNV_OFFSET_BASIS: u32 = 0x811c9dc5;

/// FNV-1a prime for 32-bit hashes.
pub const FNV_PRIME: u32 = 0x01000193;

/// One FNV-1a round: xor the byte in, then multiply modulo 2^32.
pub open spec fn fnv1a_step(h: u32, b: u8) -> u32 {
    ((h ^ (b as u32)) as u32).wrapping_mul(FNV_PRIME)
}

/// The 32-bit FNV-1a fingerprint of a byte string.
pub open spec fn fnv1a(s: Seq<u8>) -> u32
    decreases s.len(),
{
    if s.len() == 0 {
        FNV_OFFSET_BASIS
    } else {
        fnv1a_step(fnv1a(s.drop_last()), s.last())
    }
}

/// Fingerprint of a name: FNV-1a over its raw bytes, without salt.
pub fn hash_name(name: &[u8]) -> (r: u32)
    ensures
        r == fnv1a(name@),
{
    let mut hash: u32 = FNV_OFFSET_BASIS;
    let mut i: usize = 0;
    while i < name.len()
        invariant
            i <= name@.len(),
            hash == fnv1a(name@.subrange(0, i as int)),
        decreases name@.len() - i,
    {
        proof {
            assert(name@.subrange(0, i + 1).drop_last() =~= name@.subrange(0, i as int));
        }
        hash = hash ^ (name[i] as u32);
        hash = hash.wrapping_mul(FNV_PRIME);
        i = i + 1;
    }
    proof {
        assert(name@.subrange(0, name@.len() as int) =~= name@);
    }
    hash
}

/// The fingerprint is a function of the name's bytes alone: equal names give
/// equal fingerprints, on every call.
pub proof fn lemma_hash_deterministic(a: Seq<u8>, b: Seq<u8>)
    requires
        a == b,
    ensures
        fnv1a(a) == fnv1a(b),
{
}

} // verus!
