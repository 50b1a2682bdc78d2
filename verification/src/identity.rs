use vstd::prelude::*;

verus! {

use vstd::string::StringSliceAdditionalSpecFns;

/// The FNV-1a hash of the first `n` bytes.
pub open spec fn spec_fnv1a_upto(bytes: Seq<u8>, n: int) -> u64
    decreases n,
{
    if n <= 0 {
        0xcbf29ce484222325u64
    } else {
        (spec_fnv1a_upto(bytes, n - 1) ^ (bytes[n - 1] as u64)).wrapping_mul(0x100000001b3u64)
    }
}

pub open spec fn spec_hash_bytes(bytes: Seq<u8>) -> u64 {
    spec_fnv1a_upto(bytes, bytes.len() as int)
}

/// The stable identity of a widget named by a label: the FNV-1a hash of
/// the label's UTF-8 bytes. The mapping is deterministic, so the same
/// label names the same widget on every frame; two widgets sharing a
/// label therefore share an identity, a known hazard the caller avoids
/// by salting labels of dynamically created widgets.
pub fn hash_string(s: &str) -> (r: u64)
    ensures
        r == spec_hash_bytes(s.spec_bytes()),
{
    let bytes = s.as_bytes();
    let mut h: u64 = 0xcbf29ce484222325;
    let mut i: usize = 0;
    while i < bytes.len()
        invariant
            i <= bytes@.len(),
            bytes@ == s.spec_bytes(),
            h == spec_fnv1a_upto(bytes@, i as int),
        decreases bytes@.len() - i,
    {
        h = (h ^ (bytes[i] as u64)).wrapping_mul(0x100000001b3);
        i += 1;
    }
    h
}

/// The identity of a widget created at runtime: the label's hash mixed
/// with a creation-time salt, so that two popups of one kind opened at
/// different moments stay distinguishable.
pub fn hash_string_salted(s: &str, salt: u64) -> (r: u64)
    ensures
        r == spec_hash_bytes(s.spec_bytes()) ^ salt,
{
    hash_string(s) ^ salt
}

} // verus!
