//! FNV-1a hashes, the host's way of turning names into identifiers.
use vstd::prelude::*;
use vstd::string::StringSliceAdditionalSpecFns;

verus! {

pub const FNV64_OFFSET: u64 = 0xcbf29ce484222325;
pub const FNV64_PRIME: u64 = 0x100000001b3;
pub const FNV32_OFFSET: u32 = 0x811c9dc5;
pub const FNV32_PRIME: u32 = 0x01000193;

/// One FNV-1a 64-bit round: xor in the byte, then multiply modulo 2^64.
pub open spec fn fnv64_step(h: u64, b: u8) -> u64 {
    (((h ^ (b as u64)) as nat * FNV64_PRIME as nat) % 0x1_0000_0000_0000_0000nat) as u64
}

/// One FNV-1a 32-bit round: xor in the byte, then multiply modulo 2^32.
pub open spec fn fnv32_step(h: u32, b: u8) -> u32 {
    (((h ^ (b as u32)) as nat * FNV32_PRIME as nat) % 0x1_0000_0000nat) as u32
}

/// The 64-bit FNV-1a hash of a byte sequence.
pub open spec fn spec_fnv1a64(s: Seq<u8>) -> u64
    decreases s.len(),
{
    if s.len() == 0 {
        FNV64_OFFSET
    } else {
        fnv64_step(spec_fnv1a64(s.drop_last()), s.last())
    }
}

/// The 32-bit FNV-1a hash of a byte sequence.
pub open spec fn spec_fnv1a32(s: Seq<u8>) -> u32
    decreases s.len(),
{
    if s.len() == 0 {
        FNV32_OFFSET
    } else {
        fnv32_step(spec_fnv1a32(s.drop_last()), s.last())
    }
}

/// Hashes a byte slice with 64-bit FNV-1a.
pub fn fnv1a64_bytes(s: &[u8]) -> (r: u64)
    ensures
        r == spec_fnv1a64(s@),
{
    let mut h: u64 = FNV64_OFFSET;
    let mut i: usize = 0;
    while i < s.len()
        invariant
            i <= s@.len(),
            h == spec_fnv1a64(s@.subrange(0, i as int)),
        decreases s@.len() - i,
    {
        proof {
            let next = s@.subrange(0, i as int + 1);
            assert(next.drop_last() =~= s@.subrange(0, i as int));
        }
        h = (h ^ (s[i] as u64)).wrapping_mul(FNV64_PRIME);
        i = i + 1;
    }
    proof {
        assert(s@.subrange(0, s@.len() as int) =~= s@);
    }
    h
}

/// Hashes a byte slice with 32-bit FNV-1a.
pub fn fnv1a32_bytes(s: &[u8]) -> (r: u32)
    ensures
        r == spec_fnv1a32(s@),
{
    let mut h: u32 = FNV32_OFFSET;
    let mut i: usize = 0;
    while i < s.len()
        invariant
            i <= s@.len(),
            h == spec_fnv1a32(s@.subrange(0, i as int)),
        decreases s@.len() - i,
    {
        proof {
            let next = s@.subrange(0, i as int + 1);
            assert(next.drop_last() =~= s@.subrange(0, i as int));
        }
        h = (h ^ (s[i] as u32)).wrapping_mul(FNV32_PRIME);
        i = i + 1;
    }
    proof {
        assert(s@.subrange(0, s@.len() as int) =~= s@);
    }
    h
}

/// Hashes the UTF-8 bytes of a string with 64-bit FNV-1a.
pub fn fnv1a64(s: &str) -> (r: u64)
    ensures
        r == spec_fnv1a64(s.spec_bytes()),
{
    fnv1a64_bytes(s.as_bytes())
}

/// Hashes the UTF-8 bytes of a string with 32-bit FNV-1a.
pub fn fnv1a32(s: &str) -> (r: u32)
    ensures
        r == spec_fnv1a32(s.spec_bytes()),
{
    fnv1a32_bytes(s.as_bytes())
}

} // verus!
