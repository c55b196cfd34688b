//! Identifiers of records in the host's tweak database, and content ids.
use vstd::prelude::*;
use vstd::string::StringSliceAdditionalSpecFns;

use crate::hash::{fnv1a32, spec_fnv1a32};

verus! {

/// The CRC-32 checksum of `bytes`, as `const_crc32::crc32` computes it.
pub uninterp spec fn crc32_of(bytes: Seq<u8>) -> u32;

/// The CRC-32 checksum of `bytes` continued from the state `seed`, as
/// `const_crc32::crc32_seed` computes it.
pub uninterp spec fn crc32_seeded(bytes: Seq<u8>, seed: u32) -> u32;

/// Relies on `const_crc32::crc32`: the checksum of the bytes, a function of
/// them alone.
#[verifier::external_body]
fn checksum(bytes: &[u8]) -> (r: u32)
    ensures
        r == crc32_of(bytes@),
{
    const_crc32::crc32(bytes)
}

/// Relies on `const_crc32::crc32_seed`: the checksum of the bytes continued
/// from `seed`, a function of the two alone.
#[verifier::external_body]
fn checksum_seeded(bytes: &[u8], seed: u32) -> (r: u32)
    ensures
        r == crc32_seeded(bytes@, seed),
{
    const_crc32::crc32_seed(bytes, seed)
}

pub const HASH_UNIT: u64 = 0x1_0000_0000;
pub const OFFSET_UNIT: u64 = 0x100_0000_0000;

/// The id with hash `hash`, name length `length` and no offset.
pub open spec fn id_value(hash: u32, length: u8) -> u64 {
    (hash + length * 0x1_0000_0000) as u64
}

/// The three offset bytes of `v`, most significant first, read as one number.
pub open spec fn offset_of(v: u64) -> i32 {
    ((v / 0x100_0000_0000) % 256 * 65536 + (v / 0x1_0000_0000_0000) % 256 * 256 + v
        / 0x100_0000_0000_0000) as i32
}

/// The low 24 bits of `offset` stored as the offset bytes of `v`, most
/// significant first.
pub open spec fn with_offset(v: u64, offset: i32) -> u64 {
    let u = (offset as u32) as int;
    (v % 0x100_0000_0000 + (u / 65536) % 256 * 0x100_0000_0000 + (u / 256) % 256
        * 0x1_0000_0000_0000 + u % 256 * 0x100_0000_0000_0000) as u64
}

/// A record id: a checksum of the record's name in the low four bytes, the
/// name's length in the fifth, and a three-byte offset into the database.
#[derive(Debug, Clone, Copy, PartialEq, Eq, Structural, PartialOrd, Ord, Hash, Default)]
pub struct TweakDbId {
    pub value: u64,
}

impl TweakDbId {
    /// The id with the given name checksum and length, and no offset.
    pub fn new_with_hash_and_len(hash: u32, length: u8) -> (r: TweakDbId)
        ensures
            r.value == id_value(hash, length),
    {
        TweakDbId { value: hash as u64 + length as u64 * HASH_UNIT }
    }

    /// The id of the record named `name`.
    pub fn new(name: &str) -> (r: TweakDbId)
        requires
            name.spec_bytes().len() <= 255,
        ensures
            r.value == id_value(crc32_of(name.spec_bytes()), name.spec_bytes().len() as u8),
    {
        let bytes = name.as_bytes();
        TweakDbId::new_with_hash_and_len(checksum(bytes), bytes.len() as u8)
    }

    /// The id of the record whose name is `base`'s name followed by `name`.
    pub fn new_from_base(base: TweakDbId, name: &str) -> (r: TweakDbId)
        requires
            base.spec_length() + name.spec_bytes().len() <= 255,
        ensures
            r.value == id_value(
                crc32_seeded(name.spec_bytes(), base.spec_hash()),
                (base.spec_length() + name.spec_bytes().len()) as u8,
            ),
    {
        let bytes = name.as_bytes();
        let hash = checksum_seeded(bytes, base.hash());
        TweakDbId::new_with_hash_and_len(hash, bytes.len() as u8 + base.length())
    }

    pub open spec fn spec_hash(&self) -> u32 {
        (self.value % 0x1_0000_0000) as u32
    }

    pub open spec fn spec_length(&self) -> u8 {
        ((self.value / 0x1_0000_0000) % 256) as u8
    }

    /// The checksum of the record's name.
    pub fn hash(&self) -> (r: u32)
        ensures
            r == self.spec_hash(),
    {
        (self.value % HASH_UNIT) as u32
    }

    /// The length of the record's name.
    pub fn length(&self) -> (r: u8)
        ensures
            r == self.spec_length(),
    {
        ((self.value / HASH_UNIT) % 256) as u8
    }

    /// Whether the id names a record at all.
    pub fn is_valid(self) -> (r: bool)
        ensures
            r == (self.value != 0),
    {
        self.value != 0
    }

    /// The offset of the record in the database.
    pub fn to_tdb_offset(self) -> (r: i32)
        ensures
            r == offset_of(self.value),
    {
        let b1 = (self.value / OFFSET_UNIT) % 256;
        let b2 = (self.value / 0x1_0000_0000_0000) % 256;
        let b3 = self.value / 0x100_0000_0000_0000;
        assert(b3 < 256) by {
            assert(self.value <= u64::MAX);
        }
        (b1 * 65536 + b2 * 256 + b3) as i32
    }

    /// Whether the id carries an offset.
    pub fn has_tdb_offset(self) -> (r: bool)
        ensures
            r == (offset_of(self.value) != 0),
    {
        self.to_tdb_offset() != 0
    }

    /// The same id with `offset` as its offset; only the low three bytes of
    /// `offset` are kept.
    pub fn with_tdb_offset(self, offset: i32) -> (r: TweakDbId)
        requires
            -2097152 <= offset <= 2048383,
        ensures
            r.value == with_offset(self.value, offset),
    {
        let u = offset as u32 as u64;
        let low = self.value % OFFSET_UNIT;
        let b1 = (u / 65536) % 256;
        let b2 = (u / 256) % 256;
        let b3 = u % 256;
        TweakDbId {
            value: low + b1 * OFFSET_UNIT + b2 * 0x1_0000_0000_0000 + b3 * 0x100_0000_0000_0000,
        }
    }
}

impl From<u64> for TweakDbId {
    fn from(value: u64) -> (r: TweakDbId) {
        TweakDbId { value }
    }
}

impl vstd::std_specs::convert::FromSpecImpl<u64> for TweakDbId {
    open spec fn obeys_from_spec() -> bool {
        true
    }

    open spec fn from_spec(value: u64) -> TweakDbId {
        TweakDbId { value }
    }
}

impl From<TweakDbId> for u64 {
    fn from(id: TweakDbId) -> (r: u64) {
        id.value
    }
}

impl vstd::std_specs::convert::FromSpecImpl<TweakDbId> for u64 {
    open spec fn obeys_from_spec() -> bool {
        true
    }

    open spec fn from_spec(id: TweakDbId) -> u64 {
        id.value
    }
}

/// The value of a content id built from the 32-bit FNV-1a hash `h`: the top
/// four bits set, then the hash shifted left by two within 32 bits.
pub open spec fn cruid_value(h: u32) -> i64 {
    (0xF000_0000_0000_0000int + (h * 4) % 0x1_0000_0000) as i64
}

/// A content id.
#[derive(Debug, Clone, Copy, PartialEq, Eq, Structural, PartialOrd, Ord, Hash, Default)]
pub struct Cruid {
    pub value: i64,
}

impl Cruid {
    /// Whether the id is set.
    pub fn is_defined(self) -> (r: bool)
        ensures
            r == (self.value != 0),
    {
        self.value != 0
    }

    /// The content id of `name`.
    pub fn new(name: &str) -> (r: Cruid)
        ensures
            r.value == cruid_value(spec_fnv1a32(name.spec_bytes())),
    {
        let h = fnv1a32(name);
        let low = (h as u64 * 4) % HASH_UNIT;
        Cruid { value: (0xF000_0000_0000_0000u64 + low) as i64 }
    }
}

impl From<i64> for Cruid {
    fn from(value: i64) -> (r: Cruid) {
        Cruid { value }
    }
}

impl vstd::std_specs::convert::FromSpecImpl<i64> for Cruid {
    open spec fn obeys_from_spec() -> bool {
        true
    }

    open spec fn from_spec(value: i64) -> Cruid {
        Cruid { value }
    }
}

impl From<Cruid> for i64 {
    fn from(id: Cruid) -> (r: i64) {
        id.value
    }
}

impl vstd::std_specs::convert::FromSpecImpl<Cruid> for i64 {
    open spec fn obeys_from_spec() -> bool {
        true
    }

    open spec fn from_spec(id: Cruid) -> i64 {
        id.value
    }
}

} // verus!
