//! Resource paths: archive paths reduced to a canonical form and hashed.
use vstd::prelude::*;
use vstd::string::StringSliceAdditionalSpecFns;

use crate::hash::{fnv1a64_bytes, spec_fnv1a64};

verus! {

/// Why a text is not a resource path.
#[derive(Debug, Clone, Copy, PartialEq, Eq, Structural)]
pub enum ResourcePathError {
    /// Nothing is left once quotes and separators are taken off.
    Empty,
    /// The canonical path is longer than `ResourcePath::MAX_LENGTH` bytes.
    TooLong,
    /// The path climbs out of the archive or names a drive.
    NotCanonical,
    /// The path is not valid UTF-8.
    InvalidUnicode,
}

impl ResourcePathError {
    /// A sentence that describes the error.
    pub fn message(&self) -> (r: &'static str) {
        match self {
            ResourcePathError::Empty => "resource path should not be empty",
            ResourcePathError::TooLong => "resource path should be less than 216 characters",
            ResourcePathError::NotCanonical => "resource path should be an absolute canonical path in an archive e.g. 'base\\mod\\character.ent'",
            ResourcePathError::InvalidUnicode => "resource path should be valid UTF-8",
        }
    }
}

pub open spec fn is_quote(b: u8) -> bool {
    b == 0x27u8 || b == 0x22u8
}

pub open spec fn is_separator(b: u8) -> bool {
    b == 0x2fu8 || b == 0x5cu8
}

/// The byte with ASCII upper-case letters mapped to lower case.
pub open spec fn ascii_lower(b: u8) -> u8 {
    if 0x41u8 <= b && b <= 0x5au8 {
        (b + 0x20u8) as u8
    } else {
        b
    }
}

/// `s` without the quotes it starts with.
pub open spec fn trim_leading_quotes(s: Seq<u8>) -> Seq<u8>
    decreases s.len(),
{
    if s.len() > 0 && is_quote(s[0]) {
        trim_leading_quotes(s.drop_first())
    } else {
        s
    }
}

/// `s` without the quotes it ends with.
pub open spec fn trim_trailing_quotes(s: Seq<u8>) -> Seq<u8>
    decreases s.len(),
{
    if s.len() > 0 && is_quote(s.last()) {
        trim_trailing_quotes(s.drop_last())
    } else {
        s
    }
}

/// Reading `s` from the left: the canonical text so far, and whether a
/// separator is owed before the next byte of a component.
/// The canonical text is the non-empty components of `s`, split at `/` and
/// `\`, lower-cased and joined by `\`.
pub open spec fn canonical_state(s: Seq<u8>) -> (Seq<u8>, bool)
    decreases s.len(),
{
    if s.len() == 0 {
        (Seq::empty(), false)
    } else {
        let (out, pending) = canonical_state(s.drop_last());
        let b = s.last();
        if is_separator(b) {
            (out, out.len() > 0)
        } else if pending {
            (out.push(0x5cu8).push(ascii_lower(b)), false)
        } else {
            (out.push(ascii_lower(b)), false)
        }
    }
}

/// The canonical text of a raw path: surrounding quotes removed, then its
/// non-empty components lower-cased and joined by `\`.
pub open spec fn canonical_path(s: Seq<u8>) -> Seq<u8> {
    canonical_state(trim_trailing_quotes(trim_leading_quotes(s))).0
}

/// A `..` component starts at `i` of the canonical text `u`.
pub open spec fn parent_component_at(u: Seq<u8>, i: int) -> bool {
    0 <= i && i + 2 <= u.len() && u[i] == 0x2eu8 && u[i + 1] == 0x2eu8 && (i == 0 || u[i - 1]
        == 0x5cu8) && (i + 2 == u.len() || u[i + 2] == 0x5cu8)
}

/// The canonical text `u` stays inside the archive: no `..` component, no
/// leading `.` component, no leading drive such as `c:`.
pub open spec fn is_canonical(u: Seq<u8>) -> bool {
    &&& forall|i: int| !parent_component_at(u, i)
    &&& !(u.len() >= 1 && u[0] == 0x2eu8 && (u.len() == 1 || u[1] == 0x5cu8))
    &&& !(u.len() >= 2 && 0x61u8 <= u[0] && u[0] <= 0x7au8 && u[1] == 0x3au8)
}

/// The hash that a raw path encodes to, or why it has none.
pub open spec fn spec_encode_path(s: Seq<u8>) -> Result<u64, ResourcePathError> {
    let u = canonical_path(s);
    if u.len() == 0 {
        Err(ResourcePathError::Empty)
    } else if u.len() > ResourcePath::MAX_LENGTH {
        Err(ResourcePathError::TooLong)
    } else if !is_canonical(u) {
        Err(ResourcePathError::NotCanonical)
    } else {
        Ok(spec_fnv1a64(u))
    }
}

fn is_quote_byte(b: u8) -> (r: bool)
    ensures
        r == is_quote(b),
{
    b == 0x27u8 || b == 0x22u8
}

fn is_separator_byte(b: u8) -> (r: bool)
    ensures
        r == is_separator(b),
{
    b == 0x2fu8 || b == 0x5cu8
}

fn lower_byte(b: u8) -> (r: u8)
    ensures
        r == ascii_lower(b),
{
    if 0x41u8 <= b && b <= 0x5au8 {
        b + 0x20u8
    } else {
        b
    }
}

/// The canonical text of a raw path, as bytes.
pub fn canonicalize(s: &[u8]) -> (r: Vec<u8>)
    ensures
        r@ == canonical_path(s@),
{
    let n = s.len();
    let mut a: usize = 0;
    assert(s@.subrange(0, n as int) =~= s@);
    while a < n && is_quote_byte(s[a])
        invariant
            a <= n,
            n == s@.len(),
            trim_leading_quotes(s@) == trim_leading_quotes(s@.subrange(a as int, n as int)),
        decreases n - a,
    {
        proof {
            let t = s@.subrange(a as int, n as int);
            assert(t.drop_first() =~= s@.subrange(a as int + 1, n as int));
        }
        a = a + 1;
    }
    let ghost lead = s@.subrange(a as int, n as int);
    assert(trim_leading_quotes(s@) == lead);
    let mut b: usize = n;
    while b > a && is_quote_byte(s[b - 1])
        invariant
            a <= b <= n,
            n == s@.len(),
            lead == s@.subrange(a as int, n as int),
            trim_trailing_quotes(lead) == trim_trailing_quotes(s@.subrange(a as int, b as int)),
        decreases b - a,
    {
        proof {
            let t = s@.subrange(a as int, b as int);
            assert(t.drop_last() =~= s@.subrange(a as int, b as int - 1));
        }
        b = b - 1;
    }
    let ghost inner = s@.subrange(a as int, b as int);
    assert(trim_trailing_quotes(lead) == inner);
    let mut out: Vec<u8> = Vec::new();
    let mut pending = false;
    let mut i: usize = a;
    while i < b
        invariant
            a <= i <= b <= n,
            n == s@.len(),
            inner == s@.subrange(a as int, b as int),
            canonical_state(s@.subrange(a as int, i as int)) == (out@, pending),
        decreases b - i,
    {
        let c = s[i];
        proof {
            let t = s@.subrange(a as int, i as int + 1);
            assert(t.drop_last() =~= s@.subrange(a as int, i as int));
            assert(t.last() == c);
        }
        if is_separator_byte(c) {
            pending = out.len() > 0;
        } else {
            if pending {
                out.push(0x5cu8);
            }
            out.push(lower_byte(c));
            pending = false;
        }
        i = i + 1;
    }
    out
}

/// Whether the canonical text `u` stays inside the archive.
pub fn check_canonical(u: &[u8]) -> (r: bool)
    ensures
        r == is_canonical(u@),
{
    let n = u.len();
    if n >= 1 && u[0] == 0x2eu8 && (n == 1 || u[1] == 0x5cu8) {
        return false;
    }
    if n >= 2 && 0x61u8 <= u[0] && u[0] <= 0x7au8 && u[1] == 0x3au8 {
        return false;
    }
    let mut i: usize = 0;
    while i < n
        invariant
            i <= n,
            n == u@.len(),
            forall|j: int| 0 <= j < i ==> !parent_component_at(u@, j),
        decreases n - i,
    {
        if n - i >= 2 && u[i] == 0x2eu8 && u[i + 1] == 0x2eu8 && (i == 0 || u[i - 1] == 0x5cu8)
            && (i + 2 == n || u[i + 2] == 0x5cu8) {
            assert(parent_component_at(u@, i as int));
            return false;
        }
        i = i + 1;
    }
    assert forall|j: int| !parent_component_at(u@, j) by {
        if 0 <= j < n {
        }
    }
    true
}

/// Reduces a raw path to its canonical form and hashes it.
pub fn encode_path(path: &str) -> (r: Result<u64, ResourcePathError>)
    ensures
        r == spec_encode_path(path.spec_bytes()),
{
    let sanitized = canonicalize(path.as_bytes());
    if sanitized.len() == 0 {
        return Err(ResourcePathError::Empty);
    }
    if sanitized.len() > ResourcePath::MAX_LENGTH {
        return Err(ResourcePathError::TooLong);
    }
    if !check_canonical(sanitized.as_slice()) {
        return Err(ResourcePathError::NotCanonical);
    }
    Ok(fnv1a64_bytes(sanitized.as_slice()))
}

/// The hashed, canonical path of a resource inside the host's archives.
#[derive(Debug, Clone, Copy, PartialEq, Eq, Structural, PartialOrd, Ord, Hash)]
pub struct ResourcePath {
    pub hash: u64,
}

impl ResourcePath {
    /// The longest canonical path, in bytes, that a resource path may have.
    pub const MAX_LENGTH: usize = 216;

    /// Encodes a raw path; the path may be quoted, use either separator and
    /// any case, but its canonical form must be at most `MAX_LENGTH` bytes.
    pub fn new(path: &str) -> (r: Result<ResourcePath, ResourcePathError>)
        ensures
            r == (match spec_encode_path(path.spec_bytes()) {
                Ok(hash) => Ok(ResourcePath { hash }),
                Err(e) => Err(e),
            }),
    {
        match encode_path(path) {
            Ok(hash) => Ok(ResourcePath { hash }),
            Err(e) => Err(e),
        }
    }

    /// The hash that identifies this path.
    pub fn hash(&self) -> (r: u64)
        ensures
            r == self.hash,
    {
        self.hash
    }
}

impl Default for ResourcePath {
    fn default() -> (r: ResourcePath)
        ensures
            r.hash == 0,
    {
        ResourcePath { hash: 0 }
    }
}

/// An asynchronous reference to a resource, by path.
#[derive(Debug, Clone, Copy, PartialEq, Eq, Structural)]
pub struct RaRef {
    pub path: ResourcePath,
}

impl RaRef {
    /// A reference to the resource at `path`.
    pub fn new(path: &str) -> (r: Result<RaRef, ResourcePathError>)
        ensures
            r == (match spec_encode_path(path.spec_bytes()) {
                Ok(hash) => Ok(RaRef { path: ResourcePath { hash } }),
                Err(e) => Err(e),
            }),
    {
        match encode_path(path) {
            Ok(hash) => Ok(RaRef { path: ResourcePath { hash } }),
            Err(e) => Err(e),
        }
    }
}

impl Default for RaRef {
    fn default() -> (r: RaRef)
        ensures
            r.path.hash == 0,
    {
        RaRef { path: ResourcePath { hash: 0 } }
    }
}

/// A reference to a resource, by path.
#[derive(Debug, Clone, Copy, PartialEq, Eq, Structural)]
pub struct ResRef {
    pub resource: RaRef,
}

impl ResRef {
    /// A reference to the resource at `path`.
    pub fn new(path: &str) -> (r: Result<ResRef, ResourcePathError>)
        ensures
            r == (match spec_encode_path(path.spec_bytes()) {
                Ok(hash) => Ok(ResRef { resource: RaRef { path: ResourcePath { hash } } }),
                Err(e) => Err(e),
            }),
    {
        match encode_path(path) {
            Ok(hash) => Ok(ResRef { resource: RaRef { path: ResourcePath { hash } } }),
            Err(e) => Err(e),
        }
    }
}

impl Default for ResRef {
    fn default() -> (r: ResRef)
        ensures
            r.resource.path.hash == 0,
    {
        ResRef { resource: RaRef { path: ResourcePath { hash: 0 } } }
    }
}

} // verus!
