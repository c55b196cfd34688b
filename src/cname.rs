//! Interned names: a name is identified by the FNV-1a hash of its text.
use vstd::prelude::*;
use vstd::string::StringSliceAdditionalSpecFns;
use vstd::utf8::encode_utf8;

use crate::hash::{fnv1a64, spec_fnv1a64};

verus! {

/// A name as the host interns it: the 64-bit FNV-1a hash of its text.
/// The hash `0` stands for the undefined name.
#[derive(Debug, Clone, Copy, PartialEq, Eq, Structural, Hash, PartialOrd, Ord)]
pub struct CName {
    pub hash: u64,
}

impl CName {
    /// The name whose text is `name`.
    pub fn new(name: &str) -> (r: CName)
        ensures
            r.hash == spec_fnv1a64(name.spec_bytes()),
    {
        CName { hash: fnv1a64(name) }
    }

    /// The undefined name.
    pub fn undefined() -> (r: CName)
        ensures
            r.hash == 0,
    {
        CName { hash: 0 }
    }

    /// The name with the given hash.
    pub fn from_raw(hash: u64) -> (r: CName)
        ensures
            r.hash == hash,
    {
        CName { hash }
    }

    /// The hash that identifies this name.
    pub fn to_raw(self) -> (r: u64)
        ensures
            r == self.hash,
    {
        self.hash
    }

    /// Whether this is the undefined name.
    pub fn is_undefined(&self) -> (r: bool)
        ensures
            r == (self.hash == 0),
    {
        self.hash == 0
    }
}

impl Default for CName {
    fn default() -> (r: CName)
        ensures
            r.hash == 0,
    {
        CName { hash: 0 }
    }
}

impl From<u64> for CName {
    fn from(hash: u64) -> (r: CName) {
        CName { hash }
    }
}

impl vstd::std_specs::convert::FromSpecImpl<u64> for CName {
    open spec fn obeys_from_spec() -> bool {
        true
    }

    open spec fn from_spec(hash: u64) -> CName {
        CName { hash }
    }
}

/// The names that have been interned, each with the text it was made from.
/// A name is recorded once: the first text that hashes to it keeps it.
pub struct CNamePool {
    entries: Vec<(CName, String)>,
}

/// The text recorded for `name` among `entries`, if any.
pub open spec fn text_of(entries: Seq<(CName, Seq<char>)>, name: CName) -> Option<Seq<char>> {
    if exists|i: int| 0 <= i < entries.len() && entries[i].0 == name {
        Some(entries[choose|i: int| 0 <= i < entries.len() && entries[i].0 == name].1)
    } else {
        None
    }
}

/// `entries` after interning `text` under `name`: unchanged when the name is
/// already recorded, else with the pair added.
pub open spec fn interned(entries: Seq<(CName, Seq<char>)>, name: CName, text: Seq<char>) -> Seq<
    (CName, Seq<char>),
> {
    if text_of(entries, name) is Some {
        entries
    } else {
        entries.push((name, text))
    }
}

impl CNamePool {
    pub closed spec fn spec_entries(&self) -> Seq<(CName, Seq<char>)> {
        self.entries@.map_values(|e: (CName, String)| (e.0, e.1@))
    }

    /// Every name is recorded once, with a text that hashes to it.
    pub open spec fn wf(&self) -> bool {
        let e = self.spec_entries();
        &&& forall|i: int, j: int|
            0 <= i < e.len() && 0 <= j < e.len() && i != j ==> e[i].0 != e[j].0
        &&& forall|i: int|
            0 <= i < e.len() ==> (#[trigger] e[i]).0.hash == spec_fnv1a64(encode_utf8(e[i].1))
    }

    /// A pool with no names.
    pub fn new() -> (r: CNamePool)
        ensures
            r.wf(),
            r.spec_entries().len() == 0,
    {
        CNamePool { entries: Vec::new() }
    }

    fn find(&self, name: CName) -> (r: Option<usize>)
        requires
            self.wf(),
        ensures
            r matches Some(i) ==> i < self.spec_entries().len() && self.spec_entries()[i as int].0
                == name && text_of(self.spec_entries(), name) == Some(
                self.spec_entries()[i as int].1,
            ),
            r is None ==> text_of(self.spec_entries(), name) is None,
    {
        let mut i: usize = 0;
        while i < self.entries.len()
            invariant
                self.wf(),
                i <= self.spec_entries().len(),
                self.spec_entries().len() == self.entries@.len(),
                forall|j: int| 0 <= j < i ==> self.spec_entries()[j].0 != name,
            decreases self.entries@.len() - i,
        {
            if self.entries[i].0 == name {
                proof {
                    let e = self.spec_entries();
                    assert(e[i as int].0 == name);
                    let k = choose|k: int| 0 <= k < e.len() && e[k].0 == name;
                    assert(e[k].0 == e[i as int].0);
                }
                return Some(i);
            }
            i = i + 1;
        }
        None
    }

    /// Interns `text`: its name, recorded with `text` unless the name was
    /// already recorded.
    pub fn add_cstr(&mut self, text: &str) -> (r: CName)
        requires
            old(self).wf(),
        ensures
            final(self).wf(),
            r.hash == spec_fnv1a64(text.spec_bytes()),
            final(self).spec_entries() == interned(old(self).spec_entries(), r, text@),
    {
        let name = CName::new(text);
        match self.find(name) {
            Some(_) => name,
            None => {
                let ghost before = self.spec_entries();
                self.entries.push((name, text.to_owned()));
                proof {
                    let e = self.spec_entries();
                    assert(e =~= before.push((name, text@)));
                    assert forall|i: int| 0 <= i < before.len() implies #[trigger] e[i].0 != name by {
                        if e[i].0 == name {
                            assert(before[i].0 == name);
                        }
                    }
                }
                name
            },
        }
    }

    /// The text recorded for `name`, if any.
    pub fn as_str(&self, name: CName) -> (r: Option<&str>)
        requires
            self.wf(),
        ensures
            r matches Some(s) ==> text_of(self.spec_entries(), name) == Some(s@),
            r is None ==> text_of(self.spec_entries(), name) is None,
    {
        match self.find(name) {
            Some(i) => Some(self.entries[i].1.as_str()),
            None => None,
        }
    }
}

impl CName {
    /// The text of this name, when `pool` recorded it.
    pub fn as_str<'a>(&self, pool: &'a CNamePool) -> (r: Option<&'a str>)
        requires
            pool.wf(),
        ensures
            r matches Some(s) ==> text_of(pool.spec_entries(), *self) == Some(s@),
            r is None ==> text_of(pool.spec_entries(), *self) is None,
    {
        pool.as_str(*self)
    }
}

} // verus!
