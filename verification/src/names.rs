//! Looking up the identifiers that the namer chose.
use vstd::prelude::*;
use crate::ir::{FunctionKind, NameKey, NameTable};

verus! {

/// The name that the first entry for `key` holds.
pub open spec fn lookup_entries(entries: Seq<(NameKey, String)>, key: NameKey) -> Option<Seq<char>>
    decreases entries.len(),
{
    if entries.len() == 0 {
        None
    } else if entries[0].0 == key {
        Some(entries[0].1@)
    } else {
        lookup_entries(entries.drop_first(), key)
    }
}

impl NameTable {
    pub open spec fn lookup(self, key: NameKey) -> Option<Seq<char>> {
        lookup_entries(self.entries@, key)
    }

    pub open spec fn has(self, key: NameKey) -> bool {
        self.lookup(key) is Some
    }

    /// The name for `key`; empty where the table has none.
    pub open spec fn text(self, key: NameKey) -> Seq<char> {
        match self.lookup(key) {
            Some(name) => name,
            None => Seq::empty(),
        }
    }

    /// The identifier for `key`; `None` where the table has none.
    pub fn get(&self, key: NameKey) -> (res: Option<&str>)
        ensures
            match res {
                Some(name) => self.lookup(key) == Some(name@),
                None => self.lookup(key) is None,
            },
    {
        let mut i: usize = 0;
        assert(self.entries@.skip(0) =~= self.entries@);
        while i < self.entries.len()
            invariant
                i <= self.entries@.len(),
                lookup_entries(self.entries@, key) == lookup_entries(self.entries@.skip(i as int), key),
            decreases self.entries@.len() - i,
        {
            assert(self.entries@.skip(i as int).drop_first() =~= self.entries@.skip(i + 1));
            if self.entries[i].0 == key {
                return Some(self.entries[i].1.as_str());
            }
            i = i + 1;
        }
        None
    }
}

/// The key of local variable `local` of the function being written.
pub open spec fn local_key(kind: FunctionKind, local: usize) -> NameKey {
    match kind {
        FunctionKind::Function(handle) => NameKey::FunctionLocal(handle, local),
        FunctionKind::EntryPoint(index) => NameKey::EntryPointLocal(index, local),
    }
}

/// The key of argument `index` of the function being written.
pub open spec fn argument_key(kind: FunctionKind, index: u32) -> NameKey {
    match kind {
        FunctionKind::Function(handle) => NameKey::FunctionArgument(handle, index),
        FunctionKind::EntryPoint(ep) => NameKey::EntryPointArgument(ep, index),
    }
}

} // verus!
