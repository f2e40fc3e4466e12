//! The hash tables of the translator, kept in `hashbrown` collections.

use crate::codegen::register::Register;
use vstd::prelude::*;

verus! {

/// The host register that a guest register lives in, and when it was last
/// asked for.
#[derive(Debug, Clone, Copy, PartialEq, Eq, Structural)]
pub struct HostRegister {
    pub register: Register,
    pub borrow_index: usize,
}

/// A `hashbrown::HashMap` from the code of a guest register to its host
/// register.
#[verifier::external_body]
pub struct BindingMap {
    inner: hashbrown::HashMap<u16, HostRegister>,
}

/// What a `BindingMap` holds.
pub uninterp spec fn binding_map(m: BindingMap) -> Map<u16, HostRegister>;

/// A `hashbrown::HashSet` of host register numbers.
#[verifier::external_body]
pub struct FreeSet {
    inner: hashbrown::HashSet<u8>,
}

/// What a `FreeSet` holds.
pub uninterp spec fn free_set(s: FreeSet) -> Set<u8>;

/// The map that holds nothing.
pub open spec fn no_bindings() -> Map<u16, HostRegister> {
    Map::empty()
}

/// The set that holds nothing.
pub open spec fn no_numbers() -> Set<u8> {
    Set::empty()
}

impl BindingMap {
    /// `hashbrown::HashMap::new`: a map that holds nothing.
    #[verifier::external_body]
    pub(crate) fn new() -> (out: BindingMap)
        ensures
            binding_map(out) == no_bindings(),
    {
        BindingMap { inner: hashbrown::HashMap::new() }
    }

    /// `hashbrown::HashMap::get`: the value under `key`, if the map has the
    /// key.
    #[verifier::external_body]
    pub(crate) fn get(&self, key: u16) -> (r: Option<HostRegister>)
        ensures
            r == if binding_map(*self).contains_key(key) {
                Some(binding_map(*self)[key])
            } else {
                None
            },
    {
        self.inner.get(&key).copied()
    }

    /// `hashbrown::HashMap::insert`: the map then holds `value` under `key`
    /// and is otherwise unchanged; the value that was there before is
    /// returned.
    #[verifier::external_body]
    pub(crate) fn insert(&mut self, key: u16, value: HostRegister) -> (r: Option<HostRegister>)
        ensures
            binding_map(*final(self)) == binding_map(*old(self)).insert(key, value),
            r == if binding_map(*old(self)).contains_key(key) {
                Some(binding_map(*old(self))[key])
            } else {
                None
            },
    {
        self.inner.insert(key, value)
    }

    /// `hashbrown::HashMap::remove`: the map then lacks `key` and is
    /// otherwise unchanged; the value that was there is returned.
    #[verifier::external_body]
    pub(crate) fn remove(&mut self, key: u16) -> (r: Option<HostRegister>)
        ensures
            binding_map(*final(self)) == binding_map(*old(self)).remove(key),
            r == if binding_map(*old(self)).contains_key(key) {
                Some(binding_map(*old(self))[key])
            } else {
                None
            },
    {
        self.inner.remove(&key)
    }

    /// `hashbrown::HashMap::is_empty`: whether the map holds nothing.
    #[verifier::external_body]
    pub(crate) fn is_empty(&self) -> (b: bool)
        ensures
            b <==> forall|k: u16| !binding_map(*self).contains_key(k),
    {
        self.inner.is_empty()
    }
}

impl FreeSet {
    /// `hashbrown::HashSet::new`: a set that holds nothing.
    #[verifier::external_body]
    pub(crate) fn new() -> (s: FreeSet)
        ensures
            free_set(s) == no_numbers(),
    {
        FreeSet { inner: hashbrown::HashSet::new() }
    }

    /// `hashbrown::HashSet::contains`: whether the set holds `value`.
    #[verifier::external_body]
    pub(crate) fn contains(&self, value: u8) -> (b: bool)
        ensures
            b == free_set(*self).contains(value),
    {
        self.inner.contains(&value)
    }

    /// `hashbrown::HashSet::insert`: the set then holds `value`; the result
    /// tells whether it is new.
    #[verifier::external_body]
    pub(crate) fn insert(&mut self, value: u8) -> (b: bool)
        ensures
            free_set(*final(self)) == free_set(*old(self)).insert(value),
            b == !free_set(*old(self)).contains(value),
    {
        self.inner.insert(value)
    }

    /// `hashbrown::HashSet::remove`: the set then lacks `value`; the result
    /// tells whether it was there.
    #[verifier::external_body]
    pub(crate) fn remove(&mut self, value: u8) -> (b: bool)
        ensures
            free_set(*final(self)) == free_set(*old(self)).remove(value),
            b == free_set(*old(self)).contains(value),
    {
        self.inner.remove(&value)
    }
}

/// Where a jump goes once it is resolved.
#[derive(Debug, Clone, Copy, PartialEq, Eq, Structural)]
pub struct JumpEntry {
    /// The host address to jump to.
    pub target_block: usize,
}

/// A `hashbrown::HashMap` from the physical address of a jump target to the
/// resolved host address, if the target is resolved.
#[verifier::external_body]
pub struct JumpMap {
    inner: hashbrown::HashMap<u64, Option<JumpEntry>>,
}

/// What a `JumpMap` holds.
pub uninterp spec fn jump_map(m: JumpMap) -> Map<u64, Option<JumpEntry>>;

/// The jump map that holds nothing.
pub open spec fn no_jumps() -> Map<u64, Option<JumpEntry>> {
    Map::empty()
}

impl JumpMap {
    /// `hashbrown::HashMap::new`: a map that holds nothing.
    #[verifier::external_body]
    pub(crate) fn new() -> (out: JumpMap)
        ensures
            jump_map(out) == no_jumps(),
    {
        JumpMap { inner: hashbrown::HashMap::new() }
    }

    /// `hashbrown::HashMap::get`: the value under `key`, if the map has the
    /// key.
    #[verifier::external_body]
    pub(crate) fn get(&self, key: u64) -> (r: Option<Option<JumpEntry>>)
        ensures
            r == if jump_map(*self).contains_key(key) {
                Some(jump_map(*self)[key])
            } else {
                None
            },
    {
        self.inner.get(&key).copied()
    }

    /// `hashbrown::HashMap::insert`: the map then holds `value` under `key`
    /// and is otherwise unchanged; the value that was there before is
    /// returned.
    #[verifier::external_body]
    pub(crate) fn insert(&mut self, key: u64, value: Option<JumpEntry>) -> (r: Option<
        Option<JumpEntry>,
    >)
        ensures
            jump_map(*final(self)) == jump_map(*old(self)).insert(key, value),
            r == if jump_map(*old(self)).contains_key(key) {
                Some(jump_map(*old(self))[key])
            } else {
                None
            },
    {
        self.inner.insert(key, value)
    }

    /// `hashbrown::HashMap::remove`: the map then lacks `key` and is
    /// otherwise unchanged; the value that was there is returned.
    #[verifier::external_body]
    pub(crate) fn remove(&mut self, key: u64) -> (r: Option<Option<JumpEntry>>)
        ensures
            jump_map(*final(self)) == jump_map(*old(self)).remove(key),
            r == if jump_map(*old(self)).contains_key(key) {
                Some(jump_map(*old(self))[key])
            } else {
                None
            },
    {
        self.inner.remove(&key)
    }

    /// `hashbrown::HashMap::keys`, collected: every key of the map once, in
    /// no particular order.
    #[verifier::external_body]
    pub(crate) fn keys(&self) -> (v: Vec<u64>)
        ensures
            v@.no_duplicates(),
            forall|k: u64| v@.contains(k) <==> jump_map(*self).contains_key(k),
    {
        self.inner.keys().copied().collect()
    }
}

} // verus!
