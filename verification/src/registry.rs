//! The two-way table between wire kind ids and component types.

use std::collections::HashMap;
use vstd::prelude::*;

verus! {

broadcast use vstd::std_specs::hash::group_hash_axioms;

/// The identity of a component type: an integer that stands for the type.
#[derive(Clone, Copy, Debug, PartialEq, Eq, Hash, Structural)]
pub struct TypeKey(pub u64);

/// Why a registration was refused.
#[derive(Clone, Copy, Debug, PartialEq, Eq, Structural)]
pub enum RegistryError {
    /// The kind id already names a type.
    DuplicateKind,
    /// The type already has a kind id.
    DuplicateType,
}

/// Kind ids and component types, each naming exactly one of the other.
pub struct Registry {
    types: HashMap<u16, TypeKey>,
    kinds: HashMap<u64, u16>,
}

impl View for Registry {
    type V = Map<u16, TypeKey>;

    /// The registered pairs, keyed by kind id.
    closed spec fn view(&self) -> Map<u16, TypeKey> {
        self.types@
    }
}

impl Registry {
    /// The registered pairs, keyed by the integer of the type.
    pub closed spec fn by_type(&self) -> Map<u64, u16> {
        self.kinds@
    }

    /// Both directions hold the same pairs.
    pub closed spec fn wf(&self) -> bool {
        &&& forall|k: u16| #[trigger]
            self.types@.contains_key(k) ==> self.kinds@.contains_key(self.types@[k].0)
                && self.kinds@[self.types@[k].0] == k
        &&& forall|t: u64| #[trigger]
            self.kinds@.contains_key(t) ==> self.types@.contains_key(self.kinds@[t])
                && self.types@[self.kinds@[t]] == TypeKey(t)
    }

    /// The type that a kind id names, if it is registered.
    pub open spec fn type_of(&self, kind: u16) -> Option<TypeKey> {
        if self@.contains_key(kind) {
            Some(self@[kind])
        } else {
            None
        }
    }

    /// The kind id of a type, if it is registered.
    pub open spec fn kind_of(&self, ty: TypeKey) -> Option<u16> {
        if self.by_type().contains_key(ty.0) {
            Some(self.by_type()[ty.0])
        } else {
            None
        }
    }

    /// What registering `kind` for `ty` answers.
    pub open spec fn register_result(&self, kind: u16, ty: TypeKey) -> Result<(), RegistryError> {
        if self.type_of(kind) is Some {
            Err(RegistryError::DuplicateKind)
        } else if self.kind_of(ty) is Some {
            Err(RegistryError::DuplicateType)
        } else {
            Ok(())
        }
    }

    /// A registry with no entries.
    pub fn new() -> (r: Registry)
        ensures
            r.wf(),
            r@ == Map::<u16, TypeKey>::empty(),
            r.by_type() == Map::<u64, u16>::empty(),
    {
        Registry { types: HashMap::new(), kinds: HashMap::new() }
    }

    /// Registers `kind` as the wire id of `ty`. A kind id or a type that is
    /// already registered is refused and the registry stays as it was.
    pub fn register(&mut self, kind: u16, ty: TypeKey) -> (r: Result<(), RegistryError>)
        requires
            old(self).wf(),
        ensures
            final(self).wf(),
            r == old(self).register_result(kind, ty),
            r is Ok ==> final(self)@ == old(self)@.insert(kind, ty)
                && final(self).by_type() == old(self).by_type().insert(ty.0, kind),
            r is Err ==> final(self)@ == old(self)@ && final(self).by_type() == old(self).by_type(),
    {
        if self.types.contains_key(&kind) {
            return Err(RegistryError::DuplicateKind);
        }
        if self.kinds.contains_key(&ty.0) {
            return Err(RegistryError::DuplicateType);
        }
        self.types.insert(kind, ty);
        self.kinds.insert(ty.0, kind);
        Ok(())
    }

    /// The type registered for a kind id.
    pub fn resolve_type(&self, kind: u16) -> (r: Option<TypeKey>)
        requires
            self.wf(),
        ensures
            r == self.type_of(kind),
    {
        match self.types.get(&kind) {
            Some(ty) => Some(*ty),
            None => None,
        }
    }

    /// The kind id registered for a type.
    pub fn resolve_kind(&self, ty: TypeKey) -> (r: Option<u16>)
        requires
            self.wf(),
        ensures
            r == self.kind_of(ty),
    {
        match self.kinds.get(&ty.0) {
            Some(kind) => Some(*kind),
            None => None,
        }
    }

    /// The number of registered pairs.
    pub fn len(&self) -> (n: usize)
        ensures
            n == self@.len(),
    {
        self.types.len()
    }
}

/// A kind id names a type exactly when that type has this kind id.
pub proof fn lemma_registry_is_a_bijection(r: Registry, kind: u16, ty: TypeKey)
    requires
        r.wf(),
    ensures
        r.type_of(kind) == Some(ty) <==> r.kind_of(ty) == Some(kind),
{
}

/// Resolving the kind id of a registered type leads back to the type, and
/// resolving the type of a registered kind id leads back to the kind id.
pub proof fn lemma_registry_round_trips(r: Registry, kind: u16, ty: TypeKey)
    requires
        r.wf(),
    ensures
        r.kind_of(ty) is Some ==> r.type_of(r.kind_of(ty).unwrap()) == Some(ty),
        r.type_of(kind) is Some ==> r.kind_of(r.type_of(kind).unwrap()) == Some(kind),
{
}

/// No two kind ids name one type, and no type has two kind ids.
pub proof fn lemma_registry_is_one_to_one(r: Registry, k1: u16, k2: u16)
    requires
        r.wf(),
        r.type_of(k1) is Some,
        r.type_of(k1) == r.type_of(k2),
    ensures
        k1 == k2,
{
}

} // verus!
