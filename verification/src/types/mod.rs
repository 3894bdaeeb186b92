//! The component model, the registry that holds it and the builder that
//! turns it into declaration files; and the interface through which a type
//! describes itself to the registry.
use std::marker::PhantomData;
use vstd::prelude::*;
use vstd::string::*;

use crate::types::builder::{GlobalTypeRegistry, HasIndexed, RegistryView};
use crate::types::hashing::{hash_name, name_hash};
use crate::types::model::{Component, ComponentView};

pub mod builder;
pub mod describe;
pub mod hashing;
pub mod impls;
pub mod model;

verus! {

/// Whether a handle is one that the registry has given out: the index of a
/// finished component, or the key of a type whose description has been started.
pub open spec fn known_handle(registry: RegistryView, handle: HasIndexed) -> bool {
    match handle {
        HasIndexed::Build(i) => i < registry.components.len(),
        HasIndexed::Prebuild(key) => registry.pending.contains(key),
    }
}

/// A host type that can describe itself: its identity, its names, its
/// shape and its structural hash.
///
/// The key and the two names are also given as specifications, which the
/// types described in this crate define. A type that is described
/// elsewhere leaves them as they are: nothing is known of them, and what
/// is proved of such a type is what holds whatever its key and names are.
pub trait TypescriptType {
    /// The key under which the registry knows the type.
    open spec fn key() -> u64 {
        arbitrary()
    }

    /// The name of the type in the host program.
    open spec fn spec_name() -> Seq<char> {
        arbitrary()
    }

    /// The name of the type in declarations.
    open spec fn spec_ts_name() -> Seq<char> {
        arbitrary()
    }

    /// The registry after the handle of the type has been asked for in the
    /// registry `r`, and the handle.
    open spec fn spec_definition(r: RegistryView) -> (RegistryView, HasIndexed) {
        arbitrary()
    }

    /// The registry after the hash of the type has been asked for in the
    /// registry `r`, and the hash.
    open spec fn spec_hash(r: RegistryView) -> (RegistryView, u64) {
        arbitrary()
    }

    /// The key under which the registry knows the type.
    fn type_key() -> (key: u64)
        ensures
            key == Self::key(),
    ;

    /// The handle of the type in the registry. A type that is unknown is
    /// described and finished first; one whose description is in progress
    /// is spoken of by its key.
    fn get_definition(registry: &mut GlobalTypeRegistry) -> (handle: HasIndexed)
        requires
            old(registry).wf(),
        ensures
            final(registry)@ == Self::spec_definition(old(registry)@).0,
            handle == Self::spec_definition(old(registry)@).1,
            final(registry).wf(),
            final(registry)@.extends(old(registry)@),
            final(registry)@.has(Self::key()),
            handle == final(registry)@.handle_of(Self::key()),
            known_handle(final(registry)@, handle),
    ;

    /// The structural hash of the type. Where the hash has been asked for
    /// before, the answer is the hash that is recorded, or zero while it is
    /// still being computed, and the registry stays as it is; else the
    /// hash is computed and recorded, unless the key has a hash already.
    /// Asking for a hash registers no component and gives no hash to a key
    /// whose hash is being computed higher up.
    fn hash(registry: &mut GlobalTypeRegistry) -> (hash: u64)
        requires
            old(registry).wf(),
        ensures
            final(registry)@ == Self::spec_hash(old(registry)@).0,
            hash == Self::spec_hash(old(registry)@).1,
            final(registry).wf(),
            final(registry)@.extends(old(registry)@),
            final(registry)@.only_hashed(old(registry)@),
            match old(registry)@.start_hash(Self::key()).1 {
                Some(known) => hash == known && final(registry)@ == old(registry)@,
                None => final(registry)@.hashing.contains(Self::key())
                    && final(registry)@.hashes.contains_key(Self::key()) && (!old(
                    registry,
                )@.hashes.contains_key(Self::key()) ==> final(registry)@.hashes[Self::key()]
                    == hash),
            },
    ;

    /// The name of the type in the host program.
    fn name() -> (name: String)
        ensures
            name@ == Self::spec_name(),
    ;

    /// The name of the type in declarations.
    fn ts_name() -> (name: String)
        ensures
            name@ == Self::spec_ts_name(),
    ;
}

/// What stands for a type where its description is asked for: a holder of
/// the type, strict or not.
pub trait GetDefinition<T> {
    /// The handle of the type in the registry.
    fn get_definition(self, registry: &mut GlobalTypeRegistry) -> (handle: HasIndexed)
        requires
            old(registry).wf(),
        ensures
            final(registry).wf(),
            final(registry)@.extends(old(registry)@),
            known_handle(final(registry)@, handle),
    ;

    /// The structural hash of the type.
    fn hash(self, registry: &mut GlobalTypeRegistry) -> (hash: u64)
        requires
            old(registry).wf(),
        ensures
            final(registry).wf(),
            final(registry)@.extends(old(registry)@),
    ;

    /// The name of the type in the host program.
    fn name(self) -> String;

    /// The name of the type in declarations.
    fn ts_name(self) -> String;
}

/// The key of the type that stands for every type without a description.
pub open spec fn any_key() -> u64 {
    name_hash("AnyType"@)
}

/// The registry after the type without a description has been asked for,
/// and the handle of that type: the key is started unless it is known, and
/// finished as `any` unless it is finished.
pub open spec fn any_defined(r: RegistryView) -> (RegistryView, HasIndexed) {
    if r.has(any_key()) {
        r.finalize(any_key(), ComponentView::any())
    } else {
        r.start(any_key()).finalize(any_key(), ComponentView::any())
    }
}

/// Stands for a type that may have no description: such a type is `any`.
pub struct TypeHolder<T> {
    _phantom: PhantomData<T>,
}

/// Stands for a type that has a description.
pub struct TypeHolderStrict<T> {
    _phantom: PhantomData<T>,
}

impl<T> TypeHolder<T> {
    /// A holder of the type.
    pub fn new() -> Self {
        TypeHolder { _phantom: PhantomData }
    }
}

impl<T> TypeHolderStrict<T> {
    /// A holder of the type.
    pub fn new() -> Self {
        TypeHolderStrict { _phantom: PhantomData }
    }
}

impl<T> GetDefinition<T> for &TypeHolder<T> {
    fn get_definition(self, registry: &mut GlobalTypeRegistry) -> (handle: HasIndexed)
        ensures
            final(registry)@ == any_defined(old(registry)@).0,
            handle == any_defined(old(registry)@).1,
            handle == final(registry)@.handle_of(any_key()),
            final(registry)@.identity.contains_key(any_key()),
    {
        let id = hash_name("AnyType");
        if !registry.has(id) {
            registry.start(id);
        }
        proof {
            crate::types::builder::law_operations_extend(old(registry)@, id, 0, ComponentView::any());
        }
        let ghost started = registry@;
        let handle = registry.finalize(id, Component::any());
        proof {
            crate::types::builder::law_operations_extend(started, id, 0, ComponentView::any());
            crate::types::builder::lemma_extends_transitive(old(registry)@, started, registry@);
        }
        handle
    }

    fn name(self) -> (name: String)
        ensures
            name@ == "any"@,
    {
        String::from_str("any")
    }

    fn ts_name(self) -> (name: String)
        ensures
            name@ == "any"@,
    {
        String::from_str("any")
    }

    fn hash(self, registry: &mut GlobalTypeRegistry) -> (hash: u64)
        ensures
            hash == name_hash("any"@),
            final(registry)@ == old(registry)@,
    {
        Component::any().hash
    }
}

impl<T: TypescriptType> GetDefinition<T> for &TypeHolderStrict<T> {
    fn get_definition(self, registry: &mut GlobalTypeRegistry) -> (handle: HasIndexed)
        ensures
            final(registry)@ == T::spec_definition(old(registry)@).0,
            handle == T::spec_definition(old(registry)@).1,
            handle == final(registry)@.handle_of(T::key()),
            final(registry)@.has(T::key()),
    {
        T::get_definition(registry)
    }

    fn name(self) -> (name: String)
        ensures
            name@ == T::spec_name(),
    {
        T::name()
    }

    fn hash(self, registry: &mut GlobalTypeRegistry) -> (hash: u64)
        ensures
            final(registry)@ == T::spec_hash(old(registry)@).0,
            hash == T::spec_hash(old(registry)@).1,
            final(registry)@.only_hashed(old(registry)@),
            match old(registry)@.start_hash(T::key()).1 {
                Some(known) => hash == known && final(registry)@ == old(registry)@,
                None => final(registry)@.hashing.contains(T::key())
                    && final(registry)@.hashes.contains_key(T::key()),
            },
    {
        T::hash(registry)
    }

    fn ts_name(self) -> (name: String)
        ensures
            name@ == T::spec_ts_name(),
    {
        T::ts_name()
    }
}

impl<T: TypescriptType> GetDefinition<T> for &mut &TypeHolder<T> {
    fn get_definition(self, registry: &mut GlobalTypeRegistry) -> (handle: HasIndexed)
        ensures
            final(registry)@ == T::spec_definition(old(registry)@).0,
            handle == T::spec_definition(old(registry)@).1,
            handle == final(registry)@.handle_of(T::key()),
            final(registry)@.has(T::key()),
    {
        T::get_definition(registry)
    }

    fn name(self) -> (name: String)
        ensures
            name@ == T::spec_name(),
    {
        T::name()
    }

    fn hash(self, registry: &mut GlobalTypeRegistry) -> (hash: u64)
        ensures
            final(registry)@ == T::spec_hash(old(registry)@).0,
            hash == T::spec_hash(old(registry)@).1,
            final(registry)@.only_hashed(old(registry)@),
            match old(registry)@.start_hash(T::key()).1 {
                Some(known) => hash == known && final(registry)@ == old(registry)@,
                None => final(registry)@.hashing.contains(T::key())
                    && final(registry)@.hashes.contains_key(T::key()),
            },
    {
        T::hash(registry)
    }

    fn ts_name(self) -> (name: String)
        ensures
            name@ == T::spec_ts_name(),
    {
        T::ts_name()
    }
}

} // verus!
