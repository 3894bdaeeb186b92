//! Descriptions of the types of the standard library and of the crates
//! that routes are written with.
use vstd::prelude::*;
use vstd::string::*;

use crate::types::builder::{
    law_operations_extend, lemma_extends_transitive, lemma_first_hash_is_recorded,
    lemma_hash_steps_only_hash,
    GlobalTypeRegistry, HasIndexed, RegistryView,
};
use crate::types::hashing::{hash_name, name_hash};
use crate::types::known_handle;
use crate::types::model::{Component, ComponentView, Type, TypeView};

pub mod dates;
pub mod json;
pub mod router;
pub mod standard;

verus! {

/// What asking for the hash of a type that has only a name answers, and
/// the registry after it.
///
/// The first request marks the key, computes the hash of the name and
/// records it. A later request answers with the hash that is recorded, or
/// with zero while none is, and changes nothing.
pub open spec fn simple_hash(r: RegistryView, key: u64, name: Seq<char>) -> (RegistryView, u64) {
    match r.start_hash(key).1 {
        Some(known) => (r, known),
        None => (r.start_hash(key).0.finalize_hash(key, name_hash(name)), name_hash(name)),
    }
}

/// The handle of a type that has a name, a shape and no fields of its
/// own, and the registry after the handle has been asked for.
///
/// A key that is finished keeps its handle. One that was started but not
/// finished is finished as `any`. A key that is new is finished with a
/// component of the given name and shape, whose hash is that of [`simple_hash`].
pub open spec fn simple_definition(r: RegistryView, key: u64, name: Seq<char>, typ: TypeView) -> (
    RegistryView,
    HasIndexed,
) {
    if r.has(key) {
        r.finalize(key, ComponentView::any())
    } else {
        simple_hash(r, key, name).0.finalize(
            key,
            ComponentView {
                name,
                generics: Seq::empty(),
                typ,
                hash: simple_hash(r, key, name).1,
            },
        )
    }
}

/// Describes a type that has a name and a shape and no fields of its own:
/// see [`simple_definition`].
pub fn boilerplate_simple_definition(
    type_id: u64,
    name: String,
    typ: Type,
    registry: &mut GlobalTypeRegistry,
) -> (handle: HasIndexed)
    requires
        old(registry).wf(),
    ensures
        final(registry)@ == simple_definition(old(registry)@, type_id, name@, typ@).0,
        handle == simple_definition(old(registry)@, type_id, name@, typ@).1,
        final(registry).wf(),
        final(registry)@.extends(old(registry)@),
        final(registry)@.identity.contains_key(type_id),
        handle == final(registry)@.handle_of(type_id),
        known_handle(final(registry)@, handle),
{
    if registry.has(type_id) {
        let handle = registry.finalize(type_id, Component::any());
        proof {
            law_operations_extend(old(registry)@, type_id, 0, ComponentView::any());
        }
        return handle;
    }
    let hash = boilerplate_simple_hash(type_id, name.as_str(), registry);
    let ghost hashed = registry@;
    let component = Component { name, generics: String::new(), typ, hash };
    let handle = registry.finalize(type_id, component);
    proof {
        law_operations_extend(hashed, type_id, 0, component@);
        lemma_extends_transitive(old(registry)@, hashed, registry@);
    }
    handle
}

/// The structural hash of a type that has a name and no fields of its
/// own: see [`simple_hash`].
pub fn boilerplate_simple_hash(type_id: u64, name: &str, registry: &mut GlobalTypeRegistry) -> (hash:
    u64)
    requires
        old(registry).wf(),
    ensures
        final(registry)@ == simple_hash(old(registry)@, type_id, name@).0,
        hash == simple_hash(old(registry)@, type_id, name@).1,
        final(registry).wf(),
        final(registry)@.extends(old(registry)@),
        final(registry)@.only_hashed(old(registry)@),
        old(registry)@.start_hash(type_id).1.is_none() ==> final(registry)@.hashing.contains(type_id)
            && final(registry)@.hashes.contains_key(type_id) && (!old(
            registry,
        )@.hashes.contains_key(type_id) ==> final(registry)@.hashes[type_id] == hash),
{
    match registry.start_hash(type_id) {
        Some(known) => {
            return known;
        },
        None => {},
    }
    let ghost started = registry@;
    let hash = hash_name(name);
    registry.finalize_hash(type_id, hash);
    proof {
        law_operations_extend(old(registry)@, type_id, hash, ComponentView::any());
        law_operations_extend(started, type_id, hash, ComponentView::any());
        lemma_extends_transitive(old(registry)@, started, registry@);
        lemma_first_hash_is_recorded(old(registry)@, started, type_id, hash);
        lemma_hash_steps_only_hash(old(registry)@, type_id, hash);
        assert(registry@.only_hashed(old(registry)@));
    }
    hash
}

} // verus!
